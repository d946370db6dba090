//! The starting offers of new players: the offer catalog, the summary and
//! financial terms of each offer, and its starting refit.

use vstd::prelude::*;
use std::collections::HashSet;
use crate::catalog_text::{
    find_char, next_char,
    chars_of, find_pattern, header_tables, integer_in, lemma_next_pattern, next_pattern,
    number_from, number_value, parse_integer, range_equals, tables_after, text_from, text_in,
    text_value,
};
use crate::creation::{crew_roles, crew_roles_spec, role_views};
use crate::ship_status::{
    runtime_index, runtime_position, runtime_sorted, status_record_ok, title_case, title_case_spec,
    RuntimeComponent, RuntimeShip,
};
use crate::arith::{sat_add_spec, sat_mul, sat_mul_spec};
use crate::careers::NAVAL_BASE_MONTHLY_SALARY;
use crate::wire::{
    Career, StartingOfferTerms, StartingRefitGroup, StartingRefitOption, StartingShipOfferSummary,
    StartingShipOptions, StartingTitleKind,
};

verus! {

/// One offer of the starting-offer catalog.
#[derive(Clone, Debug, PartialEq, Eq)]
pub struct StartingOffer {
    pub id: u32,
    pub path: u8,
    pub career: Career,
    pub package: String,
    pub ship: u32,
    pub rationale: String,
}

/// The sections of the catalog: what follows each `[[offer]]` header, up
/// to the next one or the end.
pub open spec fn offer_sections(s: Seq<char>) -> Seq<(int, int)> {
    header_tables(s, "[[offer]]"@)
}

fn section_list(s: &Vec<char>, header: &Vec<char>) -> (r: Vec<(usize, usize)>)
    requires
        header@.len() > 0,
    ensures
        r@.len() == header_tables(s@, header@).len(),
        forall|k: int|
            0 <= k < r@.len() ==> (#[trigger] r@[k]).0 == header_tables(s@, header@)[k].0 && r@[k].1
                == header_tables(s@, header@)[k].1 && r@[k].0 <= r@[k].1 <= s@.len(),
{
    let n = s.len();
    let p = header.len();
    let mut out: Vec<(usize, usize)> = Vec::new();
    let first = find_pattern(s, header, 0);
    proof {
        lemma_next_pattern(s@, header@, 0);
    }
    if first == n {
        return out;
    }
    let ghost tables = header_tables(s@, header@);
    let mut i = first + p;
    let mut done = false;
    while !done
        invariant
            n == s@.len(),
            p == header@.len(),
            p > 0,
            tables == header_tables(s@, header@),
            i <= n,
            out@.len() <= tables.len(),
            !done ==> tables.skip(out@.len() as int) == tables_after(s@, header@, i as int),
            done ==> out@.len() == tables.len(),
            forall|k: int|
                0 <= k < out@.len() ==> (#[trigger] out@[k]).0 == tables[k].0 && out@[k].1 == tables[k].1
                    && out@[k].0 <= out@[k].1 <= s@.len(),
        decreases (if done {
            0int
        } else {
            n + 1 - i
        }),
    {
        let m = find_pattern(s, header, i);
        proof {
            lemma_next_pattern(s@, header@, i as int);
        }
        let end = if m < n {
            m
        } else {
            n
        };
        let ghost rest = tables_after(s@, header@, i as int);
        assert(rest.len() >= 1 && rest[0] == (i as int, end as int));
        assert(tables.skip(out@.len() as int)[0] == tables[out@.len() as int]);
        let ghost before = out@;
        out.push((i, end));
        assert forall|k: int| 0 <= k < out@.len() implies (#[trigger] out@[k]).0 == tables[k].0 && out@[k].1
            == tables[k].1 && out@[k].0 <= out@[k].1 <= s@.len() by {
            if k < before.len() {
                assert(out@[k] == before[k]);
            }
        }
        if m < n {
            assert(rest =~= seq![(i as int, m as int)] + tables_after(s@, header@, (m + p) as int));
            assert(tables.skip(before.len() as int + 1) =~= tables.skip(before.len() as int).skip(1));
            i = m + p;
        } else {
            done = true;
        }
    }
    out
}

/// The text of the first line of the section assigning to `key`.
pub open spec fn section_text(s: Seq<char>, t: (int, int), key: Seq<char>) -> Option<Seq<char>> {
    match text_from(s, key, t.0, t.1) {
        Some(v) => Some(s.subrange(v.0, v.1)),
        None => None,
    }
}

/// The career an offer names.
pub open spec fn offer_career(s: Seq<char>, t: (int, int)) -> Option<Career> {
    match section_text(s, t, "career"@) {
        Some(c) => if c == "trader"@ {
            Some(Career::Trader)
        } else if c == "privateer"@ {
            Some(Career::Privateer)
        } else if c == "navy"@ {
            Some(Career::Navy)
        } else {
            None
        },
        None => None,
    }
}

/// The ship an offer names by its tag `ship-N`.
pub open spec fn offer_ship(s: Seq<char>, t: (int, int)) -> Option<int> {
    match section_text(s, t, "ship_tag"@) {
        Some(tag) => if tag.len() >= 5 && tag.take(5) == "ship-"@ {
            parse_integer(tag.skip(5), 0, u32::MAX as int)
        } else {
            None
        },
        None => None,
    }
}

/// A section that states a whole offer: a known career, numeric offer and
/// path identities, a package kind, a ship tag and a rationale.
pub open spec fn offer_section_ok(s: Seq<char>, t: (int, int)) -> bool {
    &&& offer_career(s, t) is Some
    &&& number_from(s, "offer_id"@, t.0, t.1, 0, u64::MAX as int) is Some
    &&& number_from(s, "home_path_id"@, t.0, t.1, 0, u64::MAX as int) is Some
    &&& section_text(s, t, "package_kind"@) is Some
    &&& offer_ship(s, t) is Some
    &&& section_text(s, t, "selection_rationale"@) is Some
}

/// Every section of the catalog states a whole offer.
pub open spec fn offers_well_formed(s: Seq<char>) -> bool {
    forall|k: int| 0 <= k < offer_sections(s).len() ==> offer_section_ok(s, #[trigger] offer_sections(s)[k])
}

/// An offer as plain values: identity, path, career, package, ship and
/// rationale.
pub type OfferView = (u32, u8, Career, Seq<char>, u32, Seq<char>);

pub open spec fn offer_view(o: StartingOffer) -> OfferView {
    (o.id, o.path, o.career, o.package@, o.ship, o.rationale@)
}

pub open spec fn offer_views(offers: Seq<StartingOffer>) -> Seq<OfferView> {
    offers.map_values(|o: StartingOffer| offer_view(o))
}

/// The offer a section states: the identities truncated to their widths,
/// the package kind as a title.
pub open spec fn section_offer(s: Seq<char>, t: (int, int)) -> OfferView {
    (
        number_from(s, "offer_id"@, t.0, t.1, 0, u64::MAX as int)->0 as u32,
        number_from(s, "home_path_id"@, t.0, t.1, 0, u64::MAX as int)->0 as u8,
        offer_career(s, t)->0,
        title_case_spec(section_text(s, t, "package_kind"@)->0),
        offer_ship(s, t)->0 as u32,
        section_text(s, t, "selection_rationale"@)->0,
    )
}

/// The offers of a well-formed catalog, in catalog order.
pub open spec fn offers_spec(s: Seq<char>) -> Seq<OfferView> {
    offer_sections(s).map_values(|t: (int, int)| section_offer(s, t))
}

fn read_offer(text: &str, s: &Vec<char>, a: usize, b: usize) -> (r: StartingOffer)
    requires
        s@ == text@,
        a <= b <= s@.len(),
        offer_section_ok(s@, (a as int, b as int)),
    ensures
        offer_view(r) == section_offer(s@, (a as int, b as int)),
{
    proof {
        reveal_strlit("career");
        reveal_strlit("trader");
        reveal_strlit("privateer");
        reveal_strlit("navy");
        reveal_strlit("ship_tag");
        reveal_strlit("ship-");
    }
    let career_at = text_value(s, &chars_of("career"), a, b).unwrap();
    let career = if range_equals(s, career_at.0, career_at.1, &chars_of("trader")) {
        Career::Trader
    } else if range_equals(s, career_at.0, career_at.1, &chars_of("privateer")) {
        Career::Privateer
    } else {
        Career::Navy
    };
    let id = number_value(s, &chars_of("offer_id"), a, b, 0, 0xffff_ffff_ffff_ffffi128).unwrap();
    let path = number_value(s, &chars_of("home_path_id"), a, b, 0, 0xffff_ffff_ffff_ffffi128).unwrap();
    let package_at = text_value(s, &chars_of("package_kind"), a, b).unwrap();
    let kind = text_in(text, s, package_at.0, package_at.1);
    let package = title_case(kind.as_str());
    let tag = text_value(s, &chars_of("ship_tag"), a, b).unwrap();
    proof {
        assert(s@.subrange(tag.0 as int, tag.1 as int).take(5) =~= s@.subrange(tag.0 as int, tag.0 + 5));
        assert(s@.subrange(tag.0 as int, tag.1 as int).skip(5) =~= s@.subrange(tag.0 + 5, tag.1 as int));
    }
    let ship = integer_in(s, tag.0 + 5, tag.1, 0, 0xffff_ffffi128).unwrap();
    let rationale_at = text_value(s, &chars_of("selection_rationale"), a, b).unwrap();
    let rationale = text_in(text, s, rationale_at.0, rationale_at.1);
    StartingOffer {
        id: id as u64 as u32,
        path: path as u64 as u8,
        career,
        package,
        ship: ship as u32,
        rationale,
    }
}

/// The offers of the starting-offer catalog, in catalog order.
pub fn starting_offers(text: &str) -> (r: Vec<StartingOffer>)
    requires
        offers_well_formed(text@),
    ensures
        offer_views(r@) == offers_spec(text@),
{
    let s = chars_of(text);
    let header = chars_of("[[offer]]");
    proof {
        reveal_strlit("[[offer]]");
    }
    let sections = section_list(&s, &header);
    let ghost all = offer_sections(s@);
    let mut out: Vec<StartingOffer> = Vec::new();
    let mut k: usize = 0;
    while k < sections.len()
        invariant
            s@ == text@,
            all == offer_sections(s@),
            offers_well_formed(s@),
            sections@.len() == all.len(),
            forall|j: int|
                0 <= j < sections@.len() ==> (#[trigger] sections@[j]).0 == all[j].0 && sections@[j].1
                    == all[j].1 && sections@[j].0 <= sections@[j].1 <= s@.len(),
            k <= sections@.len(),
            offer_views(out@) == all.take(k as int).map_values(|t: (int, int)| section_offer(s@, t)),
        decreases sections@.len() - k,
    {
        let (a, b) = sections[k];
        assert(all[k as int] == (a as int, b as int));
        assert(offer_section_ok(s@, all[k as int]));
        let ghost before = out@;
        let offer = read_offer(text, &s, a, b);
        out.push(offer);
        assert(offer_views(out@) =~= offer_views(before).push(offer_view(offer)));
        assert(all.take(k + 1).map_values(|t: (int, int)| section_offer(s@, t)) =~= all.take(k as int).map_values(
            |t: (int, int)| section_offer(s@, t),
        ).push(section_offer(s@, all[k as int])));
        k = k + 1;
    }
    assert(all.take(sections@.len() as int) =~= all);
    out
}

// ---------------------------------------------------------------------------
// The catalog behind the offers.

/// The catalog record of a ship class.
#[derive(Clone, Debug, PartialEq, Eq)]
pub struct ShipRecord {
    pub catalog_id: u32,
    pub source: String,
}

/// What the starting offers are read from: the offers, the ships' records
/// and runtime figures, and their fitted components.
#[derive(Clone, Debug, PartialEq, Eq)]
pub struct StarterCatalog {
    pub offers: Vec<StartingOffer>,
    pub ships: Vec<ShipRecord>,
    pub runtime: Vec<RuntimeShip>,
    pub components: Vec<RuntimeComponent>,
}

/// The ship records are listed by increasing catalog identity.
pub open spec fn ships_sorted(ships: Seq<ShipRecord>) -> bool {
    forall|i: int, j: int| 0 <= i < j < ships.len() ==> (#[trigger] ships[i]).catalog_id < (
    #[trigger] ships[j]).catalog_id
}

pub open spec fn ship_index(ships: Seq<ShipRecord>, catalog_id: u32) -> Option<int> {
    if exists|i: int| 0 <= i < ships.len() && (#[trigger] ships[i]).catalog_id == catalog_id {
        Some(choose|i: int| 0 <= i < ships.len() && (#[trigger] ships[i]).catalog_id == catalog_id)
    } else {
        None
    }
}

/// The record of a ship class, if the catalog has one.
pub open spec fn ship_source_of(catalog: StarterCatalog, catalog_id: u32) -> Option<Seq<char>> {
    match ship_index(catalog.ships@, catalog_id) {
        Some(i) => Some(catalog.ships@[i].source@),
        None => None,
    }
}

fn ship_position(ships: &Vec<ShipRecord>, catalog_id: u32) -> (r: Option<usize>)
    requires
        ships_sorted(ships@),
    ensures
        match ship_index(ships@, catalog_id) {
            Some(i) => r matches Some(p) && p as int == i && i < ships@.len(),
            None => r is None,
        },
{
    let mut index: usize = 0;
    while index < ships.len() && ships[index].catalog_id != catalog_id
        invariant
            index <= ships@.len(),
            forall|j: int| 0 <= j < index ==> (#[trigger] ships@[j]).catalog_id != catalog_id,
        decreases ships@.len() - index,
    {
        index = index + 1;
    }
    if index == ships.len() {
        return None;
    }
    proof {
        let c = choose|i: int| 0 <= i < ships@.len() && (#[trigger] ships@[i]).catalog_id == catalog_id;
        assert(ships@[index as int].catalog_id == catalog_id);
        if c != index {
            if c < index {
                assert(ships@[c].catalog_id != catalog_id);
            } else {
                assert(ships@[index as int].catalog_id < ships@[c].catalog_id);
            }
        }
    }
    Some(index)
}

/// The text that the first line of the whole record assigning to `key`
/// holds.
pub open spec fn record_text(s: Seq<char>, key: Seq<char>) -> Option<Seq<char>> {
    section_text(s, (0, s.len() as int), key)
}

/// The number that the first line of the whole record assigning a number
/// to `key` holds.
pub open spec fn record_number(s: Seq<char>, key: Seq<char>) -> Option<int> {
    number_from(s, key, 0, s.len() as int, 0, u64::MAX as int)
}

/// The tons of the record's hull tag `ship-N`, where N fits in `u32`.
pub open spec fn hull_tag_number(s: Seq<char>) -> Option<int> {
    let m = next_pattern(s, "[hull]"@, 0);
    if m < s.len() {
        let t = crate::catalog_text::cut_table(s, (m + "[hull]"@.len(), s.len() as int));
        match section_text(s, t, "id"@) {
            Some(tag) => if tag.len() >= 5 && tag.take(5) == "ship-"@ {
                parse_integer(tag.skip(5), 0, u32::MAX as int)
            } else {
                None
            },
            None => None,
        }
    } else {
        None
    }
}

/// The positions of all crew roles together.
pub open spec fn crew_total(roles: Seq<(Seq<char>, u16)>) -> int
    decreases roles.len(),
{
    if roles.len() == 0 {
        0
    } else {
        crew_total(roles.drop_last()) + roles.last().1
    }
}

proof fn lemma_crew_total_grows(roles: Seq<(Seq<char>, u16)>, k: int)
    requires
        0 <= k <= roles.len(),
    ensures
        0 <= crew_total(roles.take(k)) <= crew_total(roles),
    decreases roles.len() - k,
{
    if k < roles.len() {
        lemma_crew_total_grows(roles, k + 1);
        assert(roles.take(k + 1).drop_last() =~= roles.take(k));
        lemma_crew_total_nonnegative(roles.take(k));
    } else {
        assert(roles.take(k) =~= roles);
        lemma_crew_total_nonnegative(roles);
    }
}

proof fn lemma_crew_total_nonnegative(roles: Seq<(Seq<char>, u16)>)
    ensures
        0 <= crew_total(roles),
    decreases roles.len(),
{
    if roles.len() > 0 {
        lemma_crew_total_nonnegative(roles.drop_last());
    }
}

/// A ship record from which an offer's summary can be read.
pub open spec fn summary_record_ok(s: Seq<char>) -> bool {
    &&& record_number(s, "catalog_id"@) is Some
    &&& record_text(s, "display_name"@) is Some
    &&& record_text(s, "primary_role"@) is Some
    &&& record_number(s, "jump_distance"@) is Some
    &&& record_number(s, "thrust_g"@) is Some
    &&& record_number(s, "cargo_millitons"@) is Some
    &&& hull_tag_number(s) is Some
    &&& crew_total(crew_roles_spec(s)) <= u32::MAX
}

/// The catalog describes the ship class fully: its record and runtime
/// figures are there, and the record gives its status and summary.
pub open spec fn ship_described(catalog: StarterCatalog, catalog_id: u32) -> bool {
    &&& runtime_index(catalog.runtime@, catalog_id) is Some
    &&& match ship_source_of(catalog, catalog_id) {
        Some(s) => status_record_ok(s) && summary_record_ok(s),
        None => false,
    }
}

/// The catalog is sorted, and every offer's ship is described.
pub open spec fn catalog_ok(catalog: StarterCatalog) -> bool {
    &&& ships_sorted(catalog.ships@)
    &&& runtime_sorted(catalog.runtime@)
    &&& forall|k: int| 0 <= k < catalog.offers@.len() ==> ship_described(catalog, (#[trigger] catalog.offers@[k]).ship)
}

/// The construction price of a described ship class.
pub open spec fn ship_price(catalog: StarterCatalog, catalog_id: u32) -> u64 {
    catalog.runtime@[runtime_index(catalog.runtime@, catalog_id)->0].price_credits
}

/// An offer's summary: the offer's identity, career, package and
/// rationale; the ship's identity, name, role as a title, hull tons, jump,
/// thrust and cargo from its record (each truncated to its width); its
/// crew positions, at most `u16::MAX`; and its construction price.
pub open spec fn summary_of(summary: StartingShipOfferSummary, offer: StartingOffer, s: Seq<char>, price: u64) -> bool {
    &&& summary.offer_id == offer.id
    &&& summary.career == offer.career
    &&& summary.package_name@ == offer.package@
    &&& summary.rationale@ == offer.rationale@
    &&& summary.ship_catalog_id == record_number(s, "catalog_id"@)->0 as u32
    &&& summary.ship_name@ == record_text(s, "display_name"@)->0
    &&& summary.role@ == title_case_spec(record_text(s, "primary_role"@)->0)
    &&& summary.displacement_tons == hull_tag_number(s)->0 as u32
    &&& summary.jump_rating == record_number(s, "jump_distance"@)->0 as u8
    &&& summary.thrust_g == record_number(s, "thrust_g"@)->0 as u8
    &&& summary.cargo_millitons == record_number(s, "cargo_millitons"@)->0 as u32
    &&& summary.crew_count == crew_count_of(s)
    &&& summary.price_credits == price
}

fn record_number_of(s: &Vec<char>, key: &str) -> (r: u64)
    requires
        record_number(s@, key@) is Some,
    ensures
        r == record_number(s@, key@)->0,
{
    let v = number_value(s, &chars_of(key), 0, s.len(), 0, 0xffff_ffff_ffff_ffffi128).unwrap();
    v as u64
}

fn record_text_of(text: &str, s: &Vec<char>, key: &str) -> (r: String)
    requires
        s@ == text@,
        record_text(s@, key@) is Some,
    ensures
        r@ == record_text(s@, key@)->0,
{
    let at = text_value(s, &chars_of(key), 0, s.len()).unwrap();
    text_in(text, s, at.0, at.1)
}

fn hull_tons(s: &Vec<char>) -> (r: u32)
    requires
        hull_tag_number(s@) is Some,
    ensures
        r == hull_tag_number(s@)->0,
{
    proof {
        reveal_strlit("[hull]");
        reveal_strlit("\n[");
        reveal_strlit("id");
        reveal_strlit("ship-");
    }
    let n = s.len();
    let m = find_pattern(s, &chars_of("[hull]"), 0);
    proof {
        lemma_next_pattern(s@, "[hull]"@, 0);
    }
    let start = m + 6;
    let end = crate::catalog_text::find_pattern_before(s, &chars_of("\n["), start, n);
    let tag = text_value(s, &chars_of("id"), start, end).unwrap();
    proof {
        assert(s@.subrange(tag.0 as int, tag.1 as int).take(5) =~= s@.subrange(tag.0 as int, tag.0 + 5));
        assert(s@.subrange(tag.0 as int, tag.1 as int).skip(5) =~= s@.subrange(tag.0 + 5, tag.1 as int));
    }
    let tons = integer_in(s, tag.0 + 5, tag.1, 0, 0xffff_ffffi128).unwrap();
    tons as u32
}

fn crew_positions(source: &str) -> (r: u16)
    requires
        crew_total(crew_roles_spec(source@)) <= u32::MAX,
    ensures
        r == if crew_total(crew_roles_spec(source@)) > u16::MAX {
            u16::MAX
        } else {
            crew_total(crew_roles_spec(source@)) as u16
        },
{
    let roles = crew_roles(source);
    let ghost all = role_views(roles@);
    let mut total: u32 = 0;
    let mut k: usize = 0;
    while k < roles.len()
        invariant
            k <= roles@.len(),
            all == role_views(roles@),
            all == crew_roles_spec(source@),
            crew_total(all) <= u32::MAX,
            total == crew_total(all.take(k as int)),
        decreases roles@.len() - k,
    {
        proof {
            assert(all.take(k + 1).drop_last() =~= all.take(k as int));
            lemma_crew_total_grows(all, k + 1);
        }
        total = total + roles[k].1 as u32;
        k = k + 1;
    }
    assert(all.take(roles@.len() as int) =~= all);
    if total > 0xffff {
        0xffff
    } else {
        total as u16
    }
}

fn offer_summary(catalog: &StarterCatalog, offer: &StartingOffer) -> (r: StartingShipOfferSummary)
    requires
        ships_sorted(catalog.ships@),
        runtime_sorted(catalog.runtime@),
        ship_described(*catalog, offer.ship),
    ensures
        summary_of(r, *offer, ship_source_of(*catalog, offer.ship)->0, ship_price(*catalog, offer.ship)),
{
    let ship = ship_position(&catalog.ships, offer.ship).unwrap();
    let runtime = runtime_position(&catalog.runtime, offer.ship).unwrap();
    let source = catalog.ships[ship].source.as_str();
    let s = chars_of(source);
    proof {
        assert(ship_index(catalog.ships@, offer.ship) == Some(ship as int));
        assert(catalog.ships@[ship as int].source@ == source@);
        assert(ship_source_of(*catalog, offer.ship) == Some(source@));
        assert(status_record_ok(s@) && summary_record_ok(s@));
        reveal_strlit("catalog_id");
        reveal_strlit("display_name");
        reveal_strlit("primary_role");
        reveal_strlit("jump_distance");
        reveal_strlit("thrust_g");
        reveal_strlit("cargo_millitons");
    }
    StartingShipOfferSummary {
        offer_id: offer.id,
        career: offer.career,
        package_name: offer.package.clone(),
        ship_catalog_id: record_number_of(&s, "catalog_id") as u32,
        ship_name: record_text_of(source, &s, "display_name"),
        role: title_case(record_text_of(source, &s, "primary_role").as_str()),
        rationale: offer.rationale.clone(),
        displacement_tons: hull_tons(&s),
        jump_rating: record_number_of(&s, "jump_distance") as u8,
        thrust_g: record_number_of(&s, "thrust_g") as u8,
        cargo_millitons: record_number_of(&s, "cargo_millitons") as u32,
        crew_count: crew_positions(source),
        price_credits: catalog.runtime[runtime].price_credits,
    }
}

// ---------------------------------------------------------------------------
// Finding offers.

/// `k` is the first offer of the path with the identity.
pub open spec fn is_first_offer(offers: Seq<StartingOffer>, path: u8, offer_id: u32, k: int) -> bool {
    &&& 0 <= k < offers.len()
    &&& offers[k].path == path && offers[k].id == offer_id
    &&& forall|j: int| 0 <= j < k ==> !(offers[j].path == path && offers[j].id == offer_id)
}

/// The position of the first offer of the path with the identity.
pub open spec fn offer_at(offers: Seq<StartingOffer>, path: u8, offer_id: u32) -> Option<int> {
    if exists|k: int| is_first_offer(offers, path, offer_id, k) {
        Some(choose|k: int| is_first_offer(offers, path, offer_id, k))
    } else {
        None
    }
}

fn find_offer(offers: &Vec<StartingOffer>, path: u8, offer_id: u32) -> (r: Option<usize>)
    ensures
        match offer_at(offers@, path, offer_id) {
            Some(k) => r matches Some(p) && p as int == k && k < offers@.len(),
            None => r is None,
        },
{
    let mut k: usize = 0;
    while k < offers.len()
        invariant
            k <= offers@.len(),
            forall|j: int| 0 <= j < k ==> !(offers@[j].path == path && offers@[j].id == offer_id),
        decreases offers@.len() - k,
    {
        if offers[k].path == path && offers[k].id == offer_id {
            proof {
                assert(is_first_offer(offers@, path, offer_id, k as int));
                let c = choose|j: int| is_first_offer(offers@, path, offer_id, j);
                if c < k {
                    assert(!(offers@[c].path == path && offers@[c].id == offer_id));
                } else if c > k {
                    assert(!(offers@[k as int].path == path && offers@[k as int].id == offer_id));
                }
            }
            return Some(k);
        }
        k = k + 1;
    }
    None
}

/// The offers of a path, in catalog order.
pub open spec fn path_offers(offers: Seq<StartingOffer>, path: u8) -> Seq<StartingOffer> {
    offers.filter(|o: StartingOffer| o.path == path)
}

/// The summaries of the offers of a path, in catalog order.
pub fn offer_summaries(catalog: &StarterCatalog, path: u8) -> (r: Vec<StartingShipOfferSummary>)
    requires
        catalog_ok(*catalog),
    ensures
        r@.len() == path_offers(catalog.offers@, path).len(),
        forall|k: int|
            0 <= k < r@.len() ==> summary_of(
                #[trigger] r@[k],
                path_offers(catalog.offers@, path)[k],
                ship_source_of(*catalog, path_offers(catalog.offers@, path)[k].ship)->0,
                ship_price(*catalog, path_offers(catalog.offers@, path)[k].ship),
            ),
{
    let mut out: Vec<StartingShipOfferSummary> = Vec::new();
    let mut i: usize = 0;
    while i < catalog.offers.len()
        invariant
            i <= catalog.offers@.len(),
            catalog_ok(*catalog),
            out@.len() == path_offers(catalog.offers@.take(i as int), path).len(),
            forall|k: int|
                0 <= k < out@.len() ==> summary_of(
                    #[trigger] out@[k],
                    path_offers(catalog.offers@.take(i as int), path)[k],
                    ship_source_of(*catalog, path_offers(catalog.offers@.take(i as int), path)[k].ship)->0,
                    ship_price(*catalog, path_offers(catalog.offers@.take(i as int), path)[k].ship),
                ),
        decreases catalog.offers@.len() - i,
    {
        let ghost prior = out@;
        proof {
            reveal(Seq::filter);
            assert(catalog.offers@.take(i + 1).drop_last() =~= catalog.offers@.take(i as int));
            assert(catalog.offers@.take(i + 1).last() == catalog.offers@[i as int]);
        }
        let offer = &catalog.offers[i];
        if offer.path == path {
            assert(ship_described(*catalog, catalog.offers@[i as int].ship));
            let summary = offer_summary(catalog, offer);
            out.push(summary);
            proof {
                let after = path_offers(catalog.offers@.take(i + 1), path);
                assert(after =~= path_offers(catalog.offers@.take(i as int), path).push(*offer));
                assert forall|k: int| 0 <= k < out@.len() implies summary_of(
                    #[trigger] out@[k],
                    after[k],
                    ship_source_of(*catalog, after[k].ship)->0,
                    ship_price(*catalog, after[k].ship),
                ) by {
                    if k < prior.len() {
                        assert(out@[k] == prior[k]);
                    }
                }
            }
        } else {
            proof {
                assert(path_offers(catalog.offers@.take(i + 1), path) =~= path_offers(
                    catalog.offers@.take(i as int),
                    path,
                ));
            }
        }
        i = i + 1;
    }
    assert(catalog.offers@.take(catalog.offers@.len() as int) =~= catalog.offers@);
    out
}

// ---------------------------------------------------------------------------
// Terms.

/// `a / b` rounded up.
pub open spec fn ceil_div(a: int, b: int) -> int {
    if a % b == 0 {
        a / b
    } else {
        a / b + 1
    }
}

fn div_up(a: u64, b: u64) -> (r: u64)
    requires
        b > 0,
    ensures
        r == ceil_div(a as int, b as int),
{
    if a % b == 0 {
        a / b
    } else {
        assert(a / b < u64::MAX) by (nonlinear_arith)
            requires
                b > 0,
                a % b != 0,
                a <= u64::MAX,
        {
            if b == 1 {
                assert(a % b == 0);
            }
            assert(b >= 2);
            assert(a / b * b <= a);
        }
        a / b + 1
    }
}

/// The direct monthly cost of running a ship: life support, upkeep of a
/// twelve-thousandth of its price, a thousand a crew position, refined fuel
/// at five hundred a ton, and a twelfth of its annual insurance (1.02% of
/// its price plus fifteen thousand), each rounded up and the sum saturated.
pub open spec fn direct_month(price: u64, crew: u16, life_support: u64, fuel: u64) -> u64 {
    let upkeep = ceil_div(price as int, 12_000) as u64;
    let crew_cost = (crew as u64 * 1000) as u64;
    let refined = (ceil_div(fuel as int, 1000) * 500) as u64;
    let insurance = sat_add_spec(ceil_div(sat_mul_spec(price, 102) as int, 10_000) as u64, 15_000);
    sat_add_spec(
        sat_add_spec(sat_add_spec(sat_add_spec(life_support, upkeep), crew_cost), refined),
        ceil_div(insurance as int, 12) as u64,
    )
}

/// The capital a ship's cargo hold is worth to trade: twenty thousand a
/// ton, tons rounded up, saturated.
pub open spec fn trade_capital(cargo: u32) -> u64 {
    sat_mul_spec(ceil_div(cargo as int, 1000) as u64, 20_000)
}

/// The terms of an offer, by career: a trader owns the ship with a lien
/// (a fifth of the price as equity, the rest as principal repaid at a
/// 240th of the price a month) and holds a month's costs and the trade
/// capital as liquid reserve; a privateer's sponsor owns it, with the
/// trade capital liquid and a month's costs restricted; a navy captain
/// commands an institution's ship on the base salary, a month's costs
/// restricted.
pub open spec fn terms_of(
    terms: StartingOfferTerms,
    career: Career,
    price: u64,
    crew: u16,
    cargo: u32,
    life_support: u64,
    fuel: u64,
) -> bool {
    let month = direct_month(price, crew, life_support, fuel);
    let capital = trade_capital(cargo);
    &&& terms.terms_revision == crate::creation::SETUP_REVISION
    &&& terms.refit_credit_limit == 20_000_000
    &&& terms.refit_displacement_millitons == 10_000
    &&& terms.insurance@ == "Comprehensive, crew, passenger, cargo, and public liability; destination assistance is optional"@
    &&& match career {
        Career::Trader => {
            &&& terms.title == StartingTitleKind::OwnedWithLien
            &&& terms.equity_credits == price / 5
            &&& terms.principal_credits == sat_mul_spec(price, 4) / 5
            &&& terms.monthly_payment_credits == ceil_div(price as int, 240)
            &&& terms.liquid_reserve_credits == sat_add_spec(month, capital)
            &&& terms.restricted_reserve_credits == 0
            &&& terms.monthly_compensation_credits == 0
            &&& terms.authority@ == "Registered owner-master; ordinary commercial and defensive authority"@
            &&& terms.exit_terms@ == "The captain may sell or trade the ship after satisfying its secured lien"@
        },
        Career::Privateer => {
            &&& terms.title == StartingTitleKind::SponsorOwned
            &&& terms.equity_credits == 0
            &&& terms.principal_credits == 0
            &&& terms.monthly_payment_credits == 0
            &&& terms.liquid_reserve_credits == capital
            &&& terms.restricted_reserve_credits == month
            &&& terms.monthly_compensation_credits == 0
            &&& terms.authority@ == "Sponsor command under a limited local commission; prize rights require adjudication"@
            &&& terms.exit_terms@ == "Leaving service requires returning the vessel or acquiring title from the sponsor"@
        },
        Career::Navy => {
            &&& terms.title == StartingTitleKind::InstitutionOwned
            &&& terms.equity_credits == 0
            &&& terms.principal_credits == 0
            &&& terms.monthly_payment_credits == 0
            &&& terms.liquid_reserve_credits == 0
            &&& terms.restricted_reserve_credits == month
            &&& terms.monthly_compensation_credits == NAVAL_BASE_MONTHLY_SALARY
            &&& terms.authority@ == "Commissioned command under naval orders, inspection, pursuit, and defensive authority"@
            &&& terms.exit_terms@ == "The vessel remains institutional property and must be surrendered on separation"@
        },
    }
}

/// A record's figure for `key`, or none.
pub open spec fn record_number_or_zero(s: Seq<char>, key: Seq<char>) -> u64 {
    match record_number(s, key) {
        Some(v) => v as u64,
        None => 0,
    }
}

/// The crew positions of a ship's record, at most `u16::MAX`.
pub open spec fn crew_count_of(s: Seq<char>) -> u16 {
    let crew = crew_total(crew_roles_spec(s));
    if crew > u16::MAX {
        u16::MAX
    } else {
        crew as u16
    }
}

/// The terms of an offer whose ship is described by the catalog.
pub open spec fn offer_terms_spec(terms: StartingOfferTerms, catalog: StarterCatalog, offer: StartingOffer) -> bool {
    let s = ship_source_of(catalog, offer.ship)->0;
    terms_of(
        terms,
        offer.career,
        ship_price(catalog, offer.ship),
        crew_count_of(s),
        record_number(s, "cargo_millitons"@)->0 as u32,
        record_number_or_zero(s, "monthly_life_support_credits"@),
        record_number_or_zero(s, "fuel_millitons"@),
    )
}

fn number_or_zero(s: &Vec<char>, key: &str) -> (r: u64)
    ensures
        r == record_number_or_zero(s@, key@),
{
    match number_value(s, &chars_of(key), 0, s.len(), 0, 0xffff_ffff_ffff_ffffi128) {
        Some(v) => v as u64,
        None => 0,
    }
}

fn offer_terms(catalog: &StarterCatalog, offer: &StartingOffer) -> (r: StartingOfferTerms)
    requires
        ships_sorted(catalog.ships@),
        runtime_sorted(catalog.runtime@),
        ship_described(*catalog, offer.ship),
    ensures
        offer_terms_spec(r, *catalog, *offer),
{
    let summary = offer_summary(catalog, offer);
    let ship = ship_position(&catalog.ships, offer.ship).unwrap();
    let source = catalog.ships[ship].source.as_str();
    let s = chars_of(source);
    proof {
        assert(ship_source_of(*catalog, offer.ship) == Some(source@));
    }
    let price = summary.price_credits;
    let life_support = number_or_zero(&s, "monthly_life_support_credits");
    let upkeep = div_up(price, 12_000);
    let crew = (summary.crew_count as u64) * 1000;
    let refined_fuel = div_up(number_or_zero(&s, "fuel_millitons"), 1000) * 500;
    let annual_insurance = div_up(sat_mul(price, 102), 10_000).saturating_add(15_000);
    let direct = life_support.saturating_add(upkeep).saturating_add(crew).saturating_add(refined_fuel).saturating_add(
        div_up(annual_insurance, 12),
    );
    let capital = sat_mul(div_up(summary.cargo_millitons as u64, 1000), 20_000);
    let (title, equity, principal, liquid, restricted, compensation, authority, exit_terms) = match offer.career {
        Career::Trader => (
            StartingTitleKind::OwnedWithLien,
            price / 5,
            sat_mul(price, 4) / 5,
            direct.saturating_add(capital),
            0,
            0,
            "Registered owner-master; ordinary commercial and defensive authority",
            "The captain may sell or trade the ship after satisfying its secured lien",
        ),
        Career::Privateer => (
            StartingTitleKind::SponsorOwned,
            0,
            0,
            capital,
            direct,
            0,
            "Sponsor command under a limited local commission; prize rights require adjudication",
            "Leaving service requires returning the vessel or acquiring title from the sponsor",
        ),
        Career::Navy => (
            StartingTitleKind::InstitutionOwned,
            0,
            0,
            0,
            direct,
            NAVAL_BASE_MONTHLY_SALARY,
            "Commissioned command under naval orders, inspection, pursuit, and defensive authority",
            "The vessel remains institutional property and must be surrendered on separation",
        ),
    };
    StartingOfferTerms {
        terms_revision: crate::creation::SETUP_REVISION,
        title,
        equity_credits: equity,
        principal_credits: principal,
        monthly_payment_credits: if offer.career == Career::Trader {
            div_up(price, 240)
        } else {
            0
        },
        liquid_reserve_credits: liquid,
        restricted_reserve_credits: restricted,
        monthly_compensation_credits: compensation,
        refit_credit_limit: 20_000_000,
        refit_displacement_millitons: 10_000,
        authority: String::from_str(authority),
        exit_terms: String::from_str(exit_terms),
        insurance: String::from_str(
            "Comprehensive, crew, passenger, cargo, and public liability; destination assistance is optional",
        ),
    }
}

/// The terms of the first offer of the path with the identity, if there is
/// one.
pub fn starting_offer_terms(catalog: &StarterCatalog, path: u8, offer_id: u32) -> (r: Option<StartingOfferTerms>)
    requires
        catalog_ok(*catalog),
    ensures
        match offer_at(catalog.offers@, path, offer_id) {
            Some(k) => r matches Some(terms) && offer_terms_spec(terms, *catalog, catalog.offers@[k]),
            None => r is None,
        },
{
    match find_offer(&catalog.offers, path, offer_id) {
        Some(k) => {
            assert(ship_described(*catalog, catalog.offers@[k as int].ship));
            Some(offer_terms(catalog, &catalog.offers[k]))
        },
        None => None,
    }
}

/// The catalog revision of the ship of the first offer of the path with
/// the identity: the record's `revision`; nothing without the offer or
/// without a revision.
pub fn offer_catalog_revision(catalog: &StarterCatalog, path: u8, offer_id: u32) -> (r: Option<u64>)
    requires
        catalog_ok(*catalog),
    ensures
        match offer_at(catalog.offers@, path, offer_id) {
            Some(k) => match record_number(ship_source_of(*catalog, catalog.offers@[k].ship)->0, "revision"@) {
                Some(v) => r == Some(v as u64),
                None => r is None,
            },
            None => r is None,
        },
{
    let k = match find_offer(&catalog.offers, path, offer_id) {
        Some(k) => k,
        None => {
            return None;
        },
    };
    let offer = &catalog.offers[k];
    assert(ship_described(*catalog, catalog.offers@[k as int].ship));
    let ship = ship_position(&catalog.ships, offer.ship).unwrap();
    let source = catalog.ships[ship].source.as_str();
    let s = chars_of(source);
    proof {
        assert(ship_source_of(*catalog, offer.ship) == Some(source@));
    }
    match number_value(&s, &chars_of("revision"), 0, s.len(), 0, 0xffff_ffff_ffff_ffffi128) {
        Some(v) => Some(v as u64),
        None => None,
    }
}

// ---------------------------------------------------------------------------
// The starting refit.

/// The endurance profile of an offer's refit, by the offer's place in the
/// catalog of twenty-seven offers (identity one first).
pub open spec fn refit_profile(index: u32) -> Seq<char> {
    match index {
        0 => "scheduled-route reserve"@,
        1 => "escort reserve"@,
        2 => "dispatch reserve"@,
        3 => "contested-route reserve"@,
        4 => "prize-cruise reserve"@,
        5 => "boarding-patrol reserve"@,
        6 => "frontier reserve"@,
        7 => "raiding reserve"@,
        8 => "auxiliary-patrol reserve"@,
        9 => "regulated-route reserve"@,
        10 => "escort-cruise reserve"@,
        11 => "customs-patrol reserve"@,
        12 => "independent-route reserve"@,
        13 => "marque-cruise reserve"@,
        14 => "anti-raider reserve"@,
        15 => "blockade-route reserve"@,
        16 => "syndicate-cruise reserve"@,
        17 => "local-patrol reserve"@,
        18 => "fleet-supply reserve"@,
        19 => "formal-cruise reserve"@,
        20 => "fleet-patrol reserve"@,
        21 => "convoy-route reserve"@,
        22 => "heavy-cruise reserve"@,
        23 => "corvette-patrol reserve"@,
        24 => "blockade-running reserve"@,
        25 => "independent-raider reserve"@,
        _ => "warlord-patrol reserve"@,
    }
}

fn refit_profile_text(index: u32) -> (r: &'static str)
    requires
        index < 27,
    ensures
        r@ == refit_profile(index),
{
    match index {
        0 => "scheduled-route reserve",
        1 => "escort reserve",
        2 => "dispatch reserve",
        3 => "contested-route reserve",
        4 => "prize-cruise reserve",
        5 => "boarding-patrol reserve",
        6 => "frontier reserve",
        7 => "raiding reserve",
        8 => "auxiliary-patrol reserve",
        9 => "regulated-route reserve",
        10 => "escort-cruise reserve",
        11 => "customs-patrol reserve",
        12 => "independent-route reserve",
        13 => "marque-cruise reserve",
        14 => "anti-raider reserve",
        15 => "blockade-route reserve",
        16 => "syndicate-cruise reserve",
        17 => "local-patrol reserve",
        18 => "fleet-supply reserve",
        19 => "formal-cruise reserve",
        20 => "fleet-patrol reserve",
        21 => "convoy-route reserve",
        22 => "heavy-cruise reserve",
        23 => "corvette-patrol reserve",
        24 => "blockade-running reserve",
        25 => "independent-raider reserve",
        _ => "warlord-patrol reserve",
    }
}

/// The name of a career's refit group and the option it adds.
pub open spec fn refit_name(career: Career) -> Seq<char> {
    match career {
        Career::Trader => "Commercial endurance"@,
        Career::Privateer => "Cruise endurance"@,
        Career::Navy => "Mission endurance"@,
    }
}

pub open spec fn refit_option_id(career: Career) -> u32 {
    match career {
        Career::Trader => 2,
        Career::Privateer => 3,
        Career::Navy => 4,
    }
}

/// A refit option as plain values: identity, name, description and the
/// changes of displacement and price.
pub type RefitOptionView = (u32, Seq<char>, Seq<char>, i64, i64);

pub open spec fn refit_option_view(o: StartingRefitOption) -> RefitOptionView {
    (o.option_id, o.name@, o.description@, o.displacement_delta_millitons, o.price_delta_credits)
}

/// The options of an offer's refit: the standard fit, and where the ship
/// has ten tons of cargo space, the career's endurance option that turns
/// them into jump-fuel tankage.
pub open spec fn refit_options_spec(offer: StartingOffer, cargo: u64) -> Seq<RefitOptionView> {
    let profile = refit_profile((if offer.id >= 1 { offer.id - 1 } else { 0 }) as u32);
    seq![(1u32, "Standard fit"@, "Retain the catalogued ready-to-depart fit"@, 0i64, 0i64)] + if cargo >= 10_000 {
        seq![
            (
                refit_option_id(offer.career),
                profile,
                "Convert ten tons of the catalogued cargo allocation into permanent jump-fuel tankage"@,
                0i64,
                0i64,
            ),
        ]
    } else {
        seq![]
    }
}

/// An offer's refit: one required group, named by the career and profile,
/// with its options.
pub open spec fn refit_groups_of(groups: Seq<StartingRefitGroup>, offer: StartingOffer, cargo: u64) -> bool {
    let profile = refit_profile((if offer.id >= 1 { offer.id - 1 } else { 0 }) as u32);
    &&& groups.len() == 1
    &&& groups[0].group_id == 1
    &&& groups[0].required
    &&& groups[0].name@ == refit_name(offer.career) + ": "@ + profile
    &&& groups[0].options@.map_values(|o: StartingRefitOption| refit_option_view(o)) == refit_options_spec(
        offer,
        cargo,
    )
}

/// The cargo space of a described ship class.
pub open spec fn ship_cargo(catalog: StarterCatalog, catalog_id: u32) -> u64 {
    catalog.runtime@[runtime_index(catalog.runtime@, catalog_id)->0].cargo_millitons
}

fn refit_groups(catalog: &StarterCatalog, offer: &StartingOffer) -> (r: Vec<StartingRefitGroup>)
    requires
        runtime_sorted(catalog.runtime@),
        ship_described(*catalog, offer.ship),
        offer.id <= 27,
    ensures
        refit_groups_of(r@, *offer, ship_cargo(*catalog, offer.ship)),
{
    let profile = refit_profile_text(offer.id.saturating_sub(1));
    let (name, option_id) = match offer.career {
        Career::Trader => ("Commercial endurance", 2u32),
        Career::Privateer => ("Cruise endurance", 3u32),
        Career::Navy => ("Mission endurance", 4u32),
    };
    let runtime = runtime_position(&catalog.runtime, offer.ship).unwrap();
    let cargo = catalog.runtime[runtime].cargo_millitons;
    let mut options: Vec<StartingRefitOption> = Vec::new();
    options.push(
        StartingRefitOption {
            option_id: 1,
            name: String::from_str("Standard fit"),
            description: String::from_str("Retain the catalogued ready-to-depart fit"),
            displacement_delta_millitons: 0,
            price_delta_credits: 0,
        },
    );
    if cargo >= 10_000 {
        options.push(
            StartingRefitOption {
                option_id,
                name: String::from_str(profile),
                description: String::from_str(
                    "Convert ten tons of the catalogued cargo allocation into permanent jump-fuel tankage",
                ),
                displacement_delta_millitons: 0,
                price_delta_credits: 0,
            },
        );
    }
    assert(options@.map_values(|o: StartingRefitOption| refit_option_view(o)) =~= refit_options_spec(
        *offer,
        cargo,
    ));
    let mut group_name = String::from_str(name);
    group_name.append(": ");
    group_name.append(profile);
    let mut groups: Vec<StartingRefitGroup> = Vec::new();
    groups.push(StartingRefitGroup { group_id: 1, name: group_name, required: true, options });
    groups
}

/// Why a choice of starting refit is refused, if it is: no such offer,
/// not exactly one option, or an option the offer does not have.
pub open spec fn refit_refusal(catalog: StarterCatalog, path: u8, offer_id: u32, selections: Seq<u32>) -> Option<
    Seq<char>,
> {
    match offer_at(catalog.offers@, path, offer_id) {
        None => Some("starting offer is not available"@),
        Some(k) => {
            let offer = catalog.offers@[k];
            let options = refit_options_spec(offer, ship_cargo(catalog, offer.ship));
            if selections.len() != 1 {
                Some("choose exactly one option from the starting refit group"@)
            } else if !(exists|j: int| 0 <= j < options.len() && (#[trigger] options[j]).0 == selections[0]) {
                Some("starting refit option is not available for this offer"@)
            } else if selections[0] != 1 && 10_000 > ship_cargo(catalog, offer.ship) {
                Some("starting refit does not have ten tons of convertible cargo space"@)
            } else {
                None
            }
        },
    }
}

/// Checks a choice of starting refit: on success, the extra jump fuel and
/// the cargo space given up, both ten tons for any option but the standard
/// fit.
pub fn validate_refit_options(catalog: &StarterCatalog, path: u8, offer_id: u32, selections: &[u32]) -> (r:
    Result<(u64, u64), String>)
    requires
        catalog_ok(*catalog),
        forall|k: int| 0 <= k < catalog.offers@.len() ==> (#[trigger] catalog.offers@[k]).id <= 27,
    ensures
        match refit_refusal(*catalog, path, offer_id, selections@) {
            Some(reason) => r matches Err(e) && e@ == reason,
            None => {
                let extra: u64 = if selections@[0] == 1 {
                    0
                } else {
                    10_000
                };
                r == Ok::<(u64, u64), String>((extra, extra))
            },
        },
{
    broadcast use vstd::std_specs::hash::group_hash_axioms;

    let k = match find_offer(&catalog.offers, path, offer_id) {
        Some(k) => k,
        None => {
            return Err(String::from_str("starting offer is not available"));
        },
    };
    let offer = &catalog.offers[k];
    assert(ship_described(*catalog, catalog.offers@[k as int].ship));
    assert(catalog.offers@[k as int].id <= 27);
    if selections.len() != 1 {
        return Err(String::from_str("choose exactly one option from the starting refit group"));
    }
    let groups = refit_groups(catalog, offer);
    let ghost options = refit_options_spec(*offer, ship_cargo(*catalog, offer.ship));
    let chosen = selections[0];
    let mut allowed: HashSet<u32> = HashSet::new();
    let mut j: usize = 0;
    while j < groups[0].options.len()
        invariant
            groups@.len() == 1,
            j <= groups@[0].options@.len(),
            groups@[0].options@.map_values(|o: StartingRefitOption| refit_option_view(o)) == options,
            forall|x: u32| #[trigger] allowed@.contains(x) <==> exists|i: int| 0 <= i < j && (#[trigger] options[i]).0 == x,
        decreases groups@[0].options@.len() - j,
    {
        let id = groups[0].options[j].option_id;
        assert(options[j as int].0 == id);
        allowed.insert(id);
        proof {
            assert forall|x: u32| #[trigger] allowed@.contains(x) <==> exists|i: int|
                0 <= i < j + 1 && (#[trigger] options[i]).0 == x by {
                if x == id {
                    assert(options[j as int].0 == x);
                }
            }
        }
        j = j + 1;
    }
    if !allowed.contains(&chosen) {
        return Err(String::from_str("starting refit option is not available for this offer"));
    }
    let extra_fuel: u64 = if chosen == 1 {
        0
    } else {
        10_000
    };
    let runtime = runtime_position(&catalog.runtime, offer.ship).unwrap();
    if extra_fuel > catalog.runtime[runtime].cargo_millitons {
        return Err(String::from_str("starting refit does not have ten tons of convertible cargo space"));
    }
    Ok((extra_fuel, extra_fuel))
}

// ---------------------------------------------------------------------------
// The ship's description and the whole offer.

/// The state of reading quoted paragraphs: those read, the one being read,
/// whether inside quotes, and whether after a backslash there.
pub type ParagraphState = (Seq<Seq<char>>, Seq<char>, bool, bool);

/// The state after the characters of `[start, j)`.
pub open spec fn paragraph_scan(s: Seq<char>, start: int, j: int) -> ParagraphState
    decreases j - start,
{
    if j <= start {
        (seq![], seq![], false, false)
    } else {
        let st = paragraph_scan(s, start, j - 1);
        let c = s[j - 1];
        if st.2 {
            if st.3 {
                (st.0, st.1.push(c), true, false)
            } else if c == '\\' {
                (st.0, st.1, true, true)
            } else if c == '"' {
                (st.0.push(st.1), seq![], false, false)
            } else {
                (st.0, st.1.push(c), true, false)
            }
        } else if c == '"' {
            (st.0, st.1, true, false)
        } else {
            st
        }
    }
}

/// The description paragraphs of a ship's record: the quoted strings of
/// the array that follows `description_paragraphs =`, from its `[` up to
/// the first `]` that ends a line, a backslash keeping the character after
/// it; none where any of these is missing.
pub open spec fn description_spec(s: Seq<char>) -> Seq<Seq<char>> {
    let a = next_pattern(s, "description_paragraphs ="@, 0);
    let o = next_char(s, '[', a, s.len() as int);
    let c = next_pattern(s, "]\n"@, o + 1);
    if a >= s.len() || o >= s.len() || c >= s.len() {
        seq![]
    } else {
        paragraph_scan(s, o + 1, c).0
    }
}

pub open spec fn texts_of(v: Seq<String>) -> Seq<Seq<char>> {
    v.map_values(|t: String| t@)
}

fn description_paragraphs(source: &str, s: &Vec<char>) -> (r: Vec<String>)
    requires
        s@ == source@,
    ensures
        texts_of(r@) == description_spec(s@),
{
    proof {
        reveal_strlit("description_paragraphs =");
        reveal_strlit("]\n");
    }
    let n = s.len();
    let a = find_pattern(s, &chars_of("description_paragraphs ="), 0);
    proof {
        lemma_next_pattern(s@, "description_paragraphs ="@, 0);
    }
    if a >= n {
        return Vec::new();
    }
    let o = find_char(s, '[', a, n);
    if o >= n {
        return Vec::new();
    }
    let c = find_pattern(s, &chars_of("]\n"), o + 1);
    proof {
        lemma_next_pattern(s@, "]\n"@, o + 1);
    }
    if c >= n {
        return Vec::new();
    }
    let start = o + 1;
    let mut values: Vec<String> = Vec::new();
    let mut value = String::new();
    let mut quoted = false;
    let mut escaped = false;
    let mut j = start;
    while j < c
        invariant
            s@ == source@,
            start <= j <= c <= s@.len(),
            texts_of(values@) == paragraph_scan(s@, start as int, j as int).0,
            value@ == paragraph_scan(s@, start as int, j as int).1,
            quoted == paragraph_scan(s@, start as int, j as int).2,
            escaped == paragraph_scan(s@, start as int, j as int).3,
            escaped ==> quoted,
        decreases c - j,
    {
        let ch = s[j];
        let one = source.substring_char(j, j + 1);
        proof {
            assert(one@ =~= seq![ch]);
        }
        if quoted {
            if escaped {
                value.append(one);
                escaped = false;
            } else if ch == '\\' {
                escaped = true;
            } else if ch == '"' {
                let ghost before = values@;
                values.push(value);
                value = String::new();
                quoted = false;
                assert(texts_of(values@) =~= texts_of(before).push(values@[before.len() as int]@));
            } else {
                value.append(one);
            }
        } else if ch == '"' {
            quoted = true;
        }
        j = j + 1;
    }
    values
}

/// Everything shown of the first offer of the path with the identity, if
/// the revision is current and the offer exists: its summary, its ship's
/// description, its terms and its refit.
pub fn ship_options(catalog: &StarterCatalog, path: u8, revision: u64, offer_id: u32) -> (r: Option<
    StartingShipOptions,
>)
    requires
        catalog_ok(*catalog),
        forall|k: int| 0 <= k < catalog.offers@.len() ==> (#[trigger] catalog.offers@[k]).id <= 27,
    ensures
        revision != crate::creation::SETUP_REVISION ==> r is None,
        revision == crate::creation::SETUP_REVISION ==> match offer_at(catalog.offers@, path, offer_id) {
            Some(k) => r matches Some(options) && {
                let offer = catalog.offers@[k];
                &&& options.setup_revision == crate::creation::SETUP_REVISION
                &&& summary_of(
                    options.offer,
                    offer,
                    ship_source_of(*catalog, offer.ship)->0,
                    ship_price(*catalog, offer.ship),
                )
                &&& texts_of(options.description_paragraphs@) == description_spec(
                    ship_source_of(*catalog, offer.ship)->0,
                )
                &&& offer_terms_spec(options.terms, *catalog, offer)
                &&& refit_groups_of(options.refit_groups@, offer, ship_cargo(*catalog, offer.ship))
            },
            None => r is None,
        },
{
    if revision != crate::creation::SETUP_REVISION {
        return None;
    }
    let k = match find_offer(&catalog.offers, path, offer_id) {
        Some(k) => k,
        None => {
            return None;
        },
    };
    let offer = &catalog.offers[k];
    assert(ship_described(*catalog, catalog.offers@[k as int].ship));
    assert(catalog.offers@[k as int].id <= 27);
    let ship = ship_position(&catalog.ships, offer.ship).unwrap();
    let source = catalog.ships[ship].source.as_str();
    let s = chars_of(source);
    proof {
        assert(ship_source_of(*catalog, offer.ship) == Some(source@));
    }
    Some(
        StartingShipOptions {
            setup_revision: crate::creation::SETUP_REVISION,
            offer: offer_summary(catalog, offer),
            description_paragraphs: description_paragraphs(source, &s),
            terms: offer_terms(catalog, offer),
            refit_groups: refit_groups(catalog, offer),
        },
    )
}

} // verus!
