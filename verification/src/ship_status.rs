//! The status of a ship: the figures the catalog build computes for each
//! hull, the subsystems that damage and repair track, and what each
//! subsystem is built of.

use vstd::prelude::*;
use crate::catalog_text::{
    chars_of, cut_table, find_pattern, find_pattern_before, lemma_next_pattern, next_pattern,
    number_from, number_value, range_equals, ranges_within, text_from, text_in,
    text_value, parse_integer, integer_in, lemma_number_from_range,
};
use crate::arith::{sat_mul, sat_mul_spec};
use crate::creation::{ShipMarketCatalogEntry, ShipRuntimeComponent, ShipStatusSpec, ShipSubsystemTemplate};
use crate::ship_catalog::{cut_tables, int_ranges, table_list};
use crate::catalog_text::back_while;
use crate::text::{
    ascii_lowercase, decimal, decimal_spec, lowercase_ascii, replace_all, replace_text, text_equals,
};
use crate::wire::ShipSubsystemKind;

verus! {

/// The figures of one ship class as the catalog build computes them.
#[derive(Clone, Debug, PartialEq, Eq)]
pub struct RuntimeShip {
    pub catalog_id: u32,
    pub class_name: String,
    pub tech_level: u8,
    pub price_credits: u64,
    pub displacement_millitons: u64,
    pub jump_rating: u8,
    pub thrust_g: u8,
    pub fuel_millitons: u64,
    pub jump_fuel_millitons: u64,
    pub cargo_millitons: u64,
    pub minimum_crew: u16,
    pub passenger_accommodation_berths: u16,
    pub provision_capacity_persons: u16,
    pub low_berths: u16,
    pub monthly_life_support_credits: u64,
}

/// One fitted component of a ship class as the catalog build lists it.
#[derive(Clone, Debug, PartialEq, Eq)]
pub struct RuntimeComponent {
    pub catalog_id: u32,
    pub kind: String,
    pub component_id: String,
    pub quantity: u32,
    pub displacement_millitons: u64,
    pub price_credits: u64,
    pub pack_units: u32,
}

/// A component as plain values: kind, identity, quantity, displacement,
/// price and pack units.
pub type ComponentView = (Seq<char>, Seq<char>, u32, u64, u64, u32);

pub open spec fn component_view(c: ShipRuntimeComponent) -> ComponentView {
    (c.kind@, c.component_id@, c.quantity, c.displacement_millitons, c.price_credits, c.pack_units)
}

pub open spec fn record_view(c: RuntimeComponent) -> ComponentView {
    (c.kind@, c.component_id@, c.quantity, c.displacement_millitons, c.price_credits, c.pack_units)
}

/// The components listed for a ship class, in list order.
pub open spec fn components_for(records: Seq<RuntimeComponent>, catalog_id: u32) -> Seq<ComponentView>
    decreases records.len(),
{
    if records.len() == 0 {
        seq![]
    } else {
        let rest = components_for(records.drop_last(), catalog_id);
        if records.last().catalog_id == catalog_id {
            rest.push(record_view(records.last()))
        } else {
            rest
        }
    }
}

/// The fitted components of a ship class.
pub fn ship_runtime_components(catalog_id: u32, records: &[RuntimeComponent]) -> (r: Vec<
    ShipRuntimeComponent,
>)
    ensures
        r@.map_values(|c: ShipRuntimeComponent| component_view(c)) == components_for(records@, catalog_id),
{
    let mut out: Vec<ShipRuntimeComponent> = Vec::new();
    let mut k: usize = 0;
    while k < records.len()
        invariant
            k <= records@.len(),
            out@.map_values(|c: ShipRuntimeComponent| component_view(c)) == components_for(
                records@.take(k as int),
                catalog_id,
            ),
        decreases records@.len() - k,
    {
        proof {
            assert(records@.take(k + 1).drop_last() =~= records@.take(k as int));
        }
        let record = &records[k];
        let ghost before = out@;
        if record.catalog_id == catalog_id {
            out.push(
                ShipRuntimeComponent {
                    kind: record.kind.clone(),
                    component_id: record.component_id.clone(),
                    quantity: record.quantity,
                    displacement_millitons: record.displacement_millitons,
                    price_credits: record.price_credits,
                    pack_units: record.pack_units,
                },
            );
            assert(out@.map_values(|c: ShipRuntimeComponent| component_view(c)) =~= before.map_values(
                |c: ShipRuntimeComponent| component_view(c),
            ).push(record_view(*record)));
        }
        k = k + 1;
    }
    assert(records@.take(records@.len() as int) =~= records@);
    out
}

/// The market's entry for a ship class.
pub open spec fn market_entry_of(ship: RuntimeShip, entry: ShipMarketCatalogEntry) -> bool {
    &&& entry.catalog_id == ship.catalog_id
    &&& entry.class_name@ == ship.class_name@
    &&& entry.price_credits == ship.price_credits
    &&& entry.cargo_capacity_millitons == ship.cargo_millitons
    &&& entry.displacement_millitons == ship.displacement_millitons
    &&& entry.jump_rating == ship.jump_rating
    &&& entry.minimum_crew == ship.minimum_crew
    &&& entry.tech_level == ship.tech_level
}

/// Every ship class of the catalog, as the market lists it, in catalog
/// order.
pub fn ship_market_catalog(runtime: &[RuntimeShip]) -> (r: Vec<ShipMarketCatalogEntry>)
    ensures
        r@.len() == runtime@.len(),
        forall|i: int| 0 <= i < runtime@.len() ==> market_entry_of(runtime@[i], #[trigger] r@[i]),
{
    let mut out: Vec<ShipMarketCatalogEntry> = Vec::new();
    let mut k: usize = 0;
    while k < runtime.len()
        invariant
            k <= runtime@.len(),
            out@.len() == k,
            forall|i: int| 0 <= i < k ==> market_entry_of(runtime@[i], #[trigger] out@[i]),
        decreases runtime@.len() - k,
    {
        let ship = &runtime[k];
        out.push(
            ShipMarketCatalogEntry {
                catalog_id: ship.catalog_id,
                class_name: ship.class_name.clone(),
                price_credits: ship.price_credits,
                cargo_capacity_millitons: ship.cargo_millitons,
                displacement_millitons: ship.displacement_millitons,
                jump_rating: ship.jump_rating,
                minimum_crew: ship.minimum_crew,
                tech_level: ship.tech_level,
            },
        );
        k = k + 1;
    }
    out
}

// ---------------------------------------------------------------------------
// Labels.

/// The upper-case mapping of a character, as `char::to_uppercase` yields
/// it.
pub uninterp spec fn uppercase_of(c: char) -> Seq<char>;

/// Calls `char::to_uppercase` and collects what it yields; the contract
/// names the result and claims nothing more of the Unicode mapping.
#[verifier::external_body]
fn uppercase(c: char) -> (r: String)
    ensures
        r@ == uppercase_of(c),
{
    c.to_uppercase().collect()
}

/// What character `i` of an identifier becomes in its title: a hyphen a
/// space, the first letter of a word its upper case, any other character
/// itself.
pub open spec fn title_piece(s: Seq<char>, i: int) -> Seq<char> {
    if s[i] == '-' {
        seq![' ']
    } else if i == 0 || s[i - 1] == '-' {
        uppercase_of(s[i])
    } else {
        seq![s[i]]
    }
}

/// The title of the first `n` characters of a hyphenated identifier.
pub open spec fn title_prefix(s: Seq<char>, n: int) -> Seq<char>
    decreases n,
{
    if n <= 0 {
        seq![]
    } else {
        title_prefix(s, n - 1) + title_piece(s, n - 1)
    }
}

/// A hyphenated identifier as a title: its words joined by spaces, each
/// with its first letter in upper case.
pub open spec fn title_case_spec(s: Seq<char>) -> Seq<char> {
    title_prefix(s, s.len() as int)
}

pub fn title_case(value: &str) -> (r: String)
    ensures
        r@ == title_case_spec(value@),
{
    let n = value.unicode_len();
    let mut out = String::new();
    let mut i: usize = 0;
    while i < n
        invariant
            i <= n,
            n == value@.len(),
            out@ == title_prefix(value@, i as int),
        decreases n - i,
    {
        let c = value.get_char(i);
        if c == '-' {
            out.append(" ");
            proof {
                reveal_strlit(" ");
            }
        } else if i == 0 || value.get_char(i - 1) == '-' {
            let upper = uppercase(c);
            out.append(upper.as_str());
        } else {
            out.append(value.substring_char(i, i + 1));
            proof {
                assert(value@.subrange(i as int, i + 1) =~= seq![c]);
            }
        }
        i = i + 1;
    }
    out
}

// ---------------------------------------------------------------------------
// Subsystems read from the record.

/// A subsystem as plain values: kind, label, hits it takes, the kind and
/// identity of what it is built of, displacement and replacement price.
pub type TemplateView = (ShipSubsystemKind, Seq<char>, u16, Seq<char>, Seq<char>, u64, u64);

pub open spec fn template_view(t: ShipSubsystemTemplate) -> TemplateView {
    (
        t.kind,
        t.label@,
        t.maximum_hits,
        t.component_kind@,
        t.component_id@,
        t.displacement_millitons,
        t.replacement_price_credits,
    )
}

pub open spec fn template_views(ts: Seq<ShipSubsystemTemplate>) -> Seq<TemplateView> {
    ts.map_values(|t: ShipSubsystemTemplate| template_view(t))
}

/// A subsystem of the given kind and label that takes `hits` hits (at most
/// `u16::MAX`), not yet tied to a component.
pub open spec fn plain_subsystem(kind: ShipSubsystemKind, label: Seq<char>, hits: int) -> TemplateView {
    (kind, label, if hits > 0xffff { 0xffffu16 } else { hits as u16 }, seq![], seq![], 0u64, 0u64)
}

fn subsystem(kind: ShipSubsystemKind, label: String, hits: u64) -> (r: ShipSubsystemTemplate)
    ensures
        template_view(r) == plain_subsystem(kind, label@, hits as int),
{
    ShipSubsystemTemplate {
        kind,
        label,
        maximum_hits: if hits > 0xffff {
            0xffff
        } else {
            hits as u16
        },
        component_kind: String::new(),
        component_id: String::new(),
        displacement_millitons: 0,
        replacement_price_credits: 0,
    }
}

/// The first table under `header`, cut at the first line that opens
/// another table; nothing without the header.
pub open spec fn first_table(s: Seq<char>, header: Seq<char>) -> Option<(int, int)> {
    let m = next_pattern(s, header, 0);
    if m < s.len() {
        Some(cut_table(s, (m + header.len(), s.len() as int)))
    } else {
        None
    }
}

fn first_table_of(s: &Vec<char>, header: &Vec<char>) -> (r: Option<(usize, usize)>)
    requires
        header@.len() > 0,
    ensures
        match first_table(s@, header@) {
            Some(t) => r matches Some(x) && x.0 == t.0 && x.1 == t.1 && x.0 <= x.1 <= s@.len(),
            None => r is None,
        },
{
    let n = s.len();
    let m = find_pattern(s, header, 0);
    proof {
        lemma_next_pattern(s@, header@, 0);
    }
    if m < n {
        let start = m + header.len();
        let end = find_pattern_before(s, &chars_of("\n["), start, n);
        proof {
            reveal_strlit("\n[");
        }
        Some((start, end))
    } else {
        None
    }
}

/// The label of instance `instance` of a catalog entry: its identity as a
/// title, then its ordinal where the entry is expanded into several
/// subsystems, or its quantity as a group where it is not.
pub open spec fn entry_label(id: Seq<char>, quantity: int, instance: int, expand: bool) -> Seq<char> {
    title_case_spec(id) + if expand && quantity > 1 {
        seq![' '] + decimal_spec((instance + 1) as nat)
    } else if !expand && quantity > 1 {
        " group ("@ + decimal_spec(quantity as nat) + ")"@
    } else {
        seq![]
    }
}

pub open spec fn entry_view(
    id: Seq<char>,
    quantity: int,
    instance: int,
    expand: bool,
    kind: ShipSubsystemKind,
    component_kind: Seq<char>,
) -> TemplateView {
    (kind, entry_label(id, quantity, instance, expand), 3u16, component_kind, id, 0u64, 0u64)
}

/// The first `n` subsystems of one catalog entry.
pub open spec fn entry_views(
    id: Seq<char>,
    quantity: int,
    expand: bool,
    kind: ShipSubsystemKind,
    component_kind: Seq<char>,
    n: int,
) -> Seq<TemplateView>
    decreases n,
{
    if n <= 0 {
        seq![]
    } else {
        entry_views(id, quantity, expand, kind, component_kind, n - 1).push(
            entry_view(id, quantity, n - 1, expand, kind, component_kind),
        )
    }
}

/// The subsystems of one catalog table: none without an identity; else one
/// per unit of its quantity (one where absent) where expanded, or a single
/// group.
pub open spec fn table_entries(
    s: Seq<char>,
    t: (int, int),
    kind: ShipSubsystemKind,
    expand: bool,
    component_kind: Seq<char>,
) -> Seq<TemplateView> {
    match text_from(s, "id"@, t.0, t.1) {
        None => seq![],
        Some(v) => {
            let id = s.subrange(v.0, v.1);
            let quantity = match number_from(s, "quantity"@, t.0, t.1, 0, u64::MAX as int) {
                Some(q) => q,
                None => 1,
            };
            entry_views(id, quantity, expand, kind, component_kind, if expand { quantity } else { 1 })
        },
    }
}

/// The subsystems of the catalog tables, in table order.
pub open spec fn catalog_entries(
    s: Seq<char>,
    tables: Seq<(int, int)>,
    kind: ShipSubsystemKind,
    expand: bool,
    component_kind: Seq<char>,
) -> Seq<TemplateView>
    decreases tables.len(),
{
    if tables.len() == 0 {
        seq![]
    } else {
        catalog_entries(s, tables.drop_last(), kind, expand, component_kind) + table_entries(
            s,
            tables.last(),
            kind,
            expand,
            component_kind,
        )
    }
}

/// Appends the subsystems of the tables under `header`.
fn append_catalog_subsystems(
    target: &mut Vec<ShipSubsystemTemplate>,
    source: &str,
    s: &Vec<char>,
    header: &str,
    kind: ShipSubsystemKind,
    expand: bool,
    component_kind: &str,
)
    requires
        s@ == source@,
        header@.len() > 0,
    ensures
        template_views(final(target)@) == template_views(old(target)@) + catalog_entries(
            s@,
            cut_tables(s@, header@),
            kind,
            expand,
            component_kind@,
        ),
{
    let header_chars = chars_of(header);
    let tables = table_list(s, &header_chars);
    let ghost all = cut_tables(s@, header@);
    let ghost start = template_views(target@);
    let id_key = chars_of("id");
    let quantity_key = chars_of("quantity");
    proof {
        reveal_strlit("id");
        reveal_strlit("quantity");
    }
    let mut k: usize = 0;
    while k < tables.len()
        invariant
            s@ == source@,
            int_ranges(tables@) == all,
            ranges_within(tables@, s@.len() as int),
            k <= tables@.len(),
            id_key@ == "id"@,
            quantity_key@ == "quantity"@,
            template_views(target@) == start + catalog_entries(s@, all.take(k as int), kind, expand, component_kind@),
        decreases tables@.len() - k,
    {
        let (a, c) = tables[k];
        assert(all[k as int] == (a as int, c as int));
        proof {
            assert(all.take(k + 1).drop_last() =~= all.take(k as int));
        }
        let ghost before = template_views(target@);
        match text_value(s, &id_key, a, c) {
            Some((x, y)) => {
                let id = text_in(source, s, x, y);
                let quantity: u64 = match number_value(s, &quantity_key, a, c, 0, 0xffff_ffff_ffff_ffffi128) {
                    Some(q) => q as u64,
                    None => 1,
                };
                let count: u64 = if expand {
                    quantity
                } else {
                    1
                };
                let mut instance: u64 = 0;
                while instance < count
                    invariant
                        instance <= count,
                        template_views(target@) == before + entry_views(
                            id@,
                            quantity as int,
                            expand,
                            kind,
                            component_kind@,
                            instance as int,
                        ),
                    decreases count - instance,
                {
                    let mut label = title_case(id.as_str());
                    if expand && quantity > 1 {
                        let number = decimal(instance + 1);
                        label.append(" ");
                        label.append(number.as_str());
                        proof {
                            reveal_strlit(" ");
                        }
                    } else if !expand && quantity > 1 {
                        let number = decimal(quantity);
                        label.append(" group (");
                        label.append(number.as_str());
                        label.append(")");
                    }
                    assert(label@ == entry_label(id@, quantity as int, instance as int, expand));
                    let mut template = subsystem(kind, label, 3);
                    template.component_id = id.clone();
                    template.component_kind = String::from_str(component_kind);
                    let ghost prior = target@;
                    target.push(template);
                    assert(template_views(target@) =~= template_views(prior).push(template_view(template)));
                    instance = instance + 1;
                }
            },
            None => {},
        }
        k = k + 1;
    }
    assert(all.take(tables@.len() as int) =~= all);
}

/// The tons of the record's hull tag `ship-N`: the identity of its first
/// `[hull]` table, where that is `ship-` and a number whose thousandfold
/// fits in `u64`.
pub open spec fn hull_tag_tons(s: Seq<char>) -> Option<int> {
    match first_table(s, "[hull]"@) {
        None => None,
        Some(t) => match text_from(s, "id"@, t.0, t.1) {
            None => None,
            Some(v) => {
                let tag = s.subrange(v.0, v.1);
                if tag.len() >= 5 && tag.take(5) == "ship-"@ {
                    parse_integer(tag.skip(5), 0, (u64::MAX / 1000) as int)
                } else {
                    None
                }
            },
        },
    }
}

/// The record gives its displacement: `hull_millitons`, or a hull tag.
pub open spec fn displacement_known(s: Seq<char>) -> bool {
    number_from(s, "hull_millitons"@, 0, s.len() as int, 0, u64::MAX as int) is Some || hull_tag_tons(
        s,
    ) is Some
}

/// The displacement of the record in millitons.
pub open spec fn displacement_spec(s: Seq<char>) -> int {
    match number_from(s, "hull_millitons"@, 0, s.len() as int, 0, u64::MAX as int) {
        Some(v) => v,
        None => match hull_tag_tons(s) {
            Some(tons) => tons * 1000,
            None => 0,
        },
    }
}

/// The record gives its jump figure: `jump_rating`, or a `[fuel]` table.
pub open spec fn jump_known(s: Seq<char>) -> bool {
    number_from(s, "jump_rating"@, 0, s.len() as int, 0, u64::MAX as int) is Some || first_table(
        s,
        "[fuel]"@,
    ) is Some
}

/// The jump figure of the record: its `jump_rating`, else the
/// `jump_distance` of its fuel table, else none.
pub open spec fn jump_figure(s: Seq<char>) -> int {
    match number_from(s, "jump_rating"@, 0, s.len() as int, 0, u64::MAX as int) {
        Some(v) => v,
        None => match first_table(s, "[fuel]"@) {
            Some(t) => match number_from(s, "jump_distance"@, t.0, t.1, 0, u64::MAX as int) {
                Some(v) => v,
                None => 0,
            },
            None => 0,
        },
    }
}

/// Hull or structure points: the record's figure, else one per fifty tons
/// and at least one.
pub open spec fn points_or_default(s: Seq<char>, key: Seq<char>) -> int {
    let tons = displacement_spec(s) / 1000;
    match number_from(s, key, 0, s.len() as int, 0, u64::MAX as int) {
        Some(v) => v,
        None => if tons / 50 > 1 {
            tons / 50
        } else {
            1
        },
    }
}

/// Armor points: the record's `armor_points`, else the points of its
/// `[armor]` table, else none.
pub open spec fn armor_figure(s: Seq<char>) -> int {
    match number_from(s, "armor_points"@, 0, s.len() as int, 0, u64::MAX as int) {
        Some(v) => v,
        None => match first_table(s, "[armor]"@) {
            Some(t) => match number_from(s, "points"@, t.0, t.1, 0, u64::MAX as int) {
                Some(v) => v,
                None => 0,
            },
            None => 0,
        },
    }
}

/// The subsystems every ship has: hull, structure, armor, bridge, computer
/// and sensors, a jump drive where it has a jump figure, then maneuver
/// drive, power plant, fuel system, life support and cargo hold.
pub open spec fn core_views(s: Seq<char>) -> Seq<TemplateView> {
    seq![
        plain_subsystem(ShipSubsystemKind::Hull, "Hull"@, points_or_default(s, "hull_points"@)),
        plain_subsystem(ShipSubsystemKind::Structure, "Structure"@, points_or_default(s, "structure_points"@)),
        plain_subsystem(ShipSubsystemKind::Armor, "Armor"@, armor_figure(s)),
        plain_subsystem(ShipSubsystemKind::Bridge, "Bridge"@, 3),
        plain_subsystem(ShipSubsystemKind::Computer, "Computer"@, 3),
        plain_subsystem(ShipSubsystemKind::Sensors, "Sensors"@, 3),
    ] + if jump_figure(s) > 0 {
        seq![plain_subsystem(ShipSubsystemKind::JumpDrive, "Jump drive"@, 3)]
    } else {
        seq![]
    } + seq![
        plain_subsystem(ShipSubsystemKind::ManeuverDrive, "Maneuver drive"@, 3),
        plain_subsystem(ShipSubsystemKind::PowerPlant, "Power plant"@, 3),
        plain_subsystem(ShipSubsystemKind::FuelSystem, "Fuel system"@, 3),
        plain_subsystem(ShipSubsystemKind::LifeSupport, "Life support"@, 3),
        plain_subsystem(ShipSubsystemKind::CargoHold, "Cargo hold"@, 3),
    ]
}

/// The subsystems of a ship's record before they are tied to components:
/// the core subsystems, then its equipment and parameterized equipment
/// (one group per table), then its mounts, barbettes, bays, screens and
/// hangars (one per unit).
pub open spec fn base_templates(s: Seq<char>) -> Seq<TemplateView> {
    core_views(s) + catalog_entries(
        s,
        cut_tables(s, "[[equipment]]"@),
        ShipSubsystemKind::Other,
        false,
        "equipment"@,
    ) + catalog_entries(
        s,
        cut_tables(s, "[[parameterized_equipment]]"@),
        ShipSubsystemKind::Other,
        false,
        "parameterized-equipment"@,
    ) + catalog_entries(
        s,
        cut_tables(s, "[[mounts]]"@),
        ShipSubsystemKind::WeaponMount,
        true,
        "weapon-mount"@,
    ) + catalog_entries(
        s,
        cut_tables(s, "[[barbettes]]"@),
        ShipSubsystemKind::WeaponMount,
        true,
        "barbette"@,
    ) + catalog_entries(s, cut_tables(s, "[[bays]]"@), ShipSubsystemKind::WeaponMount, true, "bay"@)
        + catalog_entries(s, cut_tables(s, "[[screens]]"@), ShipSubsystemKind::Screen, true, "screen"@)
        + catalog_entries(s, cut_tables(s, "[[hangars]]"@), ShipSubsystemKind::Hangar, true, "hangar"@)
}

fn figure(s: &Vec<char>, key: &str, a: usize, b: usize) -> (r: Option<u64>)
    requires
        a <= b <= s@.len(),
    ensures
        match number_from(s@, key@, a as int, b as int, 0, u64::MAX as int) {
            Some(v) => 0 <= v <= u64::MAX && r == Some(v as u64),
            None => r is None,
        },
{
    match number_value(s, &chars_of(key), a, b, 0, 0xffff_ffff_ffff_ffffi128) {
        Some(v) => Some(v as u64),
        None => None,
    }
}

fn displacement_millitons(s: &Vec<char>) -> (r: u64)
    requires
        displacement_known(s@),
    ensures
        r == displacement_spec(s@),
{
    match figure(s, "hull_millitons", 0, s.len()) {
        Some(v) => {
            proof {
                reveal_strlit("hull_millitons");
            }
            return v;
        },
        None => {
            proof {
                reveal_strlit("hull_millitons");
            }
        },
    }
    let hull = chars_of("[hull]");
    proof {
        reveal_strlit("[hull]");
        reveal_strlit("id");
        reveal_strlit("ship-");
    }
    let t = match first_table_of(s, &hull) {
        Some(t) => t,
        None => {
            return 0;
        },
    };
    let v = match text_value(s, &chars_of("id"), t.0, t.1) {
        Some(v) => v,
        None => {
            return 0;
        },
    };
    let prefix = chars_of("ship-");
    if v.1 - v.0 >= 5 && range_equals(s, v.0, v.0 + 5, &prefix) {
        proof {
            assert(s@.subrange(v.0 as int, v.1 as int).take(5) =~= s@.subrange(v.0 as int, v.0 + 5));
            assert(s@.subrange(v.0 as int, v.1 as int).skip(5) =~= s@.subrange(v.0 + 5, v.1 as int));
        }
        match integer_in(s, v.0 + 5, v.1, 0, 18_446_744_073_709_551i128) {
            Some(tons) => (tons as u64) * 1000,
            None => 0,
        }
    } else {
        proof {
            if v.1 - v.0 >= 5 {
                assert(s@.subrange(v.0 as int, v.1 as int).take(5) =~= s@.subrange(v.0 as int, v.0 + 5));
            }
        }
        0
    }
}

fn points_figure(s: &Vec<char>, key: &str, displacement: u64) -> (r: u64)
    requires
        displacement == displacement_spec(s@),
    ensures
        r == points_or_default(s@, key@),
{
    match figure(s, key, 0, s.len()) {
        Some(v) => v,
        None => {
            let tons = displacement / 1000;
            if tons / 50 > 1 {
                tons / 50
            } else {
                1
            }
        },
    }
}

fn table_figure(s: &Vec<char>, main_key: &str, header: &str, key: &str) -> (r: u64)
    requires
        header@.len() > 0,
    ensures
        r == match number_from(s@, main_key@, 0, s@.len() as int, 0, u64::MAX as int) {
            Some(v) => v,
            None => match first_table(s@, header@) {
                Some(t) => match number_from(s@, key@, t.0, t.1, 0, u64::MAX as int) {
                    Some(v) => v,
                    None => 0,
                },
                None => 0,
            },
        },
{
    match figure(s, main_key, 0, s.len()) {
        Some(v) => v,
        None => match first_table_of(s, &chars_of(header)) {
            Some(t) => match figure(s, key, t.0, t.1) {
                Some(v) => v,
                None => 0,
            },
            None => 0,
        },
    }
}

fn base_subsystems(source: &str, s: &Vec<char>) -> (r: Vec<ShipSubsystemTemplate>)
    requires
        s@ == source@,
        displacement_known(s@),
        jump_known(s@),
    ensures
        template_views(r@) == base_templates(s@),
{
    proof {
        reveal_strlit("[armor]");
        reveal_strlit("[fuel]");
        reveal_strlit("[[equipment]]");
        reveal_strlit("[[parameterized_equipment]]");
        reveal_strlit("[[mounts]]");
        reveal_strlit("[[barbettes]]");
        reveal_strlit("[[bays]]");
        reveal_strlit("[[screens]]");
        reveal_strlit("[[hangars]]");
    }
    let displacement = displacement_millitons(s);
    let mut out: Vec<ShipSubsystemTemplate> = Vec::new();
    out.push(
        subsystem(ShipSubsystemKind::Hull, String::from_str("Hull"), points_figure(s, "hull_points", displacement)),
    );
    out.push(
        subsystem(
            ShipSubsystemKind::Structure,
            String::from_str("Structure"),
            points_figure(s, "structure_points", displacement),
        ),
    );
    out.push(
        subsystem(
            ShipSubsystemKind::Armor,
            String::from_str("Armor"),
            table_figure(s, "armor_points", "[armor]", "points"),
        ),
    );
    out.push(subsystem(ShipSubsystemKind::Bridge, String::from_str("Bridge"), 3));
    out.push(subsystem(ShipSubsystemKind::Computer, String::from_str("Computer"), 3));
    out.push(subsystem(ShipSubsystemKind::Sensors, String::from_str("Sensors"), 3));
    let ghost first_six = template_views(out@);
    let jump = table_figure(s, "jump_rating", "[fuel]", "jump_distance");
    if jump > 0 {
        out.push(subsystem(ShipSubsystemKind::JumpDrive, String::from_str("Jump drive"), 3));
    }
    let ghost with_jump = template_views(out@);
    out.push(subsystem(ShipSubsystemKind::ManeuverDrive, String::from_str("Maneuver drive"), 3));
    out.push(subsystem(ShipSubsystemKind::PowerPlant, String::from_str("Power plant"), 3));
    out.push(subsystem(ShipSubsystemKind::FuelSystem, String::from_str("Fuel system"), 3));
    out.push(subsystem(ShipSubsystemKind::LifeSupport, String::from_str("Life support"), 3));
    out.push(subsystem(ShipSubsystemKind::CargoHold, String::from_str("Cargo hold"), 3));
    proof {
        assert(jump == jump_figure(s@));
        assert(first_six =~= seq![
            plain_subsystem(ShipSubsystemKind::Hull, "Hull"@, points_or_default(s@, "hull_points"@)),
            plain_subsystem(ShipSubsystemKind::Structure, "Structure"@, points_or_default(s@, "structure_points"@)),
            plain_subsystem(ShipSubsystemKind::Armor, "Armor"@, armor_figure(s@)),
            plain_subsystem(ShipSubsystemKind::Bridge, "Bridge"@, 3),
            plain_subsystem(ShipSubsystemKind::Computer, "Computer"@, 3),
            plain_subsystem(ShipSubsystemKind::Sensors, "Sensors"@, 3),
        ]);
        assert(template_views(out@) =~= core_views(s@));
    }
    append_catalog_subsystems(&mut out, source, s, "[[equipment]]", ShipSubsystemKind::Other, false, "equipment");
    append_catalog_subsystems(
        &mut out,
        source,
        s,
        "[[parameterized_equipment]]",
        ShipSubsystemKind::Other,
        false,
        "parameterized-equipment",
    );
    append_catalog_subsystems(&mut out, source, s, "[[mounts]]", ShipSubsystemKind::WeaponMount, true, "weapon-mount");
    append_catalog_subsystems(&mut out, source, s, "[[barbettes]]", ShipSubsystemKind::WeaponMount, true, "barbette");
    append_catalog_subsystems(&mut out, source, s, "[[bays]]", ShipSubsystemKind::WeaponMount, true, "bay");
    append_catalog_subsystems(&mut out, source, s, "[[screens]]", ShipSubsystemKind::Screen, true, "screen");
    append_catalog_subsystems(&mut out, source, s, "[[hangars]]", ShipSubsystemKind::Hangar, true, "hangar");
    out
}

// ---------------------------------------------------------------------------
// What each subsystem is built of.

/// The kinds of component that can stand for a subsystem of the kind.
pub open spec fn kind_accepts(kind: ShipSubsystemKind, component_kind: Seq<char>) -> bool {
    match kind {
        ShipSubsystemKind::Hull | ShipSubsystemKind::Structure => component_kind == "hull"@,
        ShipSubsystemKind::Armor => component_kind == "armor"@,
        ShipSubsystemKind::Bridge => component_kind == "bridge"@,
        ShipSubsystemKind::Computer => component_kind == "computer"@,
        ShipSubsystemKind::Sensors => component_kind == "electronics"@,
        ShipSubsystemKind::JumpDrive => component_kind == "jump-drive"@,
        ShipSubsystemKind::ManeuverDrive => component_kind == "maneuver-drive"@,
        ShipSubsystemKind::PowerPlant => component_kind == "power-plant"@,
        ShipSubsystemKind::FuelSystem => component_kind == "fuel"@,
        ShipSubsystemKind::LifeSupport => component_kind == "equipment"@,
        ShipSubsystemKind::CargoHold => false,
        ShipSubsystemKind::WeaponMount => component_kind == "weapon-mount"@ || component_kind == "barbette"@
            || component_kind == "bay"@,
        ShipSubsystemKind::Screen => component_kind == "screen"@,
        ShipSubsystemKind::Hangar => component_kind == "hangar"@,
        ShipSubsystemKind::Other => component_kind == "equipment"@ || component_kind
            == "parameterized-equipment"@,
    }
}

/// Kinds with a single kind of component, other than general equipment:
/// any component of that kind stands for the subsystem, whatever its
/// identity.
pub open spec fn takes_any_of_its_kind(kind: ShipSubsystemKind) -> bool {
    !(kind is CargoHold || kind is WeaponMount || kind is Other)
}

pub open spec fn component_fits(c: ComponentView, kind: ShipSubsystemKind, wanted: Seq<char>) -> bool {
    kind_accepts(kind, c.0) && (c.1 == wanted || takes_any_of_its_kind(kind))
}

/// The first component at or after `i` that fits the subsystem.
pub open spec fn first_fit(cs: Seq<ComponentView>, kind: ShipSubsystemKind, wanted: Seq<char>, i: int) -> Option<
    int,
>
    decreases cs.len() - i,
{
    if i < 0 || i >= cs.len() {
        None
    } else if component_fits(cs[i], kind, wanted) {
        Some(i)
    } else {
        first_fit(cs, kind, wanted, i + 1)
    }
}

/// The kind's name in lower case, as its debug form gives it.
pub open spec fn kind_name(kind: ShipSubsystemKind) -> Seq<char> {
    match kind {
        ShipSubsystemKind::Hull => "hull"@,
        ShipSubsystemKind::Structure => "structure"@,
        ShipSubsystemKind::Armor => "armor"@,
        ShipSubsystemKind::Bridge => "bridge"@,
        ShipSubsystemKind::Computer => "computer"@,
        ShipSubsystemKind::Sensors => "sensors"@,
        ShipSubsystemKind::JumpDrive => "jumpdrive"@,
        ShipSubsystemKind::ManeuverDrive => "maneuverdrive"@,
        ShipSubsystemKind::PowerPlant => "powerplant"@,
        ShipSubsystemKind::FuelSystem => "fuelsystem"@,
        ShipSubsystemKind::LifeSupport => "lifesupport"@,
        ShipSubsystemKind::CargoHold => "cargohold"@,
        ShipSubsystemKind::WeaponMount => "weaponmount"@,
        ShipSubsystemKind::Screen => "screen"@,
        ShipSubsystemKind::Hangar => "hangar"@,
        ShipSubsystemKind::Other => "other"@,
    }
}

pub open spec fn digit_or_space_test() -> spec_fn(char) -> bool {
    |c: char| ('0' <= c <= '9') || c == ' '
}

/// A subsystem label as a component identity: the part before any
/// " group", without trailing digits and spaces, in lower case, spaces
/// turned into hyphens.
pub open spec fn normalized_label(label: Seq<char>) -> Seq<char> {
    let cut = next_pattern(label, " group"@, 0);
    let end = back_while(label, digit_or_space_test(), 0, cut);
    replace_all(ascii_lowercase(label.take(end)), " "@, "-"@)
}

/// A subsystem tied to what it is built of: the first fitting component
/// (a weapon mount's share of it where the component covers several),
/// else a cargo hold as cargo, else the kind's name and the normalized
/// label.
pub open spec fn hydrated(t: TemplateView, cs: Seq<ComponentView>) -> TemplateView {
    let norm = normalized_label(t.1);
    let wanted = if t.4.len() == 0 {
        norm
    } else {
        t.4
    };
    match first_fit(cs, t.0, wanted, 0) {
        Some(k) => {
            let c = cs[k];
            let divisor: u64 = if t.0 is WeaponMount && c.2 > 1 {
                c.2 as u64
            } else {
                1
            };
            (t.0, t.1, t.2, c.0, c.1, c.3 / divisor, c.4 / divisor)
        },
        None => if t.0 is CargoHold {
            (t.0, t.1, t.2, "cargo"@, "cargo-hold"@, t.5, t.6)
        } else {
            (t.0, t.1, t.2, kind_name(t.0), norm, t.5, t.6)
        },
    }
}

fn normalize_label(label: &str) -> (r: String)
    ensures
        r@ == normalized_label(label@),
{
    let s = chars_of(label);
    let cut = find_pattern(&s, &chars_of(" group"), 0);
    let mut end = cut;
    while end > 0 && (('0' <= s[end - 1] && s[end - 1] <= '9') || s[end - 1] == ' ')
        invariant
            end <= cut <= s@.len(),
            s@ == label@,
            back_while(s@, digit_or_space_test(), 0, end as int) == back_while(
                s@,
                digit_or_space_test(),
                0,
                cut as int,
            ),
        decreases end,
    {
        end = end - 1;
    }
    let kept = text_in(label, &s, 0, end);
    assert(kept@ =~= label@.take(end as int));
    let lower = lowercase_ascii(kept.as_str());
    proof {
        reveal_strlit(" ");
    }
    replace_text(lower.as_str(), " ", "-")
}

fn kind_accepts_text(kind: ShipSubsystemKind, component_kind: &str) -> (r: bool)
    ensures
        r == kind_accepts(kind, component_kind@),
{
    match kind {
        ShipSubsystemKind::Hull | ShipSubsystemKind::Structure => text_equals(component_kind, "hull"),
        ShipSubsystemKind::Armor => text_equals(component_kind, "armor"),
        ShipSubsystemKind::Bridge => text_equals(component_kind, "bridge"),
        ShipSubsystemKind::Computer => text_equals(component_kind, "computer"),
        ShipSubsystemKind::Sensors => text_equals(component_kind, "electronics"),
        ShipSubsystemKind::JumpDrive => text_equals(component_kind, "jump-drive"),
        ShipSubsystemKind::ManeuverDrive => text_equals(component_kind, "maneuver-drive"),
        ShipSubsystemKind::PowerPlant => text_equals(component_kind, "power-plant"),
        ShipSubsystemKind::FuelSystem => text_equals(component_kind, "fuel"),
        ShipSubsystemKind::LifeSupport => text_equals(component_kind, "equipment"),
        ShipSubsystemKind::CargoHold => false,
        ShipSubsystemKind::WeaponMount => text_equals(component_kind, "weapon-mount") || text_equals(
            component_kind,
            "barbette",
        ) || text_equals(component_kind, "bay"),
        ShipSubsystemKind::Screen => text_equals(component_kind, "screen"),
        ShipSubsystemKind::Hangar => text_equals(component_kind, "hangar"),
        ShipSubsystemKind::Other => text_equals(component_kind, "equipment") || text_equals(
            component_kind,
            "parameterized-equipment",
        ),
    }
}

fn kind_name_text(kind: ShipSubsystemKind) -> (r: String)
    ensures
        r@ == kind_name(kind),
{
    String::from_str(
        match kind {
            ShipSubsystemKind::Hull => "hull",
            ShipSubsystemKind::Structure => "structure",
            ShipSubsystemKind::Armor => "armor",
            ShipSubsystemKind::Bridge => "bridge",
            ShipSubsystemKind::Computer => "computer",
            ShipSubsystemKind::Sensors => "sensors",
            ShipSubsystemKind::JumpDrive => "jumpdrive",
            ShipSubsystemKind::ManeuverDrive => "maneuverdrive",
            ShipSubsystemKind::PowerPlant => "powerplant",
            ShipSubsystemKind::FuelSystem => "fuelsystem",
            ShipSubsystemKind::LifeSupport => "lifesupport",
            ShipSubsystemKind::CargoHold => "cargohold",
            ShipSubsystemKind::WeaponMount => "weaponmount",
            ShipSubsystemKind::Screen => "screen",
            ShipSubsystemKind::Hangar => "hangar",
            ShipSubsystemKind::Other => "other",
        },
    )
}

fn hydrate(template: &ShipSubsystemTemplate, components: &Vec<ShipRuntimeComponent>) -> (r: ShipSubsystemTemplate)
    ensures
        template_view(r) == hydrated(
            template_view(*template),
            components@.map_values(|c: ShipRuntimeComponent| component_view(c)),
        ),
{
    let ghost cs = components@.map_values(|c: ShipRuntimeComponent| component_view(c));
    let norm = normalize_label(template.label.as_str());
    let wanted = if template.component_id.as_str().is_empty() {
        norm.clone()
    } else {
        template.component_id.clone()
    };
    let kind = template.kind;
    let any = match kind {
        ShipSubsystemKind::CargoHold | ShipSubsystemKind::WeaponMount | ShipSubsystemKind::Other => false,
        _ => true,
    };
    let mut k: usize = 0;
    while k < components.len()
        invariant
            k <= components@.len(),
            cs == components@.map_values(|c: ShipRuntimeComponent| component_view(c)),
            any == takes_any_of_its_kind(kind),
            kind == template.kind,
            wanted@ == (if template.component_id@.len() == 0 {
                normalized_label(template.label@)
            } else {
                template.component_id@
            }),
            first_fit(cs, kind, wanted@, k as int) == first_fit(cs, kind, wanted@, 0),
        decreases components@.len() - k,
    {
        let c = &components[k];
        assert(cs[k as int] == component_view(*c));
        if kind_accepts_text(kind, c.kind.as_str()) && (text_equals(c.component_id.as_str(), wanted.as_str())
            || any) {
            let divisor: u64 = if kind == ShipSubsystemKind::WeaponMount && c.quantity > 1 {
                c.quantity as u64
            } else {
                1
            };
            return ShipSubsystemTemplate {
                kind,
                label: template.label.clone(),
                maximum_hits: template.maximum_hits,
                component_kind: c.kind.clone(),
                component_id: c.component_id.clone(),
                displacement_millitons: c.displacement_millitons / divisor,
                replacement_price_credits: c.price_credits / divisor,
            };
        }
        k = k + 1;
    }
    if kind == ShipSubsystemKind::CargoHold {
        ShipSubsystemTemplate {
            kind,
            label: template.label.clone(),
            maximum_hits: template.maximum_hits,
            component_kind: String::from_str("cargo"),
            component_id: String::from_str("cargo-hold"),
            displacement_millitons: template.displacement_millitons,
            replacement_price_credits: template.replacement_price_credits,
        }
    } else {
        ShipSubsystemTemplate {
            kind,
            label: template.label.clone(),
            maximum_hits: template.maximum_hits,
            component_kind: kind_name_text(kind),
            component_id: norm,
            displacement_millitons: template.displacement_millitons,
            replacement_price_credits: template.replacement_price_credits,
        }
    }
}

/// The subsystems of a ship's record, each tied to what it is built of.
pub open spec fn subsystems_spec(s: Seq<char>, cs: Seq<ComponentView>) -> Seq<TemplateView> {
    base_templates(s).map_values(|t: TemplateView| hydrated(t, cs))
}

fn ship_subsystem_templates(source: &str, s: &Vec<char>, components: &Vec<ShipRuntimeComponent>) -> (r: Vec<
    ShipSubsystemTemplate,
>)
    requires
        s@ == source@,
        displacement_known(s@),
        jump_known(s@),
    ensures
        template_views(r@) == subsystems_spec(
            s@,
            components@.map_values(|c: ShipRuntimeComponent| component_view(c)),
        ),
{
    let base = base_subsystems(source, s);
    let ghost cs = components@.map_values(|c: ShipRuntimeComponent| component_view(c));
    let ghost all = template_views(base@);
    let mut out: Vec<ShipSubsystemTemplate> = Vec::new();
    let mut k: usize = 0;
    while k < base.len()
        invariant
            k <= base@.len(),
            all == template_views(base@),
            cs == components@.map_values(|c: ShipRuntimeComponent| component_view(c)),
            template_views(out@) == all.take(k as int).map_values(|t: TemplateView| hydrated(t, cs)),
        decreases base@.len() - k,
    {
        let ghost before = out@;
        let one = hydrate(&base[k], components);
        out.push(one);
        proof {
            assert(all[k as int] == template_view(base@[k as int]));
            assert(template_views(out@) =~= template_views(before).push(template_view(one)));
            assert(all.take(k + 1).map_values(|t: TemplateView| hydrated(t, cs)) =~= all.take(k as int).map_values(
                |t: TemplateView| hydrated(t, cs),
            ).push(hydrated(all[k as int], cs)));
        }
        k = k + 1;
    }
    assert(all.take(base@.len() as int) =~= all);
    out
}

/// How many of an item the record's equipment tables hold: the quantities
/// (one where absent) of the tables with that identity.
pub open spec fn equipment_total(s: Seq<char>, tables: Seq<(int, int)>, wanted: Seq<char>) -> int
    decreases tables.len(),
{
    if tables.len() == 0 {
        0
    } else {
        let t = tables.last();
        let here = match text_from(s, "id"@, t.0, t.1) {
            Some(v) => if s.subrange(v.0, v.1) == wanted {
                match number_from(s, "quantity"@, t.0, t.1, 0, u64::MAX as int) {
                    Some(q) => q,
                    None => 1,
                }
            } else {
                0
            },
            None => 0,
        };
        equipment_total(s, tables.drop_last(), wanted) + here
    }
}

proof fn lemma_equipment_total_grows(s: Seq<char>, tables: Seq<(int, int)>, wanted: Seq<char>, k: int)
    requires
        0 <= k <= tables.len(),
    ensures
        0 <= equipment_total(s, tables.take(k), wanted) <= equipment_total(s, tables, wanted),
    decreases tables.len() - k,
{
    if k < tables.len() {
        lemma_equipment_total_grows(s, tables, wanted, k + 1);
        assert(tables.take(k + 1).drop_last() =~= tables.take(k));
        let t = tables.take(k + 1).last();
        lemma_number_from_range(s, "quantity"@, t.0, t.1, 0, u64::MAX as int);
        lemma_equipment_total_nonnegative(s, tables.take(k), wanted);
    } else {
        assert(tables.take(k) =~= tables);
        lemma_equipment_total_nonnegative(s, tables, wanted);
    }
}

proof fn lemma_equipment_total_nonnegative(s: Seq<char>, tables: Seq<(int, int)>, wanted: Seq<char>)
    ensures
        0 <= equipment_total(s, tables, wanted),
    decreases tables.len(),
{
    if tables.len() > 0 {
        lemma_equipment_total_nonnegative(s, tables.drop_last(), wanted);
        let t = tables.last();
        lemma_number_from_range(s, "quantity"@, t.0, t.1, 0, u64::MAX as int);
    }
}

pub open spec fn equipment_count(s: Seq<char>, wanted: Seq<char>) -> int {
    equipment_total(s, cut_tables(s, "[[equipment]]"@), wanted)
}

fn equipment_quantity(source: &str, s: &Vec<char>, wanted: &str) -> (r: u64)
    requires
        s@ == source@,
        equipment_count(s@, wanted@) <= u64::MAX,
    ensures
        r == equipment_count(s@, wanted@),
{
    proof {
        reveal_strlit("[[equipment]]");
        reveal_strlit("id");
        reveal_strlit("quantity");
    }
    let tables = table_list(s, &chars_of("[[equipment]]"));
    let ghost all = cut_tables(s@, "[[equipment]]"@);
    let id_key = chars_of("id");
    let wanted_chars = chars_of(wanted);
    let mut total: u64 = 0;
    let mut k: usize = 0;
    while k < tables.len()
        invariant
            s@ == source@,
            int_ranges(tables@) == all,
            ranges_within(tables@, s@.len() as int),
            k <= tables@.len(),
            id_key@ == "id"@,
            wanted_chars@ == wanted@,
            equipment_total(s@, all, wanted@) <= u64::MAX,
            total == equipment_total(s@, all.take(k as int), wanted@),
        decreases tables@.len() - k,
    {
        let (a, c) = tables[k];
        assert(all[k as int] == (a as int, c as int));
        proof {
            assert(all.take(k + 1).drop_last() =~= all.take(k as int));
            lemma_equipment_total_grows(s@, all, wanted@, k + 1);
        }
        match text_value(s, &id_key, a, c) {
            Some((x, y)) => {
                if range_equals(s, x, y, &wanted_chars) {
                    let here = match figure(s, "quantity", a, c) {
                        Some(q) => q,
                        None => 1,
                    };
                    total = total + here;
                }
            },
            None => {},
        }
        k = k + 1;
    }
    assert(all.take(tables@.len() as int) =~= all);
    total
}

/// The configuration of the record's hull: the `configuration` of its
/// first `[hull]` table.
pub open spec fn hull_configuration(s: Seq<char>) -> Option<Seq<char>> {
    match first_table(s, "[hull]"@) {
        Some(t) => match text_from(s, "configuration"@, t.0, t.1) {
            Some(v) => Some(s.subrange(v.0, v.1)),
            None => None,
        },
        None => None,
    }
}

/// What a ship's record must give for its status to be read: its
/// displacement, its jump figure, its hull configuration, and equipment
/// counts that fit in `u64`.
pub open spec fn status_record_ok(s: Seq<char>) -> bool {
    &&& displacement_known(s)
    &&& jump_known(s)
    &&& hull_configuration(s) is Some
    &&& equipment_count(s, "fuel-scoop"@) <= u64::MAX
    &&& equipment_count(s, "fuel-processor"@) <= u64::MAX
}

/// The runtime figures are listed by increasing catalog identity.
pub open spec fn runtime_sorted(runtime: Seq<RuntimeShip>) -> bool {
    forall|i: int, j: int| 0 <= i < j < runtime.len() ==> (#[trigger] runtime[i]).catalog_id < (
    #[trigger] runtime[j]).catalog_id
}

/// The position of the runtime figures of a ship class.
pub open spec fn runtime_index(runtime: Seq<RuntimeShip>, catalog_id: u32) -> Option<int> {
    if exists|i: int| 0 <= i < runtime.len() && (#[trigger] runtime[i]).catalog_id == catalog_id {
        Some(choose|i: int| 0 <= i < runtime.len() && (#[trigger] runtime[i]).catalog_id == catalog_id)
    } else {
        None
    }
}

/// The status of a ship from its runtime figures and its record.
pub open spec fn status_of(spec: ShipStatusSpec, ship: RuntimeShip, s: Seq<char>, cs: Seq<ComponentView>) -> bool {
    &&& spec.tech_level == ship.tech_level
    &&& spec.construction_price_credits == ship.price_credits
    &&& spec.displacement_millitons == ship.displacement_millitons
    &&& spec.jump_rating == ship.jump_rating
    &&& spec.thrust_g == ship.thrust_g
    &&& spec.fuel_capacity_millitons == ship.fuel_millitons
    &&& spec.jump_fuel_millitons == ship.jump_fuel_millitons
    &&& spec.cargo_capacity_millitons == ship.cargo_millitons
    &&& spec.passenger_berths == ship.passenger_accommodation_berths
    &&& spec.low_berths == ship.low_berths
    &&& spec.monthly_life_support_credits == ship.monthly_life_support_credits
    &&& spec.life_support_capacity_persons == ship.provision_capacity_persons
    &&& spec.has_fuel_scoop == (hull_configuration(s) == Some("streamlined"@) || equipment_count(
        s,
        "fuel-scoop"@,
    ) > 0)
    &&& spec.fuel_processing_millitons_per_day == sat_mul_spec(
        equipment_count(s, "fuel-processor"@) as u64,
        20_000,
    )
    &&& template_views(spec.subsystems@) == subsystems_spec(s, cs)
}

/// The position of the runtime figures of a ship class in a sorted table.
pub(crate) fn runtime_position(runtime: &[RuntimeShip], catalog_id: u32) -> (r: Option<usize>)
    requires
        runtime_sorted(runtime@),
    ensures
        match runtime_index(runtime@, catalog_id) {
            Some(i) => r matches Some(p) && p as int == i && i < runtime@.len(),
            None => r is None,
        },
{
    let mut index: usize = 0;
    while index < runtime.len() && runtime[index].catalog_id != catalog_id
        invariant
            index <= runtime@.len(),
            forall|j: int| 0 <= j < index ==> (#[trigger] runtime@[j]).catalog_id != catalog_id,
        decreases runtime@.len() - index,
    {
        index = index + 1;
    }
    if index == runtime.len() {
        return None;
    }
    proof {
        let c = choose|i: int| 0 <= i < runtime@.len() && (#[trigger] runtime@[i]).catalog_id == catalog_id;
        assert(runtime@[index as int].catalog_id == catalog_id);
        if c != index {
            if c < index {
                assert(runtime@[c].catalog_id != catalog_id);
            } else {
                assert(runtime@[index as int].catalog_id < runtime@[c].catalog_id);
            }
        }
    }
    Some(index)
}

/// The status of a ship class: nothing without its record or its runtime
/// figures; else its figures, whether it scoops and processes fuel, and
/// its subsystems.
pub fn ship_status_spec(
    catalog_id: u32,
    source: Option<&str>,
    runtime: &[RuntimeShip],
    components: &[RuntimeComponent],
) -> (r: Option<ShipStatusSpec>)
    requires
        runtime_sorted(runtime@),
        match source {
            Some(text) => runtime_index(runtime@, catalog_id) is Some ==> status_record_ok(text@),
            None => true,
        },
    ensures
        match (source, runtime_index(runtime@, catalog_id)) {
            (Some(text), Some(i)) => r matches Some(spec) && status_of(
                spec,
                runtime@[i],
                text@,
                components_for(components@, catalog_id),
            ),
            _ => r is None,
        },
{
    let source = match source {
        Some(text) => text,
        None => {
            return None;
        },
    };
    let index = match runtime_position(runtime, catalog_id) {
        Some(i) => i,
        None => {
            return None;
        },
    };
    let ship = &runtime[index];
    let s = chars_of(source);
    let hull = chars_of("[hull]");
    proof {
        reveal_strlit("[hull]");
        reveal_strlit("configuration");
        reveal_strlit("streamlined");
    }
    let streamlined = match first_table_of(&s, &hull) {
        Some(t) => match text_value(&s, &chars_of("configuration"), t.0, t.1) {
            Some(v) => range_equals(&s, v.0, v.1, &chars_of("streamlined")),
            None => false,
        },
        None => false,
    };
    let scoops = equipment_quantity(source, &s, "fuel-scoop");
    let processors = equipment_quantity(source, &s, "fuel-processor");
    let listed = ship_runtime_components(catalog_id, components);
    let subsystems = ship_subsystem_templates(source, &s, &listed);
    Some(
        ShipStatusSpec {
            tech_level: ship.tech_level,
            construction_price_credits: ship.price_credits,
            displacement_millitons: ship.displacement_millitons,
            jump_rating: ship.jump_rating,
            thrust_g: ship.thrust_g,
            fuel_capacity_millitons: ship.fuel_millitons,
            jump_fuel_millitons: ship.jump_fuel_millitons,
            cargo_capacity_millitons: ship.cargo_millitons,
            passenger_berths: ship.passenger_accommodation_berths,
            low_berths: ship.low_berths,
            monthly_life_support_credits: ship.monthly_life_support_credits,
            life_support_capacity_persons: ship.provision_capacity_persons,
            has_fuel_scoop: streamlined || scoops > 0,
            fuel_processing_millitons_per_day: sat_mul(processors, 20_000),
            subsystems,
        },
    )
}

} // verus!
