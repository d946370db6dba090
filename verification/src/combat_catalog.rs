//! Combat vessels materialized from a ship's catalog specification and the
//! combat weapon rules.

use vstd::prelude::*;
use crate::combat::{
    reactions_for_initiative, reactions_spec, AmmunitionLot, VesselDisposition, VesselState,
    WeaponMount, WeaponRule,
};
use crate::combat_damage::copy_rule;
use crate::creation::{ShipCombatSpec, ShipStatusSpec, ShipWeaponMountSpec};
use crate::text::{decimal_spec, with_number};

verus! {

// ---------------------------------------------------------------------------
// Byte order of text.

/// Lexicographic comparison of byte strings: negative, zero or positive.
pub open spec fn lex_order(a: Seq<u8>, b: Seq<u8>) -> int
    decreases a.len(),
{
    if a.len() == 0 {
        if b.len() == 0 {
            0
        } else {
            -1
        }
    } else if b.len() == 0 {
        1
    } else if a[0] < b[0] {
        -1
    } else if a[0] > b[0] {
        1
    } else {
        lex_order(a.drop_first(), b.drop_first())
    }
}

/// The bytes of a string's UTF-8 encoding, by which strings are ordered.
pub open spec fn text_bytes(s: String) -> Seq<u8> {
    vstd::utf8::encode_utf8(s@)
}

pub(crate) proof fn lemma_lex_antisymmetric(a: Seq<u8>, b: Seq<u8>)
    ensures
        lex_order(a, b) == -lex_order(b, a),
        lex_order(a, b) == 0 ==> a == b,
    decreases a.len(),
{
    if a.len() > 0 && b.len() > 0 && a[0] == b[0] {
        lemma_lex_antisymmetric(a.drop_first(), b.drop_first());
        if lex_order(a, b) == 0 {
            assert(a =~= seq![a[0]] + a.drop_first());
            assert(b =~= seq![b[0]] + b.drop_first());
        }
    } else if a.len() == 0 && b.len() == 0 {
        assert(a =~= b);
    }
}

pub(crate) proof fn lemma_lex_transitive(a: Seq<u8>, b: Seq<u8>, c: Seq<u8>)
    requires
        lex_order(a, b) < 0,
        lex_order(b, c) < 0,
    ensures
        lex_order(a, c) < 0,
    decreases a.len(),
{
    if a.len() > 0 && b.len() > 0 && c.len() > 0 && a[0] == b[0] && b[0] == c[0] {
        lemma_lex_transitive(a.drop_first(), b.drop_first(), c.drop_first());
    }
}

fn compare_bytes(a: &[u8], b: &[u8]) -> (r: i8)
    ensures
        r == lex_order(a@, b@),
{
    let mut i: usize = 0;
    proof {
        assert(a@.skip(0) =~= a@);
        assert(b@.skip(0) =~= b@);
    }
    while i < a.len() && i < b.len() && a[i] == b[i]
        invariant
            i <= a@.len(),
            i <= b@.len(),
            lex_order(a@, b@) == lex_order(a@.skip(i as int), b@.skip(i as int)),
        decreases a@.len() - i,
    {
        proof {
            assert(a@.skip(i as int).drop_first() =~= a@.skip(i + 1));
            assert(b@.skip(i as int).drop_first() =~= b@.skip(i + 1));
        }
        i = i + 1;
    }
    if i == a.len() {
        if i == b.len() {
            0
        } else {
            -1
        }
    } else if i == b.len() {
        1
    } else if a[i] < b[i] {
        -1
    } else {
        1
    }
}

pub(crate) fn compare_text(a: &String, b: &String) -> (r: i8)
    ensures
        r == lex_order(text_bytes(*a), text_bytes(*b)),
{
    compare_bytes(a.as_str().as_bytes(), b.as_str().as_bytes())
}

/// `sorted` holds the strings of `items` in ascending byte order, each once.
pub open spec fn holds_item(items: Seq<String>, s: String) -> bool {
    exists|j: int| 0 <= j < items.len() && #[trigger] items[j] == s
}

pub open spec fn holds_text(items: Seq<String>, s: String) -> bool {
    exists|j: int| 0 <= j < items.len() && (#[trigger] items[j])@ == s@
}

pub open spec fn sorted_set_of(items: Seq<String>, sorted: Seq<String>) -> bool {
    &&& forall|p: int, q: int|
        0 <= p < q < sorted.len() ==> lex_order(
            text_bytes(#[trigger] sorted[p]),
            text_bytes(#[trigger] sorted[q]),
        ) < 0
    &&& forall|p: int| 0 <= p < sorted.len() ==> holds_item(items, #[trigger] sorted[p])
    &&& forall|j: int| 0 <= j < items.len() ==> holds_text(sorted, #[trigger] items[j])
}

proof fn lemma_sorted_found(taken: Seq<String>, item: String, sorted: Seq<String>, p: int)
    requires
        sorted_set_of(taken, sorted),
        0 <= p < sorted.len(),
        lex_order(text_bytes(sorted[p]), text_bytes(item)) == 0,
    ensures
        sorted_set_of(taken.push(item), sorted),
{
    let next = taken.push(item);
    lemma_lex_antisymmetric(text_bytes(sorted[p]), text_bytes(item));
    vstd::utf8::encode_utf8_decode_utf8(sorted[p]@);
    vstd::utf8::encode_utf8_decode_utf8(item@);
    assert(sorted[p]@ == item@);
    assert forall|p2: int| 0 <= p2 < sorted.len() implies holds_item(next, #[trigger] sorted[p2]) by {
        assert(holds_item(taken, sorted[p2]));
        let j = choose|j: int| 0 <= j < taken.len() && #[trigger] taken[j] == sorted[p2];
        assert(next[j] == taken[j]);
    }
    assert forall|j: int| 0 <= j < next.len() implies holds_text(sorted, #[trigger] next[j]) by {
        if j < taken.len() {
            assert(next[j] == taken[j]);
            assert(holds_text(sorted, taken[j]));
        } else {
            assert(next[j] == item);
            assert(sorted[p]@ == item@);
        }
    }
}

proof fn lemma_sorted_insert_order(item: String, prior: Seq<String>, p: int)
    requires
        0 <= p <= prior.len(),
        forall|a: int, b: int|
            0 <= a < b < prior.len() ==> lex_order(
                text_bytes(#[trigger] prior[a]),
                text_bytes(#[trigger] prior[b]),
            ) < 0,
        forall|q: int| 0 <= q < p ==> lex_order(text_bytes(#[trigger] prior[q]), text_bytes(item)) < 0,
        p < prior.len() ==> lex_order(text_bytes(prior[p]), text_bytes(item)) > 0,
    ensures
        forall|a: int, b: int|
            0 <= a < b < prior.len() + 1 ==> lex_order(
                text_bytes(#[trigger] prior.insert(p, item)[a]),
                text_bytes(#[trigger] prior.insert(p, item)[b]),
            ) < 0,
{
    let sorted = prior.insert(p, item);
    if p < prior.len() {
        lemma_lex_antisymmetric(text_bytes(prior[p]), text_bytes(item));
    }
    assert forall|a: int, b: int| 0 <= a < b < sorted.len() implies lex_order(
        text_bytes(#[trigger] sorted[a]),
        text_bytes(#[trigger] sorted[b]),
    ) < 0 by {
        if b < p {
            assert(sorted[a] == prior[a] && sorted[b] == prior[b]);
        } else if b == p {
            assert(sorted[a] == prior[a]);
        } else if a == p {
            assert(sorted[b] == prior[b - 1]);
            if b - 1 > p {
                lemma_lex_transitive(text_bytes(item), text_bytes(prior[p]), text_bytes(prior[b - 1]));
            }
        } else if a < p {
            assert(sorted[a] == prior[a] && sorted[b] == prior[b - 1]);
            if b - 1 > p {
                lemma_lex_transitive(text_bytes(item), text_bytes(prior[p]), text_bytes(prior[b - 1]));
            }
            lemma_lex_transitive(text_bytes(prior[a]), text_bytes(item), text_bytes(prior[b - 1]));
        } else {
            assert(sorted[a] == prior[a - 1] && sorted[b] == prior[b - 1]);
        }
    }
}

proof fn lemma_sorted_insert_items(taken: Seq<String>, item: String, prior: Seq<String>, p: int)
    requires
        0 <= p <= prior.len(),
        forall|p2: int| 0 <= p2 < prior.len() ==> holds_item(taken, #[trigger] prior[p2]),
    ensures
        forall|p2: int| 0 <= p2 < prior.len() + 1 ==> holds_item(taken.push(item), #[trigger] prior.insert(p, item)[p2]),
{
    let next = taken.push(item);
    let sorted = prior.insert(p, item);
    assert forall|p2: int| 0 <= p2 < sorted.len() implies holds_item(next, #[trigger] sorted[p2]) by {
        if p2 == p {
            assert(next[taken.len() as int] == item);
        } else {
            let src = if p2 < p { p2 } else { p2 - 1 };
            assert(sorted[p2] == prior[src]);
            assert(holds_item(taken, prior[src]));
            let j = choose|j: int| 0 <= j < taken.len() && #[trigger] taken[j] == prior[src];
            assert(next[j] == taken[j]);
        }
    }
}

proof fn lemma_sorted_insert_texts(taken: Seq<String>, item: String, prior: Seq<String>, p: int)
    requires
        0 <= p <= prior.len(),
        forall|j: int| 0 <= j < taken.len() ==> holds_text(prior, #[trigger] taken[j]),
    ensures
        forall|j: int| 0 <= j < taken.len() + 1 ==> holds_text(prior.insert(p, item), #[trigger] taken.push(item)[j]),
{
    let next = taken.push(item);
    let sorted = prior.insert(p, item);
    assert forall|j: int| 0 <= j < next.len() implies holds_text(sorted, #[trigger] next[j]) by {
        if j < taken.len() {
            assert(next[j] == taken[j]);
            assert(holds_text(prior, taken[j]));
            let p3 = choose|p3: int| 0 <= p3 < prior.len() && (#[trigger] prior[p3])@ == taken[j]@;
            if p3 < p {
                assert(sorted[p3] == prior[p3]);
            } else {
                assert(sorted[p3 + 1] == prior[p3]);
            }
        } else {
            assert(sorted[p] == item);
        }
    }
}

proof fn lemma_sorted_insert(taken: Seq<String>, item: String, prior: Seq<String>, p: int)
    requires
        sorted_set_of(taken, prior),
        0 <= p <= prior.len(),
        forall|q: int| 0 <= q < p ==> lex_order(text_bytes(#[trigger] prior[q]), text_bytes(item)) < 0,
        p < prior.len() ==> lex_order(text_bytes(prior[p]), text_bytes(item)) > 0,
    ensures
        sorted_set_of(taken.push(item), prior.insert(p, item)),
{
    lemma_sorted_insert_order(item, prior, p);
    lemma_sorted_insert_items(taken, item, prior, p);
    lemma_sorted_insert_texts(taken, item, prior, p);
}

/// The strings in ascending byte order without repeats, as a set of
/// strings iterates.
pub fn sorted_unique(items: &Vec<String>) -> (r: Vec<String>)
    ensures
        sorted_set_of(items@, r@),
{
    let mut sorted: Vec<String> = Vec::new();
    let mut i: usize = 0;
    while i < items.len()
        invariant
            i <= items@.len(),
            sorted_set_of(items@.take(i as int), sorted@),
        decreases items@.len() - i,
    {
        let item = &items[i];
        let mut p: usize = 0;
        let mut found = false;
        let mut stop = false;
        while p < sorted.len() && !found && !stop
            invariant
                p <= sorted@.len(),
                found ==> p < sorted@.len() && lex_order(text_bytes(sorted@[p as int]), text_bytes(*item)) == 0,
                stop ==> p < sorted@.len() && lex_order(text_bytes(sorted@[p as int]), text_bytes(*item)) > 0,
                forall|q: int| 0 <= q < p ==> lex_order(text_bytes(#[trigger] sorted@[q]), text_bytes(*item)) < 0,
            decreases sorted@.len() - p + (if found || stop { 0int } else { 1int }),
        {
            let c = compare_text(&sorted[p], item);
            if c == 0 {
                found = true;
            } else if c > 0 {
                stop = true;
            } else {
                p = p + 1;
            }
        }
        let ghost prior = sorted@;
        proof {
            assert(items@.take(i + 1) =~= items@.take(i as int).push(*item));
        }
        if found {
            proof {
                lemma_sorted_found(items@.take(i as int), *item, prior, p as int);
            }
        } else {
            sorted.insert(p, item.clone());
            proof {
                lemma_sorted_insert(items@.take(i as int), *item, prior, p as int);
                assert(sorted@ =~= prior.insert(p as int, *item));
            }
        }
        i = i + 1;
    }
    proof {
        assert(items@.take(items@.len() as int) =~= items@);
    }
    sorted
}

// ---------------------------------------------------------------------------
// Materializing a vessel.

/// `k` is the last rule with the identity, the one a map of rules keyed by
/// identity keeps.
pub open spec fn is_rule_for(rules: Seq<WeaponRule>, id: Seq<char>, k: int) -> bool {
    &&& 0 <= k < rules.len()
    &&& rules[k].id@ == id
    &&& forall|j: int| k < j < rules.len() ==> (#[trigger] rules[j]).id@ != id
}

pub open spec fn has_rule(rules: Seq<WeaponRule>, id: Seq<char>) -> bool {
    exists|k: int| 0 <= k < rules.len() && (#[trigger] rules[k]).id@ == id
}

pub open spec fn rule_for(rules: Seq<WeaponRule>, id: Seq<char>) -> WeaponRule {
    rules[choose|k: int| is_rule_for(rules, id, k)]
}

proof fn lemma_rule_for(rules: Seq<WeaponRule>, id: Seq<char>, k: int)
    requires
        is_rule_for(rules, id, k),
    ensures
        rule_for(rules, id) == rules[k],
        has_rule(rules, id),
{
    let c = choose|c: int| is_rule_for(rules, id, c);
    assert(is_rule_for(rules, id, c));
    if c < k {
        assert(rules[k].id@ != id);
    } else if c > k {
        assert(rules[c].id@ != id);
    }
}

/// Every weapon of the mount has a rule.
pub open spec fn mount_resolves(rules: Seq<WeaponRule>, mount: ShipWeaponMountSpec) -> bool {
    forall|j: int| 0 <= j < mount.weapons@.len() ==> has_rule(rules, (#[trigger] mount.weapons@[j])@)
}

/// A mount can be fitted: its weapons have rules and its number fits in
/// sixteen bits.
pub open spec fn mount_fits(rules: Seq<WeaponRule>, mounts: Seq<ShipWeaponMountSpec>, index: int) -> bool {
    mount_resolves(rules, mounts[index]) && index < 65535
}

pub open spec fn all_mounts_fit(rules: Seq<WeaponRule>, mounts: Seq<ShipWeaponMountSpec>) -> bool {
    forall|i: int| 0 <= i < mounts.len() ==> #[trigger] mount_fits(rules, mounts, i)
}

/// Why the first mount that cannot be fitted fails: its first weapon without
/// a rule, or too many mounts.
pub open spec fn mount_failure(catalog_id: u32, rules: Seq<WeaponRule>, mount: ShipWeaponMountSpec) -> Seq<char> {
    if mount_resolves(rules, mount) {
        "too many weapon mounts"@
    } else {
        let j = choose|j: int|
            0 <= j < mount.weapons@.len() && !has_rule(rules, (#[trigger] mount.weapons@[j])@) && forall|q: int|
                0 <= q < j ==> has_rule(rules, (#[trigger] mount.weapons@[q])@);
        "ship "@ + decimal_spec(catalog_id as nat) + " installs unknown weapon "@ + mount.weapons@[j]@
    }
}

/// The first mount that cannot be fitted.
pub open spec fn first_unfit_mount(rules: Seq<WeaponRule>, mounts: Seq<ShipWeaponMountSpec>) -> int {
    choose|i: int|
        0 <= i < mounts.len() && !mount_fits(rules, mounts, i) && forall|q: int|
            0 <= q < i ==> #[trigger] mount_fits(rules, mounts, q)
}

/// A mount fitted from its specification: numbered from one, with the rule
/// of each of its weapons, undamaged and not yet fired.
pub open spec fn fitted_mount(
    rules: Seq<WeaponRule>,
    spec: ShipWeaponMountSpec,
    index: int,
    mount: WeaponMount,
) -> bool {
    &&& mount.mount_id == index + 1
    &&& mount.catalog_mount_id@ == spec.mount_id@
    &&& mount.weapons@.len() == spec.weapons@.len()
    &&& forall|j: int|
        0 <= j < spec.weapons@.len() ==> #[trigger] mount.weapons@[j] == rule_for(rules, spec.weapons@[j]@)
    &&& mount.damage_hits == 0
    &&& mount.battlefield_repair_hits == 0
    &&& mount.fired_round == 0
}

/// Hull and structure points: one per fifty tons of displacement, at least
/// one and at most what sixteen bits hold.
pub open spec fn hull_points(displacement_millitons: u64) -> u16 {
    let h = displacement_millitons / 50_000;
    if h < 1 {
        1
    } else if h > 65535 {
        65535
    } else {
        h as u16
    }
}

/// The fresh combat vessel for a ship.
pub open spec fn materialized(
    vessel: VesselState,
    vessel_id: u64,
    side: u16,
    name: String,
    catalog_id: u32,
    initiative: i16,
    status: ShipStatusSpec,
    combat: ShipCombatSpec,
    rules: Seq<WeaponRule>,
) -> bool {
    &&& vessel.vessel_id == vessel_id
    &&& vessel.side == side
    &&& vessel.name == name
    &&& vessel.catalog_id == catalog_id
    &&& vessel.displacement_millitons == status.displacement_millitons
    &&& vessel.thrust == status.thrust_g
    &&& vessel.initiative == initiative
    &&& vessel.hull_remaining == hull_points(status.displacement_millitons)
    &&& vessel.structure_remaining == hull_points(status.displacement_millitons)
    &&& vessel.armor_remaining == combat.armor_points
    &&& vessel.bridge_hits == 0 && vessel.sensors_hits == 0 && vessel.maneuver_hits == 0
    &&& vessel.jump_hits == 0 && vessel.power_hits == 0 && vessel.fuel_hits == 0
    &&& vessel.hold_hits == 0
    &&& vessel.battlefield_repairs@ == Seq::new(7, |i: int| 0u8)
    &&& vessel.crew_hits == 0
    &&& vessel.weapons@.len() == combat.weapons@.len()
    &&& forall|i: int|
        0 <= i < combat.weapons@.len() ==> fitted_mount(rules, combat.weapons@[i], i, #[trigger] vessel.weapons@[i])
    &&& vessel.ammunition@.len() == combat.ammunition@.len()
    &&& forall|k: int|
        0 <= k < combat.ammunition@.len() ==> (#[trigger] vessel.ammunition@[k]).ammunition_id
            == combat.ammunition@[k].ammunition_id && vessel.ammunition@[k].remaining
            == combat.ammunition@[k].quantity
    &&& sorted_set_of(combat.screens@, vessel.screens@)
    &&& vessel.reactions_remaining == reactions_spec(initiative)
    &&& vessel.evasive_dm == 0 && vessel.targeting_dm == 0 && vessel.line_up_dm == 0
    &&& vessel.disposition == VesselDisposition::Active
}

/// The last rule with the identity.
fn rule_position(rules: &Vec<WeaponRule>, id: &String) -> (r: Option<usize>)
    ensures
        match r {
            Some(k) => is_rule_for(rules@, id@, k as int),
            None => !has_rule(rules@, id@),
        },
{
    let mut k: usize = rules.len();
    while k > 0
        invariant
            k <= rules@.len(),
            forall|j: int| k <= j < rules@.len() ==> (#[trigger] rules@[j]).id@ != id@,
        decreases k,
    {
        if rules[k - 1].id == *id {
            return Some(k - 1);
        }
        k = k - 1;
    }
    None
}

fn fit_weapons(catalog_id: u32, rules: &Vec<WeaponRule>, spec: &ShipWeaponMountSpec) -> (r: Result<Vec<WeaponRule>, String>)
    ensures
        match r {
            Ok(fitted) => mount_resolves(rules@, *spec) && fitted@.len() == spec.weapons@.len()
                && forall|j: int| 0 <= j < spec.weapons@.len() ==> #[trigger] fitted@[j] == rule_for(rules@, spec.weapons@[j]@),
            Err(e) => !mount_resolves(rules@, *spec) && e@ == mount_failure(catalog_id, rules@, *spec),
        },
{
    let mut fitted: Vec<WeaponRule> = Vec::new();
    let mut j: usize = 0;
    while j < spec.weapons.len()
        invariant
            j <= spec.weapons@.len(),
            fitted@.len() == j,
            forall|q: int| 0 <= q < j ==> has_rule(rules@, (#[trigger] spec.weapons@[q])@),
            forall|q: int| 0 <= q < j ==> #[trigger] fitted@[q] == rule_for(rules@, spec.weapons@[q]@),
        decreases spec.weapons@.len() - j,
    {
        match rule_position(rules, &spec.weapons[j]) {
            Some(k) => {
                proof {
                    lemma_rule_for(rules@, spec.weapons@[j as int]@, k as int);
                }
                fitted.push(copy_rule(&rules[k]));
            },
            None => {
                let prefix = with_number("ship ", catalog_id as u64, " installs unknown weapon ");
                let message = prefix.concat(spec.weapons[j].as_str());
                proof {
                    let w = spec.weapons@;
                    assert(!has_rule(rules@, w[j as int]@));
                    let c = choose|c: int|
                        0 <= c < w.len() && !has_rule(rules@, (#[trigger] w[c])@) && forall|q: int|
                            0 <= q < c ==> has_rule(rules@, (#[trigger] w[q])@);
                    if c < j {
                        assert(has_rule(rules@, w[c]@));
                    } else if c > j {
                        assert(has_rule(rules@, w[j as int]@));
                    }
                }
                return Err(message);
            },
        }
        j = j + 1;
    }
    Ok(fitted)
}

pub fn materialize_vessel(
    vessel_id: u64,
    side: u16,
    name: String,
    catalog_id: u32,
    initiative: i16,
    status: Option<&ShipStatusSpec>,
    combat: Option<&ShipCombatSpec>,
    rules: &Vec<WeaponRule>,
) -> (r: Result<VesselState, String>)
    ensures
        status is None ==> (r matches Err(e) && e@ == "unknown ship catalog id "@ + decimal_spec(
            catalog_id as nat,
        )),
        status is Some && combat is None ==> (r matches Err(e) && e@ == "ship "@ + decimal_spec(
            catalog_id as nat,
        ) + " has no combat specification"@),
        status is Some && combat is Some && !all_mounts_fit(rules@, combat->0.weapons@) ==> (r matches Err(e)
            && e@ == mount_failure(
            catalog_id,
            rules@,
            combat->0.weapons@[first_unfit_mount(rules@, combat->0.weapons@)],
        )),
        status is Some && combat is Some && all_mounts_fit(rules@, combat->0.weapons@) ==> (r matches Ok(v)
            && materialized(v, vessel_id, side, name, catalog_id, initiative, *status->0, *combat->0, rules@)),
{
    let st = match status {
        Some(s) => s,
        None => {
            let message = with_number("unknown ship catalog id ", catalog_id as u64, "");
            proof {
                reveal_strlit("");
                assert(message@ =~= "unknown ship catalog id "@ + decimal_spec(catalog_id as nat));
            }
            return Err(message);
        },
    };
    let cb = match combat {
        Some(c) => c,
        None => {
            return Err(with_number("ship ", catalog_id as u64, " has no combat specification"));
        },
    };
    let mut weapons: Vec<WeaponMount> = Vec::new();
    let mut i: usize = 0;
    while i < cb.weapons.len()
        invariant
            i <= cb.weapons@.len(),
            status == Some(st),
            combat == Some(cb),
            weapons@.len() == i,
            forall|q: int| 0 <= q < i ==> #[trigger] mount_fits(rules@, cb.weapons@, q),
            forall|q: int| 0 <= q < i ==> fitted_mount(rules@, cb.weapons@[q], q, #[trigger] weapons@[q]),
        decreases cb.weapons@.len() - i,
    {
        let fitted = match fit_weapons(catalog_id, rules, &cb.weapons[i]) {
            Ok(fitted) => fitted,
            Err(e) => {
                proof {
                    assert(!mount_fits(rules@, cb.weapons@, i as int));
                    lemma_first_unfit(rules@, cb.weapons@, i as int);
                }
                return Err(e);
            },
        };
        if i >= 65535 {
            proof {
                assert(!mount_fits(rules@, cb.weapons@, i as int));
                lemma_first_unfit(rules@, cb.weapons@, i as int);
            }
            return Err(String::from_str("too many weapon mounts"));
        }
        weapons.push(
            WeaponMount {
                mount_id: (i + 1) as u16,
                catalog_mount_id: cb.weapons[i].mount_id.clone(),
                weapons: fitted,
                damage_hits: 0,
                battlefield_repair_hits: 0,
                fired_round: 0,
            },
        );
        i = i + 1;
    }
    let mut ammunition: Vec<AmmunitionLot> = Vec::new();
    let mut k: usize = 0;
    while k < cb.ammunition.len()
        invariant
            k <= cb.ammunition@.len(),
            ammunition@.len() == k,
            forall|q: int|
                0 <= q < k ==> (#[trigger] ammunition@[q]).ammunition_id == cb.ammunition@[q].ammunition_id
                    && ammunition@[q].remaining == cb.ammunition@[q].quantity,
        decreases cb.ammunition@.len() - k,
    {
        ammunition.push(
            AmmunitionLot {
                ammunition_id: cb.ammunition[k].ammunition_id.clone(),
                remaining: cb.ammunition[k].quantity,
            },
        );
        k = k + 1;
    }
    let tons = st.displacement_millitons / 50_000;
    let hull: u16 = if tons < 1 {
        1
    } else if tons > 65535 {
        65535
    } else {
        tons as u16
    };
    let vessel = VesselState {
        vessel_id,
        side,
        name,
        catalog_id,
        displacement_millitons: st.displacement_millitons,
        thrust: st.thrust_g,
        initiative,
        hull_remaining: hull,
        structure_remaining: hull,
        armor_remaining: cb.armor_points,
        bridge_hits: 0,
        sensors_hits: 0,
        maneuver_hits: 0,
        jump_hits: 0,
        power_hits: 0,
        fuel_hits: 0,
        hold_hits: 0,
        battlefield_repairs: [0; 7],
        crew_hits: 0,
        weapons,
        ammunition,
        screens: sorted_unique(&cb.screens),
        reactions_remaining: reactions_for_initiative(initiative),
        evasive_dm: 0,
        targeting_dm: 0,
        line_up_dm: 0,
        disposition: VesselDisposition::Active,
    };
    assert(vessel.battlefield_repairs@ =~= Seq::new(7, |i: int| 0u8));
    Ok(vessel)
}

proof fn lemma_first_unfit(rules: Seq<WeaponRule>, mounts: Seq<ShipWeaponMountSpec>, i: int)
    requires
        0 <= i < mounts.len(),
        !mount_fits(rules, mounts, i),
        forall|q: int| 0 <= q < i ==> #[trigger] mount_fits(rules, mounts, q),
    ensures
        first_unfit_mount(rules, mounts) == i,
        !all_mounts_fit(rules, mounts),
{
    let c = first_unfit_mount(rules, mounts);
    assert(0 <= i < mounts.len() && !mount_fits(rules, mounts, i) && forall|q: int|
        0 <= q < i ==> #[trigger] mount_fits(rules, mounts, q));
    if c < i {
        assert(mount_fits(rules, mounts, c));
    } else if c > i {
        assert(mount_fits(rules, mounts, i));
    }
}

} // verus!
