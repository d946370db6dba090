//! Hit locations, battle damage and battlefield repair of combat vessels.

use vstd::prelude::*;
use crate::combat::{
    d6, d6_spec, RepairTarget, VesselState, WeaponMount, WeaponRule, AmmunitionLot, PendingMissile,
    CombatState,
};

verus! {

// ---------------------------------------------------------------------------
// Saturating signed arithmetic.

pub open spec fn clamp_i8(x: int) -> i8 {
    if x > 127 {
        127
    } else if x < -128 {
        -128i8
    } else {
        x as i8
    }
}

pub fn sat_add_i8(a: i8, b: i8) -> (r: i8)
    ensures
        r == clamp_i8(a + b),
{
    let s: i16 = a as i16 + b as i16;
    if s > 127 {
        127
    } else if s < -128 {
        -128
    } else {
        s as i8
    }
}

pub open spec fn clamp_i16(x: int) -> i16 {
    if x > 32767 {
        32767
    } else if x < -32768 {
        -32768i16
    } else {
        x as i16
    }
}

pub fn sat_add_i16(a: i16, b: i16) -> (r: i16)
    ensures
        r == clamp_i16(a + b),
{
    let s: i32 = a as i32 + b as i32;
    if s > 32767 {
        32767
    } else if s < -32768 {
        -32768
    } else {
        s as i16
    }
}

// ---------------------------------------------------------------------------
// Copies.  Verus compares vectors by their contents, so a copy is stated as
// equal scalar fields and equal contents.

pub fn copy_rule(rule: &WeaponRule) -> (r: WeaponRule)
    ensures
        r == *rule,
{
    WeaponRule {
        id: rule.id.clone(),
        damage: rule.damage,
        difficulty_dm: rule.difficulty_dm,
        beam: rule.beam,
        missile: rule.missile,
        radiation: rule.radiation,
        meson: rule.meson,
        sand: rule.sand,
        bay: rule.bay,
        ammunition_id: match &rule.ammunition_id {
            Some(id) => Some(id.clone()),
            None => None,
        },
    }
}

pub fn copy_rules(rules: &Vec<WeaponRule>) -> (r: Vec<WeaponRule>)
    ensures
        r@ == rules@,
{
    let mut r: Vec<WeaponRule> = Vec::new();
    let mut i: usize = 0;
    while i < rules.len()
        invariant
            i <= rules@.len(),
            r@ == rules@.take(i as int),
        decreases rules@.len() - i,
    {
        r.push(copy_rule(&rules[i]));
        i = i + 1;
        assert(r@ =~= rules@.take(i as int));
    }
    assert(rules@.take(rules@.len() as int) =~= rules@);
    r
}

/// `b` holds the same mount as `a`.
pub open spec fn mount_copy(a: WeaponMount, b: WeaponMount) -> bool {
    b == (WeaponMount { weapons: b.weapons, ..a }) && b.weapons@ == a.weapons@
}

pub fn copy_mount(mount: &WeaponMount) -> (r: WeaponMount)
    ensures
        mount_copy(*mount, r),
{
    WeaponMount {
        mount_id: mount.mount_id,
        catalog_mount_id: mount.catalog_mount_id.clone(),
        weapons: copy_rules(&mount.weapons),
        damage_hits: mount.damage_hits,
        battlefield_repair_hits: mount.battlefield_repair_hits,
        fired_round: mount.fired_round,
    }
}

fn copy_lots(lots: &Vec<AmmunitionLot>) -> (r: Vec<AmmunitionLot>)
    ensures
        r@ == lots@,
{
    let mut r: Vec<AmmunitionLot> = Vec::new();
    let mut i: usize = 0;
    while i < lots.len()
        invariant
            i <= lots@.len(),
            r@ == lots@.take(i as int),
        decreases lots@.len() - i,
    {
        r.push(
            AmmunitionLot {
                ammunition_id: lots[i].ammunition_id.clone(),
                remaining: lots[i].remaining,
            },
        );
        i = i + 1;
        assert(r@ =~= lots@.take(i as int));
    }
    assert(lots@.take(lots@.len() as int) =~= lots@);
    r
}

fn copy_strings(items: &Vec<String>) -> (r: Vec<String>)
    ensures
        r@ == items@,
{
    let mut r: Vec<String> = Vec::new();
    let mut i: usize = 0;
    while i < items.len()
        invariant
            i <= items@.len(),
            r@ == items@.take(i as int),
        decreases items@.len() - i,
    {
        r.push(items[i].clone());
        i = i + 1;
        assert(r@ =~= items@.take(i as int));
    }
    assert(items@.take(items@.len() as int) =~= items@);
    r
}

/// `b` holds the same vessel as `a`.
pub open spec fn vessel_copy(a: VesselState, b: VesselState) -> bool {
    &&& b == (VesselState {
        weapons: b.weapons,
        ammunition: b.ammunition,
        screens: b.screens,
        ..a
    })
    &&& b.ammunition@ == a.ammunition@
    &&& b.screens@ == a.screens@
    &&& b.weapons@.len() == a.weapons@.len()
    &&& forall|i: int| 0 <= i < a.weapons@.len() ==> mount_copy(a.weapons@[i], #[trigger] b.weapons@[i])
}

pub fn copy_vessel(vessel: &VesselState) -> (r: VesselState)
    ensures
        vessel_copy(*vessel, r),
{
    let mut weapons: Vec<WeaponMount> = Vec::new();
    let mut i: usize = 0;
    while i < vessel.weapons.len()
        invariant
            i <= vessel.weapons@.len(),
            weapons@.len() == i,
            forall|j: int| 0 <= j < i ==> mount_copy(vessel.weapons@[j], #[trigger] weapons@[j]),
        decreases vessel.weapons@.len() - i,
    {
        weapons.push(copy_mount(&vessel.weapons[i]));
        i = i + 1;
    }
    VesselState {
        vessel_id: vessel.vessel_id,
        side: vessel.side,
        name: vessel.name.clone(),
        catalog_id: vessel.catalog_id,
        displacement_millitons: vessel.displacement_millitons,
        thrust: vessel.thrust,
        initiative: vessel.initiative,
        hull_remaining: vessel.hull_remaining,
        structure_remaining: vessel.structure_remaining,
        armor_remaining: vessel.armor_remaining,
        bridge_hits: vessel.bridge_hits,
        sensors_hits: vessel.sensors_hits,
        maneuver_hits: vessel.maneuver_hits,
        jump_hits: vessel.jump_hits,
        power_hits: vessel.power_hits,
        fuel_hits: vessel.fuel_hits,
        hold_hits: vessel.hold_hits,
        battlefield_repairs: vessel.battlefield_repairs,
        crew_hits: vessel.crew_hits,
        weapons,
        ammunition: copy_lots(&vessel.ammunition),
        screens: copy_strings(&vessel.screens),
        reactions_remaining: vessel.reactions_remaining,
        evasive_dm: vessel.evasive_dm,
        targeting_dm: vessel.targeting_dm,
        line_up_dm: vessel.line_up_dm,
        disposition: vessel.disposition,
    }
}

/// `b` holds the same combat as `a`.
pub open spec fn state_copy(a: CombatState, b: CombatState) -> bool {
    &&& b == (CombatState {
        vessels: b.vessels,
        missiles: b.missiles,
        boarding: b.boarding,
        ..a
    })
    &&& b.missiles@ == a.missiles@
    &&& b.boarding@ == a.boarding@
    &&& b.vessels@.len() == a.vessels@.len()
    &&& forall|i: int| 0 <= i < a.vessels@.len() ==> vessel_copy(a.vessels@[i], #[trigger] b.vessels@[i])
}

pub fn copy_state(state: &CombatState) -> (r: CombatState)
    ensures
        state_copy(*state, r),
{
    let mut vessels: Vec<VesselState> = Vec::new();
    let mut i: usize = 0;
    while i < state.vessels.len()
        invariant
            i <= state.vessels@.len(),
            vessels@.len() == i,
            forall|j: int| 0 <= j < i ==> vessel_copy(state.vessels@[j], #[trigger] vessels@[j]),
        decreases state.vessels@.len() - i,
    {
        vessels.push(copy_vessel(&state.vessels[i]));
        i = i + 1;
    }
    let mut missiles: Vec<PendingMissile> = Vec::new();
    let mut k: usize = 0;
    while k < state.missiles.len()
        invariant
            k <= state.missiles@.len(),
            missiles@ == state.missiles@.take(k as int),
        decreases state.missiles@.len() - k,
    {
        let m = &state.missiles[k];
        missiles.push(
            PendingMissile {
                missile_id: m.missile_id,
                source_vessel_id: m.source_vessel_id,
                target_vessel_id: m.target_vessel_id,
                weapon: copy_rule(&m.weapon),
                hit_target: m.hit_target,
                impact_round: m.impact_round,
            },
        );
        k = k + 1;
        assert(missiles@ =~= state.missiles@.take(k as int));
    }
    assert(state.missiles@.take(state.missiles@.len() as int) =~= state.missiles@);
    let mut boarding = Vec::new();
    let mut b: usize = 0;
    while b < state.boarding.len()
        invariant
            b <= state.boarding@.len(),
            boarding@ == state.boarding@.take(b as int),
        decreases state.boarding@.len() - b,
    {
        boarding.push(state.boarding[b]);
        b = b + 1;
        assert(boarding@ =~= state.boarding@.take(b as int));
    }
    assert(state.boarding@.take(state.boarding@.len() as int) =~= state.boarding@);
    CombatState {
        combat_id: state.combat_id,
        revision: state.revision,
        round: state.round,
        round_started_second: state.round_started_second,
        range: state.range,
        vessels,
        missiles,
        boarding,
        complete: state.complete,
    }
}

// ---------------------------------------------------------------------------
// Weapon mounts by identity.

pub open spec fn is_first_mount(mounts: Seq<WeaponMount>, mount_id: u16, index: int) -> bool {
    &&& 0 <= index < mounts.len()
    &&& mounts[index].mount_id == mount_id
    &&& forall|j: int| 0 <= j < index ==> mounts[j].mount_id != mount_id
}

pub open spec fn has_mount(mounts: Seq<WeaponMount>, mount_id: u16) -> bool {
    exists|i: int| 0 <= i < mounts.len() && #[trigger] mounts[i].mount_id == mount_id
}

pub open spec fn first_mount(mounts: Seq<WeaponMount>, mount_id: u16) -> int {
    choose|i: int| is_first_mount(mounts, mount_id, i)
}

pub proof fn lemma_first_mount(mounts: Seq<WeaponMount>, mount_id: u16, index: int)
    requires
        is_first_mount(mounts, mount_id, index),
    ensures
        first_mount(mounts, mount_id) == index,
        has_mount(mounts, mount_id),
{
    let f = first_mount(mounts, mount_id);
    assert(is_first_mount(mounts, mount_id, f));
    if f < index {
        assert(mounts[f].mount_id != mount_id);
    } else if f > index {
        assert(mounts[index].mount_id != mount_id);
    }
}

pub fn mount_position(mounts: &Vec<WeaponMount>, mount_id: u16) -> (r: Option<usize>)
    ensures
        match r {
            Some(i) => is_first_mount(mounts@, mount_id, i as int),
            None => !has_mount(mounts@, mount_id),
        },
{
    let mut i: usize = 0;
    while i < mounts.len()
        invariant
            i <= mounts@.len(),
            forall|j: int| 0 <= j < i ==> mounts@[j].mount_id != mount_id,
        decreases mounts@.len() - i,
    {
        if mounts[i].mount_id == mount_id {
            return Some(i);
        }
        i = i + 1;
    }
    None
}

// ---------------------------------------------------------------------------
// System damage and battlefield repair.

/// The slot of the battlefield-repair record that covers a system.
pub open spec fn repair_slot(target: RepairTarget) -> Option<int> {
    match target {
        RepairTarget::Bridge => Some(0),
        RepairTarget::Sensors => Some(1),
        RepairTarget::ManeuverDrive => Some(2),
        RepairTarget::JumpDrive => Some(3),
        RepairTarget::PowerPlant => Some(4),
        RepairTarget::FuelSystem => Some(5),
        RepairTarget::CargoHold => Some(6),
        RepairTarget::WeaponMount(_) => None,
    }
}

/// The system that a repair slot covers.
pub open spec fn slot_target(slot: int) -> RepairTarget {
    if slot == 0 {
        RepairTarget::Bridge
    } else if slot == 1 {
        RepairTarget::Sensors
    } else if slot == 2 {
        RepairTarget::ManeuverDrive
    } else if slot == 3 {
        RepairTarget::JumpDrive
    } else if slot == 4 {
        RepairTarget::PowerPlant
    } else if slot == 5 {
        RepairTarget::FuelSystem
    } else {
        RepairTarget::CargoHold
    }
}

/// Hits taken by the system that a repair slot covers.
pub open spec fn slot_hits(vessel: VesselState, slot: int) -> u8 {
    if slot == 0 {
        vessel.bridge_hits
    } else if slot == 1 {
        vessel.sensors_hits
    } else if slot == 2 {
        vessel.maneuver_hits
    } else if slot == 3 {
        vessel.jump_hits
    } else if slot == 4 {
        vessel.power_hits
    } else if slot == 5 {
        vessel.fuel_hits
    } else {
        vessel.hold_hits
    }
}

pub open spec fn system_hits_spec(vessel: VesselState, target: RepairTarget) -> u8 {
    match target {
        RepairTarget::WeaponMount(mount_id) => if has_mount(vessel.weapons@, mount_id) {
            vessel.weapons@[first_mount(vessel.weapons@, mount_id)].damage_hits
        } else {
            0
        },
        _ => slot_hits(vessel, repair_slot(target)->0),
    }
}

/// Damage that battlefield repair has not yet covered.
pub open spec fn effective_hits_spec(vessel: VesselState, target: RepairTarget) -> u8 {
    match target {
        RepairTarget::WeaponMount(mount_id) => if has_mount(vessel.weapons@, mount_id) {
            let mount = vessel.weapons@[first_mount(vessel.weapons@, mount_id)];
            mount.damage_hits.saturating_sub(mount.battlefield_repair_hits)
        } else {
            0
        },
        _ => {
            let slot = repair_slot(target)->0;
            slot_hits(vessel, slot).saturating_sub(vessel.battlefield_repairs[slot])
        },
    }
}

fn repair_index(target: RepairTarget) -> (r: Option<usize>)
    ensures
        match repair_slot(target) {
            Some(slot) => r == Some(slot as usize),
            None => r is None,
        },
{
    match target {
        RepairTarget::Bridge => Some(0),
        RepairTarget::Sensors => Some(1),
        RepairTarget::ManeuverDrive => Some(2),
        RepairTarget::JumpDrive => Some(3),
        RepairTarget::PowerPlant => Some(4),
        RepairTarget::FuelSystem => Some(5),
        RepairTarget::CargoHold => Some(6),
        RepairTarget::WeaponMount(_) => None,
    }
}

fn slot_hits_of(vessel: &VesselState, slot: usize) -> (r: u8)
    ensures
        r == slot_hits(*vessel, slot as int),
{
    if slot == 0 {
        vessel.bridge_hits
    } else if slot == 1 {
        vessel.sensors_hits
    } else if slot == 2 {
        vessel.maneuver_hits
    } else if slot == 3 {
        vessel.jump_hits
    } else if slot == 4 {
        vessel.power_hits
    } else if slot == 5 {
        vessel.fuel_hits
    } else {
        vessel.hold_hits
    }
}

pub fn system_hits(vessel: &VesselState, target: RepairTarget) -> (r: u8)
    ensures
        r == system_hits_spec(*vessel, target),
{
    match target {
        RepairTarget::WeaponMount(mount_id) => match mount_position(&vessel.weapons, mount_id) {
            Some(i) => {
                proof {
                    lemma_first_mount(vessel.weapons@, mount_id, i as int);
                }
                vessel.weapons[i].damage_hits
            },
            None => 0,
        },
        _ => {
            let slot = repair_index(target);
            slot_hits_of(vessel, slot.unwrap())
        },
    }
}

pub fn effective_system_hits(vessel: &VesselState, target: RepairTarget) -> (r: u8)
    ensures
        r == effective_hits_spec(*vessel, target),
{
    match repair_index(target) {
        Some(index) => {
            system_hits(vessel, target).saturating_sub(vessel.battlefield_repairs[index])
        },
        None => {
            let mount_id = match target {
                RepairTarget::WeaponMount(mount_id) => mount_id,
                _ => {
                    return system_hits(vessel, target);
                },
            };
            match mount_position(&vessel.weapons, mount_id) {
                Some(i) => {
                    proof {
                        lemma_first_mount(vessel.weapons@, mount_id, i as int);
                    }
                    vessel.weapons[i].damage_hits.saturating_sub(
                        vessel.weapons[i].battlefield_repair_hits,
                    )
                },
                None => 0,
            }
        },
    }
}

/// A system whose damage is not fully covered by battlefield repair.
pub open spec fn uncovered(vessel: VesselState, slot: int) -> bool {
    vessel.battlefield_repairs[slot] < slot_hits(vessel, slot)
}

/// The next system that damage control covers: power plant, maneuver drive,
/// jump drive, bridge, sensors, fuel system, then cargo hold.
pub open spec fn next_repair_slot(vessel: VesselState) -> Option<int> {
    if uncovered(vessel, 4) {
        Some(4)
    } else if uncovered(vessel, 2) {
        Some(2)
    } else if uncovered(vessel, 3) {
        Some(3)
    } else if uncovered(vessel, 0) {
        Some(0)
    } else if uncovered(vessel, 1) {
        Some(1)
    } else if uncovered(vessel, 5) {
        Some(5)
    } else if uncovered(vessel, 6) {
        Some(6)
    } else {
        None
    }
}

/// `index` is the first mount with uncovered damage.
pub open spec fn is_first_worn_mount(mounts: Seq<WeaponMount>, index: int) -> bool {
    &&& 0 <= index < mounts.len()
    &&& mounts[index].battlefield_repair_hits < mounts[index].damage_hits
    &&& forall|j: int|
        0 <= j < index ==> !(mounts[j].battlefield_repair_hits < mounts[j].damage_hits)
}

pub open spec fn has_worn_mount(mounts: Seq<WeaponMount>) -> bool {
    exists|i: int|
        0 <= i < mounts.len() && #[trigger] mounts[i].battlefield_repair_hits
            < mounts[i].damage_hits
}

/// One battlefield repair turns `before` into `after` and reports `repaired`.
pub open spec fn repair_step(
    before: VesselState,
    after: VesselState,
    repaired: Option<RepairTarget>,
) -> bool {
    match next_repair_slot(before) {
        Some(slot) => {
            &&& repaired == Some(slot_target(slot))
            &&& after == (VesselState { battlefield_repairs: after.battlefield_repairs, ..before })
            &&& after.battlefield_repairs@ == before.battlefield_repairs@.update(
                slot,
                (before.battlefield_repairs[slot] + 1) as u8,
            )
        },
        None => if has_worn_mount(before.weapons@) {
            exists|k: int|
                #![trigger before.weapons@[k]]
                is_first_worn_mount(before.weapons@, k) && repaired == Some(
                    RepairTarget::WeaponMount(before.weapons@[k].mount_id),
                ) && after == (VesselState { weapons: after.weapons, ..before })
                    && after.weapons@ == before.weapons@.update(
                    k,
                    WeaponMount {
                        battlefield_repair_hits: (before.weapons@[k].battlefield_repair_hits
                            + 1) as u8,
                        ..before.weapons@[k]
                    },
                )
        } else {
            repaired is None && after == before
        },
    }
}

/// Damage that battlefield repair covers is at most the damage taken.
pub open spec fn repairs_within_damage(vessel: VesselState) -> bool {
    &&& forall|slot: int| 0 <= slot < 7 ==> vessel.battlefield_repairs[slot] <= slot_hits(vessel, slot)
    &&& forall|i: int|
        0 <= i < vessel.weapons@.len() ==> #[trigger] vessel.weapons@[i].battlefield_repair_hits
            <= vessel.weapons@[i].damage_hits
}

/// The hit counters of two vessels agree: repair covers damage, it never
/// removes it.
pub open spec fn same_damage(a: VesselState, b: VesselState) -> bool {
    &&& a.hull_remaining == b.hull_remaining
    &&& a.structure_remaining == b.structure_remaining
    &&& a.armor_remaining == b.armor_remaining
    &&& forall|slot: int| 0 <= slot < 7 ==> slot_hits(a, slot) == slot_hits(b, slot)
    &&& a.crew_hits == b.crew_hits
    &&& a.weapons@.len() == b.weapons@.len()
    &&& forall|i: int|
        0 <= i < a.weapons@.len() ==> #[trigger] a.weapons@[i].damage_hits
            == b.weapons@[i].damage_hits
}

pub fn apply_one_battlefield_repair(vessel: &mut VesselState) -> (r: Option<RepairTarget>)
    ensures
        repair_step(*old(vessel), *final(vessel), r),
        same_damage(*old(vessel), *final(vessel)),
        repairs_within_damage(*old(vessel)) ==> repairs_within_damage(*final(vessel)),
{
    let order: [usize; 7] = [4, 2, 3, 0, 1, 5, 6];
    let mut k: usize = 0;
    while k < 7
        invariant
            k <= 7,
            order@ == seq![4usize, 2, 3, 0, 1, 5, 6],
            *vessel == *old(vessel),
            forall|j: int| 0 <= j < k ==> !uncovered(*vessel, order@[j] as int),
        decreases 7 - k,
    {
        let slot = order[k];
        if vessel.battlefield_repairs[slot] < slot_hits_of(vessel, slot) {
            vessel.battlefield_repairs[slot] = vessel.battlefield_repairs[slot] + 1;
            let ghost before = *old(vessel);
            assert(!uncovered(before, 4) ==> order@[0] == 4);
            assert(next_repair_slot(before) == Some(slot as int)) by {
                assert(order@[0] == 4 && order@[1] == 2 && order@[2] == 3 && order@[3] == 0
                    && order@[4] == 1 && order@[5] == 5 && order@[6] == 6);
            }
            assert(vessel.battlefield_repairs@ =~= before.battlefield_repairs@.update(
                slot as int,
                (before.battlefield_repairs[slot as int] + 1) as u8,
            ));
            assert(repairs_within_damage(before) ==> repairs_within_damage(*vessel)) by {
                if repairs_within_damage(before) {
                    assert forall|q: int| 0 <= q < 7 implies vessel.battlefield_repairs[q] <= slot_hits(
                        *vessel,
                        q,
                    ) by {
                        assert(slot_hits(*vessel, q) == slot_hits(before, q));
                        if q != slot as int {
                            assert(vessel.battlefield_repairs@[q] == before.battlefield_repairs@[q]);
                        }
                    }
                }
            }
            return Some(slot_target_exec(slot));
        }
        k = k + 1;
    }
    assert(next_repair_slot(*vessel) is None) by {
        assert(order@[0] == 4 && order@[1] == 2 && order@[2] == 3 && order@[3] == 0
            && order@[4] == 1 && order@[5] == 5 && order@[6] == 6);
        assert(!uncovered(*vessel, 4) && !uncovered(*vessel, 2) && !uncovered(*vessel, 3));
        assert(!uncovered(*vessel, 0) && !uncovered(*vessel, 1) && !uncovered(*vessel, 5));
        assert(!uncovered(*vessel, 6));
    }
    let mut m: usize = 0;
    while m < vessel.weapons.len()
        invariant
            m <= vessel.weapons@.len(),
            *vessel == *old(vessel),
            next_repair_slot(*old(vessel)) is None,
            forall|j: int|
                0 <= j < m ==> !(vessel.weapons@[j].battlefield_repair_hits
                    < vessel.weapons@[j].damage_hits),
        decreases vessel.weapons@.len() - m,
    {
        if vessel.weapons[m].battlefield_repair_hits < vessel.weapons[m].damage_hits {
            let ghost before = *old(vessel);
            vessel.weapons[m].battlefield_repair_hits = vessel.weapons[m].battlefield_repair_hits
                + 1;
            let id = vessel.weapons[m].mount_id;
            assert(is_first_worn_mount(before.weapons@, m as int));
            assert(vessel.weapons@ =~= before.weapons@.update(
                m as int,
                WeaponMount {
                    battlefield_repair_hits: (before.weapons@[m as int].battlefield_repair_hits
                        + 1) as u8,
                    ..before.weapons@[m as int]
                },
            ));
            assert(before.weapons@[m as int].mount_id == id);
            assert(has_worn_mount(before.weapons@)) by {
                assert(before.weapons@[m as int].battlefield_repair_hits
                    < before.weapons@[m as int].damage_hits);
            }
            assert(*vessel == (VesselState { weapons: vessel.weapons, ..before }));
            assert(repair_step(before, *vessel, Some(RepairTarget::WeaponMount(id)))) by {
                let k = m as int;
                assert(next_repair_slot(before) is None);
                assert(is_first_worn_mount(before.weapons@, k) && Some(RepairTarget::WeaponMount(id))
                    == Some(RepairTarget::WeaponMount(before.weapons@[k].mount_id)) && *vessel == (
                VesselState { weapons: vessel.weapons, ..before }) && vessel.weapons@
                    == before.weapons@.update(
                    k,
                    WeaponMount {
                        battlefield_repair_hits: (before.weapons@[k].battlefield_repair_hits
                            + 1) as u8,
                        ..before.weapons@[k]
                    },
                ));
            }
            assert(same_damage(before, *vessel)) by {
                assert forall|i: int| 0 <= i < before.weapons@.len() implies #[trigger] before.weapons@[i].damage_hits
                    == vessel.weapons@[i].damage_hits by {
                    if i == m as int {
                    } else {
                    }
                }
            }
            assert(repairs_within_damage(before) ==> repairs_within_damage(*vessel)) by {
                if repairs_within_damage(before) {
                    assert forall|i: int| 0 <= i < vessel.weapons@.len() implies #[trigger] vessel.weapons@[i].battlefield_repair_hits
                        <= vessel.weapons@[i].damage_hits by {
                        if i == m as int {
                        } else {
                            assert(vessel.weapons@[i] == before.weapons@[i]);
                        }
                    }
                }
            }
            return Some(RepairTarget::WeaponMount(id));
        }
        m = m + 1;
    }
    None
}

fn slot_target_exec(slot: usize) -> (r: RepairTarget)
    ensures
        r == slot_target(slot as int),
{
    if slot == 0 {
        RepairTarget::Bridge
    } else if slot == 1 {
        RepairTarget::Sensors
    } else if slot == 2 {
        RepairTarget::ManeuverDrive
    } else if slot == 3 {
        RepairTarget::JumpDrive
    } else if slot == 4 {
        RepairTarget::PowerPlant
    } else if slot == 5 {
        RepairTarget::FuelSystem
    } else {
        RepairTarget::CargoHold
    }
}

// ---------------------------------------------------------------------------
// Hit locations.

#[derive(Clone, Copy, Debug, PartialEq, Eq, Structural)]
pub enum HitLocation {
    Hull,
    Structure,
    Sensors,
    PowerPlant,
    ManeuverDrive,
    JumpDrive,
    WeaponMount,
    ArmorThenHull,
    Crew,
    FuelSystem,
    CargoHold,
}

/// The CE hit-location table for a 2D roll on the surface or inside the
/// hull of a vessel, with its own column for small craft.
pub open spec fn hit_location_spec(roll: i16, internal: bool, small: bool) -> HitLocation {
    if (!internal && (roll == 2 || roll == 6 || roll == 8 || roll == 12)) || (small && (roll == 2
        || roll == 6 || roll == 8)) {
        HitLocation::Hull
    } else if internal && (roll == 2 || roll == 6 || roll == 8) {
        HitLocation::Structure
    } else if !internal && !small && (roll == 3 || roll == 11) {
        HitLocation::Sensors
    } else if internal && !small && (roll == 3 || roll == 11) {
        HitLocation::PowerPlant
    } else if !internal && (roll == 4 || roll == 10) {
        HitLocation::ManeuverDrive
    } else if internal && !small && (roll == 4 || roll == 10) {
        HitLocation::JumpDrive
    } else if (!internal && !small && roll == 5) || (small && roll == 9) {
        HitLocation::WeaponMount
    } else if internal && !small && roll == 5 {
        HitLocation::WeaponMount
    } else if !internal && roll == 7 {
        HitLocation::ArmorThenHull
    } else if internal && (roll == 7 || roll == 11 || roll == 12) {
        HitLocation::Crew
    } else if (!internal && !small && roll == 9) || (small && roll == 5) {
        HitLocation::FuelSystem
    } else if (internal && !small && roll == 9) || (small && roll == 4) {
        HitLocation::CargoHold
    } else if small && roll == 10 {
        HitLocation::ManeuverDrive
    } else if small && roll == 3 {
        HitLocation::PowerPlant
    } else {
        HitLocation::Structure
    }
}

pub fn hit_location(roll: i16, internal: bool, small: bool) -> (r: HitLocation)
    ensures
        r == hit_location_spec(roll, internal, small),
{
    if (!internal && (roll == 2 || roll == 6 || roll == 8 || roll == 12)) || (small && (roll == 2
        || roll == 6 || roll == 8)) {
        HitLocation::Hull
    } else if internal && (roll == 2 || roll == 6 || roll == 8) {
        HitLocation::Structure
    } else if !internal && !small && (roll == 3 || roll == 11) {
        HitLocation::Sensors
    } else if internal && !small && (roll == 3 || roll == 11) {
        HitLocation::PowerPlant
    } else if !internal && (roll == 4 || roll == 10) {
        HitLocation::ManeuverDrive
    } else if internal && !small && (roll == 4 || roll == 10) {
        HitLocation::JumpDrive
    } else if (!internal && !small && roll == 5) || (small && roll == 9) {
        HitLocation::WeaponMount
    } else if internal && !small && roll == 5 {
        HitLocation::WeaponMount
    } else if !internal && roll == 7 {
        HitLocation::ArmorThenHull
    } else if internal && (roll == 7 || roll == 11 || roll == 12) {
        HitLocation::Crew
    } else if (!internal && !small && roll == 9) || (small && roll == 5) {
        HitLocation::FuelSystem
    } else if (internal && !small && roll == 9) || (small && roll == 4) {
        HitLocation::CargoHold
    } else if small && roll == 10 {
        HitLocation::ManeuverDrive
    } else if small && roll == 3 {
        HitLocation::PowerPlant
    } else {
        HitLocation::Structure
    }
}

/// One hit at `location` turns `before` into `after`; a hit on the weapon
/// mounts falls on the mount that the entropy word picks, or on the hull of
/// a vessel without mounts.
pub open spec fn hit_applied(
    before: VesselState,
    after: VesselState,
    location: HitLocation,
    entropy: u64,
) -> bool {
    match location {
        HitLocation::Hull => after == (VesselState {
            hull_remaining: before.hull_remaining.saturating_sub(1),
            ..before
        }),
        HitLocation::Structure => after == (VesselState {
            structure_remaining: before.structure_remaining.saturating_sub(1),
            ..before
        }),
        HitLocation::Sensors => after == (VesselState {
            sensors_hits: before.sensors_hits.saturating_add(1),
            ..before
        }),
        HitLocation::PowerPlant => after == (VesselState {
            power_hits: before.power_hits.saturating_add(1),
            ..before
        }),
        HitLocation::ManeuverDrive => after == (VesselState {
            maneuver_hits: before.maneuver_hits.saturating_add(1),
            ..before
        }),
        HitLocation::JumpDrive => after == (VesselState {
            jump_hits: before.jump_hits.saturating_add(1),
            ..before
        }),
        HitLocation::FuelSystem => after == (VesselState {
            fuel_hits: before.fuel_hits.saturating_add(1),
            ..before
        }),
        HitLocation::CargoHold => after == (VesselState {
            hold_hits: before.hold_hits.saturating_add(1),
            ..before
        }),
        HitLocation::Crew => after == (VesselState {
            crew_hits: before.crew_hits.saturating_add(1),
            ..before
        }),
        HitLocation::ArmorThenHull => if before.armor_remaining > 0 {
            after == (VesselState { armor_remaining: (before.armor_remaining - 1) as u16, ..before })
        } else {
            after == (VesselState {
                hull_remaining: before.hull_remaining.saturating_sub(1),
                ..before
            })
        },
        HitLocation::WeaponMount => if before.weapons@.len() == 0 {
            after == (VesselState {
                hull_remaining: before.hull_remaining.saturating_sub(1),
                ..before
            })
        } else {
            let k = (entropy as usize) as int % (before.weapons@.len() as int);
            &&& after == (VesselState { weapons: after.weapons, ..before })
            &&& after.weapons@ == before.weapons@.update(
                k,
                WeaponMount {
                    damage_hits: before.weapons@[k].damage_hits.saturating_add(1),
                    ..before.weapons@[k]
                },
            )
        },
    }
}

fn hit_random_mount(vessel: &mut VesselState, entropy: u64)
    ensures
        hit_applied(*old(vessel), *final(vessel), HitLocation::WeaponMount, entropy),
{
    if vessel.weapons.len() == 0 {
        vessel.hull_remaining = vessel.hull_remaining.saturating_sub(1);
    } else {
        let ghost before = *vessel;
        let index = (entropy as usize) % vessel.weapons.len();
        vessel.weapons[index].damage_hits = vessel.weapons[index].damage_hits.saturating_add(1);
        assert(vessel.weapons@ =~= before.weapons@.update(
            index as int,
            WeaponMount {
                damage_hits: before.weapons@[index as int].damage_hits.saturating_add(1),
                ..before.weapons@[index as int]
            },
        ));
    }
}

fn apply_one_hit(vessel: &mut VesselState, location: HitLocation, entropy: u64)
    ensures
        hit_applied(*old(vessel), *final(vessel), location, entropy),
{
    match location {
        HitLocation::Hull => {
            vessel.hull_remaining = vessel.hull_remaining.saturating_sub(1);
        },
        HitLocation::Structure => {
            vessel.structure_remaining = vessel.structure_remaining.saturating_sub(1);
        },
        HitLocation::Sensors => {
            vessel.sensors_hits = vessel.sensors_hits.saturating_add(1);
        },
        HitLocation::PowerPlant => {
            vessel.power_hits = vessel.power_hits.saturating_add(1);
        },
        HitLocation::ManeuverDrive => {
            vessel.maneuver_hits = vessel.maneuver_hits.saturating_add(1);
        },
        HitLocation::JumpDrive => {
            vessel.jump_hits = vessel.jump_hits.saturating_add(1);
        },
        HitLocation::FuelSystem => {
            vessel.fuel_hits = vessel.fuel_hits.saturating_add(1);
        },
        HitLocation::CargoHold => {
            vessel.hold_hits = vessel.hold_hits.saturating_add(1);
        },
        HitLocation::Crew => {
            vessel.crew_hits = vessel.crew_hits.saturating_add(1);
        },
        HitLocation::ArmorThenHull => {
            if vessel.armor_remaining > 0 {
                vessel.armor_remaining = vessel.armor_remaining - 1;
            } else {
                vessel.hull_remaining = vessel.hull_remaining.saturating_sub(1);
            }
        },
        HitLocation::WeaponMount => {
            hit_random_mount(vessel, entropy);
        },
    }
}

/// The 2D location roll of a group of hits.
pub open spec fn group_roll(entropy: u64) -> i16 {
    (d6_spec(entropy, 0) + d6_spec(entropy, 8)) as i16
}

/// `trace` runs from `before` to `after` through `count` hits of one group:
/// every hit of the group uses the group's location roll, and a hit falls
/// inside the hull once the hull is gone or when the weapon forces it.
pub open spec fn group_trace(
    trace: Seq<VesselState>,
    before: VesselState,
    after: VesselState,
    count: u8,
    entropy: u64,
    force_internal: bool,
) -> bool {
    &&& trace.len() == count + 1
    &&& trace[0] == before
    &&& trace[count as int] == after
    &&& forall|j: int|
        0 <= j < count ==> hit_applied(
            #[trigger] trace[j],
            trace[j + 1],
            hit_location_spec(
                group_roll(entropy),
                force_internal || trace[j].hull_remaining == 0,
                before.displacement_millitons < 100_000,
            ),
            entropy,
        )
}

/// Fields that no hit changes.
pub open spec fn same_identity(a: VesselState, b: VesselState) -> bool {
    &&& a.vessel_id == b.vessel_id
    &&& a.side == b.side
    &&& a.name == b.name
    &&& a.catalog_id == b.catalog_id
    &&& a.displacement_millitons == b.displacement_millitons
    &&& a.thrust == b.thrust
    &&& a.screens@ == b.screens@
    &&& a.initiative == b.initiative
    &&& a.disposition == b.disposition
    &&& a.weapons@.len() == b.weapons@.len()
    &&& forall|i: int|
        0 <= i < a.weapons@.len() ==> (#[trigger] b.weapons@[i]).mount_id == a.weapons@[i].mount_id
            && b.weapons@[i].fired_round == a.weapons@[i].fired_round
            && b.weapons@[i].battlefield_repair_hits == a.weapons@[i].battlefield_repair_hits
            && b.weapons@[i].weapons@ == a.weapons@[i].weapons@
    &&& a.ammunition@ == b.ammunition@
    &&& a.reactions_remaining == b.reactions_remaining
    &&& a.evasive_dm == b.evasive_dm
    &&& a.targeting_dm == b.targeting_dm
    &&& a.line_up_dm == b.line_up_dm
    &&& a.battlefield_repairs == b.battlefield_repairs
}

proof fn lemma_hit_keeps_identity(a: VesselState, b: VesselState, location: HitLocation, entropy: u64)
    requires
        hit_applied(a, b, location, entropy),
    ensures
        same_identity(a, b),
        b.structure_remaining <= a.structure_remaining,
        b.hull_remaining <= a.hull_remaining,
{
    if location == HitLocation::WeaponMount && a.weapons@.len() > 0 {
        let k = (entropy as usize) as int % (a.weapons@.len() as int);
        assert forall|i: int| 0 <= i < a.weapons@.len() implies (#[trigger] b.weapons@[i]).mount_id
            == a.weapons@[i].mount_id && b.weapons@[i].fired_round == a.weapons@[i].fired_round
            && b.weapons@[i].battlefield_repair_hits == a.weapons@[i].battlefield_repair_hits
            && b.weapons@[i].weapons@ == a.weapons@[i].weapons@ by {
            if i == k {
            } else {
            }
        }
    }
}

pub proof fn lemma_identity_transitive(a: VesselState, b: VesselState, c: VesselState)
    requires
        same_identity(a, b),
        same_identity(b, c),
    ensures
        same_identity(a, c),
{
    assert forall|i: int| 0 <= i < a.weapons@.len() implies (#[trigger] c.weapons@[i]).mount_id
        == a.weapons@[i].mount_id && c.weapons@[i].fired_round == a.weapons@[i].fired_round
        && c.weapons@[i].battlefield_repair_hits == a.weapons@[i].battlefield_repair_hits
        && c.weapons@[i].weapons@ == a.weapons@[i].weapons@ by {
        assert(b.weapons@[i].mount_id == a.weapons@[i].mount_id);
    }
}

pub fn apply_hit_group(vessel: &mut VesselState, count: u8, entropy: u64, force_internal: bool)
    ensures
        exists|trace: Seq<VesselState>|
            group_trace(trace, *old(vessel), *final(vessel), count, entropy, force_internal),
        same_identity(*old(vessel), *final(vessel)),
        final(vessel).structure_remaining <= old(vessel).structure_remaining,
{
    let roll = d6(entropy, 0) + d6(entropy, 8);
    let small = vessel.displacement_millitons < 100_000;
    let ghost before = *vessel;
    let ghost mut trace: Seq<VesselState> = seq![before];
    let mut k: u8 = 0;
    while k < count
        invariant
            k <= count,
            roll == group_roll(entropy),
            small == (before.displacement_millitons < 100_000),
            before == *old(vessel),
            trace.len() == k + 1,
            trace[0] == before,
            trace[k as int] == *vessel,
            forall|j: int|
                0 <= j < k ==> hit_applied(
                    #[trigger] trace[j],
                    trace[j + 1],
                    hit_location_spec(
                        group_roll(entropy),
                        force_internal || trace[j].hull_remaining == 0,
                        before.displacement_millitons < 100_000,
                    ),
                    entropy,
                ),
            same_identity(before, *vessel),
            vessel.structure_remaining <= before.structure_remaining,
        decreases count - k,
    {
        let internal = force_internal || vessel.hull_remaining == 0;
        let location = hit_location(roll, internal, small);
        let ghost prior = *vessel;
        apply_one_hit(vessel, location, entropy);
        proof {
            lemma_hit_keeps_identity(prior, *vessel, location, entropy);
            lemma_identity_transitive(before, prior, *vessel);
            let old_trace = trace;
            trace = trace.push(*vessel);
            assert forall|j: int| 0 <= j < k + 1 implies hit_applied(
                #[trigger] trace[j],
                trace[j + 1],
                hit_location_spec(
                    group_roll(entropy),
                    force_internal || trace[j].hull_remaining == 0,
                    before.displacement_millitons < 100_000,
                ),
                entropy,
            ) by {
                if j == k {
                    assert(trace[j] == prior);
                } else {
                    assert(trace[j] == old_trace[j]);
                    assert(trace[j + 1] == old_trace[j + 1]);
                }
            }
        }
        k = k + 1;
    }
    assert(group_trace(trace, before, *vessel, count, entropy, force_internal));
}

} // verus!
