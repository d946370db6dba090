//! One combat round: missile impacts, the crews' actions in initiative
//! order, boarding actions, and the advance of the combat clock.

use vstd::prelude::*;
use std::collections::BTreeSet;
use crate::key_order::{lemma_u16_keys_ordered, lemma_u64_keys_ordered};
use crate::arith::{mix64, mix64_spec, rotl, rotl_spec};
use crate::combat::{
    band_at, band_index, d6, d6_spec, first_vessel, has_vessel, reactions_for_initiative, reactions_spec,
    damage_hit_groups, hit_groups_spec, lemma_first_vessel, lemma_has_first_vessel, vessel_position,
    AmmunitionLot, BoardingState, CombatEvent, CombatState, CrewAction, JointOrder, PendingMissile, RangeBand,
    ReactionKind, RepairTarget, RoundResolution, VesselDisposition, VesselState, WeaponMount,
    WeaponRule, COMBAT_TURN_SECONDS,
};
use crate::combat_damage::{
    apply_hit_group, apply_one_battlefield_repair, clamp_i16, clamp_i8, copy_rule, copy_rules,
    copy_state, first_mount, group_trace, has_mount, lemma_first_mount, mount_position, repair_step,
    same_identity, sat_add_i16, sat_add_i8, state_copy, vessel_copy, mount_copy,
};
use crate::combat_catalog::{lex_order, text_bytes};

verus! {

// ---------------------------------------------------------------------------
// What a round never changes.

/// Two vessel lists hold the same vessels, in the same order, with the same
/// identities, mounts and screens.
pub open spec fn same_roster(a: Seq<VesselState>, b: Seq<VesselState>) -> bool {
    &&& a.len() == b.len()
    &&& forall|i: int| 0 <= i < a.len() ==> roster_entry(#[trigger] a[i], b[i])
}

pub open spec fn roster_entry(a: VesselState, b: VesselState) -> bool {
    &&& a.vessel_id == b.vessel_id
    &&& a.side == b.side
    &&& a.name == b.name
    &&& a.catalog_id == b.catalog_id
    &&& a.displacement_millitons == b.displacement_millitons
    &&& a.thrust == b.thrust
    &&& a.screens@ == b.screens@
    &&& a.weapons@.len() == b.weapons@.len()
    &&& forall|k: int|
        0 <= k < a.weapons@.len() ==> (#[trigger] b.weapons@[k]).mount_id
            == a.weapons@[k].mount_id
}

pub proof fn lemma_roster_trans(a: Seq<VesselState>, b: Seq<VesselState>, c: Seq<VesselState>)
    requires
        same_roster(a, b),
        same_roster(b, c),
    ensures
        same_roster(a, c),
{
    assert forall|i: int| 0 <= i < a.len() implies roster_entry(#[trigger] a[i], c[i]) by {
        assert(roster_entry(a[i], b[i]));
        assert(roster_entry(b[i], c[i]));
        assert forall|k: int| 0 <= k < a[i].weapons@.len() implies (#[trigger] c[i].weapons@[k]).mount_id
            == a[i].weapons@[k].mount_id by {
            assert(b[i].weapons@[k].mount_id == a[i].weapons@[k].mount_id);
        }
    }
}

/// Same roster after one vessel was replaced by one with the same identity.
proof fn lemma_roster_update(a: Seq<VesselState>, i: int, v: VesselState)
    requires
        0 <= i < a.len(),
        roster_entry(a[i], v),
    ensures
        same_roster(a, a.update(i, v)),
{
    assert forall|j: int| 0 <= j < a.len() implies roster_entry(#[trigger] a[j], a.update(i, v)[j]) by {
        if j != i {
            assert(a.update(i, v)[j] == a[j]);
        }
    }
}

/// The fields of the combat that only the close of a round changes.
pub open spec fn same_frame(a: CombatState, b: CombatState) -> bool {
    &&& a.combat_id == b.combat_id
    &&& a.revision == b.revision
    &&& a.round == b.round
    &&& a.round_started_second == b.round_started_second
    &&& a.complete == b.complete
}

/// `after` is `before` with the vessel at `index` replaced by `vessel`.
pub open spec fn with_vessel(before: CombatState, after: CombatState, index: int, vessel: VesselState) -> bool {
    &&& after == (CombatState { vessels: after.vessels, ..before })
    &&& after.vessels@ == before.vessels@.update(index, vessel)
}

/// `after_events` is `before_events` with one crew-action report.
pub open spec fn action_reported(
    before_events: Seq<CombatEvent>,
    after_events: Seq<CombatEvent>,
    vessel_id: u64,
    text: Seq<char>,
) -> bool {
    &&& after_events.len() == before_events.len() + 1
    &&& after_events.take(before_events.len() as int) == before_events
    &&& match after_events.last() {
        CombatEvent::Action { vessel_id: v, description } => v == vessel_id && description@ == text,
        _ => false,
    }
}

// ---------------------------------------------------------------------------
// Task checks.

/// Entropy of a crew action: the combat, the view, the vessel and the
/// action's place in the order.
pub open spec fn action_entropy(combat_id: u64, revision: u64, vessel_id: u64, action_index: u64) -> u64 {
    mix64_spec(
        combat_id ^ rotl_spec(revision, 11) ^ rotl_spec(vessel_id, 23) ^ rotl_spec(action_index, 37),
    )
}

/// Effect of a crew task check against difficulty 8: 2D plus the task
/// modifier, less eight.
pub open spec fn action_effect(state: CombatState, vessel_id: u64, action_index: u64, task_dm: i8) -> int {
    let e = action_entropy(state.combat_id, state.revision, vessel_id, action_index);
    d6_spec(e, 0) + d6_spec(e, 8) + task_dm - 8
}

fn action_check(state: &CombatState, vessel_id: u64, action_index: usize, task_dm: i8) -> (r: i16)
    ensures
        r == action_effect(*state, vessel_id, action_index as u64, task_dm),
        -143 <= r <= 131,
{
    let entropy = mix64(
        state.combat_id ^ rotl(state.revision, 11) ^ rotl(vessel_id, 23) ^ rotl(
            action_index as u64,
            37,
        ),
    );
    d6(entropy, 0) + d6(entropy, 8) + task_dm as i16 - 8
}

// ---------------------------------------------------------------------------
// Weapon damage.

/// Sum of the first `count` damage dice read from the entropy word, one byte
/// apart.
pub open spec fn dice_total(entropy: u64, count: int) -> int
    decreases count,
{
    if count <= 0 {
        0
    } else {
        dice_total(entropy, count - 1) + d6_spec(entropy, ((count - 1) * 8) as u32)
    }
}

/// Damage that gets through the armor: the weapon's dice and modifier, less
/// the armor unless the weapon is a meson gun, and never negative.
pub open spec fn penetrating_damage(weapon: WeaponRule, armor: u16, entropy: u64) -> int {
    let rolled = dice_total(entropy, weapon.damage.dice as int) + weapon.damage.modifier;
    let shielding = if weapon.meson {
        0
    } else {
        armor as int
    };
    if rolled - shielding > 0 {
        rolled - shielding
    } else {
        0
    }
}

pub open spec fn group_sum(groups: Seq<u8>) -> int
    decreases groups.len(),
{
    if groups.len() == 0 {
        0
    } else {
        group_sum(groups.drop_last()) + groups.last()
    }
}

/// Some run of single hits takes `before` to `after` as one group of hits.
pub open spec fn group_step(
    before: VesselState,
    after: VesselState,
    count: u8,
    entropy: u64,
    force_internal: bool,
) -> bool {
    exists|inner: Seq<VesselState>| #[trigger] group_trace(inner, before, after, count, entropy, force_internal)
}

/// `trace` runs through the groups of hits of one damage roll; group
/// `j` uses the entropy word mixed with its ordinal.
pub open spec fn damage_trace(
    trace: Seq<VesselState>,
    before: VesselState,
    after: VesselState,
    groups: Seq<u8>,
    entropy: u64,
    force_internal: bool,
) -> bool {
    &&& trace.len() == groups.len() + 1
    &&& trace[0] == before
    &&& trace[groups.len() as int] == after
    &&& forall|j: int|
        0 <= j < groups.len() ==> group_step(
            #[trigger] trace[j],
            trace[j + 1],
            groups[j],
            mix64_spec(entropy ^ (j as u64)),
            force_internal,
        )
}

/// The target after a damage roll: its groups of hits, a crew hit from a
/// radiation weapon that penetrates, and destruction once its structure is
/// gone.
pub open spec fn damaged_target(
    before: VesselState,
    after: VesselState,
    weapon: WeaponRule,
    entropy: u64,
) -> bool {
    let damage = penetrating_damage(weapon, before.armor_remaining, entropy);
    let groups = hit_groups_spec(damage as i16);
    exists|trace: Seq<VesselState>, hit: VesselState|
        #![trigger damage_trace(trace, before, hit, groups, entropy, weapon.meson)]
        damage_trace(trace, before, hit, groups, entropy, weapon.meson) && {
            let irradiated = if weapon.radiation && damage > 0 {
                VesselState { crew_hits: hit.crew_hits.saturating_add(1), ..hit }
            } else {
                hit
            };
            after == if irradiated.structure_remaining == 0 {
                VesselState { disposition: VesselDisposition::Destroyed, ..irradiated }
            } else {
                irradiated
            }
        }
}

proof fn lemma_dice_bound(entropy: u64, count: int)
    requires
        0 <= count,
    ensures
        count <= dice_total(entropy, count) <= 6 * count,
    decreases count,
{
    if count > 0 {
        lemma_dice_bound(entropy, count - 1);
    }
}

proof fn lemma_groups_bound(damage: i16)
    requires
        damage <= 2000,
    ensures
        hit_groups_spec(damage).len() <= 400,
        forall|i: int| 0 <= i < hit_groups_spec(damage).len() ==> #[trigger] hit_groups_spec(damage)[i] <= 3,
{
}

/// A damage roll of `weapon` from the vessel at `source` against the vessel
/// at `target`: only the target changes, as `damaged_target` says, and the
/// damage is reported, followed by the target's destruction when its
/// structure is gone.
pub open spec fn weapon_damage_done(
    before: CombatState,
    after: CombatState,
    before_events: Seq<CombatEvent>,
    after_events: Seq<CombatEvent>,
    source: int,
    target: int,
    weapon: WeaponRule,
    entropy: u64,
) -> bool {
    let old_target = before.vessels@[target];
    let new_target = after.vessels@[target];
    let damage = penetrating_damage(weapon, old_target.armor_remaining, entropy);
    let report = CombatEvent::Damage {
        vessel_id: before.vessels@[source].vessel_id,
        target_id: old_target.vessel_id,
        damage: damage as i16,
        hits: group_sum(hit_groups_spec(damage as i16)) as u16,
    };
    &&& with_vessel(before, after, target, new_target)
    &&& damaged_target(old_target, new_target, weapon, entropy)
    &&& after_events == if new_target.structure_remaining == 0 {
        before_events.push(report).push(CombatEvent::VesselDestroyed { vessel_id: old_target.vessel_id })
    } else {
        before_events.push(report)
    }
}

fn apply_weapon_damage(
    state: &mut CombatState,
    source: usize,
    target: usize,
    weapon: &WeaponRule,
    entropy: u64,
    events: &mut Vec<CombatEvent>,
)
    requires
        source < old(state).vessels@.len(),
        target < old(state).vessels@.len(),
    ensures
        *final(state) == (CombatState { vessels: final(state).vessels, ..*old(state) }),
        final(state).vessels@.len() == old(state).vessels@.len(),
        forall|i: int|
            0 <= i < old(state).vessels@.len() && i != target ==> #[trigger] final(state).vessels@[i]
                == old(state).vessels@[i],
        damaged_target(old(state).vessels@[target as int], final(state).vessels@[target as int], *weapon, entropy),
        roster_entry(old(state).vessels@[target as int], final(state).vessels@[target as int]),
        same_roster(old(state).vessels@, final(state).vessels@),
        weapon_damage_done(
            *old(state),
            *final(state),
            old(events)@,
            final(events)@,
            source as int,
            target as int,
            *weapon,
            entropy,
        ),
        ({
            let damage = penetrating_damage(*weapon, old(state).vessels@[target as int].armor_remaining, entropy);
            let report = CombatEvent::Damage {
                vessel_id: old(state).vessels@[source as int].vessel_id,
                target_id: old(state).vessels@[target as int].vessel_id,
                damage: damage as i16,
                hits: group_sum(hit_groups_spec(damage as i16)) as u16,
            };
            final(events)@ == if final(state).vessels@[target as int].structure_remaining == 0 {
                old(events)@.push(report).push(
                    CombatEvent::VesselDestroyed {
                        vessel_id: old(state).vessels@[target as int].vessel_id,
                    },
                )
            } else {
                old(events)@.push(report)
            }
        }),
{
    let ghost before = *state;
    let ghost target_before = state.vessels@[target as int];
    let source_id = state.vessels[source].vessel_id;
    let target_id = state.vessels[target].vessel_id;
    let mut rolled: i16 = 0;
    let mut index: u8 = 0;
    while index < weapon.damage.dice
        invariant
            index <= weapon.damage.dice,
            rolled == dice_total(entropy, index as int),
            0 <= rolled <= 6 * index,
        decreases weapon.damage.dice - index,
    {
        proof {
            lemma_dice_bound(entropy, index as int);
        }
        rolled = rolled + d6(entropy, (index as u32) * 8);
        index = index + 1;
    }
    rolled = rolled + weapon.damage.modifier as i16;
    let armor: i32 = if weapon.meson {
        0
    } else {
        state.vessels[target].armor_remaining as i32
    };
    let difference: i32 = rolled as i32 - armor;
    let penetrating: i16 = if difference > 0 {
        difference as i16
    } else {
        0
    };
    assert(penetrating == penetrating_damage(*weapon, target_before.armor_remaining, entropy));
    let groups = damage_hit_groups(penetrating);
    proof {
        lemma_groups_bound(penetrating);
    }
    let ghost mut trace: Seq<VesselState> = seq![target_before];
    let mut hits: u16 = 0;
    let mut ordinal: usize = 0;
    while ordinal < groups.len()
        invariant
            ordinal <= groups@.len(),
            groups@ == hit_groups_spec(penetrating),
            groups@.len() <= 400,
            forall|i: int| 0 <= i < groups@.len() ==> #[trigger] groups@[i] <= 3,
            hits == group_sum(groups@.take(ordinal as int)),
            hits <= 3 * ordinal,
            target < state.vessels@.len(),
            *state == (CombatState { vessels: state.vessels, ..before }),
            state.vessels@.len() == before.vessels@.len(),
            forall|i: int|
                0 <= i < before.vessels@.len() && i != target ==> #[trigger] state.vessels@[i]
                    == before.vessels@[i],
            target_before == before.vessels@[target as int],
            trace.len() == ordinal + 1,
            trace[0] == target_before,
            trace[ordinal as int] == state.vessels@[target as int],
            forall|j: int|
                0 <= j < ordinal ==> group_step(
                    #[trigger] trace[j],
                    trace[j + 1],
                    groups@[j],
                    mix64_spec(entropy ^ (j as u64)),
                    weapon.meson,
                ),
            same_identity(target_before, state.vessels@[target as int]),
        decreases groups@.len() - ordinal,
    {
        let group = groups[ordinal];
        let ghost prior = state.vessels@[target as int];
        apply_hit_group(&mut state.vessels[target], group, mix64(entropy ^ ordinal as u64), weapon.meson);
        proof {
            let old_trace = trace;
            trace = trace.push(state.vessels@[target as int]);
            assert forall|j: int| 0 <= j < ordinal + 1 implies group_step(
                #[trigger] trace[j],
                trace[j + 1],
                groups@[j],
                mix64_spec(entropy ^ (j as u64)),
                weapon.meson,
            ) by {
                if j < ordinal {
                    assert(trace[j] == old_trace[j]);
                    assert(trace[j + 1] == old_trace[j + 1]);
                } else {
                    assert(trace[j] == prior);
                }
            }
            assert(groups@.take(ordinal + 1).drop_last() =~= groups@.take(ordinal as int));
            crate::combat_damage::lemma_identity_transitive(target_before, prior, state.vessels@[target as int]);
        }
        hits = hits + group as u16;
        ordinal = ordinal + 1;
    }
    assert(groups@.take(groups@.len() as int) =~= groups@);
    let ghost hit = state.vessels@[target as int];
    assert(damage_trace(trace, target_before, hit, groups@, entropy, weapon.meson));
    if weapon.radiation && penetrating > 0 {
        state.vessels[target].crew_hits = state.vessels[target].crew_hits.saturating_add(1);
    }
    events.push(
        CombatEvent::Damage { vessel_id: source_id, target_id, damage: penetrating, hits },
    );
    if state.vessels[target].structure_remaining == 0 {
        state.vessels[target].disposition = VesselDisposition::Destroyed;
        events.push(CombatEvent::VesselDestroyed { vessel_id: target_id });
    }
    proof {
        assert(roster_entry(target_before, state.vessels@[target as int]));
        assert(damaged_target(target_before, state.vessels@[target as int], *weapon, entropy));
        assert(same_roster(before.vessels@, state.vessels@)) by {
            assert forall|i: int| 0 <= i < before.vessels@.len() implies roster_entry(
                #[trigger] before.vessels@[i],
                state.vessels@[i],
            ) by {
                if i != target {
                    assert(state.vessels@[i] == before.vessels@[i]);
                }
            }
        }
        assert(state.vessels@ =~= before.vessels@.update(target as int, state.vessels@[target as int]));
    }
}


fn message(text: &str) -> (r: String)
    ensures
        r@ == text@,
{
    String::from_str(text)
}

// ---------------------------------------------------------------------------
// Attacks.

/// Why an attack with the mount on the target is refused, if it is.
pub open spec fn attack_refusal(state: CombatState, vessel_id: u64, mount_id: u16, target_id: u64) -> Option<Seq<char>> {
    let vessels = state.vessels@;
    if !has_vessel(vessels, vessel_id) {
        Some("attacker is absent"@)
    } else if !has_vessel(vessels, target_id) {
        Some("target is absent"@)
    } else {
        let actor = vessels[first_vessel(vessels, vessel_id)];
        let target = vessels[first_vessel(vessels, target_id)];
        if actor.side == target.side {
            Some("friendly vessel is not a legal target"@)
        } else if !has_mount(actor.weapons@, mount_id) {
            Some("weapon mount is absent"@)
        } else {
            let mount = actor.weapons@[first_mount(actor.weapons@, mount_id)];
            if mount.fired_round == state.round {
                Some("weapon mount has already fired this round"@)
            } else if mount.damage_hits.saturating_sub(mount.battlefield_repair_hits) >= 2 {
                Some("weapon mount is disabled"@)
            } else {
                None
            }
        }
    }
}

/// The mount that an attack uses, in the state before the attack.
pub open spec fn attack_mount(state: CombatState, vessel_id: u64, mount_id: u16) -> WeaponMount {
    let actor = state.vessels@[first_vessel(state.vessels@, vessel_id)];
    actor.weapons@[first_mount(actor.weapons@, mount_id)]
}

/// Entropy of one weapon of an attacking mount.
pub open spec fn attack_entropy(
    state: CombatState,
    vessel_id: u64,
    target_id: u64,
    mount_id: u16,
    weapon_index: int,
) -> u64 {
    mix64_spec(
        state.combat_id ^ rotl_spec(state.revision, 5) ^ rotl_spec(vessel_id, 13) ^ rotl_spec(
            target_id,
            27,
        ) ^ rotl_spec(mount_id as u64, 39) ^ (weapon_index as u64),
    )
}

/// The attack total of one weapon: 2D, the range difficulty, the task
/// modifier, the attacker's targeting and line-up and the target's evasion,
/// less two for a damaged mount.
pub open spec fn attack_total(
    state: CombatState,
    vessel_id: u64,
    target_id: u64,
    mount_id: u16,
    weapon_index: int,
    task_dm: i8,
) -> int {
    let vessels = state.vessels@;
    let actor = vessels[first_vessel(vessels, vessel_id)];
    let target = vessels[first_vessel(vessels, target_id)];
    let mount = attack_mount(state, vessel_id, mount_id);
    let weapon = mount.weapons@[weapon_index];
    let e = attack_entropy(state, vessel_id, target_id, mount_id, weapon_index);
    let wear = mount.damage_hits.saturating_sub(mount.battlefield_repair_hits);
    d6_spec(e, 0) + d6_spec(e, 8) + weapon.difficulty_dm[band_index(state.range)] + task_dm
        + actor.targeting_dm + actor.line_up_dm + target.evasive_dm - if wear == 1 {
        2int
    } else {
        0int
    }
}

/// The roll a missile needs to hit, by the effect of its launch.
pub open spec fn missile_hit_target(effect: int) -> u8 {
    if effect <= -6 {
        11
    } else if effect < 0 {
        10
    } else if effect == 0 {
        8
    } else if effect < 6 {
        7
    } else {
        6
    }
}

/// Rounds a missile flies: two from very long range or beyond, else one.
pub open spec fn missile_delay(range: RangeBand) -> u16 {
    if band_index(range) >= 5 {
        2
    } else {
        1
    }
}

/// The roll a launched missile needs to hit never rises with a better
/// launch: 11 for a launch effect of -6 or less, 10 from -5 to -1, 8 at 0,
/// 7 from 1 to 5, and 6 from 6.
pub proof fn lemma_hit_target_falls_with_effect(e1: int, e2: int)
    ensures
        e1 <= e2 ==> missile_hit_target(e2) <= missile_hit_target(e1),
        e1 <= -6 ==> missile_hit_target(e1) == 11,
        -5 <= e1 <= -1 ==> missile_hit_target(e1) == 10,
        e1 == 0 ==> missile_hit_target(e1) == 8,
        1 <= e1 <= 5 ==> missile_hit_target(e1) == 7,
        e1 >= 6 ==> missile_hit_target(e1) == 6,
{
}

/// A missile launched by this attack from the state before it.
pub open spec fn launched_by(
    missile: PendingMissile,
    state: CombatState,
    vessel_id: u64,
    mount_id: u16,
    target_id: u64,
    task_dm: i8,
) -> bool {
    let rules = attack_mount(state, vessel_id, mount_id).weapons@;
    &&& missile.source_vessel_id == vessel_id
    &&& missile.target_vessel_id == target_id
    &&& missile.impact_round == state.round.saturating_add(missile_delay(state.range))
    &&& exists|w: int|
        #![trigger rules[w]]
        0 <= w < rules.len() && rules[w].missile && missile.weapon == rules[w] && missile.missile_id
            == attack_entropy(state, vessel_id, target_id, mount_id, w) && missile.hit_target
            == missile_hit_target(attack_total(state, vessel_id, target_id, mount_id, w, task_dm) - 8)
}

/// `fired` is `before` with mount `m` of the vessel at `a` marked as fired
/// this round, and nothing else changed.
pub open spec fn mount_marked(before: CombatState, fired: CombatState, a: int, m: int) -> bool {
    let vessel = before.vessels@[a];
    &&& fired == (CombatState { vessels: fired.vessels, ..before })
    &&& fired.vessels@ == before.vessels@.update(a, VesselState { weapons: fired.vessels@[a].weapons, ..vessel })
    &&& fired.vessels@[a].weapons@ == vessel.weapons@.update(
        m,
        WeaponMount { fired_round: before.round, ..vessel.weapons@[m] },
    )
}

/// Lot `k` is the first lot of the ammunition `id` that still holds a round.
pub open spec fn first_loaded(lots: Seq<AmmunitionLot>, id: Seq<char>, k: int) -> bool {
    &&& 0 <= k < lots.len()
    &&& lots[k].ammunition_id@ == id && lots[k].remaining != 0
    &&& forall|j: int| 0 <= j < k ==> !((#[trigger] lots[j]).ammunition_id@ == id && lots[j].remaining != 0)
}

/// Some lot of the ammunition `id` still holds a round.
pub open spec fn has_loaded(lots: Seq<AmmunitionLot>, id: Seq<char>) -> bool {
    exists|k: int| 0 <= k < lots.len() && (#[trigger] lots[k]).ammunition_id@ == id && lots[k].remaining != 0
}

/// `after` is `before` with one round taken from lot `k` of the vessel at
/// `a`.
pub open spec fn round_spent(before: CombatState, after: CombatState, a: int, k: int) -> bool {
    let vessel = before.vessels@[a];
    let lot = vessel.ammunition@[k];
    &&& after == (CombatState { vessels: after.vessels, ..before })
    &&& after.vessels@ == before.vessels@.update(a, VesselState { ammunition: after.vessels@[a].ammunition, ..vessel })
    &&& after.vessels@[a].ammunition@ == vessel.ammunition@.update(
        k,
        AmmunitionLot { remaining: (lot.remaining - 1) as u32, ..lot },
    )
}

/// The shot of weapon `w` of an attacking mount, its total read from the
/// combat before the attack: a missile is launched toward the target; else
/// a total of 8 or more hits and does the weapon's damage to the target;
/// else the attack is reported missed and nothing else changes.
pub open spec fn weapon_shot(
    before: CombatState,
    s: CombatState,
    s2: CombatState,
    e: Seq<CombatEvent>,
    e2: Seq<CombatEvent>,
    vessel_id: u64,
    mount_id: u16,
    target_id: u64,
    task_dm: i8,
    w: int,
) -> bool {
    let a = first_vessel(before.vessels@, vessel_id);
    let t = first_vessel(before.vessels@, target_id);
    let rule = attack_mount(before, vessel_id, mount_id).weapons@[w];
    let total = attack_total(before, vessel_id, target_id, mount_id, w, task_dm);
    let entropy = attack_entropy(before, vessel_id, target_id, mount_id, w);
    let impact_round = before.round.saturating_add(missile_delay(before.range));
    if rule.missile {
        &&& s2 == (CombatState { missiles: s2.missiles, ..s })
        &&& s2.missiles@ == s.missiles@.push(
            PendingMissile {
                missile_id: entropy,
                source_vessel_id: vessel_id,
                target_vessel_id: target_id,
                weapon: rule,
                hit_target: missile_hit_target(total - 8),
                impact_round,
            },
        )
        &&& e2 == e.push(CombatEvent::MissileLaunched { vessel_id, target_id, impact_round })
    } else if total >= 8 {
        weapon_damage_done(s, s2, e, e2, a, t, rule, rotl_spec(entropy, 17))
    } else {
        s2 == s && e2 == e.push(CombatEvent::AttackMissed { vessel_id, target_id, mount_id })
    }
}

/// What weapon `w` of an attacking mount does: nothing beyond its range
/// (difficulty -90 or less) or without a loaded lot of its ammunition;
/// else it takes one round from the first loaded lot, if it uses
/// ammunition, and shoots.
pub open spec fn weapon_step(
    before: CombatState,
    s: CombatState,
    s2: CombatState,
    e: Seq<CombatEvent>,
    e2: Seq<CombatEvent>,
    vessel_id: u64,
    mount_id: u16,
    target_id: u64,
    task_dm: i8,
    w: int,
) -> bool {
    let a = first_vessel(before.vessels@, vessel_id);
    let rule = attack_mount(before, vessel_id, mount_id).weapons@[w];
    if rule.difficulty_dm[band_index(before.range)] <= -90 {
        s2 == s && e2 == e
    } else {
        match rule.ammunition_id {
            None => weapon_shot(before, s, s2, e, e2, vessel_id, mount_id, target_id, task_dm, w),
            Some(id) => if has_loaded(s.vessels@[a].ammunition@, id@) {
                exists|k: int, loaded: CombatState|
                    #![trigger round_spent(s, loaded, a, k)]
                    first_loaded(s.vessels@[a].ammunition@, id@, k) && round_spent(s, loaded, a, k)
                        && weapon_shot(before, loaded, s2, e, e2, vessel_id, mount_id, target_id, task_dm, w)
            } else {
                s2 == s && e2 == e
            },
        }
    }
}

/// The weapons of the mount fired in order: `trace[w]` and `records[w]` are
/// the combat and its events before weapon `w`.
pub open spec fn attack_trace(
    trace: Seq<CombatState>,
    records: Seq<Seq<CombatEvent>>,
    before: CombatState,
    vessel_id: u64,
    mount_id: u16,
    target_id: u64,
    task_dm: i8,
) -> bool {
    let n = attack_mount(before, vessel_id, mount_id).weapons@.len();
    &&& trace.len() == n + 1
    &&& records.len() == n + 1
    &&& forall|w: int|
        0 <= w < n ==> weapon_step(
            before,
            #[trigger] trace[w],
            trace[w + 1],
            records[w],
            records[w + 1],
            vessel_id,
            mount_id,
            target_id,
            task_dm,
            w,
        )
}

/// What an accepted attack leaves: the mount is marked as fired this round,
/// then each of its weapons does what `weapon_step` says, in order; so
/// missiles are only added, and only the attacker and the target change.
pub open spec fn attack_done(
    before: CombatState,
    after: CombatState,
    before_events: Seq<CombatEvent>,
    after_events: Seq<CombatEvent>,
    vessel_id: u64,
    mount_id: u16,
    target_id: u64,
    task_dm: i8,
) -> bool {
    let a = first_vessel(before.vessels@, vessel_id);
    let t = first_vessel(before.vessels@, target_id);
    let m = first_mount(before.vessels@[a].weapons@, mount_id);
    &&& same_frame(before, after)
    &&& after.range == before.range
    &&& after.boarding@ == before.boarding@
    &&& same_roster(before.vessels@, after.vessels@)
    &&& after.vessels@[a].weapons@[m].fired_round == before.round
    &&& forall|i: int|
        0 <= i < before.vessels@.len() && i != a && i != t ==> #[trigger] after.vessels@[i]
            == before.vessels@[i]
    &&& after.missiles@.len() >= before.missiles@.len()
    &&& after.missiles@.take(before.missiles@.len() as int) == before.missiles@
    &&& forall|k: int|
        before.missiles@.len() <= k < after.missiles@.len() ==> launched_by(
            #[trigger] after.missiles@[k],
            before,
            vessel_id,
            mount_id,
            target_id,
            task_dm,
        )
    &&& after_events.len() >= before_events.len()
    &&& after_events.take(before_events.len() as int) == before_events
    &&& exists|trace: Seq<CombatState>, records: Seq<Seq<CombatEvent>>|
        #![trigger attack_trace(trace, records, before, vessel_id, mount_id, target_id, task_dm)]
        {
            &&& attack_trace(trace, records, before, vessel_id, mount_id, target_id, task_dm)
            &&& mount_marked(before, trace[0], a, m)
            &&& records[0] == before_events
            &&& trace.last() == after
            &&& records.last() == after_events
        }
}

/// The first lot of the ammunition that still holds a round.
fn loaded_lot(lots: &Vec<crate::combat::AmmunitionLot>, ammunition_id: &String) -> (r: Option<usize>)
    ensures
        match r {
            Some(k) => k < lots@.len() && lots@[k as int].ammunition_id@ == ammunition_id@
                && lots@[k as int].remaining != 0 && forall|j: int|
                0 <= j < k ==> !((#[trigger] lots@[j]).ammunition_id@ == ammunition_id@
                    && lots@[j].remaining != 0),
            None => forall|j: int|
                0 <= j < lots@.len() ==> !((#[trigger] lots@[j]).ammunition_id@ == ammunition_id@
                    && lots@[j].remaining != 0),
        },
{
    let mut k: usize = 0;
    while k < lots.len()
        invariant
            k <= lots@.len(),
            forall|j: int|
                0 <= j < k ==> !((#[trigger] lots@[j]).ammunition_id@ == ammunition_id@
                    && lots@[j].remaining != 0),
        decreases lots@.len() - k,
    {
        if lots[k].ammunition_id == *ammunition_id && lots[k].remaining != 0 {
            return Some(k);
        }
        k = k + 1;
    }
    None
}

fn hit_target_for(effect: i16) -> (r: u8)
    ensures
        r == missile_hit_target(effect as int),
{
    if effect <= -6 {
        11
    } else if effect < 0 {
        10
    } else if effect == 0 {
        8
    } else if effect < 6 {
        7
    } else {
        6
    }
}

/// Weapon `w` of an attacking mount, after the mount is marked as fired.
fn fire_weapon(
    state: &mut CombatState,
    events: &mut Vec<CombatEvent>,
    weapon: &WeaponRule,
    w: usize,
    actor: usize,
    target: usize,
    mount: usize,
    vessel_id: u64,
    mount_id: u16,
    target_id: u64,
    task_dm: i8,
    range_index: usize,
    bonus: i16,
    penalty: i16,
    delay: u16,
    wear: u8,
    Ghost(before): Ghost<CombatState>,
    Ghost(fired): Ghost<CombatState>,
    Ghost(before_events): Ghost<Seq<CombatEvent>>,
)
    requires
        w < attack_mount(before, vessel_id, mount_id).weapons@.len(),
        *weapon == attack_mount(before, vessel_id, mount_id).weapons@[w as int],
        range_index == band_index(before.range),
        delay == missile_delay(before.range),
        bonus == before.vessels@[actor as int].targeting_dm + before.vessels@[actor as int].line_up_dm
            + before.vessels@[target as int].evasive_dm,
        penalty == if wear == 1 {
            2int
        } else {
            0int
        },
        wear == attack_mount(before, vessel_id, mount_id).damage_hits.saturating_sub(
            attack_mount(before, vessel_id, mount_id).battlefield_repair_hits,
        ),
        actor < before.vessels@.len(),
        target < before.vessels@.len(),
        actor != target,
        actor as int == first_vessel(before.vessels@, vessel_id),
        target as int == first_vessel(before.vessels@, target_id),
        mount as int == first_mount(before.vessels@[actor as int].weapons@, mount_id),
        same_frame(before, *old(state)),
        old(state).range == before.range,
        old(state).boarding@ == before.boarding@,
        same_roster(before.vessels@, old(state).vessels@),
        old(state).vessels@[actor as int].weapons@ == fired.vessels@[actor as int].weapons@,
        fired.vessels@[actor as int].weapons@[mount as int].fired_round == before.round,
        forall|i: int|
            0 <= i < before.vessels@.len() && i != actor && i != target ==> #[trigger] old(state).vessels@[i]
                == before.vessels@[i],
        old(state).missiles@.len() >= before.missiles@.len(),
        old(state).missiles@.take(before.missiles@.len() as int) == before.missiles@,
        forall|k: int|
            before.missiles@.len() <= k < old(state).missiles@.len() ==> launched_by(
                #[trigger] old(state).missiles@[k],
                before,
                vessel_id,
                mount_id,
                target_id,
                task_dm,
            ),
        old(events)@.len() >= before_events.len(),
        old(events)@.take(before_events.len() as int) == before_events,
        mount_marked(before, fired, actor as int, mount as int),
    ensures
        same_frame(before, *final(state)),
        final(state).range == before.range,
        final(state).boarding@ == before.boarding@,
        same_roster(before.vessels@, final(state).vessels@),
        final(state).vessels@[actor as int].weapons@ == fired.vessels@[actor as int].weapons@,
        forall|i: int|
            0 <= i < before.vessels@.len() && i != actor && i != target ==> #[trigger] final(state).vessels@[i]
                == before.vessels@[i],
        final(state).missiles@.len() >= before.missiles@.len(),
        final(state).missiles@.take(before.missiles@.len() as int) == before.missiles@,
        forall|k: int|
            before.missiles@.len() <= k < final(state).missiles@.len() ==> launched_by(
                #[trigger] final(state).missiles@[k],
                before,
                vessel_id,
                mount_id,
                target_id,
                task_dm,
            ),
        final(events)@.len() >= before_events.len(),
        final(events)@.take(before_events.len() as int) == before_events,
        weapon_step(before, *old(state), *final(state), old(events)@, final(events)@, vessel_id, mount_id, target_id, task_dm, w as int),
{
    let ghost s0 = *state;
    let ghost e0 = events@;
    let difficulty = weapon.difficulty_dm[range_index];
    if difficulty > -90 {
        let mut loaded = true;
        match &weapon.ammunition_id {
            Some(ammunition_id) => {
                match loaded_lot(&state.vessels[actor].ammunition, ammunition_id) {
                    Some(k) => {
                        state.vessels[actor].ammunition[k].remaining = state.vessels[actor].ammunition[k].remaining
                            - 1;
                        proof {
                            let lot = s0.vessels@[actor as int].ammunition@[k as int];
                            assert(state.vessels@[actor as int].ammunition@ =~= s0.vessels@[actor as int].ammunition@.update(
                                k as int,
                                AmmunitionLot { remaining: (lot.remaining - 1) as u32, ..lot },
                            ));
                            assert(state.vessels@ =~= s0.vessels@.update(
                                actor as int,
                                VesselState { ammunition: state.vessels@[actor as int].ammunition, ..s0.vessels@[actor as int] },
                            ));
                            assert(round_spent(s0, *state, actor as int, k as int));
                            assert(first_loaded(s0.vessels@[actor as int].ammunition@, ammunition_id@, k as int));
                        }
                    },
                    None => {
                        loaded = false;
                    },
                }
            },
            None => {},
        }
        proof {
            assert(same_roster(before.vessels@, state.vessels@)) by {
                assert forall|i: int| 0 <= i < before.vessels@.len() implies roster_entry(
                    #[trigger] before.vessels@[i],
                    state.vessels@[i],
                ) by {
                    assert(roster_entry(before.vessels@[i], fired.vessels@[i]) || true);
                }
            }
        }
        if loaded {
            let entropy = mix64(
                state.combat_id ^ rotl(state.revision, 5) ^ rotl(vessel_id, 13) ^ rotl(target_id, 27)
                    ^ rotl(mount_id as u64, 39) ^ w as u64,
            );
            let roll = d6(entropy, 0) + d6(entropy, 8);
            let total: i16 = roll + difficulty as i16 + task_dm as i16 + bonus - penalty;
            assert(total == attack_total(before, vessel_id, target_id, mount_id, w as int, task_dm));
            if weapon.missile {
                let effect = total - 8;
                let hit_target = hit_target_for(effect);
                let impact_round = state.round.saturating_add(delay);
                let ghost prior = state.missiles@;
                state.missiles.push(
                    PendingMissile {
                        missile_id: entropy,
                        source_vessel_id: vessel_id,
                        target_vessel_id: target_id,
                        weapon: copy_rule(weapon),
                        hit_target,
                        impact_round,
                    },
                );
                events.push(CombatEvent::MissileLaunched { vessel_id, target_id, impact_round });
                proof {
                    assert forall|k: int|
                        before.missiles@.len() <= k < state.missiles@.len() implies launched_by(
                        #[trigger] state.missiles@[k],
                        before,
                        vessel_id,
                        mount_id,
                        target_id,
                        task_dm,
                    ) by {
                        if k < prior.len() {
                            assert(state.missiles@[k] == prior[k]);
                        } else {
                            let rules_s = attack_mount(before, vessel_id, mount_id).weapons@;
                            assert(rules_s[w as int] == *weapon);
                        }
                    }
                    assert(state.missiles@.take(before.missiles@.len() as int) =~= prior.take(
                        before.missiles@.len() as int,
                    ));
                    assert(events@.take(before_events.len() as int) =~= events@.drop_last().take(
                        before_events.len() as int,
                    ));
                }
            } else if total >= 8 {
                let ghost prior_vessels = state.vessels@;
                let ghost prior_events = events@;
                apply_weapon_damage(state, actor, target, weapon, rotl(entropy, 17), events);
                proof {
                    lemma_roster_trans(before.vessels@, prior_vessels, state.vessels@);
                    assert(events@.take(before_events.len() as int) =~= events@.take(
                        prior_events.len() as int,
                    ).take(before_events.len() as int));
                }
            } else {
                events.push(CombatEvent::AttackMissed { vessel_id, target_id, mount_id });
                proof {
                    assert(events@.take(before_events.len() as int) =~= events@.drop_last().take(
                        before_events.len() as int,
                    ));
                }
            }
        }
    }
}

fn resolve_attack(
    state: &mut CombatState,
    vessel_id: u64,
    mount_id: u16,
    target_id: u64,
    task_dm: i8,
    events: &mut Vec<CombatEvent>,
) -> (r: Result<(), String>)
    ensures
        match attack_refusal(*old(state), vessel_id, mount_id, target_id) {
            Some(reason) => r matches Err(e) && e@ == reason,
            None => r is Ok && attack_done(
                *old(state),
                *final(state),
                old(events)@,
                final(events)@,
                vessel_id,
                mount_id,
                target_id,
                task_dm,
            ),
        },
{
    let ghost before = *state;
    let ghost before_events = events@;
    let actor = match vessel_position(&state.vessels, vessel_id) {
        Some(i) => i,
        None => {
            return Err(message("attacker is absent"));
        },
    };
    let target = match vessel_position(&state.vessels, target_id) {
        Some(i) => i,
        None => {
            return Err(message("target is absent"));
        },
    };
    proof {
        lemma_first_vessel(before.vessels@, vessel_id, actor as int);
        lemma_first_vessel(before.vessels@, target_id, target as int);
    }
    if state.vessels[actor].side == state.vessels[target].side {
        return Err(message("friendly vessel is not a legal target"));
    }
    let mount = match mount_position(&state.vessels[actor].weapons, mount_id) {
        Some(m) => m,
        None => {
            return Err(message("weapon mount is absent"));
        },
    };
    proof {
        lemma_first_mount(before.vessels@[actor as int].weapons@, mount_id, mount as int);
    }
    if state.vessels[actor].weapons[mount].fired_round == state.round {
        return Err(message("weapon mount has already fired this round"));
    }
    let wear = state.vessels[actor].weapons[mount].damage_hits.saturating_sub(
        state.vessels[actor].weapons[mount].battlefield_repair_hits,
    );
    if wear >= 2 {
        return Err(message("weapon mount is disabled"));
    }
    state.vessels[actor].weapons[mount].fired_round = state.round;
    let ghost fired = *state;
    proof {
        lemma_roster_update(before.vessels@, actor as int, state.vessels@[actor as int]);
        assert(state.vessels@ =~= before.vessels@.update(actor as int, state.vessels@[actor as int]));
        assert(state.vessels@[actor as int].weapons@ =~= before.vessels@[actor as int].weapons@.update(
            mount as int,
            WeaponMount { fired_round: before.round, ..before.vessels@[actor as int].weapons@[mount as int] },
        ));
        assert(mount_marked(before, fired, actor as int, mount as int));
    }
    let ghost mut trace: Seq<CombatState> = seq![fired];
    let ghost mut records: Seq<Seq<CombatEvent>> = seq![before_events];
    let rules = copy_rules(&state.vessels[actor].weapons[mount].weapons);
    let range_index = state.range.index();
    let bonus: i16 = state.vessels[actor].targeting_dm as i16 + state.vessels[actor].line_up_dm as i16
        + state.vessels[target].evasive_dm as i16;
    let penalty: i16 = if wear == 1 {
        2
    } else {
        0
    };
    let delay: u16 = if range_index >= 5 {
        2
    } else {
        1
    };
    let mut w: usize = 0;
    while w < rules.len()
        invariant
            w <= rules@.len(),
            rules@ == attack_mount(before, vessel_id, mount_id).weapons@,
            range_index == band_index(before.range),
            delay == missile_delay(before.range),
            bonus == before.vessels@[actor as int].targeting_dm + before.vessels@[actor as int].line_up_dm
                + before.vessels@[target as int].evasive_dm,
            penalty == if wear == 1 {
                2int
            } else {
                0int
            },
            wear == attack_mount(before, vessel_id, mount_id).damage_hits.saturating_sub(
                attack_mount(before, vessel_id, mount_id).battlefield_repair_hits,
            ),
            actor < before.vessels@.len(),
            target < before.vessels@.len(),
            actor != target,
            actor as int == first_vessel(before.vessels@, vessel_id),
            target as int == first_vessel(before.vessels@, target_id),
            mount as int == first_mount(before.vessels@[actor as int].weapons@, mount_id),
            same_frame(before, *state),
            state.range == before.range,
            state.boarding@ == before.boarding@,
            same_roster(before.vessels@, state.vessels@),
            state.vessels@[actor as int].weapons@ == fired.vessels@[actor as int].weapons@,
            fired.vessels@[actor as int].weapons@[mount as int].fired_round == before.round,
            forall|i: int|
                0 <= i < before.vessels@.len() && i != actor && i != target ==> #[trigger] state.vessels@[i]
                    == before.vessels@[i],
            state.missiles@.len() >= before.missiles@.len(),
            state.missiles@.take(before.missiles@.len() as int) == before.missiles@,
            forall|k: int|
                before.missiles@.len() <= k < state.missiles@.len() ==> launched_by(
                    #[trigger] state.missiles@[k],
                    before,
                    vessel_id,
                    mount_id,
                    target_id,
                    task_dm,
                ),
            events@.len() >= before_events.len(),
            events@.take(before_events.len() as int) == before_events,
            mount_marked(before, fired, actor as int, mount as int),
            trace.len() == w + 1,
            records.len() == w + 1,
            trace[0] == fired,
            records[0] == before_events,
            trace[w as int] == *state,
            records[w as int] == events@,
            forall|j: int|
                0 <= j < w ==> weapon_step(
                    before,
                    #[trigger] trace[j],
                    trace[j + 1],
                    records[j],
                    records[j + 1],
                    vessel_id,
                    mount_id,
                    target_id,
                    task_dm,
                    j,
                ),
        decreases rules@.len() - w,
    {
        let ghost s0 = *state;
        let ghost e0 = events@;
        fire_weapon(
            state,
            events,
            &rules[w],
            w,
            actor,
            target,
            mount,
            vessel_id,
            mount_id,
            target_id,
            task_dm,
            range_index,
            bonus,
            penalty,
            delay,
            wear,
            Ghost(before),
            Ghost(fired),
            Ghost(before_events),
        );
        proof {
            let old_trace = trace;
            let old_records = records;
            trace = trace.push(*state);
            records = records.push(events@);
            assert forall|j: int| 0 <= j < w + 1 implies weapon_step(
                before,
                #[trigger] trace[j],
                trace[j + 1],
                records[j],
                records[j + 1],
                vessel_id,
                mount_id,
                target_id,
                task_dm,
                j,
            ) by {
                if j < w {
                    assert(trace[j] == old_trace[j] && trace[j + 1] == old_trace[j + 1]);
                    assert(records[j] == old_records[j] && records[j + 1] == old_records[j + 1]);
                }
            }
        }
        w = w + 1;
    }
    proof {
        assert(attack_trace(trace, records, before, vessel_id, mount_id, target_id, task_dm));
    }
    Ok(())
}


// ---------------------------------------------------------------------------
// Crew actions.

/// A run of battlefield repairs: `outcomes[j]` is what attempt `j` repaired.
pub open spec fn repair_trace(
    trace: Seq<VesselState>,
    outcomes: Seq<Option<RepairTarget>>,
    before: VesselState,
    after: VesselState,
    attempts: int,
) -> bool {
    &&& trace.len() == attempts + 1
    &&& outcomes.len() == attempts
    &&& trace[0] == before
    &&& trace[attempts] == after
    &&& forall|j: int| 0 <= j < attempts ==> repair_step(#[trigger] trace[j], trace[j + 1], outcomes[j])
}

/// The systems that a run of repair attempts covered, in order.
pub open spec fn repaired_targets(outcomes: Seq<Option<RepairTarget>>) -> Seq<RepairTarget> {
    outcomes.filter_map(|o: Option<RepairTarget>| o)
}

/// The damage-control report: the repaired systems, or that no damage was
/// found uncovered.
pub open spec fn repair_reported(
    before_events: Seq<CombatEvent>,
    after_events: Seq<CombatEvent>,
    vessel_id: u64,
    targets: Seq<RepairTarget>,
) -> bool {
    if targets.len() > 0 {
        &&& after_events.len() == before_events.len() + 1
        &&& after_events.take(before_events.len() as int) == before_events
        &&& match after_events.last() {
            CombatEvent::BattlefieldRepair { vessel_id: v, targets: t } => v == vessel_id && t@
                == targets,
            _ => false,
        }
    } else {
        action_reported(
            before_events,
            after_events,
            vessel_id,
            "damage-control parties find no uncovered battle damage"@,
        )
    }
}

/// Number of repair attempts for a damage-control effect: one, plus one for
/// each full three points of effect, at most three.
pub open spec fn repair_attempts(effect: int) -> int {
    1 + if effect / 3 < 2 {
        effect / 3
    } else {
        2
    }
}

/// What one crew action does to the combat, for an acting vessel that is
/// present.
#[verifier::opaque]
pub open spec fn action_outcome(
    before: CombatState,
    after: CombatState,
    before_events: Seq<CombatEvent>,
    after_events: Seq<CombatEvent>,
    vessel_id: u64,
    action: CrewAction,
    task_dm: i8,
    action_index: u64,
    r: Result<(), String>,
) -> bool {
    let a = first_vessel(before.vessels@, vessel_id);
    let v = before.vessels@[a];
    let effect = action_effect(before, vessel_id, action_index, task_dm);
    let unchanged = after == before && after_events == before_events;
    match action {
        CrewAction::Hold | CrewAction::PrepareJump | CrewAction::ElectronicWarfare => r is Ok
            && unchanged,
        CrewAction::Coordinate => r is Ok && if effect >= 0 {
            with_vessel(
                before,
                after,
                a,
                VesselState { targeting_dm: clamp_i8(v.targeting_dm + 1), ..v },
            ) && action_reported(
                before_events,
                after_events,
                vessel_id,
                "captain coordinates the crew"@,
            )
        } else {
            unchanged
        },
        CrewAction::IncreaseInitiative => r is Ok && after_events == before_events && if effect
            > 0 {
            with_vessel(before, after, a, VesselState { initiative: clamp_i16(v.initiative + effect), ..v })
        } else {
            after == before
        },
        CrewAction::EvasiveManeuvers => r is Ok && after_events == before_events && if effect >= 0 {
            with_vessel(
                before,
                after,
                a,
                VesselState {
                    evasive_dm: if effect >= 6 {
                        -2i8
                    } else {
                        -1i8
                    },
                    ..v
                },
            )
        } else {
            after == before
        },
        CrewAction::LineUpShot => r is Ok && after_events == before_events && if effect >= 0 {
            with_vessel(
                before,
                after,
                a,
                VesselState {
                    line_up_dm: if effect >= 6 {
                        2i8
                    } else {
                        1i8
                    },
                    ..v
                },
            )
        } else {
            after == before
        },
        CrewAction::SensorTargeting => r is Ok && after_events == before_events && if effect >= 0 {
            with_vessel(
                before,
                after,
                a,
                VesselState {
                    targeting_dm: if effect >= 6 {
                        2i8
                    } else {
                        1i8
                    },
                    ..v
                },
            )
        } else {
            after == before
        },
        CrewAction::RangeCheckClose => r is Ok && after_events == before_events && if effect >= 0 {
            after == (CombatState { range: band_at(band_index(before.range) - 1), ..before })
        } else {
            after == before
        },
        CrewAction::RangeCheckOpen | CrewAction::BreakPursuit => r is Ok && if effect >= 0 {
            let opened = band_at(band_index(before.range) + 1);
            if opened == RangeBand::Distant {
                &&& after == (CombatState { range: opened, vessels: after.vessels, ..before })
                &&& after.vessels@ == before.vessels@.update(
                    a,
                    VesselState { disposition: VesselDisposition::Withdrawing, ..v },
                )
                &&& after_events == before_events.push(CombatEvent::Withdrawal { vessel_id })
            } else {
                after == (CombatState { range: opened, ..before }) && after_events == before_events
            }
        } else {
            unchanged
        },
        CrewAction::DamageControl => r is Ok && if effect >= 0 {
            exists|trace: Seq<VesselState>, outcomes: Seq<Option<RepairTarget>>, repaired: VesselState|
                #![trigger repair_trace(trace, outcomes, v, repaired, repair_attempts(effect))]
                repair_trace(trace, outcomes, v, repaired, repair_attempts(effect)) && with_vessel(
                    before,
                    after,
                    a,
                    repaired,
                ) && repair_reported(
                    before_events,
                    after_events,
                    vessel_id,
                    repaired_targets(outcomes),
                )
        } else {
            after == before && action_reported(
                before_events,
                after_events,
                vessel_id,
                "damage-control parties cannot establish a battlefield repair"@,
            )
        },
        CrewAction::Attack { mount_id, target_id } => match attack_refusal(
            before,
            vessel_id,
            mount_id,
            target_id,
        ) {
            Some(reason) => r matches Err(e) && e@ == reason,
            None => r is Ok && attack_done(
                before,
                after,
                before_events,
                after_events,
                vessel_id,
                mount_id,
                target_id,
                task_dm,
            ),
        },
        CrewAction::Board { target_id } => r is Ok && if before.range != RangeBand::Adjacent {
            after == before && action_reported(
                before_events,
                after_events,
                vessel_id,
                "boarding parties cannot engage after the range opens"@,
            )
        } else {
            &&& after == (CombatState { boarding: after.boarding, ..before })
            &&& after.boarding@ == before.boarding@.push(
                BoardingState {
                    attacker_id: vessel_id,
                    defender_id: target_id,
                    attacker_bonus: 0,
                    defender_bonus: 0,
                },
            )
            &&& after_events == before_events.push(
                CombatEvent::BoardingStarted { attacker_id: vessel_id, defender_id: target_id },
            )
        },
        CrewAction::LaunchEscapeCraft => r is Ok && after_events == before_events && with_vessel(
            before,
            after,
            a,
            VesselState { disposition: VesselDisposition::Abandoned, ..v },
        ),
        CrewAction::OfferSurrender { to_vessel_id } => r is Ok && with_vessel(
            before,
            after,
            a,
            VesselState { disposition: VesselDisposition::SurrenderOffered, ..v },
        ) && after_events == before_events.push(
            CombatEvent::SurrenderOffered { vessel_id, to_vessel_id },
        ),
        CrewAction::AcceptSurrender { vessel_id: other } => if !has_vessel(before.vessels@, other) {
            r matches Err(e) && e@ == "surrendering vessel is absent"@
        } else {
            let s = first_vessel(before.vessels@, other);
            let offered = before.vessels@[s];
            if offered.disposition != VesselDisposition::SurrenderOffered {
                r matches Err(e) && e@ == "target has not offered surrender"@
            } else {
                r is Ok && with_vessel(
                    before,
                    after,
                    s,
                    VesselState { disposition: VesselDisposition::Surrendered, ..offered },
                ) && after_events == before_events.push(
                    CombatEvent::SurrenderAccepted { vessel_id: other, by_vessel_id: vessel_id },
                )
            }
        },
        CrewAction::InspectContact { target_id } => if !has_vessel(before.vessels@, target_id) {
            r matches Err(e) && e@ == "inspection target is absent"@
        } else if target_id == vessel_id {
            r matches Err(e) && e@ == "a vessel cannot inspect itself"@
        } else {
            r is Ok && after == before && if effect >= 0 {
                after_events == before_events.push(
                    CombatEvent::InspectionCompleted { vessel_id, target_id },
                )
            } else {
                after_events == before_events
            }
        },
    }
}

/// An action that cannot fail once its vessel is present: anything but an
/// attack, an acceptance of surrender, or an inspection of an absent
/// vessel or of the inspector itself.
pub open spec fn infallible_action(vessels: Seq<VesselState>, vessel_id: u64, action: CrewAction) -> bool {
    match action {
        CrewAction::Attack { .. } => false,
        CrewAction::AcceptSurrender { .. } => false,
        CrewAction::InspectContact { target_id } => has_vessel(vessels, target_id) && target_id
            != vessel_id,
        _ => true,
    }
}

proof fn lemma_with_vessel_roster(before: CombatState, after: CombatState, index: int, vessel: VesselState)
    requires
        0 <= index < before.vessels@.len(),
        with_vessel(before, after, index, vessel),
        roster_entry(before.vessels@[index], vessel),
    ensures
        same_roster(before.vessels@, after.vessels@),
        same_frame(before, after),
{
    lemma_roster_update(before.vessels@, index, vessel);
}

fn resolve_action(
    state: &mut CombatState,
    order: &JointOrder,
    action: CrewAction,
    task_dm: i8,
    action_index: usize,
    events: &mut Vec<CombatEvent>,
) -> (r: Result<(), String>)
    ensures
        !has_vessel(old(state).vessels@, order.vessel_id) ==> (r matches Err(e) && e@
            == "acting vessel disappeared"@),
        has_vessel(old(state).vessels@, order.vessel_id) ==> action_outcome(
            *old(state),
            *final(state),
            old(events)@,
            final(events)@,
            order.vessel_id,
            action,
            task_dm,
            action_index as u64,
            r,
        ),
        r is Ok ==> same_frame(*old(state), *final(state)) && same_roster(
            old(state).vessels@,
            final(state).vessels@,
        ),
{
    proof {
        reveal(action_outcome);
    }
    let ghost before = *state;
    let ghost before_events = events@;
    let vessel_id = order.vessel_id;
    let actor = match vessel_position(&state.vessels, vessel_id) {
        Some(i) => i,
        None => {
            return Err(message("acting vessel disappeared"));
        },
    };
    proof {
        lemma_first_vessel(before.vessels@, vessel_id, actor as int);
    }
    let ghost v = before.vessels@[actor as int];
    match action {
        CrewAction::Hold | CrewAction::PrepareJump | CrewAction::ElectronicWarfare => {},
        CrewAction::Coordinate => {
            if action_check(state, vessel_id, action_index, task_dm) >= 0 {
                state.vessels[actor].targeting_dm = sat_add_i8(state.vessels[actor].targeting_dm, 1);
                events.push(
                    CombatEvent::Action {
                        vessel_id,
                        description: message("captain coordinates the crew"),
                    },
                );
                proof {
                    assert(state.vessels@ =~= before.vessels@.update(actor as int, state.vessels@[actor as int]));
                    lemma_with_vessel_roster(before, *state, actor as int, state.vessels@[actor as int]);
                    assert(events@.take(before_events.len() as int) =~= before_events);
                }
            }
        },
        CrewAction::IncreaseInitiative => {
            let effect = action_check(state, vessel_id, action_index, task_dm);
            if effect > 0 {
                state.vessels[actor].initiative = sat_add_i16(state.vessels[actor].initiative, effect);
                proof {
                    assert(state.vessels@ =~= before.vessels@.update(actor as int, state.vessels@[actor as int]));
                    lemma_with_vessel_roster(before, *state, actor as int, state.vessels@[actor as int]);
                }
            }
        },
        CrewAction::EvasiveManeuvers => {
            let effect = action_check(state, vessel_id, action_index, task_dm);
            if effect >= 0 {
                state.vessels[actor].evasive_dm = if effect >= 6 {
                    -2
                } else {
                    -1
                };
                proof {
                    assert(state.vessels@ =~= before.vessels@.update(actor as int, state.vessels@[actor as int]));
                    lemma_with_vessel_roster(before, *state, actor as int, state.vessels@[actor as int]);
                }
            }
        },
        CrewAction::LineUpShot => {
            let effect = action_check(state, vessel_id, action_index, task_dm);
            if effect >= 0 {
                state.vessels[actor].line_up_dm = if effect >= 6 {
                    2
                } else {
                    1
                };
                proof {
                    assert(state.vessels@ =~= before.vessels@.update(actor as int, state.vessels@[actor as int]));
                    lemma_with_vessel_roster(before, *state, actor as int, state.vessels@[actor as int]);
                }
            }
        },
        CrewAction::SensorTargeting => {
            let effect = action_check(state, vessel_id, action_index, task_dm);
            if effect >= 0 {
                state.vessels[actor].targeting_dm = if effect >= 6 {
                    2
                } else {
                    1
                };
                proof {
                    assert(state.vessels@ =~= before.vessels@.update(actor as int, state.vessels@[actor as int]));
                    lemma_with_vessel_roster(before, *state, actor as int, state.vessels@[actor as int]);
                }
            }
        },
        CrewAction::RangeCheckClose => {
            if action_check(state, vessel_id, action_index, task_dm) >= 0 {
                state.range = state.range.decrease();
            }
        },
        CrewAction::RangeCheckOpen | CrewAction::BreakPursuit => {
            if action_check(state, vessel_id, action_index, task_dm) < 0 {
                return Ok(());
            }
            state.range = state.range.increase();
            if state.range == RangeBand::Distant {
                state.vessels[actor].disposition = VesselDisposition::Withdrawing;
                events.push(CombatEvent::Withdrawal { vessel_id });
                proof {
                    assert(state.vessels@ =~= before.vessels@.update(actor as int, state.vessels@[actor as int]));
                    lemma_roster_update(before.vessels@, actor as int, state.vessels@[actor as int]);
                }
            }
        },
        CrewAction::DamageControl => {
            let effect = action_check(state, vessel_id, action_index, task_dm);
            if effect >= 0 {
                let third: i16 = effect / 3;
                let attempts: u8 = 1 + if third < 2 {
                    third as u8
                } else {
                    2
                };
                assert(attempts == repair_attempts(effect as int));
                let mut targets: Vec<RepairTarget> = Vec::new();
                let ghost mut trace: Seq<VesselState> = seq![v];
                let ghost mut outcomes: Seq<Option<RepairTarget>> = seq![];
                let mut k: u8 = 0;
                while k < attempts
                    invariant
                        k <= attempts,
                        actor < state.vessels@.len(),
                        actor < before.vessels@.len(),
                        v == before.vessels@[actor as int],
                        *state == (CombatState { vessels: state.vessels, ..before }),
                        state.vessels@ == before.vessels@.update(actor as int, state.vessels@[actor as int]),
                        trace.len() == k + 1,
                        outcomes.len() == k,
                        trace[0] == v,
                        trace[k as int] == state.vessels@[actor as int],
                        forall|j: int|
                            0 <= j < k ==> repair_step(#[trigger] trace[j], trace[j + 1], outcomes[j]),
                        targets@ == repaired_targets(outcomes),
                        roster_entry(v, state.vessels@[actor as int]),
                    decreases attempts - k,
                {
                    let ghost prior = state.vessels@[actor as int];
                    let outcome = apply_one_battlefield_repair(&mut state.vessels[actor]);
                    match outcome {
                        Some(target) => {
                            targets.push(target);
                        },
                        None => {},
                    }
                    proof {
                        let old_trace = trace;
                        let old_outcomes = outcomes;
                        trace = trace.push(state.vessels@[actor as int]);
                        outcomes = outcomes.push(outcome);
                        assert(outcomes.drop_last() =~= old_outcomes);
                        assert(targets@ =~= repaired_targets(outcomes));
                        assert forall|j: int| 0 <= j < k + 1 implies repair_step(
                            #[trigger] trace[j],
                            trace[j + 1],
                            outcomes[j],
                        ) by {
                            if j < k {
                                assert(trace[j] == old_trace[j]);
                                assert(trace[j + 1] == old_trace[j + 1]);
                                assert(outcomes[j] == old_outcomes[j]);
                            } else {
                                assert(trace[j] == prior);
                            }
                        }
                        assert(state.vessels@ =~= before.vessels@.update(
                            actor as int,
                            state.vessels@[actor as int],
                        ));
                        lemma_repair_keeps_roster(prior, state.vessels@[actor as int], outcome);
                        assert forall|q: int| 0 <= q < v.weapons@.len() implies (
                        #[trigger] state.vessels@[actor as int].weapons@[q]).mount_id
                            == v.weapons@[q].mount_id by {
                            assert(prior.weapons@[q].mount_id == v.weapons@[q].mount_id);
                        }
                    }
                    k = k + 1;
                }
                let ghost repaired = state.vessels@[actor as int];
                assert(repair_trace(trace, outcomes, v, repaired, repair_attempts(effect as int)));
                if targets.len() > 0 {
                    events.push(CombatEvent::BattlefieldRepair { vessel_id, targets });
                } else {
                    events.push(
                        CombatEvent::Action {
                            vessel_id,
                            description: message(
                                "damage-control parties find no uncovered battle damage",
                            ),
                        },
                    );
                }
                proof {
                    assert(events@.take(before_events.len() as int) =~= before_events);
                    lemma_with_vessel_roster(before, *state, actor as int, repaired);
                }
            } else {
                events.push(
                    CombatEvent::Action {
                        vessel_id,
                        description: message(
                            "damage-control parties cannot establish a battlefield repair",
                        ),
                    },
                );
                proof {
                    assert(events@.take(before_events.len() as int) =~= before_events);
                }
            }
        },
        CrewAction::Attack { mount_id, target_id } => {
            return resolve_attack(state, vessel_id, mount_id, target_id, task_dm, events);
        },
        CrewAction::Board { target_id } => {
            if state.range != RangeBand::Adjacent {
                events.push(
                    CombatEvent::Action {
                        vessel_id,
                        description: message("boarding parties cannot engage after the range opens"),
                    },
                );
                proof {
                    assert(events@.take(before_events.len() as int) =~= before_events);
                }
                return Ok(());
            }
            state.boarding.push(
                BoardingState {
                    attacker_id: vessel_id,
                    defender_id: target_id,
                    attacker_bonus: 0,
                    defender_bonus: 0,
                },
            );
            events.push(CombatEvent::BoardingStarted { attacker_id: vessel_id, defender_id: target_id });
        },
        CrewAction::LaunchEscapeCraft => {
            state.vessels[actor].disposition = VesselDisposition::Abandoned;
            proof {
                assert(state.vessels@ =~= before.vessels@.update(actor as int, state.vessels@[actor as int]));
                lemma_with_vessel_roster(before, *state, actor as int, state.vessels@[actor as int]);
            }
        },
        CrewAction::OfferSurrender { to_vessel_id } => {
            state.vessels[actor].disposition = VesselDisposition::SurrenderOffered;
            events.push(CombatEvent::SurrenderOffered { vessel_id, to_vessel_id });
            proof {
                assert(state.vessels@ =~= before.vessels@.update(actor as int, state.vessels@[actor as int]));
                lemma_with_vessel_roster(before, *state, actor as int, state.vessels@[actor as int]);
            }
        },
        CrewAction::AcceptSurrender { vessel_id: surrendering } => {
            let index = match vessel_position(&state.vessels, surrendering) {
                Some(i) => i,
                None => {
                    return Err(message("surrendering vessel is absent"));
                },
            };
            proof {
                lemma_first_vessel(before.vessels@, surrendering, index as int);
            }
            if state.vessels[index].disposition != VesselDisposition::SurrenderOffered {
                return Err(message("target has not offered surrender"));
            }
            state.vessels[index].disposition = VesselDisposition::Surrendered;
            events.push(
                CombatEvent::SurrenderAccepted { vessel_id: surrendering, by_vessel_id: vessel_id },
            );
            proof {
                assert(state.vessels@ =~= before.vessels@.update(index as int, state.vessels@[index as int]));
                lemma_with_vessel_roster(before, *state, index as int, state.vessels@[index as int]);
            }
        },
        CrewAction::InspectContact { target_id } => {
            let index = match vessel_position(&state.vessels, target_id) {
                Some(i) => i,
                None => {
                    return Err(message("inspection target is absent"));
                },
            };
            if state.vessels[index].vessel_id == vessel_id {
                return Err(message("a vessel cannot inspect itself"));
            }
            if action_check(state, vessel_id, action_index, task_dm) >= 0 {
                events.push(CombatEvent::InspectionCompleted { vessel_id, target_id });
            }
        },
    }
    Ok(())
}

proof fn lemma_repair_keeps_roster(before: VesselState, after: VesselState, outcome: Option<RepairTarget>)
    requires
        repair_step(before, after, outcome),
    ensures
        roster_entry(before, after),
{
    if crate::combat_damage::next_repair_slot(before) is None && crate::combat_damage::has_worn_mount(before.weapons@) {
        let k = choose|k: int|
            #![trigger before.weapons@[k]]
            crate::combat_damage::is_first_worn_mount(before.weapons@, k) && outcome == Some(
                RepairTarget::WeaponMount(before.weapons@[k].mount_id),
            ) && after == (VesselState { weapons: after.weapons, ..before })
                && after.weapons@ == before.weapons@.update(
                k,
                WeaponMount {
                    battlefield_repair_hits: (before.weapons@[k].battlefield_repair_hits
                        + 1) as u8,
                    ..before.weapons@[k]
                },
            );
        assert forall|q: int| 0 <= q < before.weapons@.len() implies (#[trigger] after.weapons@[q]).mount_id
            == before.weapons@[q].mount_id by {
            if q != k {
            }
        }
    }
}


// ---------------------------------------------------------------------------
// Missiles and boarding.

/// The missiles that stay in flight after the impacts of a round.
pub open spec fn missiles_in_flight(missiles: Seq<PendingMissile>, round: u16) -> Seq<PendingMissile> {
    missiles.filter_map(
        |m: PendingMissile|
            if m.impact_round > round {
                Some(m)
            } else {
                None
            },
    )
}

/// `index` is the first point-defense reaction of the list.
pub open spec fn is_first_point_defense(reactions: Seq<ReactionKind>, index: int) -> bool {
    &&& 0 <= index < reactions.len()
    &&& reactions[index] == ReactionKind::PointDefense
    &&& forall|j: int| 0 <= j < index ==> reactions[j] != ReactionKind::PointDefense
}

/// `index` is the first order of the list for the vessel.
pub open spec fn is_first_order(orders: Seq<JointOrder>, vessel_id: u64, index: int) -> bool {
    &&& 0 <= index < orders.len()
    &&& orders[index].vessel_id == vessel_id
    &&& forall|j: int| 0 <= j < index ==> orders[j].vessel_id != vessel_id
}

/// The task modifier of the point defense that a vessel's orders hold
/// against missiles: that of the first point-defense reaction of its first
/// order, if there is one.
pub open spec fn point_defense_dm(orders: Seq<JointOrder>, vessel_id: u64) -> Option<i8> {
    if exists|k: int| is_first_order(orders, vessel_id, k) {
        let order = orders[choose|k: int| is_first_order(orders, vessel_id, k)];
        if exists|p: int| is_first_point_defense(order.reactions@, p) {
            Some(order.reaction_dms@[choose|p: int| is_first_point_defense(order.reactions@, p)])
        } else {
            None
        }
    } else {
        None
    }
}

proof fn lemma_first_order(orders: Seq<JointOrder>, vessel_id: u64, index: int)
    requires
        is_first_order(orders, vessel_id, index),
    ensures
        (choose|k: int| is_first_order(orders, vessel_id, k)) == index,
{
    let c = choose|k: int| is_first_order(orders, vessel_id, k);
    assert(is_first_order(orders, vessel_id, c));
    if c < index {
        assert(orders[c].vessel_id != vessel_id);
    } else if c > index {
        assert(orders[index].vessel_id != vessel_id);
    }
}

proof fn lemma_first_point_defense(reactions: Seq<ReactionKind>, index: int)
    requires
        is_first_point_defense(reactions, index),
    ensures
        (choose|p: int| is_first_point_defense(reactions, p)) == index,
{
    let c = choose|p: int| is_first_point_defense(reactions, p);
    assert(is_first_point_defense(reactions, c));
    if c < index {
        assert(reactions[c] != ReactionKind::PointDefense);
    } else if c > index {
        assert(reactions[index] != ReactionKind::PointDefense);
    }
}

/// The first point-defense reaction of an order.
fn point_defense_position(order: &JointOrder) -> (r: Option<usize>)
    ensures
        match r {
            Some(k) => is_first_point_defense(order.reactions@, k as int),
            None => !exists|p: int| is_first_point_defense(order.reactions@, p),
        },
{
    let mut k: usize = 0;
    while k < order.reactions.len()
        invariant
            k <= order.reactions@.len(),
            forall|j: int| 0 <= j < k ==> order.reactions@[j] != ReactionKind::PointDefense,
        decreases order.reactions@.len() - k,
    {
        if order.reactions[k] == ReactionKind::PointDefense {
            return Some(k);
        }
        k = k + 1;
    }
    None
}

/// The first order of the given vessel, if one was submitted.
fn order_for(orders: &[JointOrder], vessel_id: u64) -> (r: Option<usize>)
    ensures
        match r {
            Some(k) => is_first_order(orders@, vessel_id, k as int),
            None => !exists|k: int| is_first_order(orders@, vessel_id, k),
        },
{
    let mut k: usize = 0;
    while k < orders.len()
        invariant
            k <= orders@.len(),
            forall|j: int| 0 <= j < k ==> orders@[j].vessel_id != vessel_id,
        decreases orders@.len() - k,
    {
        if orders[k].vessel_id == vessel_id {
            return Some(k);
        }
        k = k + 1;
    }
    None
}

fn copy_missile(missile: &PendingMissile) -> (r: PendingMissile)
    ensures
        r == *missile,
{
    PendingMissile {
        missile_id: missile.missile_id,
        source_vessel_id: missile.source_vessel_id,
        target_vessel_id: missile.target_vessel_id,
        weapon: copy_rule(&missile.weapon),
        hit_target: missile.hit_target,
        impact_round: missile.impact_round,
    }
}

/// A missile that is due this round, against the vessels: nothing if it is
/// not due or its launcher or target is gone; else the target's point
/// defense spends a reaction and may destroy it (2D plus the reaction's
/// modifier, 8 or more), and a missile that gets through hits on 2D at
/// least its hit target, with the damage of its weapon.
pub open spec fn missile_struck(
    before: CombatState,
    after: CombatState,
    before_events: Seq<CombatEvent>,
    after_events: Seq<CombatEvent>,
    orders: Seq<JointOrder>,
    missile: PendingMissile,
) -> bool {
    let vessels = before.vessels@;
    if missile.impact_round > before.round || !has_vessel(vessels, missile.source_vessel_id)
        || !has_vessel(vessels, missile.target_vessel_id) {
        after == before && after_events == before_events
    } else {
        let s = first_vessel(vessels, missile.source_vessel_id);
        let t = first_vessel(vessels, missile.target_vessel_id);
        let v = vessels[t];
        let e = mix64_spec(missile.missile_id ^ before.revision);
        let defense = point_defense_dm(orders, missile.target_vessel_id);
        let defended = defense is Some && v.reactions_remaining > 0;
        let destroyed = defended && d6_spec(e, 16) + d6_spec(e, 24) + defense->0 >= 8;
        let strikes = !destroyed && d6_spec(e, 0) + d6_spec(e, 8) >= missile.hit_target;
        if defended {
            let spent = VesselState { reactions_remaining: (v.reactions_remaining - 1) as u8, ..v };
            exists|mid: CombatState|
                #[trigger] with_vessel(before, mid, t, spent) && if strikes {
                    weapon_damage_done(mid, after, before_events, after_events, s, t, missile.weapon, rotl_spec(e, 31))
                } else {
                    after == mid && after_events == before_events
                }
        } else if strikes {
            weapon_damage_done(before, after, before_events, after_events, s, t, missile.weapon, rotl_spec(e, 31))
        } else {
            after == before && after_events == before_events
        }
    }
}

/// The states and event records that the due missiles go through, one
/// step for each missile.
pub open spec fn missile_trace(
    trace: Seq<CombatState>,
    records: Seq<Seq<CombatEvent>>,
    orders: Seq<JointOrder>,
    missiles: Seq<PendingMissile>,
) -> bool {
    &&& trace.len() == missiles.len() + 1
    &&& records.len() == trace.len()
    &&& forall|k: int|
        0 <= k < missiles.len() ==> missile_struck(
            trace[k],
            trace[k + 1],
            records[k],
            records[k + 1],
            orders,
            #[trigger] missiles[k],
        )
}

/// The missile phase of a round: each missile in flight taken in turn,
/// then those not yet due kept.
pub open spec fn missiles_done(
    before: CombatState,
    after: CombatState,
    before_events: Seq<CombatEvent>,
    after_events: Seq<CombatEvent>,
    orders: Seq<JointOrder>,
) -> bool {
    exists|trace: Seq<CombatState>, records: Seq<Seq<CombatEvent>>|
        #![trigger missile_trace(trace, records, orders, before.missiles@)]
        {
            &&& missile_trace(trace, records, orders, before.missiles@)
            &&& trace[0] == (CombatState { missiles: trace[0].missiles, ..before })
            &&& trace[0].missiles@ == Seq::<PendingMissile>::empty()
            &&& records[0] == before_events
            &&& after == (CombatState { missiles: after.missiles, ..trace.last() })
            &&& after.missiles@ == missiles_in_flight(before.missiles@, before.round)
            &&& after_events == records.last()
        }
}

/// One missile of the phase, resolved against the vessels.
#[verifier::spinoff_prover]
#[verifier::rlimit(50)]
fn strike_once(
    state: &mut CombatState,
    orders: &[JointOrder],
    missile: &PendingMissile,
    events: &mut Vec<CombatEvent>,
)
    requires
        forall|i: int|
            0 <= i < orders@.len() ==> (#[trigger] orders@[i]).reactions@.len()
                == orders@[i].reaction_dms@.len(),
    ensures
        missile_struck(*old(state), *final(state), old(events)@, final(events)@, orders@, *missile),
        same_frame(*old(state), *final(state)),
        final(state).range == old(state).range,
        final(state).missiles@ == old(state).missiles@,
        final(state).boarding@ == old(state).boarding@,
        same_roster(old(state).vessels@, final(state).vessels@),
        final(events)@.len() >= old(events)@.len(),
        final(events)@.take(old(events)@.len() as int) == old(events)@,
{
    let ghost before = *state;
    let ghost before_events = events@;
    if missile.impact_round > state.round {
        return ;
    }
    let source = vessel_position(&state.vessels, missile.source_vessel_id);
    let target = vessel_position(&state.vessels, missile.target_vessel_id);
    if source.is_none() || target.is_none() {
        return ;
    }
    let source = source.unwrap();
    let target = target.unwrap();
    proof {
        lemma_first_vessel(before.vessels@, missile.source_vessel_id, source as int);
        lemma_first_vessel(before.vessels@, missile.target_vessel_id, target as int);
    }
    let entropy = mix64(missile.missile_id ^ state.revision);
    let mut destroyed = false;
    let mut defended = false;
    match order_for(orders, missile.target_vessel_id) {
        Some(k) => {
            proof {
                lemma_first_order(orders@, missile.target_vessel_id, k as int);
            }
            let order = &orders[k];
            match point_defense_position(order) {
                Some(reaction) => {
                    proof {
                        lemma_first_point_defense(order.reactions@, reaction as int);
                        assert(point_defense_dm(orders@, missile.target_vessel_id) == Some(
                            order.reaction_dms@[reaction as int],
                        ));
                    }
                    if state.vessels[target].reactions_remaining > 0 {
                        state.vessels[target].reactions_remaining = state.vessels[target].reactions_remaining
                            - 1;
                        defended = true;
                        proof {
                            let v = before.vessels@[target as int];
                            assert(state.vessels@ =~= before.vessels@.update(
                                target as int,
                                VesselState { reactions_remaining: (v.reactions_remaining - 1) as u8, ..v },
                            ));
                            lemma_roster_after_field(before.vessels@, state.vessels@, target as int);
                        }
                        destroyed = d6(entropy, 16) + d6(entropy, 24) + order.reaction_dms[reaction] as i16
                            >= 8;
                    }
                },
                None => {
                    proof {
                        assert(point_defense_dm(orders@, missile.target_vessel_id) is None);
                    }
                },
            }
        },
        None => {},
    }
    let ghost mid = *state;
    if !destroyed && d6(entropy, 0) + d6(entropy, 8) >= missile.hit_target as i16 {
        apply_weapon_damage(state, source, target, &missile.weapon, rotl(entropy, 31), events);
        proof {
            lemma_roster_trans(before.vessels@, mid.vessels@, state.vessels@);
        }
    }
    proof {
        if defended {
            assert(with_vessel(before, mid, target as int, mid.vessels@[target as int]));
        }
    }
}

fn resolve_missile_impacts(
    state: &mut CombatState,
    orders: &[JointOrder],
    events: &mut Vec<CombatEvent>,
)
    requires
        forall|i: int|
            0 <= i < orders@.len() ==> (#[trigger] orders@[i]).reactions@.len()
                == orders@[i].reaction_dms@.len(),
    ensures
        missiles_done(*old(state), *final(state), old(events)@, final(events)@, orders@),
        same_frame(*old(state), *final(state)),
        final(state).range == old(state).range,
        final(state).boarding@ == old(state).boarding@,
        final(state).missiles@ == missiles_in_flight(old(state).missiles@, old(state).round),
        same_roster(old(state).vessels@, final(state).vessels@),
        final(events)@.len() >= old(events)@.len(),
        final(events)@.take(old(events)@.len() as int) == old(events)@,
{
    let ghost before = *state;
    let ghost before_events = events@;
    let mut taken: Vec<PendingMissile> = Vec::new();
    std::mem::swap(&mut taken, &mut state.missiles);
    let ghost mut trace: Seq<CombatState> = seq![*state];
    let ghost mut records: Seq<Seq<CombatEvent>> = seq![events@];
    let mut future: Vec<PendingMissile> = Vec::new();
    let mut i: usize = 0;
    while i < taken.len()
        invariant
            i <= taken@.len(),
            taken@ == before.missiles@,
            forall|k: int|
                0 <= k < orders@.len() ==> (#[trigger] orders@[k]).reactions@.len()
                    == orders@[k].reaction_dms@.len(),
            missile_trace(trace, records, orders@, taken@.take(i as int)),
            trace[0] == (CombatState { missiles: trace[0].missiles, ..before }),
            trace[0].missiles@ == Seq::<PendingMissile>::empty(),
            records[0] == before_events,
            trace.last() == *state,
            records.last() == events@,
            future@ == missiles_in_flight(taken@.take(i as int), before.round),
            same_frame(before, *state),
            state.range == before.range,
            state.boarding@ == before.boarding@,
            same_roster(before.vessels@, state.vessels@),
            events@.len() >= before_events.len(),
            events@.take(before_events.len() as int) == before_events,
        decreases taken@.len() - i,
    {
        let ghost prior_state = *state;
        let ghost prior_events = events@;
        let missile = &taken[i];
        if missile.impact_round > state.round {
            future.push(copy_missile(missile));
        }
        strike_once(state, orders, missile, events);
        proof {
            lemma_roster_trans(before.vessels@, prior_state.vessels@, state.vessels@);
            assert(events@.take(before_events.len() as int) =~= events@.take(
                prior_events.len() as int,
            ).take(before_events.len() as int));
            reveal(Seq::filter_map);
            assert(taken@.take(i + 1).drop_last() =~= taken@.take(i as int));
            assert(future@ =~= missiles_in_flight(taken@.take(i + 1), before.round));
            let old_trace = trace;
            let old_records = records;
            trace = trace.push(*state);
            records = records.push(events@);
            assert forall|k: int| 0 <= k < i + 1 implies missile_struck(
                trace[k],
                trace[k + 1],
                records[k],
                records[k + 1],
                orders@,
                #[trigger] taken@.take(i + 1)[k],
            ) by {
                if k < i {
                    assert(taken@.take(i + 1)[k] == taken@.take(i as int)[k]);
                    assert(trace[k] == old_trace[k] && trace[k + 1] == old_trace[k + 1]);
                    assert(records[k] == old_records[k] && records[k + 1] == old_records[k + 1]);
                }
            }
        }
        i = i + 1;
    }
    proof {
        assert(taken@.take(taken@.len() as int) =~= taken@);
    }
    state.missiles = future;
    assert(missiles_done(before, *state, before_events, events@, orders@));
}

/// Roster unchanged when one vessel's reaction count changed.
pub proof fn lemma_roster_after_field(before: Seq<VesselState>, after: Seq<VesselState>, index: int)
    requires
        0 <= index < before.len(),
        after.len() == before.len(),
        forall|i: int| 0 <= i < before.len() && i != index ==> after[i] == before[i],
        roster_entry(before[index], after[index]),
    ensures
        same_roster(before, after),
{
    assert forall|i: int| 0 <= i < before.len() implies roster_entry(#[trigger] before[i], after[i]) by {
        if i != index {
            assert(after[i] == before[i]);
        }
    }
}

/// Entropy of a boarding action in a round.
pub open spec fn boarding_entropy(combat_id: u64, revision: u64, boarding: BoardingState) -> u64 {
    mix64_spec(
        combat_id ^ revision ^ rotl_spec(boarding.attacker_id, 19) ^ rotl_spec(boarding.defender_id, 37),
    )
}

/// Boarders' 2D plus their bonus, less the defenders' 2D plus theirs.
pub open spec fn boarding_effect(combat_id: u64, revision: u64, boarding: BoardingState) -> int {
    let e = boarding_entropy(combat_id, revision, boarding);
    (d6_spec(e, 0) + d6_spec(e, 8) + boarding.attacker_bonus) - (d6_spec(e, 16) + d6_spec(e, 24)
        + boarding.defender_bonus)
}

/// A boarding action that goes on into the next round, with the side that
/// won this round's exchange gaining the bonus; a decisive result of six or
/// more either way ends it.
pub open spec fn boarding_next(combat_id: u64, revision: u64, boarding: BoardingState) -> Option<
    BoardingState,
> {
    let effect = boarding_effect(combat_id, revision, boarding);
    if effect >= 6 || effect <= -6 {
        None
    } else if effect >= 0 {
        Some(BoardingState { attacker_bonus: 2, ..boarding })
    } else {
        Some(BoardingState { defender_bonus: 2, ..boarding })
    }
}

pub open spec fn boardings_after(combat_id: u64, revision: u64, boardings: Seq<BoardingState>) -> Seq<
    BoardingState,
> {
    boardings.filter_map(|b: BoardingState| boarding_next(combat_id, revision, b))
}

/// A boarding action resolved against the vessels: a decisive win
/// captures the defender, a decisive loss leaves the vessels as they were,
/// and otherwise the defender's structure takes a point, its loss at zero
/// destroying it and reported.
pub open spec fn boarding_resolved(
    before: CombatState,
    after: CombatState,
    before_events: Seq<CombatEvent>,
    after_events: Seq<CombatEvent>,
    combat_id: u64,
    revision: u64,
    boarding: BoardingState,
) -> bool {
    let effect = boarding_effect(combat_id, revision, boarding);
    let id = boarding.defender_id;
    if !has_vessel(before.vessels@, id) || effect <= -6 {
        after == before && after_events == before_events
    } else {
        let d = first_vessel(before.vessels@, id);
        let v = before.vessels@[d];
        if effect >= 6 {
            with_vessel(before, after, d, VesselState { disposition: VesselDisposition::Captured, ..v })
                && after_events == before_events
        } else {
            let worn = VesselState {
                structure_remaining: if v.structure_remaining > 0 {
                    (v.structure_remaining - 1) as u16
                } else {
                    0u16
                },
                ..v
            };
            if worn.structure_remaining == 0 {
                with_vessel(
                    before,
                    after,
                    d,
                    VesselState { disposition: VesselDisposition::Destroyed, ..worn },
                ) && after_events == before_events.push(
                    CombatEvent::VesselDestroyed { vessel_id: v.vessel_id },
                )
            } else {
                with_vessel(before, after, d, worn) && after_events == before_events
            }
        }
    }
}

/// The states and event records that the boarding actions go through, one
/// step for each.
pub open spec fn boarding_trace(
    trace: Seq<CombatState>,
    records: Seq<Seq<CombatEvent>>,
    combat_id: u64,
    revision: u64,
    boardings: Seq<BoardingState>,
) -> bool {
    &&& trace.len() == boardings.len() + 1
    &&& records.len() == trace.len()
    &&& forall|k: int|
        0 <= k < boardings.len() ==> boarding_resolved(
            trace[k],
            trace[k + 1],
            records[k],
            records[k + 1],
            combat_id,
            revision,
            #[trigger] boardings[k],
        )
}

/// The boarding phase of a round: each boarding action resolved in turn,
/// then the actions that go on kept.
pub open spec fn boardings_done(
    before: CombatState,
    after: CombatState,
    before_events: Seq<CombatEvent>,
    after_events: Seq<CombatEvent>,
) -> bool {
    exists|trace: Seq<CombatState>, records: Seq<Seq<CombatEvent>>|
        #![trigger boarding_trace(trace, records, before.combat_id, before.revision, before.boarding@)]
        {
            &&& boarding_trace(trace, records, before.combat_id, before.revision, before.boarding@)
            &&& trace[0] == (CombatState { boarding: trace[0].boarding, ..before })
            &&& trace[0].boarding@ == Seq::<BoardingState>::empty()
            &&& records[0] == before_events
            &&& after == (CombatState { boarding: after.boarding, ..trace.last() })
            &&& after.boarding@ == boardings_after(before.combat_id, before.revision, before.boarding@)
            &&& after_events == records.last()
        }
}

/// One boarding action: resolves it against the vessels and gives the
/// action as it goes on, if it does.
#[verifier::spinoff_prover]
#[verifier::rlimit(50)]
fn board_once(
    state: &mut CombatState,
    events: &mut Vec<CombatEvent>,
    boarding: BoardingState,
    combat_id: u64,
    revision: u64,
) -> (r: Option<BoardingState>)
    ensures
        boarding_resolved(*old(state), *final(state), old(events)@, final(events)@, combat_id, revision, boarding),
        r == boarding_next(combat_id, revision, boarding),
        same_frame(*old(state), *final(state)),
        final(state).range == old(state).range,
        final(state).missiles@ == old(state).missiles@,
        final(state).boarding@ == old(state).boarding@,
        same_roster(old(state).vessels@, final(state).vessels@),
        final(events)@.len() >= old(events)@.len(),
        final(events)@.take(old(events)@.len() as int) == old(events)@,
{
    let ghost before = *state;
    let ghost before_events = events@;
    let mut boarding = boarding;
    let entropy = mix64(
        combat_id ^ revision ^ rotl(boarding.attacker_id, 19) ^ rotl(boarding.defender_id, 37),
    );
    let attacker = d6(entropy, 0) + d6(entropy, 8) + boarding.attacker_bonus as i16;
    let defender = d6(entropy, 16) + d6(entropy, 24) + boarding.defender_bonus as i16;
    let effect = attacker - defender;
    assert(effect == boarding_effect(combat_id, revision, boarding));
    if effect >= 6 {
        match vessel_position(&state.vessels, boarding.defender_id) {
            Some(d) => {
                proof {
                    lemma_first_vessel(before.vessels@, boarding.defender_id, d as int);
                }
                state.vessels[d].disposition = VesselDisposition::Captured;
                proof {
                    assert(state.vessels@ =~= before.vessels@.update(
                        d as int,
                        VesselState { disposition: VesselDisposition::Captured, ..before.vessels@[d as int] },
                    ));
                    lemma_roster_after_field(before.vessels@, state.vessels@, d as int);
                }
            },
            None => {},
        }
        None
    } else if effect <= -6 {
        None
    } else {
        if effect >= 0 {
            boarding.attacker_bonus = 2;
        } else {
            boarding.defender_bonus = 2;
        }
        match vessel_position(&state.vessels, boarding.defender_id) {
            Some(d) => {
                proof {
                    lemma_first_vessel(before.vessels@, boarding.defender_id, d as int);
                }
                let ghost v = before.vessels@[d as int];
                let ghost worn = VesselState {
                    structure_remaining: if v.structure_remaining > 0 {
                        (v.structure_remaining - 1) as u16
                    } else {
                        0u16
                    },
                    ..v
                };
                state.vessels[d].structure_remaining = state.vessels[d].structure_remaining.saturating_sub(
                    1,
                );
                assert(state.vessels@ =~= before.vessels@.update(d as int, worn));
                if state.vessels[d].structure_remaining == 0 {
                    state.vessels[d].disposition = VesselDisposition::Destroyed;
                    assert(state.vessels@ =~= before.vessels@.update(
                        d as int,
                        VesselState { disposition: VesselDisposition::Destroyed, ..worn },
                    ));
                    events.push(CombatEvent::VesselDestroyed { vessel_id: state.vessels[d].vessel_id });
                    proof {
                        assert(events@.take(before_events.len() as int) =~= before_events);
                    }
                }
                proof {
                    lemma_roster_after_field(before.vessels@, state.vessels@, d as int);
                }
            },
            None => {},
        }
        Some(boarding)
    }
}

fn resolve_boarding(state: &mut CombatState, events: &mut Vec<CombatEvent>)
    ensures
        boardings_done(*old(state), *final(state), old(events)@, final(events)@),
        same_frame(*old(state), *final(state)),
        final(state).range == old(state).range,
        final(state).missiles@ == old(state).missiles@,
        final(state).boarding@ == boardings_after(
            old(state).combat_id,
            old(state).revision,
            old(state).boarding@,
        ),
        same_roster(old(state).vessels@, final(state).vessels@),
        final(events)@.len() >= old(events)@.len(),
        final(events)@.take(old(events)@.len() as int) == old(events)@,
{
    let ghost before = *state;
    let ghost before_events = events@;
    let combat_id = state.combat_id;
    let revision = state.revision;
    let mut taken: Vec<BoardingState> = Vec::new();
    std::mem::swap(&mut taken, &mut state.boarding);
    let ghost mut trace: Seq<CombatState> = seq![*state];
    let ghost mut records: Seq<Seq<CombatEvent>> = seq![events@];
    let mut remaining: Vec<BoardingState> = Vec::new();
    let mut i: usize = 0;
    while i < taken.len()
        invariant
            i <= taken@.len(),
            taken@ == before.boarding@,
            combat_id == before.combat_id,
            revision == before.revision,
            boarding_trace(trace, records, combat_id, revision, taken@.take(i as int)),
            trace[0] == (CombatState { boarding: trace[0].boarding, ..before }),
            trace[0].boarding@ == Seq::<BoardingState>::empty(),
            records[0] == before_events,
            trace.last() == *state,
            records.last() == events@,
            remaining@ == boardings_after(combat_id, revision, taken@.take(i as int)),
            same_frame(before, *state),
            state.range == before.range,
            state.missiles@ == before.missiles@,
            same_roster(before.vessels@, state.vessels@),
            events@.len() >= before_events.len(),
            events@.take(before_events.len() as int) == before_events,
        decreases taken@.len() - i,
    {
        let ghost prior_state = *state;
        let ghost prior_events = events@;
        let ghost prior_remaining = remaining@;
        let next = board_once(state, events, taken[i], combat_id, revision);
        match next {
            Some(going_on) => {
                remaining.push(going_on);
            },
            None => {},
        }
        proof {
            lemma_roster_trans(before.vessels@, prior_state.vessels@, state.vessels@);
            assert(events@.take(before_events.len() as int) =~= events@.take(
                prior_events.len() as int,
            ).take(before_events.len() as int));
            reveal(Seq::filter_map);
            assert(taken@.take(i + 1).drop_last() =~= taken@.take(i as int));
            assert(remaining@ =~= boardings_after(combat_id, revision, taken@.take(i + 1)));
            let old_trace = trace;
            let old_records = records;
            trace = trace.push(*state);
            records = records.push(events@);
            assert forall|k: int| 0 <= k < i + 1 implies boarding_resolved(
                trace[k],
                trace[k + 1],
                records[k],
                records[k + 1],
                combat_id,
                revision,
                #[trigger] taken@.take(i + 1)[k],
            ) by {
                if k < i {
                    assert(taken@.take(i + 1)[k] == taken@.take(i as int)[k]);
                    assert(trace[k] == old_trace[k] && trace[k + 1] == old_trace[k + 1]);
                    assert(records[k] == old_records[k] && records[k + 1] == old_records[k + 1]);
                }
            }
        }
        i = i + 1;
    }
    proof {
        assert(taken@.take(taken@.len() as int) =~= taken@);
    }
    state.boarding = remaining;
    assert(boardings_done(before, *state, before_events, events@));
}


// ---------------------------------------------------------------------------
// The round.

pub open spec fn is_active(vessel: VesselState) -> bool {
    vessel.disposition == VesselDisposition::Active
}

/// Some active vessel has the identity.
pub open spec fn active_vessel_with(vessels: Seq<VesselState>, vessel_id: u64) -> bool {
    exists|k: int| 0 <= k < vessels.len() && is_active(#[trigger] vessels[k]) && vessels[k].vessel_id == vessel_id
}

/// Some order is for the vessel with the identity.
pub open spec fn order_with(orders: Seq<JointOrder>, vessel_id: u64) -> bool {
    exists|i: int| 0 <= i < orders.len() && (#[trigger] orders[i]).vessel_id == vessel_id
}

/// Exactly one order for every active vessel and no other order.
pub open spec fn orders_cover(vessels: Seq<VesselState>, orders: Seq<JointOrder>) -> bool {
    &&& forall|i: int, j: int|
        0 <= i < j < orders.len() ==> (#[trigger] orders[i]).vessel_id != (#[trigger] orders[j]).vessel_id
    &&& forall|i: int| 0 <= i < orders.len() ==> active_vessel_with(vessels, (#[trigger] orders[i]).vessel_id)
    &&& forall|k: int|
        0 <= k < vessels.len() && is_active(#[trigger] vessels[k]) ==> order_with(orders, vessels[k].vessel_id)
}

/// Every order was prepared from the current view.
pub open spec fn orders_fresh(orders: Seq<JointOrder>, revision: u64) -> bool {
    forall|i: int| 0 <= i < orders.len() ==> (#[trigger] orders[i]).view_revision == revision
}

/// Every action and reaction of every order has its task modifier.
pub open spec fn orders_balanced(orders: Seq<JointOrder>) -> bool {
    forall|i: int|
        0 <= i < orders.len() ==> (#[trigger] orders[i]).actions@.len()
            == orders[i].action_dms@.len() && orders[i].reactions@.len()
            == orders[i].reaction_dms@.len()
}

/// Why a round is refused before any order is carried out, if it is.
pub open spec fn round_refusal(state: CombatState, orders: Seq<JointOrder>) -> Option<Seq<char>> {
    if state.complete {
        Some("combat is complete"@)
    } else if !orders_cover(state.vessels@, orders) {
        Some("one joint order is required for every active vessel"@)
    } else if !orders_fresh(orders, state.revision) {
        Some("joint order was prepared from a stale combat view"@)
    } else if !orders_balanced(orders) {
        Some("combat task modifiers do not match the joint order"@)
    } else {
        None
    }
}

/// No order holds an action that can fail.
pub open spec fn orders_infallible(vessels: Seq<VesselState>, orders: Seq<JointOrder>) -> bool {
    forall|i: int, j: int|
        0 <= i < orders.len() && 0 <= j < orders[i].actions@.len() ==> infallible_action(
            vessels,
            orders[i].vessel_id,
            #[trigger] orders[i].actions@[j],
        )
}

/// All active vessels are on one side, or none is active.
pub open spec fn at_most_one_active_side(vessels: Seq<VesselState>) -> bool {
    forall|i: int, j: int|
        0 <= i < vessels.len() && 0 <= j < vessels.len() && is_active(#[trigger] vessels[i])
            && is_active(#[trigger] vessels[j]) ==> vessels[i].side == vessels[j].side
}

/// No missile in flight is due at or before the given round.
pub open spec fn missiles_after(missiles: Seq<PendingMissile>, round: u16) -> bool {
    forall|k: int| 0 <= k < missiles.len() ==> (#[trigger] missiles[k]).impact_round > round
}

/// How a round closes: one round, one revision and one combat turn later,
/// with the same vessels, no missile left that was due, and complete
/// exactly when at most one side is still active.
pub open spec fn round_closed(before: CombatState, after: CombatState) -> bool {
    &&& after.combat_id == before.combat_id
    &&& after.round == before.round.saturating_add(1)
    &&& after.revision == before.revision.saturating_add(1)
    &&& after.round_started_second == before.round_started_second.saturating_add(
        COMBAT_TURN_SECONDS,
    )
    &&& same_roster(before.vessels@, after.vessels@)
    &&& after.complete == at_most_one_active_side(after.vessels@)
    &&& before.round < u16::MAX ==> missiles_after(after.missiles@, before.round)
}

/// A vessel's screens are in ascending byte order, each once.
pub open spec fn screens_in_order(screens: Seq<String>) -> bool {
    forall|p: int, q: int|
        0 <= p < q < screens.len() ==> lex_order(text_bytes(#[trigger] screens[p]), text_bytes(#[trigger] screens[q]))
            < 0
}

/// A round keeps every vessel's screens: where each vessel's screens were in
/// ascending byte order, each once, before a round closes, so they are
/// after it.
pub proof fn lemma_round_keeps_screens(before: CombatState, after: CombatState)
    requires
        round_closed(before, after),
        forall|i: int| 0 <= i < before.vessels@.len() ==> screens_in_order(#[trigger] before.vessels@[i].screens@),
    ensures
        forall|i: int|
            0 <= i < after.vessels@.len() ==> #[trigger] after.vessels@[i].screens@ == before.vessels@[i].screens@,
        forall|i: int| 0 <= i < after.vessels@.len() ==> screens_in_order(#[trigger] after.vessels@[i].screens@),
{
    assert forall|i: int| 0 <= i < after.vessels@.len() implies #[trigger] after.vessels@[i].screens@
        == before.vessels@[i].screens@ by {
        assert(roster_entry(before.vessels@[i], after.vessels@[i]));
    }
    assert forall|i: int| 0 <= i < after.vessels@.len() implies screens_in_order(
        #[trigger] after.vessels@[i].screens@,
    ) by {
        assert(roster_entry(before.vessels@[i], after.vessels@[i]));
        assert(screens_in_order(before.vessels@[i].screens@));
    }
}

/// Initiative order: higher initiative first, then higher thrust, then the
/// lower vessel identity.
pub open spec fn key_le(a: (i16, u8, u64), b: (i16, u8, u64)) -> bool {
    a.0 > b.0 || (a.0 == b.0 && (a.1 > b.1 || (a.1 == b.1 && a.2 <= b.2)))
}

fn key_le_exec(a: &(i16, u8, u64), b: &(i16, u8, u64)) -> (r: bool)
    ensures
        r == key_le(*a, *b),
{
    a.0 > b.0 || (a.0 == b.0 && (a.1 > b.1 || (a.1 == b.1 && a.2 <= b.2)))
}

/// The acting sequence: positions of the keys in initiative order.
fn initiative_order(keys: &Vec<(i16, u8, u64)>) -> (r: Vec<usize>)
    ensures
        r@.len() == keys@.len(),
        forall|p: int| 0 <= p < r@.len() ==> #[trigger] r@[p] < keys@.len(),
        forall|p: int, q: int| 0 <= p < q < r@.len() ==> #[trigger] r@[p] != #[trigger] r@[q],
        forall|p: int, q: int|
            0 <= p < q < r@.len() ==> key_le(keys@[#[trigger] r@[p] as int], keys@[#[trigger] r@[q] as int]),
{
    let mut ordered: Vec<usize> = Vec::new();
    let mut i: usize = 0;
    while i < keys.len()
        invariant
            i <= keys@.len(),
            ordered@.len() == i,
            forall|p: int| 0 <= p < ordered@.len() ==> #[trigger] ordered@[p] < i,
            forall|p: int, q: int|
                0 <= p < q < ordered@.len() ==> #[trigger] ordered@[p] != #[trigger] ordered@[q],
            forall|p: int, q: int|
                0 <= p < q < ordered@.len() ==> key_le(
                    keys@[#[trigger] ordered@[p] as int],
                    keys@[#[trigger] ordered@[q] as int],
                ),
        decreases keys@.len() - i,
    {
        let mut p: usize = 0;
        while p < ordered.len() && key_le_exec(&keys[ordered[p]], &keys[i])
            invariant
                p <= ordered@.len(),
                i < keys@.len(),
                forall|q: int| 0 <= q < ordered@.len() ==> #[trigger] ordered@[q] < i,
                forall|q: int| 0 <= q < p ==> key_le(keys@[#[trigger] ordered@[q] as int], keys@[i as int]),
            decreases ordered@.len() - p,
        {
            p = p + 1;
        }
        let ghost prior = ordered@;
        ordered.insert(p, i);
        proof {
            assert(ordered@ =~= prior.insert(p as int, i));
            assert forall|a: int| 0 <= a < ordered@.len() implies #[trigger] ordered@[a] < i + 1 by {
                if a < p {
                    assert(ordered@[a] == prior[a]);
                } else if a > p {
                    assert(ordered@[a] == prior[a - 1]);
                }
            }
            assert forall|a: int, b: int| 0 <= a < b < ordered@.len() implies #[trigger] ordered@[a]
                != #[trigger] ordered@[b] by {
                if a < p {
                    assert(ordered@[a] == prior[a]);
                }
                if a > p {
                    assert(ordered@[a] == prior[a - 1]);
                }
                if b < p {
                    assert(ordered@[b] == prior[b]);
                }
                if b > p {
                    assert(ordered@[b] == prior[b - 1]);
                }
            }
            assert forall|a: int, b: int| 0 <= a < b < ordered@.len() implies key_le(
                keys@[#[trigger] ordered@[a] as int],
                keys@[#[trigger] ordered@[b] as int],
            ) by {
                let ki = keys@[i as int];
                if b < p {
                    assert(ordered@[a] == prior[a] && ordered@[b] == prior[b]);
                } else if b == p {
                    assert(ordered@[a] == prior[a]);
                } else if a == p {
                    assert(ordered@[b] == prior[b - 1]);
                    assert(!key_le(keys@[prior[p as int] as int], ki));
                    if b - 1 > p {
                        assert(key_le(keys@[prior[p as int] as int], keys@[prior[b - 1] as int]));
                    }
                } else if a < p {
                    assert(ordered@[a] == prior[a] && ordered@[b] == prior[b - 1]);
                } else {
                    assert(ordered@[a] == prior[a - 1] && ordered@[b] == prior[b - 1]);
                }
            }
        }
        i = i + 1;
    }
    ordered
}

/// Key of an order: initiative, thrust and identity of its vessel.
pub open spec fn order_key(vessels: Seq<VesselState>, order: JointOrder) -> (i16, u8, u64) {
    let v = vessels[first_vessel(vessels, order.vessel_id)];
    (v.initiative, v.thrust, order.vessel_id)
}

/// The identities of the active vessels.
fn active_ids(vessels: &Vec<VesselState>) -> (r: BTreeSet<u64>)
    ensures
        forall|id: u64| #[trigger] r@.contains(id) <==> active_vessel_with(vessels@, id),
{
    broadcast use vstd::std_specs::btree::group_btree_axioms;

    proof {
        lemma_u64_keys_ordered();
    }
    let mut ids: BTreeSet<u64> = BTreeSet::new();
    let mut k: usize = 0;
    while k < vessels.len()
        invariant
            k <= vessels@.len(),
            forall|id: u64|
                #[trigger] ids@.contains(id) <==> exists|q: int|
                    0 <= q < k && is_active(#[trigger] vessels@[q]) && vessels@[q].vessel_id == id,
        decreases vessels@.len() - k,
    {
        if vessels[k].disposition == VesselDisposition::Active {
            ids.insert(vessels[k].vessel_id);
            proof {
                assert forall|id: u64| #[trigger] ids@.contains(id) <==> exists|q: int|
                    0 <= q < k + 1 && is_active(#[trigger] vessels@[q]) && vessels@[q].vessel_id == id by {
                    if id == vessels@[k as int].vessel_id {
                        assert(is_active(vessels@[k as int]));
                    }
                }
            }
        } else {
            proof {
                assert forall|id: u64| #[trigger] ids@.contains(id) <==> exists|q: int|
                    0 <= q < k + 1 && is_active(#[trigger] vessels@[q]) && vessels@[q].vessel_id == id by {
                    if exists|q: int| 0 <= q < k + 1 && is_active(#[trigger] vessels@[q]) && vessels@[q].vessel_id == id {
                        let q = choose|q: int| 0 <= q < k + 1 && is_active(#[trigger] vessels@[q]) && vessels@[q].vessel_id == id;
                        assert(q != k);
                    }
                }
            }
        }
        k = k + 1;
    }
    ids
}

fn check_cover(vessels: &Vec<VesselState>, orders: &[JointOrder]) -> (r: bool)
    ensures
        r == orders_cover(vessels@, orders@),
{
    broadcast use vstd::std_specs::btree::group_btree_axioms;

    proof {
        lemma_u64_keys_ordered();
    }
    let expected = active_ids(vessels);
    let mut submitted: BTreeSet<u64> = BTreeSet::new();
    let mut i: usize = 0;
    while i < orders.len()
        invariant
            i <= orders@.len(),
            forall|id: u64| #[trigger] expected@.contains(id) <==> active_vessel_with(vessels@, id),
            forall|id: u64|
                #[trigger] submitted@.contains(id) <==> exists|a: int| 0 <= a < i && (#[trigger] orders@[a]).vessel_id == id,
            forall|a: int, b: int|
                0 <= a < b < i ==> (#[trigger] orders@[a]).vessel_id != (#[trigger] orders@[b]).vessel_id,
            forall|a: int| 0 <= a < i ==> active_vessel_with(vessels@, (#[trigger] orders@[a]).vessel_id),
        decreases orders@.len() - i,
    {
        let id = orders[i].vessel_id;
        if !submitted.insert(id) {
            let ghost a = choose|a: int| 0 <= a < i && (#[trigger] orders@[a]).vessel_id == id;
            assert(orders@[a].vessel_id == orders@[i as int].vessel_id);
            return false;
        }
        if !expected.contains(&id) {
            return false;
        }
        proof {
            assert forall|x: u64| #[trigger] submitted@.contains(x) <==> exists|a: int|
                0 <= a < i + 1 && (#[trigger] orders@[a]).vessel_id == x by {
                if x == id {
                    assert(orders@[i as int].vessel_id == x);
                }
            }
            assert forall|a: int, b: int| 0 <= a < b < i + 1 implies (#[trigger] orders@[a]).vessel_id
                != (#[trigger] orders@[b]).vessel_id by {
                if b == i {
                    if orders@[a].vessel_id == id {
                        assert(submitted@.contains(id));
                    }
                }
            }
        }
        i = i + 1;
    }
    let mut k: usize = 0;
    while k < vessels.len()
        invariant
            k <= vessels@.len(),
            i == orders@.len(),
            forall|id: u64|
                #[trigger] submitted@.contains(id) <==> exists|a: int| 0 <= a < i && (#[trigger] orders@[a]).vessel_id == id,
            forall|a: int, b: int|
                0 <= a < b < orders@.len() ==> (#[trigger] orders@[a]).vessel_id != (#[trigger] orders@[b]).vessel_id,
            forall|a: int| 0 <= a < orders@.len() ==> active_vessel_with(vessels@, (#[trigger] orders@[a]).vessel_id),
            forall|q: int|
                0 <= q < k && is_active(#[trigger] vessels@[q]) ==> order_with(orders@, vessels@[q].vessel_id),
        decreases vessels@.len() - k,
    {
        if vessels[k].disposition == VesselDisposition::Active {
            let id = vessels[k].vessel_id;
            if !submitted.contains(&id) {
                proof {
                    if order_with(orders@, id) {
                        let a = choose|a: int| 0 <= a < orders@.len() && (#[trigger] orders@[a]).vessel_id == id;
                        assert(submitted@.contains(id));
                    }
                    assert(is_active(vessels@[k as int]));
                }
                return false;
            }
        }
        k = k + 1;
    }
    true
}


fn single_active_side(vessels: &Vec<VesselState>) -> (r: bool)
    ensures
        r == at_most_one_active_side(vessels@),
{
    broadcast use vstd::std_specs::btree::group_btree_axioms;

    proof {
        lemma_u16_keys_ordered();
    }
    let mut sides: BTreeSet<u16> = BTreeSet::new();
    let mut k: usize = 0;
    while k < vessels.len()
        invariant
            k <= vessels@.len(),
            sides@.finite(),
            forall|side: u16|
                #[trigger] sides@.contains(side) <==> exists|q: int|
                    0 <= q < k && is_active(#[trigger] vessels@[q]) && vessels@[q].side == side,
        decreases vessels@.len() - k,
    {
        if vessels[k].disposition == VesselDisposition::Active {
            sides.insert(vessels[k].side);
            proof {
                assert forall|side: u16| #[trigger] sides@.contains(side) <==> exists|q: int|
                    0 <= q < k + 1 && is_active(#[trigger] vessels@[q]) && vessels@[q].side == side by {
                    if side == vessels@[k as int].side {
                        assert(is_active(vessels@[k as int]));
                    }
                }
            }
        } else {
            proof {
                assert forall|side: u16| #[trigger] sides@.contains(side) <==> exists|q: int|
                    0 <= q < k + 1 && is_active(#[trigger] vessels@[q]) && vessels@[q].side == side by {
                    if exists|q: int| 0 <= q < k + 1 && is_active(#[trigger] vessels@[q]) && vessels@[q].side == side {
                        let q = choose|q: int| 0 <= q < k + 1 && is_active(#[trigger] vessels@[q]) && vessels@[q].side == side;
                        assert(q != k);
                    }
                }
            }
        }
        k = k + 1;
    }
    let r = sides.len() <= 1;
    proof {
        let set = sides@;
        if at_most_one_active_side(vessels@) {
            if set.len() > 1 {
                let a = set.choose();
                assert(set.contains(a));
                assert(set.remove(a).len() > 0);
                let b = set.remove(a).choose();
                assert(set.remove(a).contains(b));
                let qa = choose|q: int| 0 <= q < vessels@.len() && is_active(#[trigger] vessels@[q]) && vessels@[q].side == a;
                let qb = choose|q: int| 0 <= q < vessels@.len() && is_active(#[trigger] vessels@[q]) && vessels@[q].side == b;
                assert(vessels@[qa].side == vessels@[qb].side);
            }
        } else {
            let (i, j) = choose|i: int, j: int|
                0 <= i < vessels@.len() && 0 <= j < vessels@.len() && is_active(#[trigger] vessels@[i])
                    && is_active(#[trigger] vessels@[j]) && vessels@[i].side != vessels@[j].side;
            let a = vessels@[i].side;
            let b = vessels@[j].side;
            assert(set.contains(a) && set.contains(b));
            assert(set.remove(a).contains(b));
            assert(set.remove(a).len() > 0);
        }
    }
    r
}

pub proof fn lemma_copy_roster(a: CombatState, b: CombatState)
    requires
        state_copy(a, b),
    ensures
        same_roster(a.vessels@, b.vessels@),
        same_frame(a, b),
        b.range == a.range,
        b.missiles@ == a.missiles@,
        b.boarding@ == a.boarding@,
{
    assert forall|i: int| 0 <= i < a.vessels@.len() implies roster_entry(#[trigger] a.vessels@[i], b.vessels@[i]) by {
        assert(vessel_copy(a.vessels@[i], b.vessels@[i]));
        assert forall|k: int| 0 <= k < a.vessels@[i].weapons@.len() implies (#[trigger] b.vessels@[i].weapons@[k]).mount_id
            == a.vessels@[i].weapons@[k].mount_id by {
            assert(mount_copy(a.vessels@[i].weapons@[k], b.vessels@[i].weapons@[k]));
        }
    }
}

pub proof fn lemma_roster_has_vessel(a: Seq<VesselState>, b: Seq<VesselState>, vessel_id: u64)
    requires
        same_roster(a, b),
    ensures
        has_vessel(a, vessel_id) == has_vessel(b, vessel_id),
        has_vessel(a, vessel_id) ==> first_vessel(a, vessel_id) == first_vessel(b, vessel_id),
{
    if has_vessel(a, vessel_id) {
        let i = choose|i: int| 0 <= i < a.len() && #[trigger] a[i].vessel_id == vessel_id;
        assert(roster_entry(a[i], b[i]));
        assert(b[i].vessel_id == vessel_id);
        lemma_has_first_vessel(a, vessel_id);
        let f = first_vessel(a, vessel_id);
        assert(roster_entry(a[f], b[f]));
        assert forall|j: int| 0 <= j < f implies b[j].vessel_id != vessel_id by {
            assert(roster_entry(a[j], b[j]));
        }
        lemma_first_vessel(b, vessel_id, f);
    }
    if has_vessel(b, vessel_id) {
        let i = choose|i: int| 0 <= i < b.len() && #[trigger] b[i].vessel_id == vessel_id;
        assert(roster_entry(a[i], b[i]));
        assert(a[i].vessel_id == vessel_id);
    }
}

proof fn lemma_in_flight_after(missiles: Seq<PendingMissile>, round: u16)
    ensures
        missiles_after(missiles_in_flight(missiles, round), round),
    decreases missiles.len(),
{
    if missiles.len() > 0 {
        lemma_in_flight_after(missiles.drop_last(), round);
    }
}

/// Missiles stay clear of the closing round through an action that
/// succeeds.
proof fn lemma_action_keeps_missiles(
    before: CombatState,
    after: CombatState,
    before_events: Seq<CombatEvent>,
    after_events: Seq<CombatEvent>,
    vessel_id: u64,
    action: CrewAction,
    task_dm: i8,
    action_index: u64,
    r: Result<(), String>,
)
    requires
        action_outcome(before, after, before_events, after_events, vessel_id, action, task_dm, action_index, r),
        r is Ok,
        before.round < u16::MAX ==> missiles_after(before.missiles@, before.round),
    ensures
        before.round < u16::MAX ==> missiles_after(after.missiles@, before.round),
{
    reveal(action_outcome);
    if before.round < u16::MAX {
        match action {
            CrewAction::Attack { mount_id, target_id } => {
                assert forall|k: int| 0 <= k < after.missiles@.len() implies (#[trigger] after.missiles@[k]).impact_round
                    > before.round by {
                    if k < before.missiles@.len() {
                        assert(after.missiles@[k] == after.missiles@.take(before.missiles@.len() as int)[k]);
                    } else {
                        assert(launched_by(after.missiles@[k], before, vessel_id, mount_id, target_id, task_dm));
                    }
                }
            },
            CrewAction::DamageControl => {
                if action_effect(before, vessel_id, action_index, task_dm) >= 0 {
                    let a = first_vessel(before.vessels@, vessel_id);
                    let (trace, outcomes, repaired) = choose|trace: Seq<VesselState>, outcomes: Seq<Option<RepairTarget>>, repaired: VesselState|
                        #![trigger repair_trace(trace, outcomes, before.vessels@[a], repaired, repair_attempts(action_effect(before, vessel_id, action_index, task_dm)))]
                        repair_trace(trace, outcomes, before.vessels@[a], repaired, repair_attempts(action_effect(before, vessel_id, action_index, task_dm)))
                        && with_vessel(before, after, a, repaired) && repair_reported(before_events, after_events, vessel_id, repaired_targets(outcomes));
                    assert(after.missiles == before.missiles);
                }
            },
            _ => {},
        }
    }
}

proof fn lemma_infallible_ok(
    before: CombatState,
    after: CombatState,
    before_events: Seq<CombatEvent>,
    after_events: Seq<CombatEvent>,
    vessel_id: u64,
    action: CrewAction,
    task_dm: i8,
    action_index: u64,
    r: Result<(), String>,
)
    requires
        action_outcome(before, after, before_events, after_events, vessel_id, action, task_dm, action_index, r),
        infallible_action(before.vessels@, vessel_id, action),
    ensures
        r is Ok,
{
    reveal(action_outcome);
}

/// Results of steps taken in turn until one fails: all but the last
/// succeeded, the run stops short of `total` steps only at a failure, and
/// the outcome is that failure or success.
pub open spec fn stops_at_failure(results: Seq<Result<(), String>>, total: int, r: Result<(), String>) -> bool {
    &&& results.len() <= total
    &&& forall|j: int| 0 <= j < results.len() - 1 ==> (#[trigger] results[j]) is Ok
    &&& results.len() < total ==> results.len() > 0 && results.last() is Err
    &&& r == if results.len() > 0 && results.last() is Err {
        results.last()
    } else {
        Ok(())
    }
}

/// The states, event records and results that the actions of an order go
/// through, one step for each action carried out.
pub open spec fn action_trace(
    trace: Seq<CombatState>,
    records: Seq<Seq<CombatEvent>>,
    results: Seq<Result<(), String>>,
    order: JointOrder,
) -> bool {
    &&& trace.len() == results.len() + 1
    &&& records.len() == trace.len()
    &&& results.len() <= order.actions@.len()
    &&& forall|j: int|
        0 <= j < results.len() ==> action_outcome(
            trace[j],
            trace[j + 1],
            records[j],
            records[j + 1],
            order.vessel_id,
            order.actions@[j],
            order.action_dms@[j],
            j as u64,
            #[trigger] results[j],
        )
}

/// One order in its turn: nothing if its vessel is gone or no longer
/// active, else its actions one after another until one fails.
pub open spec fn order_carried(
    before: CombatState,
    after: CombatState,
    before_events: Seq<CombatEvent>,
    after_events: Seq<CombatEvent>,
    order: JointOrder,
    r: Result<(), String>,
) -> bool {
    if !has_vessel(before.vessels@, order.vessel_id) || !is_active(
        before.vessels@[first_vessel(before.vessels@, order.vessel_id)],
    ) {
        r is Ok && after == before && after_events == before_events
    } else {
        exists|trace: Seq<CombatState>, records: Seq<Seq<CombatEvent>>, results: Seq<Result<(), String>>|
            #![trigger action_trace(trace, records, results, order)]
            {
                &&& action_trace(trace, records, results, order)
                &&& stops_at_failure(results, order.actions@.len() as int, r)
                &&& trace[0] == before
                &&& records[0] == before_events
                &&& after == trace.last()
                &&& after_events == records.last()
            }
    }
}

/// The orders taken in the given sequence of positions.
pub open spec fn turn_of(orders: Seq<JointOrder>, ordered: Seq<usize>) -> Seq<JointOrder> {
    Seq::new(ordered.len(), |p: int| orders[ordered[p] as int])
}

/// The states, event records and results that the orders of a turn go
/// through, one step for each order carried out.
pub open spec fn turn_trace(
    trace: Seq<CombatState>,
    records: Seq<Seq<CombatEvent>>,
    results: Seq<Result<(), String>>,
    turn: Seq<JointOrder>,
) -> bool {
    &&& trace.len() == results.len() + 1
    &&& records.len() == trace.len()
    &&& forall|p: int|
        0 <= p < results.len() ==> order_carried(
            trace[p],
            trace[p + 1],
            records[p],
            records[p + 1],
            turn[p],
            #[trigger] results[p],
        )
}

/// The action phase of a round: the orders in their turn, until one fails.
pub open spec fn orders_done(
    before: CombatState,
    after: CombatState,
    before_events: Seq<CombatEvent>,
    after_events: Seq<CombatEvent>,
    turn: Seq<JointOrder>,
    r: Result<(), String>,
) -> bool {
    exists|trace: Seq<CombatState>, records: Seq<Seq<CombatEvent>>, results: Seq<Result<(), String>>|
        #![trigger turn_trace(trace, records, results, turn)]
        {
            &&& turn_trace(trace, records, results, turn)
            &&& stops_at_failure(results, turn.len() as int, r)
            &&& trace[0] == before
            &&& records[0] == before_events
            &&& after == trace.last()
            &&& after_events == records.last()
        }
}

/// A vessel made ready for a round: its reactions for its initiative, and
/// no evasive, targeting or line-up modifier carried over.
pub open spec fn readied(vessel: VesselState) -> VesselState {
    VesselState {
        reactions_remaining: reactions_spec(vessel.initiative),
        evasive_dm: 0,
        targeting_dm: 0,
        line_up_dm: 0,
        ..vessel
    }
}

/// The combat at the start of a round: a copy with every vessel made ready.
pub open spec fn round_ready(before: CombatState, after: CombatState) -> bool {
    &&& after == (CombatState {
        vessels: after.vessels,
        missiles: after.missiles,
        boarding: after.boarding,
        ..before
    })
    &&& after.missiles@ == before.missiles@
    &&& after.boarding@ == before.boarding@
    &&& after.vessels@.len() == before.vessels@.len()
    &&& forall|i: int|
        0 <= i < before.vessels@.len() ==> vessel_copy(readied(before.vessels@[i]), #[trigger] after.vessels@[i])
}

/// The close of a round: the round, its start and the revision move on, and
/// the combat is complete when at most one side is still active.
pub open spec fn round_advanced(before: CombatState, after: CombatState) -> bool {
    &&& after == (CombatState {
        round: after.round,
        round_started_second: after.round_started_second,
        revision: after.revision,
        complete: after.complete,
        ..before
    })
    &&& after.round == before.round.saturating_add(1)
    &&& after.round_started_second == before.round_started_second.saturating_add(COMBAT_TURN_SECONDS)
    &&& after.revision == before.revision.saturating_add(1)
    &&& after.complete == at_most_one_active_side(before.vessels@)
}

/// Positions of the orders in the order the vessels act: each order once,
/// higher initiative first, then higher thrust, then the lower identity.
pub open spec fn in_initiative_order(vessels: Seq<VesselState>, orders: Seq<JointOrder>, ordered: Seq<usize>) -> bool {
    &&& ordered.len() == orders.len()
    &&& forall|p: int| 0 <= p < ordered.len() ==> #[trigger] ordered[p] < orders.len()
    &&& forall|p: int, q: int| 0 <= p < q < ordered.len() ==> #[trigger] ordered[p] != #[trigger] ordered[q]
    &&& forall|p: int, q: int|
        0 <= p < q < ordered.len() ==> key_le(
            order_key(vessels, orders[#[trigger] ordered[p] as int]),
            order_key(vessels, orders[#[trigger] ordered[q] as int]),
        )
}

/// What the action phase gives the round's outcome.
pub open spec fn phase_result(r: Result<RoundResolution, String>) -> Result<(), String> {
    match r {
        Ok(_) => Ok(()),
        Err(e) => Err(e),
    }
}

/// A round played from accepted orders: the vessels made ready, the due
/// missiles, the orders in initiative order until one fails (whose failure
/// is the round's), then the boarding actions and the close of the round.
pub open spec fn round_played(state: CombatState, orders: Seq<JointOrder>, r: Result<RoundResolution, String>) -> bool {
    exists|
        ordered: Seq<usize>,
        ready: CombatState,
        armed: CombatState,
        armed_events: Seq<CombatEvent>,
        acted: CombatState,
        acted_events: Seq<CombatEvent>,
    |
        #![trigger
            in_initiative_order(state.vessels@, orders, ordered),
            round_ready(state, ready),
            missiles_done(ready, armed, Seq::<CombatEvent>::empty(), armed_events, orders),
            orders_done(armed, acted, armed_events, acted_events, turn_of(orders, ordered), phase_result(r)),
        ]
        {
            &&& in_initiative_order(state.vessels@, orders, ordered)
            &&& round_ready(state, ready)
            &&& missiles_done(ready, armed, Seq::<CombatEvent>::empty(), armed_events, orders)
            &&& orders_done(armed, acted, armed_events, acted_events, turn_of(orders, ordered), phase_result(r))
            &&& r matches Ok(resolution) ==> exists|boarded: CombatState|
                #[trigger] boardings_done(acted, boarded, acted_events, resolution.events@) && round_advanced(
                    boarded,
                    resolution.state,
                )
        }
}

/// An action that cannot fail stays so on a vessel list with the same roster.
proof fn lemma_infallible_roster(a: Seq<VesselState>, b: Seq<VesselState>, vessel_id: u64, action: CrewAction)
    requires
        same_roster(a, b),
        infallible_action(a, vessel_id, action),
    ensures
        infallible_action(b, vessel_id, action),
{
    match action {
        CrewAction::InspectContact { target_id } => {
            lemma_roster_has_vessel(a, b, target_id);
        },
        _ => {},
    }
}

/// One more action carried out extends the trace of an order.
proof fn lemma_action_trace_push(
    trace: Seq<CombatState>,
    records: Seq<Seq<CombatEvent>>,
    results: Seq<Result<(), String>>,
    order: JointOrder,
    next: CombatState,
    next_events: Seq<CombatEvent>,
    outcome: Result<(), String>,
)
    requires
        action_trace(trace, records, results, order),
        results.len() < order.actions@.len(),
        forall|j: int| 0 <= j < results.len() ==> (#[trigger] results[j]) is Ok,
        action_outcome(
            trace.last(),
            next,
            records.last(),
            next_events,
            order.vessel_id,
            order.actions@[results.len() as int],
            order.action_dms@[results.len() as int],
            results.len() as u64,
            outcome,
        ),
    ensures
        action_trace(trace.push(next), records.push(next_events), results.push(outcome), order),
        forall|j: int| 0 <= j < results.len() ==> (#[trigger] results.push(outcome)[j]) is Ok,
        results.push(outcome).last() == outcome,
{
    let t = trace.push(next);
    let c = records.push(next_events);
    let u = results.push(outcome);
    assert forall|j: int| 0 <= j < u.len() implies action_outcome(
        t[j],
        t[j + 1],
        c[j],
        c[j + 1],
        order.vessel_id,
        order.actions@[j],
        order.action_dms@[j],
        j as u64,
        #[trigger] u[j],
    ) by {
        if j < results.len() {
            assert(u[j] == results[j]);
            assert(t[j] == trace[j] && t[j + 1] == trace[j + 1]);
            assert(c[j] == records[j] && c[j + 1] == records[j + 1]);
        }
    }
    assert forall|j: int| 0 <= j < results.len() implies (#[trigger] u[j]) is Ok by {
        assert(u[j] == results[j]);
    }
}

/// Carries out one order in its turn.
#[verifier::spinoff_prover]
#[verifier::rlimit(60)]
fn carry_out_order(state: &mut CombatState, order: &JointOrder, events: &mut Vec<CombatEvent>) -> (r: Result<(), String>)
    requires
        order.actions@.len() == order.action_dms@.len(),
    ensures
        order_carried(*old(state), *final(state), old(events)@, final(events)@, *order, r),
        r is Ok ==> same_frame(*old(state), *final(state)) && same_roster(
            old(state).vessels@,
            final(state).vessels@,
        ),
        r is Ok && old(state).round < u16::MAX && missiles_after(old(state).missiles@, old(state).round)
            ==> missiles_after(final(state).missiles@, old(state).round),
        (forall|j: int|
            0 <= j < order.actions@.len() ==> infallible_action(
                old(state).vessels@,
                order.vessel_id,
                #[trigger] order.actions@[j],
            )) ==> r is Ok,
{
    let ghost before = *state;
    let ghost before_events = events@;
    match vessel_position(&state.vessels, order.vessel_id) {
        Some(a) => {
            proof {
                lemma_first_vessel(before.vessels@, order.vessel_id, a as int);
            }
            if state.vessels[a].disposition != VesselDisposition::Active {
                return Ok(());
            }
        },
        None => {
            return Ok(());
        },
    }
    let ghost all_infallible = forall|j: int|
        0 <= j < order.actions@.len() ==> infallible_action(
            before.vessels@,
            order.vessel_id,
            #[trigger] order.actions@[j],
        );
    let ghost mut trace: Seq<CombatState> = seq![*state];
    let ghost mut records: Seq<Seq<CombatEvent>> = seq![events@];
    let ghost mut results: Seq<Result<(), String>> = seq![];
    let mut idx: usize = 0;
    while idx < order.actions.len()
        invariant
            before == *old(state),
            before_events == old(events)@,
            idx <= order.actions@.len(),
            order.actions@.len() == order.action_dms@.len(),
            has_vessel(before.vessels@, order.vessel_id),
            is_active(before.vessels@[first_vessel(before.vessels@, order.vessel_id)]),
            action_trace(trace, records, results, *order),
            results.len() == idx,
            forall|j: int| 0 <= j < idx ==> (#[trigger] results[j]) is Ok,
            trace[0] == before,
            records[0] == before_events,
            trace.last() == *state,
            records.last() == events@,
            same_frame(before, *state),
            same_roster(before.vessels@, state.vessels@),
            before.round < u16::MAX && missiles_after(before.missiles@, before.round) ==> missiles_after(
                state.missiles@,
                before.round,
            ),
            all_infallible == forall|j: int|
                0 <= j < order.actions@.len() ==> infallible_action(
                    before.vessels@,
                    order.vessel_id,
                    #[trigger] order.actions@[j],
                ),
        decreases order.actions@.len() - idx,
    {
        let ghost prior = *state;
        let ghost prior_events = events@;
        proof {
            lemma_roster_has_vessel(before.vessels@, state.vessels@, order.vessel_id);
        }
        let action = order.actions[idx];
        let outcome = resolve_action(state, order, action, order.action_dms[idx], idx, events);
        proof {
            lemma_action_trace_push(trace, records, results, *order, *state, events@, outcome);
            trace = trace.push(*state);
            records = records.push(events@);
            results = results.push(outcome);
        }
        match outcome {
            Ok(()) => {
                proof {
                    lemma_roster_trans(before.vessels@, prior.vessels@, state.vessels@);
                    if before.round < u16::MAX && missiles_after(before.missiles@, before.round) {
                        lemma_action_keeps_missiles(
                            prior,
                            *state,
                            prior_events,
                            events@,
                            order.vessel_id,
                            action,
                            order.action_dms@[idx as int],
                            idx as u64,
                            outcome,
                        );
                    }
                }
            },
            Err(e) => {
                proof {
                    if all_infallible {
                        assert(infallible_action(before.vessels@, order.vessel_id, action));
                        lemma_infallible_roster(before.vessels@, prior.vessels@, order.vessel_id, action);
                        lemma_infallible_ok(
                            prior,
                            *state,
                            prior_events,
                            events@,
                            order.vessel_id,
                            action,
                            order.action_dms@[idx as int],
                            idx as u64,
                            outcome,
                        );
                    }
                    assert(action_trace(trace, records, results, *order));
                    assert(stops_at_failure(results, order.actions@.len() as int, Err(e)));
                    assert(order_carried(before, *state, before_events, events@, *order, Err(e)));
                }
                return Err(e);
            },
        }
        idx = idx + 1;
    }
    assert(action_trace(trace, records, results, *order));
    assert(stops_at_failure(results, order.actions@.len() as int, Ok(())));
    assert(order_carried(before, *state, before_events, events@, *order, Ok(())));
    Ok(())
}

/// One more order carried out extends the trace of a turn.
proof fn lemma_turn_trace_push(
    trace: Seq<CombatState>,
    records: Seq<Seq<CombatEvent>>,
    results: Seq<Result<(), String>>,
    turn: Seq<JointOrder>,
    next: CombatState,
    next_events: Seq<CombatEvent>,
    outcome: Result<(), String>,
)
    requires
        turn_trace(trace, records, results, turn),
        results.len() < turn.len(),
        forall|j: int| 0 <= j < results.len() ==> (#[trigger] results[j]) is Ok,
        order_carried(trace.last(), next, records.last(), next_events, turn[results.len() as int], outcome),
    ensures
        turn_trace(trace.push(next), records.push(next_events), results.push(outcome), turn),
        forall|j: int| 0 <= j < results.len() ==> (#[trigger] results.push(outcome)[j]) is Ok,
        results.push(outcome).last() == outcome,
{
    let t = trace.push(next);
    let c = records.push(next_events);
    let u = results.push(outcome);
    assert forall|p: int| 0 <= p < u.len() implies order_carried(
        t[p],
        t[p + 1],
        c[p],
        c[p + 1],
        turn[p],
        #[trigger] u[p],
    ) by {
        if p < results.len() {
            assert(u[p] == results[p]);
            assert(t[p] == trace[p] && t[p + 1] == trace[p + 1]);
            assert(c[p] == records[p] && c[p + 1] == records[p + 1]);
        }
    }
    assert forall|j: int| 0 <= j < results.len() implies (#[trigger] u[j]) is Ok by {
        assert(u[j] == results[j]);
    }
}

/// Carries out the orders in their turn, until one fails.
#[verifier::spinoff_prover]
#[verifier::rlimit(60)]
fn carry_out_turn(
    state: &mut CombatState,
    orders: &[JointOrder],
    ordered: &Vec<usize>,
    events: &mut Vec<CombatEvent>,
) -> (r: Result<(), String>)
    requires
        forall|p: int| 0 <= p < ordered@.len() ==> #[trigger] ordered@[p] < orders@.len(),
        orders_balanced(orders@),
    ensures
        orders_done(*old(state), *final(state), old(events)@, final(events)@, turn_of(orders@, ordered@), r),
        r is Ok ==> same_frame(*old(state), *final(state)) && same_roster(
            old(state).vessels@,
            final(state).vessels@,
        ),
        r is Ok && old(state).round < u16::MAX && missiles_after(old(state).missiles@, old(state).round)
            ==> missiles_after(final(state).missiles@, old(state).round),
        orders_infallible(old(state).vessels@, orders@) ==> r is Ok,
{
    let ghost before = *state;
    let ghost before_events = events@;
    let ghost turn = turn_of(orders@, ordered@);
    let ghost mut trace: Seq<CombatState> = seq![*state];
    let ghost mut records: Seq<Seq<CombatEvent>> = seq![events@];
    let ghost mut results: Seq<Result<(), String>> = seq![];
    let mut p: usize = 0;
    while p < ordered.len()
        invariant
            before == *old(state),
            before_events == old(events)@,
            turn == turn_of(orders@, ordered@),
            p <= ordered@.len(),
            forall|q: int| 0 <= q < ordered@.len() ==> #[trigger] ordered@[q] < orders@.len(),
            orders_balanced(orders@),
            turn_trace(trace, records, results, turn),
            results.len() == p,
            forall|j: int| 0 <= j < p ==> (#[trigger] results[j]) is Ok,
            trace[0] == before,
            records[0] == before_events,
            trace.last() == *state,
            records.last() == events@,
            same_frame(before, *state),
            same_roster(before.vessels@, state.vessels@),
            before.round < u16::MAX && missiles_after(before.missiles@, before.round) ==> missiles_after(
                state.missiles@,
                before.round,
            ),
        decreases ordered@.len() - p,
    {
        let order = &orders[ordered[p]];
        let ghost prior = *state;
        proof {
            assert(turn[p as int] == *order);
            assert(orders@[ordered@[p as int] as int].actions@.len() == orders@[ordered@[p as int] as int].action_dms@.len());
            if orders_infallible(before.vessels@, orders@) {
                assert forall|j: int| 0 <= j < order.actions@.len() implies infallible_action(
                    state.vessels@,
                    order.vessel_id,
                    #[trigger] order.actions@[j],
                ) by {
                    assert(infallible_action(
                        before.vessels@,
                        orders@[ordered@[p as int] as int].vessel_id,
                        orders@[ordered@[p as int] as int].actions@[j],
                    ));
                    lemma_infallible_roster(before.vessels@, state.vessels@, order.vessel_id, order.actions@[j]);
                }
            }
        }
        let outcome = carry_out_order(state, order, events);
        proof {
            lemma_turn_trace_push(trace, records, results, turn, *state, events@, outcome);
            trace = trace.push(*state);
            records = records.push(events@);
            results = results.push(outcome);
        }
        match outcome {
            Ok(()) => {
                proof {
                    lemma_roster_trans(before.vessels@, prior.vessels@, state.vessels@);
                }
            },
            Err(e) => {
                proof {
                    assert(turn_trace(trace, records, results, turn));
                    assert(stops_at_failure(results, turn.len() as int, Err(e)));
                    assert(orders_done(before, *state, before_events, events@, turn, Err(e)));
                }
                return Err(e);
            },
        }
        p = p + 1;
    }
    assert(turn_trace(trace, records, results, turn));
    assert(stops_at_failure(results, turn.len() as int, Ok(())));
    assert(orders_done(before, *state, before_events, events@, turn, Ok(())));
    Ok(())
}

pub fn resolve_round(state: &CombatState, orders: &[JointOrder]) -> (r: Result<RoundResolution, String>)
    ensures
        match round_refusal(*state, orders@) {
            Some(reason) => r matches Err(e) && e@ == reason,
            None => round_played(*state, orders@, r) && (orders_infallible(state.vessels@, orders@)
                ==> r is Ok) && (r matches Ok(resolution) ==> round_closed(*state, resolution.state)),
        },
{
    if state.complete {
        return Err(message("combat is complete"));
    }
    if !check_cover(&state.vessels, orders) {
        return Err(message("one joint order is required for every active vessel"));
    }
    let mut i: usize = 0;
    while i < orders.len()
        invariant
            i <= orders@.len(),
            forall|a: int| 0 <= a < i ==> (#[trigger] orders@[a]).view_revision == state.revision,
            !state.complete,
            orders_cover(state.vessels@, orders@),
        decreases orders@.len() - i,
    {
        if orders[i].view_revision != state.revision {
            return Err(message("joint order was prepared from a stale combat view"));
        }
        i = i + 1;
    }
    let mut i: usize = 0;
    while i < orders.len()
        invariant
            i <= orders@.len(),
            forall|a: int|
                0 <= a < i ==> (#[trigger] orders@[a]).actions@.len() == orders@[a].action_dms@.len()
                    && orders@[a].reactions@.len() == orders@[a].reaction_dms@.len(),
            !state.complete,
            orders_cover(state.vessels@, orders@),
            orders_fresh(orders@, state.revision),
        decreases orders@.len() - i,
    {
        if orders[i].actions.len() != orders[i].action_dms.len() || orders[i].reactions.len()
            != orders[i].reaction_dms.len() {
            return Err(message("combat task modifiers do not match the joint order"));
        }
        i = i + 1;
    }
    assert(round_refusal(*state, orders@) is None);
    let mut keys: Vec<(i16, u8, u64)> = Vec::new();
    let mut i: usize = 0;
    while i < orders.len()
        invariant
            i <= orders@.len(),
            keys@.len() == i,
            round_refusal(*state, orders@) is None,
            orders_cover(state.vessels@, orders@),
            forall|a: int| 0 <= a < i ==> #[trigger] keys@[a] == order_key(state.vessels@, orders@[a]),
        decreases orders@.len() - i,
    {
        let id = orders[i].vessel_id;
        proof {
            assert(active_vessel_with(state.vessels@, orders@[i as int].vessel_id));
            let k = choose|k: int|
                0 <= k < state.vessels@.len() && is_active(#[trigger] state.vessels@[k])
                    && state.vessels@[k].vessel_id == id;
            assert(state.vessels@[k].vessel_id == id);
        }
        let position = vessel_position(&state.vessels, id);
        let index = position.unwrap();
        proof {
            lemma_first_vessel(state.vessels@, id, index as int);
        }
        keys.push((state.vessels[index].initiative, state.vessels[index].thrust, id));
        i = i + 1;
    }
    let ordered = initiative_order(&keys);
    proof {
        assert(in_initiative_order(state.vessels@, orders@, ordered@));
    }
    let mut result = copy_state(state);
    proof {
        lemma_copy_roster(*state, result);
    }
    let mut k: usize = 0;
    while k < result.vessels.len()
        invariant
            k <= result.vessels@.len(),
            result == (CombatState {
                vessels: result.vessels,
                missiles: result.missiles,
                boarding: result.boarding,
                ..*state
            }),
            result.missiles@ == state.missiles@,
            result.boarding@ == state.boarding@,
            result.vessels@.len() == state.vessels@.len(),
            forall|j: int| 0 <= j < k ==> vessel_copy(readied(state.vessels@[j]), #[trigger] result.vessels@[j]),
            forall|j: int| k <= j < result.vessels@.len() ==> vessel_copy(state.vessels@[j], #[trigger] result.vessels@[j]),
            same_roster(state.vessels@, result.vessels@),
            same_frame(*state, result),
            round_refusal(*state, orders@) is None,
        decreases result.vessels@.len() - k,
    {
        let ghost prior = result.vessels@;
        let reactions = reactions_for_initiative(result.vessels[k].initiative);
        result.vessels[k].reactions_remaining = reactions;
        result.vessels[k].evasive_dm = 0;
        result.vessels[k].targeting_dm = 0;
        result.vessels[k].line_up_dm = 0;
        proof {
            assert(vessel_copy(state.vessels@[k as int], prior[k as int]));
            assert(vessel_copy(readied(state.vessels@[k as int]), result.vessels@[k as int]));
            assert forall|j: int| 0 <= j < result.vessels@.len() && j != k implies #[trigger] result.vessels@[j] == prior[j] by {
            }
            lemma_roster_after_field(prior, result.vessels@, k as int);
            lemma_roster_trans(state.vessels@, prior, result.vessels@);
        }
        k = k + 1;
    }
    let ghost ready = result;
    assert(round_ready(*state, ready));
    let mut events: Vec<CombatEvent> = Vec::new();
    resolve_missile_impacts(&mut result, orders, &mut events);
    let ghost armed = result;
    let ghost armed_events = events@;
    proof {
        lemma_roster_trans(state.vessels@, ready.vessels@, result.vessels@);
        lemma_in_flight_after(state.missiles@, state.round);
        assert forall|i: int, j: int|
            0 <= i < orders@.len() && 0 <= j < orders@[i].actions@.len() && orders_infallible(
                state.vessels@,
                orders@,
            ) implies infallible_action(
            armed.vessels@,
            orders@[i].vessel_id,
            #[trigger] orders@[i].actions@[j],
        ) by {
            lemma_infallible_roster(state.vessels@, armed.vessels@, orders@[i].vessel_id, orders@[i].actions@[j]);
        }
    }
    let outcome = carry_out_turn(&mut result, orders, &ordered, &mut events);
    match outcome {
        Ok(()) => {},
        Err(e) => {
            proof {
                let turn = turn_of(orders@, ordered@);
                let failed: Result<RoundResolution, String> = Err(e);
                assert(phase_result(failed) == outcome);
                assert(in_initiative_order(state.vessels@, orders@, ordered@));
                assert(missiles_done(ready, armed, Seq::<CombatEvent>::empty(), armed_events, orders@));
                assert(orders_done(armed, result, armed_events, events@, turn, phase_result(failed)));
                assert(round_played(*state, orders@, failed));
            }
            return Err(e);
        },
    }
    let ghost acted = result;
    let ghost acted_events = events@;
    proof {
        lemma_roster_trans(state.vessels@, armed.vessels@, result.vessels@);
    }
    resolve_boarding(&mut result, &mut events);
    let ghost boarded = result;
    proof {
        lemma_roster_trans(state.vessels@, acted.vessels@, result.vessels@);
    }
    result.round = result.round.saturating_add(1);
    result.round_started_second = result.round_started_second.saturating_add(COMBAT_TURN_SECONDS);
    result.revision = result.revision.saturating_add(1);
    result.complete = single_active_side(&result.vessels);
    let resolution = RoundResolution { state: result, events };
    proof {
        let turn = turn_of(orders@, ordered@);
        let played: Result<RoundResolution, String> = Ok(resolution);
        assert(phase_result(played) == outcome);
        assert(round_advanced(boarded, resolution.state));
        assert(boardings_done(acted, boarded, acted_events, resolution.events@));
        assert(in_initiative_order(state.vessels@, orders@, ordered@));
        assert(missiles_done(ready, armed, Seq::<CombatEvent>::empty(), armed_events, orders@));
        assert(orders_done(armed, acted, armed_events, acted_events, turn, phase_result(played)));
        assert(round_played(*state, orders@, played));
    }
    Ok(resolution)
}

} // verus!
