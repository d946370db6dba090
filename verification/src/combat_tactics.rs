//! The fixed-work tactical controller that prepares orders for automated
//! vessels.

use vstd::prelude::*;
use crate::arith::{mix64, mix64_spec, rotl, rotl_spec};
use crate::combat::{
    attack_actions, is_first_vessel, attack_order, capture_order, conservative_actions,
    conservative_order, defensive_reactions, first_vessel, has_vessel, lemma_first_vessel,
    objective_met, objective_satisfied, order_is, vessel_position, AutomationDecision,
    AutomationPolicy, CombatState, CrewAction, JointOrder, Objective, RangeBand, RepairTarget,
    RoundResolution, VesselDisposition,
    VesselState, COMBAT_RULES_REVISION, MAX_SEARCH_CANDIDATES, SEARCH_FINALISTS,
    SEARCH_HORIZON_ROUNDS, SEARCH_ROLLOUTS,
};
use crate::combat_damage::{
    clamp_i16, copy_state, effective_hits_spec, effective_system_hits, sat_add_i16, vessel_copy,
};
use crate::combat_round::{is_active, resolve_round, round_played, round_refusal};

verus! {

/// Identities of the active vessels of other sides, in list order.
pub open spec fn active_enemies(vessels: Seq<VesselState>, side: u16) -> Seq<u64>
    decreases vessels.len(),
{
    if vessels.len() == 0 {
        seq![]
    } else {
        let rest = active_enemies(vessels.drop_last(), side);
        let v = vessels.last();
        if v.side != side && is_active(v) {
            rest.push(v.vessel_id)
        } else {
            rest
        }
    }
}

/// Action lists of the candidate orders against each enemy: a supported
/// and an unsupported attack, and a boarding when the range is adjacent.
pub open spec fn enemy_candidates(range: RangeBand, vessel: VesselState, enemies: Seq<u64>) -> Seq<
    Seq<CrewAction>,
>
    decreases enemies.len(),
{
    if enemies.len() == 0 {
        seq![]
    } else {
        let rest = enemy_candidates(range, vessel, enemies.drop_last());
        let e = enemies.last();
        let attacks = rest.push(attack_actions(vessel, e, true)).push(attack_actions(vessel, e, false));
        if range == RangeBand::Adjacent {
            attacks.push(seq![CrewAction::Coordinate, CrewAction::Board { target_id: e }])
        } else {
            attacks
        }
    }
}

/// The finalists: the safe order, then the candidates against the enemies,
/// at most eight in all.
pub open spec fn candidate_actions(range: RangeBand, vessel: VesselState, enemies: Seq<u64>) -> Seq<
    Seq<CrewAction>,
> {
    let all = seq![conservative_actions(vessel)] + enemy_candidates(range, vessel, enemies);
    if all.len() > 8 {
        all.take(8)
    } else {
        all
    }
}

/// `best` is the first candidate with the highest estimate.
pub open spec fn is_best(estimates: Seq<u8>, best: int) -> bool {
    &&& 0 <= best < estimates.len()
    &&& forall|k: int| 0 <= k < estimates.len() ==> #[trigger] estimates[k] <= estimates[best]
    &&& forall|k: int| 0 <= k < best ==> #[trigger] estimates[k] < estimates[best]
}

/// The order a decision carries: a finalist's actions, and for a vessel
/// whose maneuver and jump drives are both out of action, an offer of
/// surrender to the first enemy or else, where permitted, abandoning ship.
pub open spec fn order_built(
    order: JointOrder,
    state: CombatState,
    vessel_id: u64,
    vessel: VesselState,
    enemies: Seq<u64>,
    policy: AutomationPolicy,
    base: Seq<CrewAction>,
) -> bool {
    let last_resort = effective_hits_spec(vessel, RepairTarget::ManeuverDrive) >= 3
        && effective_hits_spec(vessel, RepairTarget::JumpDrive) >= 3;
    let extra = if last_resort && policy.permit_surrender {
        seq![CrewAction::OfferSurrender { to_vessel_id: enemies[0] }]
    } else if last_resort && policy.permit_abandon_ship {
        seq![CrewAction::LaunchEscapeCraft]
    } else {
        seq![]
    };
    order_is(order, vessel_id, state.revision, base + extra, defensive_reactions(), true)
}

/// How many of the outcomes are successes.
pub open spec fn success_count(outcomes: Seq<bool>) -> int
    decreases outcomes.len(),
{
    if outcomes.len() == 0 {
        0
    } else {
        success_count(outcomes.drop_last()) + if outcomes.last() {
            1int
        } else {
            0int
        }
    }
}

/// The estimate from a candidate's rollouts: its share of successes among
/// the rollouts, in percent, rounded half up.
pub open spec fn success_percent(outcomes: Seq<bool>) -> int {
    (success_count(outcomes) * 100 + 128) / 256
}

/// The finalists' orders and the outcomes of their rollouts behind the
/// estimates: each finalist's order, rollout `j` of finalist `k` as
/// `rollout_outcome` says, and each estimate the finalist's success share.
pub open spec fn rollouts_behind(
    state: CombatState,
    vessel_id: u64,
    objective: Objective,
    finalists: Seq<Seq<CrewAction>>,
    orders: Seq<JointOrder>,
    outcomes: Seq<Seq<bool>>,
    estimates: Seq<u8>,
) -> bool {
    &&& orders.len() == finalists.len()
    &&& outcomes.len() == finalists.len()
    &&& estimates.len() == finalists.len()
    &&& forall|k: int|
        0 <= k < finalists.len() ==> {
            &&& order_is(#[trigger] orders[k], vessel_id, state.revision, finalists[k], defensive_reactions(), k != 0)
            &&& outcomes[k].len() == SEARCH_ROLLOUTS
            &&& estimates[k] == success_percent(outcomes[k])
            &&& forall|j: int|
                0 <= j < SEARCH_ROLLOUTS ==> rollout_outcome(
                    state,
                    vessel_id,
                    objective,
                    orders[k],
                    k as usize,
                    j as usize,
                    #[trigger] outcomes[k][j],
                )
        }
}

/// The decision for the given estimates of the finalists, each its
/// finalist's share of successful rollouts: pursue the objective with the
/// best finalist when its estimate reaches the policy's threshold, else
/// withdraw with the safe order.
pub open spec fn decision_for(
    decision: AutomationDecision,
    state: CombatState,
    vessel_id: u64,
    policy: AutomationPolicy,
    estimates: Seq<u8>,
) -> bool {
    let vessels = state.vessels@;
    let vessel = vessels[first_vessel(vessels, vessel_id)];
    let enemies = active_enemies(vessels, vessel.side);
    let candidates = candidate_actions(state.range, vessel, enemies);
    &&& estimates.len() == candidates.len()
    &&& forall|k: int| 0 <= k < estimates.len() ==> #[trigger] estimates[k] <= 100
    &&& exists|orders: Seq<JointOrder>, outcomes: Seq<Seq<bool>>|
        #[trigger] rollouts_behind(state, vessel_id, policy.objective, candidates, orders, outcomes, estimates)
    &&& decision.algorithm_revision == COMBAT_RULES_REVISION
    &&& decision.view_revision == state.revision
    &&& exists|best: int|
        #![trigger estimates[best]]
        is_best(estimates, best) && if estimates[best] >= policy.minimum_victory_percent {
            &&& decision.branch@ == "pursue-objective"@
            &&& decision.estimated_success_percent == estimates[best]
            &&& order_built(decision.order, state, vessel_id, vessel, enemies, policy, candidates[best])
        } else {
            &&& decision.branch@ == "withdraw"@
            &&& decision.estimated_success_percent == estimates[0]
            &&& order_built(decision.order, state, vessel_id, vessel, enemies, policy, candidates[0])
        }
}

fn enemy_list(vessels: &Vec<VesselState>, side: u16) -> (r: Vec<u64>)
    ensures
        r@ == active_enemies(vessels@, side),
{
    let mut r: Vec<u64> = Vec::new();
    let mut k: usize = 0;
    while k < vessels.len()
        invariant
            k <= vessels@.len(),
            r@ == active_enemies(vessels@.take(k as int), side),
        decreases vessels@.len() - k,
    {
        proof {
            assert(vessels@.take(k + 1).drop_last() =~= vessels@.take(k as int));
        }
        if vessels[k].side != side && vessels[k].disposition == VesselDisposition::Active {
            r.push(vessels[k].vessel_id);
        }
        k = k + 1;
    }
    assert(vessels@.take(vessels@.len() as int) =~= vessels@);
    r
}

proof fn lemma_candidates_prefix(range: RangeBand, vessel: VesselState, enemies: Seq<u64>, count: int)
    requires
        0 <= count <= enemies.len(),
    ensures
        enemy_candidates(range, vessel, enemies.take(count)).len() <= enemy_candidates(
            range,
            vessel,
            enemies,
        ).len(),
        enemy_candidates(range, vessel, enemies.take(count)) == enemy_candidates(
            range,
            vessel,
            enemies,
        ).take(enemy_candidates(range, vessel, enemies.take(count)).len() as int),
        enemy_candidates(range, vessel, enemies.take(count)).len() >= 2 * count,
    decreases enemies.len(),
{
    if count == enemies.len() {
        assert(enemies.take(count) =~= enemies);
        lemma_candidates_len(range, vessel, enemies);
    } else {
        lemma_candidates_prefix(range, vessel, enemies.drop_last(), count);
        assert(enemies.drop_last().take(count) =~= enemies.take(count));
        let shorter = enemy_candidates(range, vessel, enemies.drop_last());
        let full = enemy_candidates(range, vessel, enemies);
        let part = enemy_candidates(range, vessel, enemies.take(count));
        assert(full.take(shorter.len() as int) =~= shorter);
        assert(full.take(part.len() as int) =~= shorter.take(part.len() as int));
    }
}

proof fn lemma_candidates_len(range: RangeBand, vessel: VesselState, enemies: Seq<u64>)
    ensures
        enemy_candidates(range, vessel, enemies).len() >= 2 * enemies.len(),
    decreases enemies.len(),
{
    if enemies.len() > 0 {
        lemma_candidates_len(range, vessel, enemies.drop_last());
    }
}

fn copy_order(order: &JointOrder) -> (r: JointOrder)
    ensures
        r.vessel_id == order.vessel_id,
        r.view_revision == order.view_revision,
        r.actions@ == order.actions@,
        r.action_dms@ == order.action_dms@,
        r.reactions@ == order.reactions@,
        r.reaction_dms@ == order.reaction_dms@,
        r.automated == order.automated,
{
    JointOrder {
        vessel_id: order.vessel_id,
        view_revision: order.view_revision,
        actions: copy_items(&order.actions),
        action_dms: copy_items(&order.action_dms),
        reactions: copy_items(&order.reactions),
        reaction_dms: copy_items(&order.reaction_dms),
        automated: order.automated,
    }
}

fn copy_items<T: Copy>(items: &Vec<T>) -> (r: Vec<T>)
    ensures
        r@ == items@,
{
    let mut r: Vec<T> = Vec::new();
    let mut i: usize = 0;
    while i < items.len()
        invariant
            i <= items@.len(),
            r@ == items@.take(i as int),
        decreases items@.len() - i,
    {
        r.push(items[i]);
        i = i + 1;
        assert(r@ =~= items@.take(i as int));
    }
    assert(items@.take(items@.len() as int) =~= items@);
    r
}

fn message(text: &str) -> (r: String)
    ensures
        r@ == text@,
{
    String::from_str(text)
}

/// Fixed-work tactical policy.  Candidate enumeration is capped, the best
/// eight candidates receive exactly 256 deterministic three-round rollouts,
/// and no hidden vessel fields absent from `state` are consulted.
pub fn risk_directed_order(state: &CombatState, vessel_id: u64, policy: &AutomationPolicy) -> (r:
    Result<AutomationDecision, String>)
    ensures
        policy.minimum_victory_percent > 100 ==> (r matches Err(e) && e@
            == "victory threshold exceeds 100 percent"@),
        policy.minimum_victory_percent <= 100 && !has_vessel(state.vessels@, vessel_id) ==> (r matches Err(e)
            && e@ == "vessel is not a participant"@),
        policy.minimum_victory_percent <= 100 && has_vessel(state.vessels@, vessel_id)
            && active_enemies(
            state.vessels@,
            state.vessels@[first_vessel(state.vessels@, vessel_id)].side,
        ).len() == 0 ==> (r matches Err(e) && e@ == "vessel has no active opponent"@),
        policy.minimum_victory_percent <= 100 && has_vessel(state.vessels@, vessel_id)
            && active_enemies(
            state.vessels@,
            state.vessels@[first_vessel(state.vessels@, vessel_id)].side,
        ).len() > 0 ==> (r matches Ok(decision) && exists|estimates: Seq<u8>|
            decision_for(decision, *state, vessel_id, *policy, estimates)),
{
    if policy.minimum_victory_percent > 100 {
        return Err(message("victory threshold exceeds 100 percent"));
    }
    let index = match vessel_position(&state.vessels, vessel_id) {
        Some(i) => i,
        None => {
            return Err(message("vessel is not a participant"));
        },
    };
    proof {
        lemma_first_vessel(state.vessels@, vessel_id, index as int);
    }
    let vessel = &state.vessels[index];
    let enemies = enemy_list(&state.vessels, vessel.side);
    if enemies.len() == 0 {
        return Err(message("vessel has no active opponent"));
    }
    let ghost all = seq![conservative_actions(*vessel)] + enemy_candidates(state.range, *vessel, enemies@);
    let mut candidates: Vec<JointOrder> = Vec::new();
    match conservative_order(state, vessel_id) {
        Ok(order) => {
            candidates.push(order);
        },
        Err(e) => {
            return Err(e);
        },
    }
    let limit: usize = if enemies.len() < MAX_SEARCH_CANDIDATES - 1 {
        enemies.len()
    } else {
        MAX_SEARCH_CANDIDATES - 1
    };
    let mut e: usize = 0;
    let mut full = false;
    while e < limit && !full
        invariant
            e <= limit <= enemies@.len(),
            limit <= 63,
            has_vessel(state.vessels@, vessel_id),
            is_first_vessel(state.vessels@, vessel_id, index as int),
            *vessel == state.vessels@[index as int],
            index as int == first_vessel(state.vessels@, vessel_id),
            full ==> candidates@.len() >= 64,
            candidates@.len() == 1 + enemy_candidates(state.range, *vessel, enemies@.take(e as int)).len(),
            candidates@.len() <= 1 + 3 * e,
            forall|k: int|
                0 <= k < candidates@.len() ==> order_is(
                    #[trigger] candidates@[k],
                    vessel_id,
                    state.revision,
                    (seq![conservative_actions(*vessel)] + enemy_candidates(
                        state.range,
                        *vessel,
                        enemies@.take(e as int),
                    ))[k],
                    defensive_reactions(),
                    k != 0,
                ),
        decreases limit - e + (if full { 0int } else { 1int }),
    {
        let target = enemies[e];
        let ghost before = seq![conservative_actions(*vessel)] + enemy_candidates(
            state.range,
            *vessel,
            enemies@.take(e as int),
        );
        let ghost prior = candidates@;
        match attack_order(state, vessel_id, target, true) {
            Ok(order) => {
                candidates.push(order);
            },
            Err(err) => {
                return Err(err);
            },
        }
        match attack_order(state, vessel_id, target, false) {
            Ok(order) => {
                candidates.push(order);
            },
            Err(err) => {
                return Err(err);
            },
        }
        if state.range == RangeBand::Adjacent {
            match capture_order(state, vessel_id, target) {
                Ok(order) => {
                    candidates.push(order);
                },
                Err(err) => {
                    return Err(err);
                },
            }
        }
        proof {
            lemma_first_vessel(state.vessels@, vessel_id, index as int);
            assert(enemies@.take(e + 1).drop_last() =~= enemies@.take(e as int));
            assert(enemies@.take(e + 1).last() == target);
            let after = seq![conservative_actions(*vessel)] + enemy_candidates(
                state.range,
                *vessel,
                enemies@.take(e + 1),
            );
            assert forall|k: int| 0 <= k < candidates@.len() implies order_is(
                #[trigger] candidates@[k],
                vessel_id,
                state.revision,
                after[k],
                defensive_reactions(),
                k != 0,
            ) by {
                if k < prior.len() {
                    assert(candidates@[k] == prior[k]);
                    assert(after[k] == before[k]);
                }
            }
        }
        e = e + 1;
        if candidates.len() >= MAX_SEARCH_CANDIDATES {
            full = true;
        }
    }
    proof {
        lemma_candidates_prefix(state.range, *vessel, enemies@, e as int);
        if e < enemies@.len() {
            lemma_candidates_len(state.range, *vessel, enemies@.take(e as int));
            assert(candidates@.len() >= 8);
        } else {
            assert(enemies@.take(e as int) =~= enemies@);
        }
    }
    let finalists: usize = if SEARCH_FINALISTS < candidates.len() {
        SEARCH_FINALISTS
    } else {
        candidates.len()
    };
    candidates.truncate(finalists);
    let ghost finals = candidate_actions(state.range, *vessel, enemies@);
    assert(candidates@.len() == finals.len());
    assert forall|k: int| 0 <= k < candidates@.len() implies order_is(
        #[trigger] candidates@[k],
        vessel_id,
        state.revision,
        finals[k],
        defensive_reactions(),
        k != 0,
    ) by {
        let part = seq![conservative_actions(*vessel)] + enemy_candidates(
            state.range,
            *vessel,
            enemies@.take(e as int),
        );
        assert(part[k] == all[k]);
    }
    let mut estimates: Vec<u8> = Vec::new();
    let ghost mut outcomes: Seq<Seq<bool>> = seq![];
    let mut c: usize = 0;
    while c < candidates.len()
        invariant
            c <= candidates@.len(),
            candidates@.len() == finals.len(),
            estimates@.len() == c,
            outcomes.len() == c,
            forall|k: int| 0 <= k < c ==> #[trigger] estimates@[k] <= 100,
            forall|k: int|
                0 <= k < c ==> {
                    &&& (#[trigger] outcomes[k]).len() == SEARCH_ROLLOUTS
                    &&& estimates@[k] == success_percent(outcomes[k])
                    &&& forall|j: int|
                        0 <= j < SEARCH_ROLLOUTS ==> rollout_outcome(
                            *state,
                            vessel_id,
                            policy.objective,
                            candidates@[k],
                            k as usize,
                            j as usize,
                            #[trigger] outcomes[k][j],
                        )
                },
        decreases candidates@.len() - c,
    {
        let mut successes: u32 = 0;
        let ghost mut runs: Seq<bool> = seq![];
        let mut rollout: usize = 0;
        while rollout < SEARCH_ROLLOUTS
            invariant
                rollout <= SEARCH_ROLLOUTS,
                c < candidates@.len(),
                successes <= rollout,
                runs.len() == rollout,
                successes == success_count(runs),
                forall|j: int|
                    0 <= j < rollout ==> rollout_outcome(
                        *state,
                        vessel_id,
                        policy.objective,
                        candidates@[c as int],
                        c,
                        j as usize,
                        #[trigger] runs[j],
                    ),
            decreases SEARCH_ROLLOUTS - rollout,
        {
            let met = rollout_candidate(state, vessel_id, policy.objective, &candidates[c], c, rollout);
            if met {
                successes = successes + 1;
            }
            proof {
                let prior = runs;
                runs = runs.push(met);
                assert(runs.drop_last() =~= prior);
                assert forall|j: int| 0 <= j < rollout + 1 implies rollout_outcome(
                    *state,
                    vessel_id,
                    policy.objective,
                    candidates@[c as int],
                    c,
                    j as usize,
                    #[trigger] runs[j],
                ) by {
                    if j < rollout {
                        assert(runs[j] == prior[j]);
                    }
                }
            }
            rollout = rollout + 1;
        }
        let estimate = ((successes * 100 + 128) / 256) as u8;
        estimates.push(estimate);
        proof {
            let prior = outcomes;
            outcomes = outcomes.push(runs);
            assert forall|k: int| 0 <= k < c + 1 implies {
                &&& (#[trigger] outcomes[k]).len() == SEARCH_ROLLOUTS
                &&& estimates@[k] == success_percent(outcomes[k])
                &&& forall|j: int|
                    0 <= j < SEARCH_ROLLOUTS ==> rollout_outcome(
                        *state,
                        vessel_id,
                        policy.objective,
                        candidates@[k],
                        k as usize,
                        j as usize,
                        #[trigger] outcomes[k][j],
                    )
            } by {
                if k < c {
                    assert(outcomes[k] == prior[k]);
                }
            }
        }
        c = c + 1;
    }
    let mut best: usize = 0;
    let mut k: usize = 1;
    while k < estimates.len()
        invariant
            1 <= estimates@.len(),
            best < estimates@.len(),
            1 <= k <= estimates@.len(),
            best < k,
            forall|q: int| 0 <= q < k ==> #[trigger] estimates@[q] <= estimates@[best as int],
            forall|q: int| 0 <= q < best ==> #[trigger] estimates@[q] < estimates@[best as int],
        decreases estimates@.len() - k,
    {
        if estimates[k] > estimates[best] {
            best = k;
        }
        k = k + 1;
    }
    let (pursue, selected, estimate) = if estimates[best] >= policy.minimum_victory_percent {
        (true, best, estimates[best])
    } else {
        (false, 0usize, estimates[0])
    };
    let mut order = copy_order(&candidates[selected]);
    order.automated = true;
    let target = enemies[0];
    let last_resort = effective_system_hits(vessel, RepairTarget::ManeuverDrive) >= 3
        && effective_system_hits(vessel, RepairTarget::JumpDrive) >= 3;
    let ghost base = order.actions@;
    if last_resort {
        if policy.permit_surrender {
            order.actions.push(CrewAction::OfferSurrender { to_vessel_id: target });
            order.action_dms.push(0);
        } else if policy.permit_abandon_ship {
            order.actions.push(CrewAction::LaunchEscapeCraft);
            order.action_dms.push(0);
        }
    }
    let branch = if pursue {
        message("pursue-objective")
    } else {
        message("withdraw")
    };
    let decision = AutomationDecision {
        algorithm_revision: COMBAT_RULES_REVISION,
        view_revision: state.revision,
        estimated_success_percent: estimate,
        branch,
        order,
    };
    proof {
        lemma_first_vessel(state.vessels@, vessel_id, index as int);
        assert(is_best(estimates@, best as int));
        let picked = finals[selected as int];
        assert(order_is(candidates@[selected as int], vessel_id, state.revision, picked, defensive_reactions(), selected != 0));
        let extra = if last_resort && policy.permit_surrender {
            seq![CrewAction::OfferSurrender { to_vessel_id: enemies@[0] }]
        } else if last_resort && policy.permit_abandon_ship {
            seq![CrewAction::LaunchEscapeCraft]
        } else {
            seq![]
        };
        assert(decision.order.actions@ =~= picked + extra);
        assert(decision.order.action_dms@ =~= crate::combat::zero_dms((picked + extra).len()));
        assert(rollouts_behind(*state, vessel_id, policy.objective, finals, candidates@, outcomes, estimates@));
        assert(decision_for(decision, *state, vessel_id, *policy, estimates@));
        assert(exists|estimates: Seq<u8>| decision_for(decision, *state, vessel_id, *policy, estimates));
    }
    let r: Result<AutomationDecision, String> = Ok(decision);
    assert(r is Ok);
    assert(r->Ok_0 == decision);
    assert(exists|estimates: Seq<u8>| decision_for(r->Ok_0, *state, vessel_id, *policy, estimates));
    r
}

/// The combat identity of one rollout of one candidate.
pub open spec fn rollout_combat_id(combat_id: u64, candidate_index: usize, rollout: usize) -> u64 {
    mix64_spec(combat_id ^ rotl_spec(candidate_index as u64, 21) ^ rotl_spec(rollout as u64, 39))
}

/// A vessel at the start of a rollout: its initiative moved by -1, 0 or +1,
/// drawn from the rollout's combat identity and the vessel's.
pub open spec fn shaken(vessel: VesselState, combat_id: u64) -> VesselState {
    let entropy = mix64_spec(combat_id ^ vessel.vessel_id);
    VesselState { initiative: clamp_i16(vessel.initiative + (entropy % 3) - 1), ..vessel }
}

/// The combat a rollout starts from: a copy under the rollout's identity,
/// with every vessel shaken.
pub open spec fn rollout_start(state: CombatState, start: CombatState, combat_id: u64) -> bool {
    &&& start == (CombatState {
        combat_id: start.combat_id,
        vessels: start.vessels,
        missiles: start.missiles,
        boarding: start.boarding,
        ..state
    })
    &&& start.combat_id == combat_id
    &&& start.missiles@ == state.missiles@
    &&& start.boarding@ == state.boarding@
    &&& start.vessels@.len() == state.vessels@.len()
    &&& forall|i: int|
        0 <= i < state.vessels@.len() ==> vessel_copy(shaken(state.vessels@[i], combat_id), #[trigger] start.vessels@[i])
}

/// The active vessels, in list order.
pub open spec fn active_only(vessels: Seq<VesselState>) -> Seq<VesselState> {
    vessels.filter(|v: VesselState| is_active(v))
}

/// `order` is the candidate order, prepared from the given view.
pub open spec fn order_as(order: JointOrder, candidate: JointOrder, view_revision: u64) -> bool {
    &&& order.vessel_id == candidate.vessel_id
    &&& order.view_revision == view_revision
    &&& order.actions@ == candidate.actions@
    &&& order.action_dms@ == candidate.action_dms@
    &&& order.reactions@ == candidate.reactions@
    &&& order.reaction_dms@ == candidate.reaction_dms@
    &&& order.automated == candidate.automated
}

/// The order an active vessel of a rollout is given: the candidate for the
/// player, else an unsupported attack on the first active enemy, or the
/// conservative order when no enemy is left.
pub open spec fn simulated_order(
    sim: CombatState,
    vessel: VesselState,
    player_id: u64,
    candidate: JointOrder,
    order: JointOrder,
) -> bool {
    let acting = sim.vessels@[first_vessel(sim.vessels@, vessel.vessel_id)];
    let enemies = active_enemies(sim.vessels@, vessel.side);
    if vessel.vessel_id == player_id {
        order_as(order, candidate, sim.revision)
    } else if enemies.len() > 0 {
        order_is(
            order,
            vessel.vessel_id,
            sim.revision,
            attack_actions(acting, enemies[0], false),
            defensive_reactions(),
            true,
        )
    } else {
        order_is(order, vessel.vessel_id, sim.revision, conservative_actions(acting), defensive_reactions(), false)
    }
}

/// The orders of one simulated round: one for each active vessel, in list
/// order.
pub open spec fn simulated_orders(
    sim: CombatState,
    player_id: u64,
    candidate: JointOrder,
    orders: Seq<JointOrder>,
) -> bool {
    let active = active_only(sim.vessels@);
    &&& orders.len() == active.len()
    &&& forall|j: int| 0 <= j < orders.len() ==> simulated_order(sim, active[j], player_id, candidate, #[trigger] orders[j])
}

/// The player is still in the simulated fight: the combat goes on and the
/// player is present, active or withdrawing.
pub open spec fn player_continues(sim: CombatState, player_id: u64) -> bool {
    &&& !sim.complete
    &&& has_vessel(sim.vessels@, player_id)
    &&& {
        let d = sim.vessels@[first_vessel(sim.vessels@, player_id)].disposition;
        d == VesselDisposition::Active || d == VesselDisposition::Withdrawing
    }
}

/// One simulated round, played from the simulated orders.
pub open spec fn rollout_round(sim: CombatState, next: CombatState, player_id: u64, candidate: JointOrder) -> bool {
    exists|orders: Seq<JointOrder>, resolution: RoundResolution|
        #![trigger simulated_orders(sim, player_id, candidate, orders), round_played(sim, orders, Ok(resolution))]
        simulated_orders(sim, player_id, candidate, orders) && round_played(sim, orders, Ok(resolution))
            && next == resolution.state
}

/// A simulated round that is refused or fails.
pub open spec fn rollout_round_fails(sim: CombatState, player_id: u64, candidate: JointOrder) -> bool {
    exists|orders: Seq<JointOrder>|
        #![trigger simulated_orders(sim, player_id, candidate, orders)]
        simulated_orders(sim, player_id, candidate, orders) && (round_refusal(sim, orders) is Some || exists|
            e: String,
        | #[trigger] round_played(sim, orders, Err(e)))
}

/// The combats a rollout goes through: at most the search horizon of
/// rounds, each played while the player is still in the fight.
pub open spec fn rollout_run(sims: Seq<CombatState>, player_id: u64, candidate: JointOrder) -> bool {
    &&& 1 <= sims.len() <= SEARCH_HORIZON_ROUNDS + 1
    &&& forall|k: int|
        #![trigger sims[k]]
        0 <= k < sims.len() - 1 ==> player_continues(sims[k], player_id) && rollout_round(
            sims[k],
            sims[k + 1],
            player_id,
            candidate,
        )
}

/// The player's side in a combat, or zero once it is gone.
pub open spec fn player_side(vessels: Seq<VesselState>, player_id: u64) -> u16 {
    if has_vessel(vessels, player_id) {
        vessels[first_vessel(vessels, player_id)].side
    } else {
        0
    }
}

/// What one rollout of a candidate reports: a run of simulated rounds from
/// the shaken start; a failed round, or a player gone from a combat that
/// goes on, is a failure; else whether the objective is met at the end.
pub open spec fn rollout_outcome(
    state: CombatState,
    player_id: u64,
    objective: Objective,
    candidate: JointOrder,
    candidate_index: usize,
    rollout: usize,
    r: bool,
) -> bool {
    exists|sims: Seq<CombatState>|
        #![trigger rollout_run(sims, player_id, candidate)]
        {
            &&& rollout_run(sims, player_id, candidate)
            &&& rollout_start(state, sims[0], rollout_combat_id(state.combat_id, candidate_index, rollout))
            &&& {
                let last = sims.last();
                if sims.len() <= SEARCH_HORIZON_ROUNDS && player_continues(last, player_id) {
                    !r && rollout_round_fails(last, player_id, candidate)
                } else if sims.len() <= SEARCH_HORIZON_ROUNDS && !last.complete && !has_vessel(
                    last.vessels@,
                    player_id,
                ) {
                    !r
                } else {
                    r == objective_met(last.vessels@, player_id, player_side(last.vessels@, player_id), objective)
                }
            }
        }
}

/// One more simulated round extends a rollout's run.
proof fn lemma_rollout_run_push(
    sims: Seq<CombatState>,
    player_id: u64,
    candidate: JointOrder,
    next: CombatState,
)
    requires
        rollout_run(sims, player_id, candidate),
        sims.len() <= SEARCH_HORIZON_ROUNDS,
        player_continues(sims.last(), player_id),
        rollout_round(sims.last(), next, player_id, candidate),
    ensures
        rollout_run(sims.push(next), player_id, candidate),
{
    let t = sims.push(next);
    assert forall|k: int| 0 <= k < t.len() - 1 implies player_continues(#[trigger] t[k], player_id)
        && rollout_round(t[k], t[k + 1], player_id, candidate) by {
        if k < sims.len() - 1 {
            assert(t[k] == sims[k] && t[k + 1] == sims[k + 1]);
            assert(player_continues(sims[k], player_id) && rollout_round(sims[k], sims[k + 1], player_id, candidate));
        }
    }
}

/// The order of one active vessel of a simulated round.
fn simulated_order_for(
    sim: &CombatState,
    v: usize,
    player_id: u64,
    candidate: &JointOrder,
) -> (r: Result<JointOrder, String>)
    requires
        v < sim.vessels@.len(),
    ensures
        r matches Ok(order) && simulated_order(*sim, sim.vessels@[v as int], player_id, *candidate, order),
{
    let vessel = &sim.vessels[v];
    proof {
        assert(has_vessel(sim.vessels@, vessel.vessel_id));
    }
    if vessel.vessel_id == player_id {
        let mut order = copy_order(candidate);
        order.view_revision = sim.revision;
        return Ok(order);
    }
    let enemies = enemy_list(&sim.vessels, vessel.side);
    if enemies.len() > 0 {
        match attack_order(sim, vessel.vessel_id, enemies[0], false) {
            Ok(order) => {
                return Ok(order);
            },
            Err(_) => {},
        }
    }
    conservative_order(sim, vessel.vessel_id)
}

/// The orders of one simulated round.
fn simulated_orders_for(simulated: &CombatState, vessel_id: u64, candidate: &JointOrder) -> (r: Vec<JointOrder>)
    ensures
        simulated_orders(*simulated, vessel_id, *candidate, r@),
{
    let mut orders: Vec<JointOrder> = Vec::new();
    let mut v: usize = 0;
    while v < simulated.vessels.len()
        invariant
            v <= simulated.vessels@.len(),
            orders@.len() == active_only(simulated.vessels@.take(v as int)).len(),
            forall|j: int|
                0 <= j < orders@.len() ==> simulated_order(
                    *simulated,
                    active_only(simulated.vessels@.take(v as int))[j],
                    vessel_id,
                    *candidate,
                    #[trigger] orders@[j],
                ),
        decreases simulated.vessels@.len() - v,
    {
        let ghost prior = orders@;
        proof {
            reveal(Seq::filter);
            assert(simulated.vessels@.take(v + 1).drop_last() =~= simulated.vessels@.take(v as int));
            assert(simulated.vessels@.take(v + 1).last() == simulated.vessels@[v as int]);
        }
        if simulated.vessels[v].disposition == VesselDisposition::Active {
            let order = simulated_order_for(simulated, v, vessel_id, candidate).unwrap();
            orders.push(order);
            proof {
                let after = active_only(simulated.vessels@.take(v + 1));
                assert(after =~= active_only(simulated.vessels@.take(v as int)).push(simulated.vessels@[v as int]));
                assert forall|j: int| 0 <= j < orders@.len() implies simulated_order(
                    *simulated,
                    after[j],
                    vessel_id,
                    *candidate,
                    #[trigger] orders@[j],
                ) by {
                    if j < prior.len() {
                        assert(orders@[j] == prior[j]);
                    }
                }
            }
        } else {
            proof {
                assert(active_only(simulated.vessels@.take(v + 1)) =~= active_only(
                    simulated.vessels@.take(v as int),
                ));
            }
        }
        v = v + 1;
    }
    proof {
        assert(simulated.vessels@.take(simulated.vessels@.len() as int) =~= simulated.vessels@);
    }
    orders
}

/// Plays a candidate order for a few rounds against simple opponents and
/// reports whether the objective was met.
#[verifier::spinoff_prover]
#[verifier::rlimit(80)]
pub fn rollout_candidate(
    state: &CombatState,
    vessel_id: u64,
    objective: Objective,
    candidate: &JointOrder,
    candidate_index: usize,
    rollout: usize,
) -> (r: bool)
    ensures
        rollout_outcome(*state, vessel_id, objective, *candidate, candidate_index, rollout, r),
{
    let mut simulated = copy_state(state);
    let combat_id = mix64(
        state.combat_id ^ rotl(candidate_index as u64, 21) ^ rotl(rollout as u64, 39),
    );
    simulated.combat_id = combat_id;
    let mut k: usize = 0;
    while k < simulated.vessels.len()
        invariant
            k <= simulated.vessels@.len(),
            combat_id == rollout_combat_id(state.combat_id, candidate_index, rollout),
            simulated == (CombatState {
                combat_id: simulated.combat_id,
                vessels: simulated.vessels,
                missiles: simulated.missiles,
                boarding: simulated.boarding,
                ..*state
            }),
            simulated.combat_id == combat_id,
            simulated.missiles@ == state.missiles@,
            simulated.boarding@ == state.boarding@,
            simulated.vessels@.len() == state.vessels@.len(),
            forall|j: int| 0 <= j < k ==> vessel_copy(shaken(state.vessels@[j], combat_id), #[trigger] simulated.vessels@[j]),
            forall|j: int| k <= j < simulated.vessels@.len() ==> vessel_copy(state.vessels@[j], #[trigger] simulated.vessels@[j]),
        decreases simulated.vessels@.len() - k,
    {
        let ghost prior = simulated.vessels@;
        let entropy = mix64(simulated.combat_id ^ simulated.vessels[k].vessel_id);
        let shift: i16 = (entropy % 3) as i16 - 1;
        simulated.vessels[k].initiative = sat_add_i16(simulated.vessels[k].initiative, shift);
        proof {
            assert(vessel_copy(state.vessels@[k as int], prior[k as int]));
            assert(vessel_copy(shaken(state.vessels@[k as int], combat_id), simulated.vessels@[k as int]));
            assert forall|j: int| 0 <= j < simulated.vessels@.len() && j != k implies #[trigger] simulated.vessels@[j]
                == prior[j] by {
            }
        }
        k = k + 1;
    }
    let ghost mut sims: Seq<CombatState> = seq![simulated];
    assert(rollout_start(*state, sims[0], rollout_combat_id(state.combat_id, candidate_index, rollout)));
    let mut round: u8 = 0;
    while round < SEARCH_HORIZON_ROUNDS && !simulated.complete
        invariant
            round <= SEARCH_HORIZON_ROUNDS,
            sims.len() == round + 1,
            sims.last() == simulated,
            rollout_run(sims, vessel_id, *candidate),
            rollout_start(*state, sims[0], rollout_combat_id(state.combat_id, candidate_index, rollout)),
        ensures
            round <= SEARCH_HORIZON_ROUNDS,
            sims.len() == round + 1,
            sims.last() == simulated,
            rollout_run(sims, vessel_id, *candidate),
            rollout_start(*state, sims[0], rollout_combat_id(state.combat_id, candidate_index, rollout)),
            round < SEARCH_HORIZON_ROUNDS ==> !player_continues(simulated, vessel_id) && (simulated.complete
                || has_vessel(simulated.vessels@, vessel_id)),
        decreases SEARCH_HORIZON_ROUNDS - round,
    {
        let player = match vessel_position(&simulated.vessels, vessel_id) {
            Some(i) => i,
            None => {
                proof {
                    assert(rollout_outcome(*state, vessel_id, objective, *candidate, candidate_index, rollout, false));
                }
                return false;
            },
        };
        proof {
            lemma_first_vessel(simulated.vessels@, vessel_id, player as int);
        }
        let disposition = simulated.vessels[player].disposition;
        if disposition != VesselDisposition::Active && disposition != VesselDisposition::Withdrawing {
            break;
        }
        let orders = simulated_orders_for(&simulated, vessel_id, candidate);
        proof {
            assert(player_continues(simulated, vessel_id));
        }
        match resolve_round(&simulated, orders.as_slice()) {
            Ok(resolution) => {
                proof {
                    assert(round_played(simulated, orders@, Ok(resolution)));
                    assert(rollout_round(simulated, resolution.state, vessel_id, *candidate));
                    lemma_rollout_run_push(sims, vessel_id, *candidate, resolution.state);
                    sims = sims.push(resolution.state);
                }
                simulated = resolution.state;
            },
            Err(e) => {
                proof {
                    if round_refusal(simulated, orders@) is None {
                        assert(round_played(simulated, orders@, Err(e)));
                    }
                    assert(rollout_round_fails(simulated, vessel_id, *candidate));
                    assert(rollout_outcome(*state, vessel_id, objective, *candidate, candidate_index, rollout, false));
                }
                return false;
            },
        }
        round = round + 1;
    }
    let side = match vessel_position(&simulated.vessels, vessel_id) {
        Some(i) => {
            proof {
                lemma_first_vessel(simulated.vessels@, vessel_id, i as int);
            }
            simulated.vessels[i].side
        },
        None => 0,
    };
    assert(side == player_side(simulated.vessels@, vessel_id));
    let met = objective_satisfied(&simulated, vessel_id, side, objective);
    proof {
        assert(rollout_outcome(*state, vessel_id, objective, *candidate, candidate_index, rollout, met));
    }
    met
}

} // verus!
