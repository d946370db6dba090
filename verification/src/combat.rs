//! Deterministic CE vessel-combat rules.
//!
//! This module is deliberately independent of sockets and storage.  A combat
//! round is one ordered engine transaction fed with joint orders prepared from
//! a shared round-start view.  Persistence can therefore journal the input and
//! resulting state without giving any participant a later initiative slot an
//! information advantage while orders are being collected.

use vstd::prelude::*;
use crate::arith::{rotr, rotr_spec};

pub use crate::combat_round::resolve_round;
pub use crate::combat_tactics::{risk_directed_order, rollout_candidate};
pub use crate::combat_catalog::materialize_vessel;

verus! {

pub const COMBAT_RULES_REVISION: u16 = 1;
pub const COMBAT_TURN_SECONDS: u64 = 1_000;
pub const ORDER_WINDOW_REAL_MILLISECONDS: u64 = 35_714;
pub const DEFAULT_VICTORY_THRESHOLD_PERCENT: u8 = 70;
pub const MAX_SEARCH_CANDIDATES: usize = 64;
pub const SEARCH_FINALISTS: usize = 8;
pub const SEARCH_ROLLOUTS: usize = 256;
pub const SEARCH_HORIZON_ROUNDS: u8 = 3;

#[derive(Clone, Copy, Debug, PartialEq, Eq, Structural, PartialOrd, Ord)]
pub enum RangeBand {
    Adjacent,
    Close,
    Short,
    Medium,
    Long,
    VeryLong,
    Distant,
}

/// Position of a range band on the scale from adjacent (0) to distant (6).
pub open spec fn band_index(band: RangeBand) -> int {
    match band {
        RangeBand::Adjacent => 0,
        RangeBand::Close => 1,
        RangeBand::Short => 2,
        RangeBand::Medium => 3,
        RangeBand::Long => 4,
        RangeBand::VeryLong => 5,
        RangeBand::Distant => 6,
    }
}

/// The range band at a position of the scale, clamped to its ends.
pub open spec fn band_at(index: int) -> RangeBand {
    if index <= 0 {
        RangeBand::Adjacent
    } else if index == 1 {
        RangeBand::Close
    } else if index == 2 {
        RangeBand::Short
    } else if index == 3 {
        RangeBand::Medium
    } else if index == 4 {
        RangeBand::Long
    } else if index == 5 {
        RangeBand::VeryLong
    } else {
        RangeBand::Distant
    }
}

impl RangeBand {
    pub fn index(self) -> (r: usize)
        ensures
            r == band_index(self),
    {
        match self {
            RangeBand::Adjacent => 0,
            RangeBand::Close => 1,
            RangeBand::Short => 2,
            RangeBand::Medium => 3,
            RangeBand::Long => 4,
            RangeBand::VeryLong => 5,
            RangeBand::Distant => 6,
        }
    }

    /// One band farther, stopping at distant.
    pub fn increase(self) -> (r: Self)
        ensures
            r == band_at(band_index(self) + 1),
    {
        match self {
            Self::Adjacent => Self::Close,
            Self::Close => Self::Short,
            Self::Short => Self::Medium,
            Self::Medium => Self::Long,
            Self::Long => Self::VeryLong,
            Self::VeryLong | Self::Distant => Self::Distant,
        }
    }

    /// One band closer, stopping at adjacent.
    pub fn decrease(self) -> (r: Self)
        ensures
            r == band_at(band_index(self) - 1),
    {
        match self {
            Self::Adjacent | Self::Close => Self::Adjacent,
            Self::Short => Self::Close,
            Self::Medium => Self::Short,
            Self::Long => Self::Medium,
            Self::VeryLong => Self::Long,
            Self::Distant => Self::VeryLong,
        }
    }
}

/// Closing the range undoes opening it, except at the distant end, and
/// opening undoes closing, except at the adjacent end.
pub proof fn lemma_range_steps_undo(band: RangeBand)
    ensures
        band != RangeBand::Distant ==> band_at(band_index(band_at(band_index(band) + 1)) - 1)
            == band,
        band != RangeBand::Adjacent ==> band_at(band_index(band_at(band_index(band) - 1)) + 1)
            == band,
        0 <= band_index(band) <= 6,
        band_at(band_index(band)) == band,
{
}

#[derive(Clone, Copy, Debug, PartialEq, Eq, Structural)]
pub struct DamageDice {
    pub dice: u8,
    pub modifier: i8,
}

#[derive(Clone, Debug, PartialEq, Eq)]
pub struct WeaponRule {
    pub id: String,
    pub damage: DamageDice,
    pub difficulty_dm: [i8; 7],
    pub beam: bool,
    pub missile: bool,
    pub radiation: bool,
    pub meson: bool,
    pub sand: bool,
    pub bay: bool,
    pub ammunition_id: Option<String>,
}

#[derive(Clone, Debug, PartialEq, Eq)]
pub struct WeaponMount {
    pub mount_id: u16,
    pub catalog_mount_id: String,
    pub weapons: Vec<WeaponRule>,
    pub damage_hits: u8,
    pub battlefield_repair_hits: u8,
    pub fired_round: u16,
}

#[derive(Clone, Debug, PartialEq, Eq)]
pub struct AmmunitionLot {
    pub ammunition_id: String,
    pub remaining: u32,
}

#[derive(Clone, Copy, Debug, PartialEq, Eq, Structural)]
pub enum VesselDisposition {
    Active,
    Withdrawing,
    SurrenderOffered,
    Surrendered,
    Abandoned,
    Captured,
    Destroyed,
}

#[derive(Clone, Debug, PartialEq, Eq)]
pub struct VesselState {
    pub vessel_id: u64,
    pub side: u16,
    pub name: String,
    pub catalog_id: u32,
    pub displacement_millitons: u64,
    pub thrust: u8,
    pub initiative: i16,
    pub hull_remaining: u16,
    pub structure_remaining: u16,
    pub armor_remaining: u16,
    pub bridge_hits: u8,
    pub sensors_hits: u8,
    pub maneuver_hits: u8,
    pub jump_hits: u8,
    pub power_hits: u8,
    pub fuel_hits: u8,
    pub hold_hits: u8,
    /// Temporary CE battlefield coverage for bridge, sensors, maneuver,
    /// jump, power, fuel, and hold damage, in that order.
    pub battlefield_repairs: [u8; 7],
    pub crew_hits: u16,
    pub weapons: Vec<WeaponMount>,
    pub ammunition: Vec<AmmunitionLot>,
    /// The screens the vessel carries, in ascending byte order, each once.
    pub screens: Vec<String>,
    pub reactions_remaining: u8,
    pub evasive_dm: i8,
    pub targeting_dm: i8,
    pub line_up_dm: i8,
    pub disposition: VesselDisposition,
}

#[derive(Clone, Copy, Debug, PartialEq, Eq, Structural)]
pub enum Objective {
    Survive,
    Withdraw,
    Defeat,
    Capture,
    Protect,
    Inspect,
}

#[derive(Clone, Copy, Debug, PartialEq, Eq, Structural)]
pub enum CrewAction {
    Hold,
    Coordinate,
    IncreaseInitiative,
    EvasiveManeuvers,
    LineUpShot,
    RangeCheckClose,
    RangeCheckOpen,
    BreakPursuit,
    SensorTargeting,
    ElectronicWarfare,
    DamageControl,
    Attack { mount_id: u16, target_id: u64 },
    Board { target_id: u64 },
    PrepareJump,
    LaunchEscapeCraft,
    OfferSurrender { to_vessel_id: u64 },
    AcceptSurrender { vessel_id: u64 },
    InspectContact { target_id: u64 },
}

#[derive(Clone, Copy, Debug, PartialEq, Eq, Structural)]
pub enum ReactionKind {
    Dodge,
    PointDefense,
    FireSand,
    TriggerNuclearDamper,
    TriggerMesonScreen,
}

#[derive(Clone, Debug, PartialEq, Eq)]
pub struct JointOrder {
    pub vessel_id: u64,
    pub view_revision: u64,
    pub actions: Vec<CrewAction>,
    pub action_dms: Vec<i8>,
    pub reactions: Vec<ReactionKind>,
    pub reaction_dms: Vec<i8>,
    pub automated: bool,
}

#[derive(Clone, Debug, PartialEq, Eq)]
pub struct PendingMissile {
    pub missile_id: u64,
    pub source_vessel_id: u64,
    pub target_vessel_id: u64,
    pub weapon: WeaponRule,
    pub hit_target: u8,
    pub impact_round: u16,
}

#[derive(Clone, Copy, Debug, PartialEq, Eq, Structural)]
pub struct BoardingState {
    pub attacker_id: u64,
    pub defender_id: u64,
    pub attacker_bonus: i8,
    pub defender_bonus: i8,
}

#[derive(Clone, Debug, PartialEq, Eq)]
pub struct CombatState {
    pub combat_id: u64,
    pub revision: u64,
    pub round: u16,
    pub round_started_second: u64,
    pub range: RangeBand,
    pub vessels: Vec<VesselState>,
    pub missiles: Vec<PendingMissile>,
    pub boarding: Vec<BoardingState>,
    pub complete: bool,
}

#[derive(Clone, Debug, PartialEq, Eq)]
pub enum CombatEvent {
    Action { vessel_id: u64, description: String },
    AttackMissed { vessel_id: u64, target_id: u64, mount_id: u16 },
    MissileLaunched { vessel_id: u64, target_id: u64, impact_round: u16 },
    Damage { vessel_id: u64, target_id: u64, damage: i16, hits: u16 },
    Withdrawal { vessel_id: u64 },
    SurrenderOffered { vessel_id: u64, to_vessel_id: u64 },
    SurrenderAccepted { vessel_id: u64, by_vessel_id: u64 },
    BoardingStarted { attacker_id: u64, defender_id: u64 },
    BattlefieldRepair { vessel_id: u64, targets: Vec<RepairTarget> },
    InspectionCompleted { vessel_id: u64, target_id: u64 },
    VesselDestroyed { vessel_id: u64 },
}

#[derive(Clone, Copy, Debug, PartialEq, Eq, Structural)]
pub enum RepairTarget {
    Bridge,
    Sensors,
    ManeuverDrive,
    JumpDrive,
    PowerPlant,
    FuelSystem,
    CargoHold,
    WeaponMount(u16),
}

#[derive(Clone, Debug, PartialEq, Eq)]
pub struct RoundResolution {
    pub state: CombatState,
    pub events: Vec<CombatEvent>,
}

#[derive(Clone, Copy, Debug, PartialEq, Eq, Structural)]
pub struct AutomationPolicy {
    pub revision: u64,
    pub minimum_victory_percent: u8,
    pub objective: Objective,
    pub permit_surrender: bool,
    pub permit_abandon_ship: bool,
}

impl Default for AutomationPolicy {
    fn default() -> (r: Self)
        ensures
            r == (AutomationPolicy {
                revision: 1,
                minimum_victory_percent: DEFAULT_VICTORY_THRESHOLD_PERCENT,
                objective: Objective::Survive,
                permit_surrender: true,
                permit_abandon_ship: true,
            }),
    {
        Self {
            revision: 1,
            minimum_victory_percent: DEFAULT_VICTORY_THRESHOLD_PERCENT,
            objective: Objective::Survive,
            permit_surrender: true,
            permit_abandon_ship: true,
        }
    }
}

#[derive(Clone, Debug, PartialEq, Eq)]
pub struct AutomationDecision {
    pub algorithm_revision: u16,
    pub view_revision: u64,
    pub estimated_success_percent: u8,
    pub branch: String,
    pub order: JointOrder,
}

// ---------------------------------------------------------------------------
// Reactions, dice and the damage table.

pub open spec fn reactions_spec(initiative: i16) -> u8 {
    if initiative <= 4 {
        1
    } else if initiative <= 8 {
        2
    } else if initiative <= 12 {
        3
    } else {
        4
    }
}

pub fn reactions_for_initiative(initiative: i16) -> (r: u8)
    ensures
        r == reactions_spec(initiative),
{
    if initiative <= 4 {
        1
    } else if initiative <= 8 {
        2
    } else if initiative <= 12 {
        3
    } else {
        4
    }
}

/// One six-sided die read from the entropy word rotated right by `shift`.
pub open spec fn d6_spec(entropy: u64, shift: u32) -> int {
    (rotr_spec(entropy, shift) % 6) as int + 1
}

pub fn d6(entropy: u64, shift: u32) -> (r: i16)
    ensures
        r == d6_spec(entropy, shift),
        1 <= r <= 6,
{
    ((rotr(entropy, shift) % 6) + 1) as i16
}

/// `count` copies of `value`.
pub open spec fn repeated(value: u8, count: int) -> Seq<u8> {
    Seq::new(if count < 0 { 0 } else { count as nat }, |i: int| value)
}

/// The CE damage table: penetrating damage to groups of hits.
pub open spec fn hit_groups_spec(damage: i16) -> Seq<u8> {
    if damage <= 0 {
        seq![]
    } else if damage <= 4 {
        seq![1u8]
    } else if damage <= 8 {
        seq![1u8, 1u8]
    } else if damage <= 12 {
        seq![2u8]
    } else if damage <= 16 {
        seq![1u8, 1u8, 1u8]
    } else if damage <= 20 {
        seq![1u8, 1u8, 2u8]
    } else if damage <= 24 {
        seq![2u8, 2u8]
    } else if damage <= 28 {
        seq![3u8]
    } else if damage <= 32 {
        seq![3u8, 1u8]
    } else if damage <= 36 {
        seq![3u8, 2u8]
    } else if damage <= 40 {
        seq![3u8, 2u8, 1u8]
    } else if damage <= 44 {
        seq![3u8, 3u8]
    } else {
        let extra = damage - 44;
        seq![3u8, 3u8] + repeated(2, extra / 6) + repeated(1, (extra % 6) / 3)
    }
}

pub fn damage_hit_groups(damage: i16) -> (r: Vec<u8>)
    ensures
        r@ == hit_groups_spec(damage),
{
    if damage <= 0 {
        vec![]
    } else if damage <= 4 {
        vec![1]
    } else if damage <= 8 {
        vec![1, 1]
    } else if damage <= 12 {
        vec![2]
    } else if damage <= 16 {
        vec![1, 1, 1]
    } else if damage <= 20 {
        vec![1, 1, 2]
    } else if damage <= 24 {
        vec![2, 2]
    } else if damage <= 28 {
        vec![3]
    } else if damage <= 32 {
        vec![3, 1]
    } else if damage <= 36 {
        vec![3, 2]
    } else if damage <= 40 {
        vec![3, 2, 1]
    } else if damage <= 44 {
        vec![3, 3]
    } else {
        let mut groups: Vec<u8> = vec![3, 3];
        let extra: i16 = damage - 44;
        let doubles: i16 = extra / 6;
        let singles: i16 = (extra % 6) / 3;
        let mut k: i16 = 0;
        while k < doubles
            invariant
                0 <= k <= doubles,
                doubles == extra / 6,
                groups@ == seq![3u8, 3u8] + repeated(2, k as int),
            decreases doubles - k,
        {
            groups.push(2);
            k = k + 1;
            assert(groups@ =~= seq![3u8, 3u8] + repeated(2, k as int));
        }
        let mut m: i16 = 0;
        while m < singles
            invariant
                0 <= m <= singles,
                singles == (extra % 6) / 3,
                doubles == extra / 6,
                groups@ == seq![3u8, 3u8] + repeated(2, doubles as int) + repeated(1, m as int),
            decreases singles - m,
        {
            groups.push(1);
            m = m + 1;
            assert(groups@ =~= seq![3u8, 3u8] + repeated(2, doubles as int) + repeated(
                1,
                m as int,
            ));
        }
        groups
    }
}

/// Every group of hits holds one to three hits, and there is at least one
/// group exactly when some damage penetrates.
pub proof fn lemma_hit_groups_shape(damage: i16)
    ensures
        forall|i: int|
            0 <= i < hit_groups_spec(damage).len() ==> 1 <= #[trigger] hit_groups_spec(damage)[i]
                <= 3,
        (hit_groups_spec(damage).len() > 0) == (damage > 0),
{
}

// ---------------------------------------------------------------------------
// Finding a vessel.

/// `index` is the first vessel of the list with the given identity.
pub open spec fn is_first_vessel(vessels: Seq<VesselState>, vessel_id: u64, index: int) -> bool {
    &&& 0 <= index < vessels.len()
    &&& vessels[index].vessel_id == vessel_id
    &&& forall|j: int| 0 <= j < index ==> vessels[j].vessel_id != vessel_id
}

pub open spec fn has_vessel(vessels: Seq<VesselState>, vessel_id: u64) -> bool {
    exists|i: int| 0 <= i < vessels.len() && #[trigger] vessels[i].vessel_id == vessel_id
}

/// The position of the first vessel with the given identity.
pub open spec fn first_vessel(vessels: Seq<VesselState>, vessel_id: u64) -> int {
    choose|i: int| is_first_vessel(vessels, vessel_id, i)
}

/// A vessel that is present has exactly one first position.
pub proof fn lemma_first_vessel(vessels: Seq<VesselState>, vessel_id: u64, index: int)
    requires
        is_first_vessel(vessels, vessel_id, index),
    ensures
        first_vessel(vessels, vessel_id) == index,
        has_vessel(vessels, vessel_id),
{
    let f = first_vessel(vessels, vessel_id);
    assert(is_first_vessel(vessels, vessel_id, f));
    if f < index {
        assert(vessels[f].vessel_id != vessel_id);
    } else if f > index {
        assert(vessels[index].vessel_id != vessel_id);
    }
}

/// A vessel that is present has a first position.
pub proof fn lemma_has_first_vessel(vessels: Seq<VesselState>, vessel_id: u64)
    requires
        has_vessel(vessels, vessel_id),
    ensures
        is_first_vessel(vessels, vessel_id, first_vessel(vessels, vessel_id)),
    decreases vessels.len(),
{
    let i = choose|i: int| 0 <= i < vessels.len() && #[trigger] vessels[i].vessel_id == vessel_id;
    if vessels[0].vessel_id == vessel_id {
        lemma_first_vessel(vessels, vessel_id, 0);
    } else {
        let rest = vessels.drop_first();
        assert(rest[i - 1].vessel_id == vessel_id);
        lemma_has_first_vessel(rest, vessel_id);
        let k = first_vessel(rest, vessel_id);
        assert forall|j: int| 0 <= j < k + 1 implies vessels[j].vessel_id != vessel_id by {
            if j > 0 {
                assert(vessels[j] == rest[j - 1]);
            }
        }
        lemma_first_vessel(vessels, vessel_id, k + 1);
    }
}

pub fn vessel_position(vessels: &Vec<VesselState>, vessel_id: u64) -> (r: Option<usize>)
    ensures
        match r {
            Some(i) => is_first_vessel(vessels@, vessel_id, i as int),
            None => !has_vessel(vessels@, vessel_id),
        },
{
    let mut i: usize = 0;
    while i < vessels.len()
        invariant
            i <= vessels@.len(),
            forall|j: int| 0 <= j < i ==> vessels@[j].vessel_id != vessel_id,
        decreases vessels@.len() - i,
    {
        if vessels[i].vessel_id == vessel_id {
            return Some(i);
        }
        i = i + 1;
    }
    None
}

// ---------------------------------------------------------------------------
// Orders.

pub open spec fn zero_dms(count: nat) -> Seq<i8> {
    Seq::new(count, |i: int| 0i8)
}

/// The order for `vessel_id` at `view_revision` with these actions and
/// reactions, each with no task modifier.
pub open spec fn order_is(
    order: JointOrder,
    vessel_id: u64,
    view_revision: u64,
    actions: Seq<CrewAction>,
    reactions: Seq<ReactionKind>,
    automated: bool,
) -> bool {
    &&& order.vessel_id == vessel_id
    &&& order.view_revision == view_revision
    &&& order.actions@ == actions
    &&& order.action_dms@ == zero_dms(actions.len())
    &&& order.reactions@ == reactions
    &&& order.reaction_dms@ == zero_dms(reactions.len())
    &&& order.automated == automated
}

/// Crew actions of the safe order: coordinate and evade, then repair a
/// vessel that is about to break up or else try to open the range.
pub open spec fn conservative_actions(vessel: VesselState) -> Seq<CrewAction> {
    if vessel.hull_remaining <= 1 || vessel.structure_remaining <= 1 {
        seq![CrewAction::Coordinate, CrewAction::EvasiveManeuvers, CrewAction::DamageControl]
    } else {
        seq![
            CrewAction::Coordinate,
            CrewAction::EvasiveManeuvers,
            CrewAction::RangeCheckOpen,
            CrewAction::BreakPursuit,
        ]
    }
}

pub open spec fn defensive_reactions() -> Seq<ReactionKind> {
    seq![
        ReactionKind::PointDefense,
        ReactionKind::FireSand,
        ReactionKind::TriggerNuclearDamper,
        ReactionKind::TriggerMesonScreen,
        ReactionKind::Dodge,
    ]
}

fn defensive_reaction_list() -> (r: Vec<ReactionKind>)
    ensures
        r@ == defensive_reactions(),
{
    let r = vec![
        ReactionKind::PointDefense,
        ReactionKind::FireSand,
        ReactionKind::TriggerNuclearDamper,
        ReactionKind::TriggerMesonScreen,
        ReactionKind::Dodge,
    ];
    assert(r@ =~= defensive_reactions());
    r
}

fn zero_list(count: usize) -> (r: Vec<i8>)
    ensures
        r@ == zero_dms(count as nat),
{
    let r = vec![0i8; count];
    assert(r@ =~= zero_dms(count as nat));
    r
}

pub fn not_a_participant() -> (r: String)
    ensures
        r@ == "vessel is not a participant"@,
{
    String::from_str("vessel is not a participant")
}

/// Produces a safe, complete order that spends no ordnance and makes no
/// irreversible choice.
pub fn conservative_order(state: &CombatState, vessel_id: u64) -> (r: Result<JointOrder, String>)
    ensures
        match r {
            Ok(order) => has_vessel(state.vessels@, vessel_id) && order_is(
                order,
                vessel_id,
                state.revision,
                conservative_actions(state.vessels@[first_vessel(state.vessels@, vessel_id)]),
                defensive_reactions(),
                false,
            ),
            Err(e) => !has_vessel(state.vessels@, vessel_id) && e@
                == "vessel is not a participant"@,
        },
{
    let position = vessel_position(&state.vessels, vessel_id);
    let index = match position {
        Some(i) => i,
        None => {
            return Err(not_a_participant());
        },
    };
    proof {
        lemma_first_vessel(state.vessels@, vessel_id, index as int);
    }
    let vessel = &state.vessels[index];
    let mut actions = vec![CrewAction::Coordinate, CrewAction::EvasiveManeuvers];
    if vessel.hull_remaining <= 1 || vessel.structure_remaining <= 1 {
        actions.push(CrewAction::DamageControl);
    } else {
        actions.push(CrewAction::RangeCheckOpen);
        actions.push(CrewAction::BreakPursuit);
    }
    assert(actions@ =~= conservative_actions(*vessel));
    let action_dms = zero_list(actions.len());
    Ok(
        JointOrder {
            vessel_id,
            view_revision: state.revision,
            actions,
            action_dms,
            reactions: defensive_reaction_list(),
            reaction_dms: zero_list(5),
            automated: false,
        },
    )
}

/// The attack actions of an order: optionally the supporting crew actions,
/// then one attack on the target with every mount of the vessel.
pub open spec fn attack_actions(vessel: VesselState, target_id: u64, supported: bool) -> Seq<
    CrewAction,
> {
    let support = if supported {
        seq![CrewAction::Coordinate, CrewAction::LineUpShot, CrewAction::SensorTargeting]
    } else {
        seq![]
    };
    support + Seq::new(
        vessel.weapons@.len(),
        |i: int| CrewAction::Attack { mount_id: vessel.weapons@[i].mount_id, target_id },
    )
}

pub fn attack_order(state: &CombatState, vessel_id: u64, target_id: u64, supported: bool) -> (r:
    Result<JointOrder, String>)
    ensures
        match r {
            Ok(order) => has_vessel(state.vessels@, vessel_id) && order_is(
                order,
                vessel_id,
                state.revision,
                attack_actions(
                    state.vessels@[first_vessel(state.vessels@, vessel_id)],
                    target_id,
                    supported,
                ),
                defensive_reactions(),
                true,
            ),
            Err(e) => !has_vessel(state.vessels@, vessel_id) && e@
                == "vessel is not a participant"@,
        },
{
    let position = vessel_position(&state.vessels, vessel_id);
    let index = match position {
        Some(i) => i,
        None => {
            return Err(not_a_participant());
        },
    };
    proof {
        lemma_first_vessel(state.vessels@, vessel_id, index as int);
    }
    let vessel = &state.vessels[index];
    let mut actions: Vec<CrewAction> = if supported {
        vec![CrewAction::Coordinate, CrewAction::LineUpShot, CrewAction::SensorTargeting]
    } else {
        Vec::new()
    };
    let ghost support = actions@;
    let mut k: usize = 0;
    while k < vessel.weapons.len()
        invariant
            k <= vessel.weapons@.len(),
            actions@ == support + Seq::new(
                k as nat,
                |i: int| CrewAction::Attack { mount_id: vessel.weapons@[i].mount_id, target_id },
            ),
        decreases vessel.weapons@.len() - k,
    {
        actions.push(CrewAction::Attack { mount_id: vessel.weapons[k].mount_id, target_id });
        k = k + 1;
        assert(actions@ =~= support + Seq::new(
            k as nat,
            |i: int| CrewAction::Attack { mount_id: vessel.weapons@[i].mount_id, target_id },
        ));
    }
    assert(actions@ =~= attack_actions(*vessel, target_id, supported));
    let action_dms = zero_list(actions.len());
    Ok(
        JointOrder {
            vessel_id,
            view_revision: state.revision,
            actions,
            action_dms,
            reactions: defensive_reaction_list(),
            reaction_dms: zero_list(5),
            automated: true,
        },
    )
}

pub fn capture_order(state: &CombatState, vessel_id: u64, target_id: u64) -> (r: Result<
    JointOrder,
    String,
>)
    ensures
        match r {
            Ok(order) => has_vessel(state.vessels@, vessel_id) && order_is(
                order,
                vessel_id,
                state.revision,
                seq![CrewAction::Coordinate, CrewAction::Board { target_id }],
                defensive_reactions(),
                true,
            ),
            Err(e) => !has_vessel(state.vessels@, vessel_id) && e@
                == "vessel is not a participant"@,
        },
{
    let defensive = match conservative_order(state, vessel_id) {
        Ok(order) => order,
        Err(e) => {
            return Err(e);
        },
    };
    let actions = vec![CrewAction::Coordinate, CrewAction::Board { target_id }];
    assert(actions@ =~= seq![CrewAction::Coordinate, CrewAction::Board { target_id }]);
    Ok(
        JointOrder {
            vessel_id,
            view_revision: state.revision,
            actions,
            action_dms: zero_list(2),
            reactions: defensive.reactions,
            reaction_dms: defensive.reaction_dms,
            automated: true,
        },
    )
}

// ---------------------------------------------------------------------------
// Objectives.

pub open spec fn survives(disposition: VesselDisposition) -> bool {
    !(disposition == VesselDisposition::Destroyed || disposition == VesselDisposition::Captured
        || disposition == VesselDisposition::Surrendered || disposition
        == VesselDisposition::Abandoned)
}

pub open spec fn has_active_enemy(vessels: Seq<VesselState>, side: u16) -> bool {
    exists|i: int|
        0 <= i < vessels.len() && #[trigger] vessels[i].side != side && vessels[i].disposition
            == VesselDisposition::Active
}

pub open spec fn has_taken_enemy(vessels: Seq<VesselState>, side: u16) -> bool {
    exists|i: int|
        0 <= i < vessels.len() && #[trigger] vessels[i].side != side && (vessels[i].disposition
            == VesselDisposition::Captured || vessels[i].disposition
            == VesselDisposition::Surrendered)
}

/// Whether the vessel has met the objective in the given state.
pub open spec fn objective_met(
    vessels: Seq<VesselState>,
    vessel_id: u64,
    player_side: u16,
    objective: Objective,
) -> bool {
    if !has_vessel(vessels, vessel_id) {
        false
    } else {
        let player = vessels[first_vessel(vessels, vessel_id)];
        let alive = survives(player.disposition);
        let enemy = has_active_enemy(vessels, player_side);
        match objective {
            Objective::Survive | Objective::Protect => alive,
            Objective::Withdraw => alive && (player.disposition == VesselDisposition::Withdrawing
                || !enemy),
            Objective::Defeat | Objective::Inspect => alive && !enemy,
            Objective::Capture => alive && has_taken_enemy(vessels, player_side),
        }
    }
}

pub fn objective_satisfied(
    state: &CombatState,
    vessel_id: u64,
    player_side: u16,
    objective: Objective,
) -> (r: bool)
    ensures
        r == objective_met(state.vessels@, vessel_id, player_side, objective),
{
    let index = match vessel_position(&state.vessels, vessel_id) {
        Some(i) => i,
        None => {
            return false;
        },
    };
    proof {
        lemma_first_vessel(state.vessels@, vessel_id, index as int);
    }
    let player = &state.vessels[index];
    let alive = match player.disposition {
        VesselDisposition::Destroyed
        | VesselDisposition::Captured
        | VesselDisposition::Surrendered
        | VesselDisposition::Abandoned => false,
        _ => true,
    };
    let mut active_enemy = false;
    let mut taken_enemy = false;
    let mut i: usize = 0;
    while i < state.vessels.len()
        invariant
            i <= state.vessels@.len(),
            active_enemy == exists|j: int|
                0 <= j < i && #[trigger] state.vessels@[j].side != player_side
                    && state.vessels@[j].disposition == VesselDisposition::Active,
            taken_enemy == exists|j: int|
                0 <= j < i && #[trigger] state.vessels@[j].side != player_side && (
                state.vessels@[j].disposition == VesselDisposition::Captured
                    || state.vessels@[j].disposition == VesselDisposition::Surrendered),
        decreases state.vessels@.len() - i,
    {
        let v = &state.vessels[i];
        if v.side != player_side {
            if v.disposition == VesselDisposition::Active {
                active_enemy = true;
            }
            if v.disposition == VesselDisposition::Captured || v.disposition
                == VesselDisposition::Surrendered {
                taken_enemy = true;
            }
        }
        i = i + 1;
    }
    match objective {
        Objective::Survive | Objective::Protect => alive,
        Objective::Withdraw => alive && (player.disposition == VesselDisposition::Withdrawing
            || !active_enemy),
        Objective::Defeat | Objective::Inspect => alive && !active_enemy,
        Objective::Capture => alive && taken_enemy,
    }
}

} // verus!
