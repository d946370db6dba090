//! Combat-side career, prize, and legal-domain rules.

use vstd::prelude::*;
use crate::arith::{mix64, mix64_spec, sat_add_spec, sat_mul, sat_mul_spec};
use crate::combat::VesselDisposition;
use crate::traffic::TrafficContact;
use crate::wire::Career;

verus! {

pub const CAREER_RULES_REVISION: u16 = 1;
pub const NAVAL_BOARD_DAYS: u64 = 180;
pub const NAVAL_BASE_MONTHLY_SALARY: u64 = 6_000;
pub const NAVAL_GRADE_MONTHLY_INCREMENT: u64 = 2_000;

#[derive(Clone, Copy, Debug, PartialEq, Eq, Structural)]
pub enum CombatCareerMode {
    Independent,
    Navy,
    Privateer,
    Pirate,
}

#[derive(Clone, Copy, Debug, PartialEq, Eq, Structural)]
pub enum OpportunityKind {
    NavalOrder,
    PrivateerCommission,
    PirateLead,
    PirateCommission,
}

#[derive(Clone, Copy, Debug, PartialEq, Eq, Structural)]
pub enum OpportunityState {
    Offered,
    Accepted,
    Succeeded,
    Failed,
    Expired,
    Reporting,
}

#[derive(Clone, Copy, Debug, PartialEq, Eq, Structural)]
pub enum ObjectiveKind {
    Patrol,
    Inspect,
    Escort,
    Intercept,
    Capture,
    SeizeCargo,
}

#[derive(Clone, Copy, Debug, PartialEq, Eq, Structural)]
pub enum ObjectiveEvidenceKind {
    NoEvidence,
    PatrolLog,
    InspectionRecord,
    EscortRelease,
    TargetDrivenOff,
    TargetCaptured,
    CargoSecured,
    CargoDelivered,
}

pub open spec fn evidence_text(evidence: ObjectiveEvidenceKind) -> &'static str {
    match evidence {
        ObjectiveEvidenceKind::NoEvidence => "no operational evidence",
        ObjectiveEvidenceKind::PatrolLog => "the certified patrol log",
        ObjectiveEvidenceKind::InspectionRecord => "the signed inspection record",
        ObjectiveEvidenceKind::EscortRelease => "the escorted vessel's release receipt",
        ObjectiveEvidenceKind::TargetDrivenOff => "the contact and engagement log",
        ObjectiveEvidenceKind::TargetCaptured => "the target's capture papers",
        ObjectiveEvidenceKind::CargoSecured => "the seized cargo inventory",
        ObjectiveEvidenceKind::CargoDelivered => "the cargo delivery receipt",
    }
}

pub fn objective_evidence_description(evidence: ObjectiveEvidenceKind) -> (r: &'static str)
    ensures
        r == evidence_text(evidence),
{
    match evidence {
        ObjectiveEvidenceKind::NoEvidence => "no operational evidence",
        ObjectiveEvidenceKind::PatrolLog => "the certified patrol log",
        ObjectiveEvidenceKind::InspectionRecord => "the signed inspection record",
        ObjectiveEvidenceKind::EscortRelease => "the escorted vessel's release receipt",
        ObjectiveEvidenceKind::TargetDrivenOff => "the contact and engagement log",
        ObjectiveEvidenceKind::TargetCaptured => "the target's capture papers",
        ObjectiveEvidenceKind::CargoSecured => "the seized cargo inventory",
        ObjectiveEvidenceKind::CargoDelivered => "the cargo delivery receipt",
    }
}

#[derive(Clone, Debug)]
pub struct CareerOpportunity {
    pub opportunity_id: u64,
    pub kind: OpportunityKind,
    pub state: OpportunityState,
    pub issued_system_id: u64,
    pub target_system_id: u64,
    pub target_contact_id: u64,
    pub issued_second: u64,
    pub expires_second: u64,
    pub reward_credits: u64,
    pub service_points: u16,
    pub authority: String,
    pub objective: String,
    pub objective_kind: ObjectiveKind,
    pub evidence_kind: ObjectiveEvidenceKind,
    pub evidence_second: u64,
    pub evidence_vessel_id: u64,
    pub order_message_id: u64,
    pub report_message_id: u64,
}

#[derive(Clone, Copy, Debug, PartialEq, Eq, Structural)]
pub enum PrizeStatus {
    Secured,
    ClaimInTransit,
    AwaitingAdjudication,
    Adjudicated,
    ReadyToFence,
    Settled,
    Seized,
}

#[derive(Clone, Debug)]
pub struct PrizeRecord {
    pub prize_id: u64,
    pub captured_vessel_id: u64,
    /// Surviving people physically held with the captured vessel until the
    /// court, fence, or registry settlement transfers their custody.
    pub captured_person_ids: Vec<u64>,
    pub catalog_id: u32,
    pub name: String,
    pub gross_value_credits: u64,
    pub realizable_value_credits: u64,
    pub condition_percent: u8,
    pub status: PrizeStatus,
    pub secured_second: u64,
    pub claim_message_id: u64,
    pub settlement_credits: u64,
    pub advance_credits: u64,
}

#[derive(Clone, Copy, Debug, PartialEq, Eq, Structural)]
pub enum WarrantStatus {
    Filed,
    Propagating,
    Active,
    Revoked,
    Satisfied,
}

#[derive(Clone, Debug)]
pub struct WarrantRecord {
    pub warrant_id: u64,
    pub issuing_polity_id: u64,
    pub origin_system_id: u64,
    pub filed_second: u64,
    pub message_id: u64,
    pub severity: u8,
    pub bounty_credits: u64,
    pub evidence_percent: u8,
    pub status: WarrantStatus,
    pub accusation: String,
    /// The court action is authoritative at this system immediately, but
    /// other systems continue to enforce the warrant until this message
    /// physically reaches them.
    pub resolution_message_id: u64,
    pub resolved_second: u64,
    pub resolving_system_id: u64,
}

/// Local authorities act on a warrant that has reached them, unless a court
/// resolution of it has reached them too.
pub open spec fn enforceable_spec(
    status: WarrantStatus,
    resolution_message_id: u64,
    warrant_received: bool,
    resolution_received: bool,
) -> bool {
    warrant_received && (status == WarrantStatus::Filed || status == WarrantStatus::Propagating
        || status == WarrantStatus::Active || resolution_message_id == 0 || !resolution_received)
}

/// Whether local authorities may act on a warrant using only the instruments
/// that have actually reached their system.
pub fn warrant_is_enforceable(
    warrant: &WarrantRecord,
    warrant_received: bool,
    resolution_received: bool,
) -> (r: bool)
    ensures
        r == enforceable_spec(
            warrant.status,
            warrant.resolution_message_id,
            warrant_received,
            resolution_received,
        ),
{
    if !warrant_received {
        return false;
    }
    if warrant.status == WarrantStatus::Filed || warrant.status == WarrantStatus::Propagating
        || warrant.status == WarrantStatus::Active {
        return true;
    }
    warrant.resolution_message_id == 0 || !resolution_received
}

#[derive(Clone, Debug)]
pub struct PirateCruise {
    pub revision: u64,
    pub active: bool,
    pub hunting_system_id: u64,
    pub ends_second: u64,
    pub crew_share_percent: u8,
    pub ship_fund_percent: u8,
    pub prohibited_targets: String,
}

impl PirateCruise {
    pub fn default_cruise() -> (r: Self)
        ensures
            r.revision == 1,
            !r.active,
            r.hunting_system_id == 0,
            r.ends_second == 0,
            r.crew_share_percent == 50,
            r.ship_fund_percent == 20,
            r.prohibited_targets@ == "hospital, rescue, and surrendering vessels"@,
    {
        Self {
            revision: 1,
            active: false,
            hunting_system_id: 0,
            ends_second: 0,
            crew_share_percent: 50,
            ship_fund_percent: 20,
            prohibited_targets: "hospital, rescue, and surrendering vessels".to_owned(),
        }
    }
}

impl Default for PirateCruise {
    fn default() -> (r: Self)
        ensures
            r.revision == 1,
            !r.active,
            r.crew_share_percent == 50,
            r.ship_fund_percent == 20,
    {
        Self::default_cruise()
    }
}

#[derive(Clone, Debug)]
pub struct CareerState {
    pub revision: u64,
    pub mode: CombatCareerMode,
    pub service_points: u16,
    /// Promotions are awarded only at a scheduled naval board.  Service
    /// points may make a captain eligible, but do not silently confer rank.
    pub naval_grade_index: u8,
    pub next_naval_board_second: u64,
    pub next_salary_second: u64,
    pub public_heat: u32,
    pub underworld_standing: i16,
    pub crew_pressure: u16,
    pub opportunities: Vec<CareerOpportunity>,
    pub prizes: Vec<PrizeRecord>,
    pub warrants: Vec<WarrantRecord>,
    pub cruise: PirateCruise,
}

pub open spec fn career_mode(career: Career) -> CombatCareerMode {
    match career {
        Career::Navy => CombatCareerMode::Navy,
        Career::Privateer => CombatCareerMode::Privateer,
        Career::Trader => CombatCareerMode::Independent,
    }
}

impl CareerState {
    pub fn for_starting_career(career: Career, current_second: u64, seconds_per_day: u64) -> (r: Self)
        ensures
            r.revision == 1,
            r.mode == career_mode(career),
            r.service_points == 0,
            r.naval_grade_index == 0,
            r.next_naval_board_second == sat_add_spec(
                current_second,
                sat_mul_spec(180, seconds_per_day),
            ),
            r.next_salary_second == sat_add_spec(current_second, sat_mul_spec(30, seconds_per_day)),
            r.public_heat == 0,
            r.underworld_standing == 0,
            r.crew_pressure == 0,
            r.opportunities@.len() == 0,
            r.prizes@.len() == 0,
            r.warrants@.len() == 0,
            r.cruise.revision == 1,
            !r.cruise.active,
            r.cruise.crew_share_percent == 50,
            r.cruise.ship_fund_percent == 20,
    {
        let mode = match career {
            Career::Navy => CombatCareerMode::Navy,
            Career::Privateer => CombatCareerMode::Privateer,
            Career::Trader => CombatCareerMode::Independent,
        };
        Self {
            revision: 1,
            mode,
            service_points: 0,
            naval_grade_index: 0,
            next_naval_board_second: current_second.saturating_add(
                sat_mul(NAVAL_BOARD_DAYS, seconds_per_day),
            ),
            next_salary_second: current_second.saturating_add(sat_mul(30, seconds_per_day)),
            public_heat: 0,
            underworld_standing: 0,
            crew_pressure: 0,
            opportunities: Vec::new(),
            prizes: Vec::new(),
            warrants: Vec::new(),
            cruise: PirateCruise::default_cruise(),
        }
    }
}

#[derive(Clone, Copy, Debug, PartialEq, Eq)]
pub struct NavalGrade {
    pub index: u8,
    pub name: &'static str,
    pub minimum_points: u16,
    pub maximum_command_tons: Option<u32>,
}

/// The naval grade ladder, lowest first.
pub open spec fn naval_grades_spec() -> Seq<NavalGrade> {
    seq![
        NavalGrade {
            index: 0,
            name: "Lieutenant",
            minimum_points: 0,
            maximum_command_tons: Some(400),
        },
        NavalGrade {
            index: 1,
            name: "Lieutenant Commander",
            minimum_points: 10,
            maximum_command_tons: Some(1_000),
        },
        NavalGrade {
            index: 2,
            name: "Commander",
            minimum_points: 25,
            maximum_command_tons: Some(3_000),
        },
        NavalGrade {
            index: 3,
            name: "Captain",
            minimum_points: 45,
            maximum_command_tons: None,
        },
        NavalGrade {
            index: 4,
            name: "Commodore",
            minimum_points: 70,
            maximum_command_tons: None,
        },
    ]
}

pub fn naval_grades() -> (r: [NavalGrade; 5])
    ensures
        r@ == naval_grades_spec(),
{
    let r = [
        NavalGrade {
            index: 0,
            name: "Lieutenant",
            minimum_points: 0,
            maximum_command_tons: Some(400),
        },
        NavalGrade {
            index: 1,
            name: "Lieutenant Commander",
            minimum_points: 10,
            maximum_command_tons: Some(1_000),
        },
        NavalGrade {
            index: 2,
            name: "Commander",
            minimum_points: 25,
            maximum_command_tons: Some(3_000),
        },
        NavalGrade {
            index: 3,
            name: "Captain",
            minimum_points: 45,
            maximum_command_tons: None,
        },
        NavalGrade {
            index: 4,
            name: "Commodore",
            minimum_points: 70,
            maximum_command_tons: None,
        },
    ];
    assert(r@ =~= naval_grades_spec());
    r
}

/// The index of the highest grade whose threshold `points` reaches.
pub open spec fn grade_index_for_points(points: u16) -> int {
    if points >= 70 {
        4
    } else if points >= 45 {
        3
    } else if points >= 25 {
        2
    } else if points >= 10 {
        1
    } else {
        0
    }
}

pub fn naval_grade(points: u16) -> (r: NavalGrade)
    ensures
        r == naval_grades_spec()[grade_index_for_points(points)],
        r.minimum_points <= points,
        forall|i: int| 0 <= i < 5 && naval_grades_spec()[i].minimum_points <= points ==> naval_grades_spec()[i].index <= r.index,
{
    let grades = naval_grades();
    let mut i: usize = 5;
    while i > 0
        invariant
            i <= 5,
            grades@ == naval_grades_spec(),
            forall|j: int| i <= j < 5 ==> grades@[j].minimum_points > points,
        decreases i,
    {
        if points >= grades[i - 1].minimum_points {
            return grades[i - 1];
        }
        i = i - 1;
    }
    grades[0]
}

pub fn naval_grade_by_index(index: u8) -> (r: NavalGrade)
    ensures
        index < 5 ==> r == naval_grades_spec()[index as int],
        index >= 5 ==> r == naval_grades_spec()[0],
{
    let grades = naval_grades();
    if (index as usize) < 5 {
        grades[index as usize]
    } else {
        grades[0]
    }
}

pub fn eligible_naval_grade_index(points: u16) -> (r: u8)
    ensures
        r == grade_index_for_points(points),
{
    naval_grade(points).index
}

pub fn naval_monthly_salary(points: u16) -> (r: u64)
    ensures
        r == 6_000 + grade_index_for_points(points) * 2_000,
{
    NAVAL_BASE_MONTHLY_SALARY + naval_grade(points).index as u64 * NAVAL_GRADE_MONTHLY_INCREMENT
}

pub fn naval_salary_for_grade(index: u8) -> (r: u64)
    ensures
        r == 6_000 + (if index < 5 {
            index as int
        } else {
            0
        }) * 2_000,
{
    NAVAL_BASE_MONTHLY_SALARY + naval_grade_by_index(index).index as u64
        * NAVAL_GRADE_MONTHLY_INCREMENT
}

pub open spec fn directive_points_spec(difficulty: u8) -> u16 {
    if difficulty <= 2 {
        1
    } else if difficulty <= 5 {
        3
    } else if difficulty <= 8 {
        6
    } else {
        10
    }
}

/// Harder directives are worth at least as many service points: 1 up to
/// difficulty 2, 3 up to 5, 6 up to 8, and 10 from 9.
pub proof fn lemma_directive_points_rise_with_difficulty(a: u8, b: u8)
    ensures
        a <= b ==> directive_points_spec(a) <= directive_points_spec(b),
        a <= 2 ==> directive_points_spec(a) == 1,
        3 <= a <= 5 ==> directive_points_spec(a) == 3,
        6 <= a <= 8 ==> directive_points_spec(a) == 6,
        a >= 9 ==> directive_points_spec(a) == 10,
{
}

pub fn directive_service_points(difficulty: u8) -> (r: u16)
    ensures
        r == directive_points_spec(difficulty),
{
    if difficulty <= 2 {
        1
    } else if difficulty <= 5 {
        3
    } else if difficulty <= 8 {
        6
    } else {
        10
    }
}

/// The kind, authority, objective, base reward, and service points of an
/// offer, or none for an independent captain.
pub open spec fn offer_terms_spec(mode: CombatCareerMode, entropy: u64) -> Option<
    (OpportunityKind, &'static str, ObjectiveKind, u64, u16),
> {
    match mode {
        CombatCareerMode::Navy => Some(
            (
                OpportunityKind::NavalOrder,
                "Admiralty traffic office",
                naval_objective(entropy % 5),
                0,
                directive_points_spec((entropy % 10) as u8),
            ),
        ),
        CombatCareerMode::Privateer => Some(
            (
                OpportunityKind::PrivateerCommission,
                "the issuing prize office",
                if entropy % 2 == 0 {
                    ObjectiveKind::Capture
                } else {
                    ObjectiveKind::SeizeCargo
                },
                10_000,
                0,
            ),
        ),
        CombatCareerMode::Pirate => if entropy % 3 == 0 {
            Some(
                (
                    OpportunityKind::PirateCommission,
                    "an unnamed patron",
                    if entropy % 2 == 0 {
                        ObjectiveKind::Capture
                    } else {
                        ObjectiveKind::SeizeCargo
                    },
                    25_000,
                    0,
                ),
            )
        } else {
            Some(
                (
                    OpportunityKind::PirateLead,
                    "a port-side informant",
                    ObjectiveKind::Intercept,
                    0,
                    0,
                ),
            )
        },
        CombatCareerMode::Independent => None,
    }
}

pub open spec fn naval_objective(selector: u64) -> ObjectiveKind {
    if selector == 0 {
        ObjectiveKind::Patrol
    } else if selector == 1 {
        ObjectiveKind::Inspect
    } else if selector == 2 {
        ObjectiveKind::Escort
    } else if selector == 3 {
        ObjectiveKind::Intercept
    } else {
        ObjectiveKind::Capture
    }
}

pub open spec fn objective_text(kind: ObjectiveKind) -> &'static str {
    match kind {
        ObjectiveKind::Patrol => "challenge the named contact and file the patrol log",
        ObjectiveKind::Inspect => "obtain and retain a sensor inspection of the named contact",
        ObjectiveKind::Escort => "escort the protected vessel through the named traffic locus",
        ObjectiveKind::Intercept => "intercept and drive off the named contact",
        ObjectiveKind::Capture => "capture the named vessel and retain physical custody",
        ObjectiveKind::SeizeCargo => "capture the named vessel and deliver its seized cargo to the issuing authority",
    }
}

fn objective_for(kind: ObjectiveKind) -> (r: &'static str)
    ensures
        r == objective_text(kind),
{
    match kind {
        ObjectiveKind::Patrol => "challenge the named contact and file the patrol log",
        ObjectiveKind::Inspect => "obtain and retain a sensor inspection of the named contact",
        ObjectiveKind::Escort => "escort the protected vessel through the named traffic locus",
        ObjectiveKind::Intercept => "intercept and drive off the named contact",
        ObjectiveKind::Capture => "capture the named vessel and retain physical custody",
        ObjectiveKind::SeizeCargo => "capture the named vessel and deliver its seized cargo to the issuing authority",
    }
}

/// Offers reference an already projected traffic contact. They never create a
/// victim. If the contact has moved before interception, the offer is stale.
pub fn opportunity_for_contact(
    mode: CombatCareerMode,
    system_id: u64,
    current_second: u64,
    seconds_per_day: u64,
    contact: &TrafficContact,
    entropy: u64,
) -> (r: Option<CareerOpportunity>)
    ensures
        offer_terms_spec(mode, entropy) is None <==> r is None,
        r matches Some(o) ==> ({
            let (kind, authority, objective_kind, base_reward, points) = offer_terms_spec(
                mode,
                entropy,
            )->Some_0;
            &&& o.opportunity_id == mix64_spec(contact.contact_id ^ entropy ^ current_second)
            &&& o.kind == kind
            &&& o.state == OpportunityState::Offered
            &&& o.issued_system_id == system_id
            &&& o.target_system_id == system_id
            &&& o.target_contact_id == contact.contact_id
            &&& o.issued_second == current_second
            &&& o.expires_second == sat_add_spec(
                contact.edge_second,
                sat_mul_spec(2, seconds_per_day),
            )
            &&& o.reward_credits == sat_add_spec(base_reward, contact.displacement_millitons / 20)
            &&& o.service_points == points
            &&& o.authority@ == authority@
            &&& o.objective@ == objective_text(objective_kind)@
            &&& o.objective_kind == objective_kind
            &&& o.evidence_kind == ObjectiveEvidenceKind::NoEvidence
            &&& o.evidence_second == 0
            &&& o.evidence_vessel_id == 0
            &&& o.order_message_id == 0
            &&& o.report_message_id == 0
        }),
{
    let (kind, authority, objective_kind, base_reward, points): (
        OpportunityKind,
        &'static str,
        ObjectiveKind,
        u64,
        u16,
    ) = match mode {
        CombatCareerMode::Navy => {
            let selector = entropy % 5;
            let objective = if selector == 0 {
                ObjectiveKind::Patrol
            } else if selector == 1 {
                ObjectiveKind::Inspect
            } else if selector == 2 {
                ObjectiveKind::Escort
            } else if selector == 3 {
                ObjectiveKind::Intercept
            } else {
                ObjectiveKind::Capture
            };
            (
                OpportunityKind::NavalOrder,
                "Admiralty traffic office",
                objective,
                0,
                directive_service_points((entropy % 10) as u8),
            )
        },
        CombatCareerMode::Privateer => (
            OpportunityKind::PrivateerCommission,
            "the issuing prize office",
            if entropy % 2 == 0 {
                ObjectiveKind::Capture
            } else {
                ObjectiveKind::SeizeCargo
            },
            10_000,
            0,
        ),
        CombatCareerMode::Pirate => {
            if entropy % 3 == 0 {
                (
                    OpportunityKind::PirateCommission,
                    "an unnamed patron",
                    if entropy % 2 == 0 {
                        ObjectiveKind::Capture
                    } else {
                        ObjectiveKind::SeizeCargo
                    },
                    25_000,
                    0,
                )
            } else {
                (
                    OpportunityKind::PirateLead,
                    "a port-side informant",
                    ObjectiveKind::Intercept,
                    0,
                    0,
                )
            }
        },
        CombatCareerMode::Independent => return None,
    };
    let objective = objective_for(objective_kind);
    Some(
        CareerOpportunity {
            opportunity_id: mix64(contact.contact_id ^ entropy ^ current_second),
            kind,
            state: OpportunityState::Offered,
            issued_system_id: system_id,
            target_system_id: system_id,
            target_contact_id: contact.contact_id,
            issued_second: current_second,
            expires_second: contact.edge_second.saturating_add(sat_mul(2, seconds_per_day)),
            reward_credits: base_reward.saturating_add(contact.displacement_millitons / 20),
            service_points: points,
            authority: authority.to_owned(),
            objective: objective.to_owned(),
            objective_kind,
            evidence_kind: ObjectiveEvidenceKind::NoEvidence,
            evidence_second: 0,
            evidence_vessel_id: 0,
            order_message_id: 0,
            report_message_id: 0,
        },
    )
}

#[derive(Clone, Copy, Debug, PartialEq, Eq)]
pub struct PrizeTerms {
    pub realizable_value_credits: u64,
    pub settlement_credits: u64,
    pub maximum_advance_credits: u64,
    pub percent: u8,
}

/// The court's share of a prize, by career.
pub open spec fn prize_percent_spec(mode: CombatCareerMode, law_level: u8, entropy: u64) -> u8 {
    match mode {
        CombatCareerMode::Privateer => if entropy % 3 == 0 {
            10
        } else if entropy % 3 == 1 {
            20
        } else {
            30
        },
        CombatCareerMode::Navy => if entropy % 3 == 0 {
            5
        } else if entropy % 3 == 1 {
            10
        } else {
            15
        },
        CombatCareerMode::Pirate => {
            let bonus: u64 = if law_level >= 15 {
                0
            } else {
                (15 - law_level) as u64
            };
            (10 + (entropy + bonus) % 21) as u8
        },
        CombatCareerMode::Independent => 0,
    }
}

pub fn prize_terms(
    mode: CombatCareerMode,
    gross: u64,
    condition_percent: u8,
    law_level: u8,
    entropy: u64,
) -> (r: PrizeTerms)
    requires
        mode == CombatCareerMode::Pirate ==> entropy + (if law_level >= 15 {
            0
        } else {
            15 - law_level
        }) <= u64::MAX,
    ensures
        ({
            let condition: u64 = if condition_percent <= 100 {
                condition_percent as u64
            } else {
                100
            };
            let realizable = sat_mul_spec(gross, condition) / 100;
            let percent = prize_percent_spec(mode, law_level, entropy);
            let settlement = sat_mul_spec(realizable as u64, percent as u64) / 100;
            &&& r.realizable_value_credits == realizable
            &&& r.percent == percent
            &&& r.settlement_credits == settlement
            &&& r.maximum_advance_credits == settlement / 2
        }),
        mode == CombatCareerMode::Privateer ==> 10 <= r.percent <= 30,
        mode == CombatCareerMode::Pirate ==> 10 <= r.percent <= 30,
        mode == CombatCareerMode::Navy ==> 5 <= r.percent <= 15,
{
    let condition: u64 = if condition_percent <= 100 {
        condition_percent as u64
    } else {
        100
    };
    let realizable = sat_mul(gross, condition) / 100;
    let percent: u8 = match mode {
        CombatCareerMode::Privateer => {
            let pick = entropy % 3;
            if pick == 0 {
                10
            } else if pick == 1 {
                20
            } else {
                30
            }
        },
        CombatCareerMode::Navy => {
            let pick = entropy % 3;
            if pick == 0 {
                5
            } else if pick == 1 {
                10
            } else {
                15
            }
        },
        CombatCareerMode::Pirate => {
            let bonus: u64 = if law_level >= 15 {
                0
            } else {
                (15 - law_level) as u64
            };
            (10 + (entropy + bonus) % 21) as u8
        },
        CombatCareerMode::Independent => 0,
    };
    let settlement = sat_mul(realizable, percent as u64) / 100;
    PrizeTerms {
        realizable_value_credits: realizable,
        settlement_credits: settlement,
        maximum_advance_credits: settlement / 2,
        percent,
    }
}

pub open spec fn captured(d: VesselDisposition) -> bool {
    d == VesselDisposition::Captured || d == VesselDisposition::Surrendered
}

/// The evidence a combat outcome gives for an objective, if any.
pub open spec fn combat_evidence_spec(
    objective: ObjectiveKind,
    command_lost: bool,
    target: Option<VesselDisposition>,
    inspection_recorded: bool,
) -> Option<ObjectiveEvidenceKind> {
    match objective {
        ObjectiveKind::Patrol => if !command_lost {
            Some(ObjectiveEvidenceKind::PatrolLog)
        } else {
            None
        },
        ObjectiveKind::Inspect => if inspection_recorded {
            Some(ObjectiveEvidenceKind::InspectionRecord)
        } else {
            None
        },
        ObjectiveKind::Intercept => if target matches Some(d) && d != VesselDisposition::Active {
            Some(ObjectiveEvidenceKind::TargetDrivenOff)
        } else {
            None
        },
        ObjectiveKind::Capture => if target matches Some(d) && captured(d) {
            Some(ObjectiveEvidenceKind::TargetCaptured)
        } else {
            None
        },
        ObjectiveKind::SeizeCargo => if target matches Some(d) && captured(d) {
            Some(ObjectiveEvidenceKind::CargoSecured)
        } else {
            None
        },
        ObjectiveKind::Escort => None,
    }
}

pub fn combat_objective_evidence(
    objective: ObjectiveKind,
    command_lost: bool,
    target: Option<VesselDisposition>,
    inspection_recorded: bool,
) -> (r: Option<ObjectiveEvidenceKind>)
    ensures
        r == combat_evidence_spec(objective, command_lost, target, inspection_recorded),
{
    let is_captured = match target {
        Some(d) => d == VesselDisposition::Captured || d == VesselDisposition::Surrendered,
        None => false,
    };
    let driven_off = match target {
        Some(d) => d != VesselDisposition::Active,
        None => false,
    };
    match objective {
        ObjectiveKind::Patrol => if !command_lost {
            Some(ObjectiveEvidenceKind::PatrolLog)
        } else {
            None
        },
        ObjectiveKind::Inspect => if inspection_recorded {
            Some(ObjectiveEvidenceKind::InspectionRecord)
        } else {
            None
        },
        ObjectiveKind::Intercept => if driven_off {
            Some(ObjectiveEvidenceKind::TargetDrivenOff)
        } else {
            None
        },
        ObjectiveKind::Capture => if is_captured {
            Some(ObjectiveEvidenceKind::TargetCaptured)
        } else {
            None
        },
        ObjectiveKind::SeizeCargo => if is_captured {
            Some(ObjectiveEvidenceKind::CargoSecured)
        } else {
            None
        },
        ObjectiveKind::Escort => None,
    }
}

pub fn warrant_for_unlawful_attack(
    warrant_id: u64,
    polity_id: u64,
    system_id: u64,
    current_second: u64,
    target_value: u64,
    evidence_percent: u8,
) -> (r: WarrantRecord)
    ensures
        r.warrant_id == warrant_id,
        r.issuing_polity_id == polity_id,
        r.origin_system_id == system_id,
        r.filed_second == current_second,
        r.message_id == 0,
        r.severity == (if target_value / 10_000_000 <= 9 {
            target_value / 10_000_000
        } else {
            9
        }) + 1,
        r.bounty_credits == sat_mul_spec(target_value, evidence_percent as u64) / 1_000,
        r.evidence_percent == evidence_percent,
        r.status == WarrantStatus::Filed,
        r.accusation@ == "unlawful armed interception of registered traffic"@,
        r.resolution_message_id == 0,
        r.resolved_second == 0,
        r.resolving_system_id == 0,
{
    let tens_of_millions = target_value / 10_000_000;
    let severity = (if tens_of_millions <= 9 {
        tens_of_millions
    } else {
        9
    } + 1) as u8;
    WarrantRecord {
        warrant_id,
        issuing_polity_id: polity_id,
        origin_system_id: system_id,
        filed_second: current_second,
        message_id: 0,
        severity,
        bounty_credits: sat_mul(target_value, evidence_percent as u64) / 1_000,
        evidence_percent,
        status: WarrantStatus::Filed,
        accusation: "unlawful armed interception of registered traffic".to_owned(),
        resolution_message_id: 0,
        resolved_second: 0,
        resolving_system_id: 0,
    }
}

} // verus!
