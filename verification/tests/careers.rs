use cepheus_trader::careers::{
    combat_objective_evidence, eligible_naval_grade_index, naval_grade, naval_monthly_salary,
    naval_salary_for_grade, opportunity_for_contact, prize_terms, warrant_for_unlawful_attack,
    warrant_is_enforceable, CombatCareerMode, ObjectiveEvidenceKind, ObjectiveKind,
    OpportunityKind, WarrantStatus,
};
use cepheus_trader::combat::VesselDisposition;
use cepheus_trader::traffic::{
    TrafficAttachment, TrafficContact, TrafficContactResolution, TrafficMovementKind,
};

fn contact() -> TrafficContact {
    TrafficContact {
        contact_id: 7,
        catalog_id: 72,
        class_name: "Smollett".into(),
        ship_name: "Test".into(),
        transponder: "CT-7".into(),
        operator_name: "Test".into(),
        role: "merchant".into(),
        displacement_millitons: 400_000,
        origin_system_id: 1,
        destination_system_id: 2,
        movement: TrafficMovementKind::Departure,
        edge_second: 500,
        resolution: TrafficContactResolution::Identified,
        confidence_percent: 100,
        player_owned: false,
        online_controlled: false,
        attachment: TrafficAttachment::Spaceborne,
    }
}

#[test]
fn combat_objectives_require_their_own_typed_evidence() {
    assert_eq!(
        combat_objective_evidence(
            ObjectiveKind::Capture,
            false,
            Some(VesselDisposition::Withdrawing),
            false,
        ),
        None
    );
    assert_eq!(
        combat_objective_evidence(
            ObjectiveKind::Capture,
            false,
            Some(VesselDisposition::Captured),
            false,
        ),
        Some(ObjectiveEvidenceKind::TargetCaptured)
    );
    assert_eq!(
        combat_objective_evidence(
            ObjectiveKind::Inspect,
            false,
            Some(VesselDisposition::Destroyed),
            false,
        ),
        None
    );
    assert_eq!(
        combat_objective_evidence(
            ObjectiveKind::Inspect,
            false,
            Some(VesselDisposition::Active),
            true,
        ),
        Some(ObjectiveEvidenceKind::InspectionRecord)
    );
    assert_eq!(
        combat_objective_evidence(
            ObjectiveKind::SeizeCargo,
            false,
            Some(VesselDisposition::Surrendered),
            false,
        ),
        Some(ObjectiveEvidenceKind::CargoSecured)
    );
}

#[test]
fn a_resolution_only_stops_enforcement_after_its_mail_arrives() {
    let mut warrant = warrant_for_unlawful_attack(1, 2, 3, 4, 10_000_000, 75);
    warrant.message_id = 20;
    warrant.status = WarrantStatus::Satisfied;
    warrant.resolution_message_id = 21;

    assert!(warrant_is_enforceable(&warrant, true, false));
    assert!(!warrant_is_enforceable(&warrant, true, true));
    assert!(!warrant_is_enforceable(&warrant, false, false));
}

#[test]
fn ranks_salary_and_command_limits_follow_settled_thresholds() {
    assert_eq!(naval_grade(0).name, "Lieutenant");
    assert_eq!(naval_grade(10).maximum_command_tons, Some(1_000));
    assert_eq!(naval_grade(70).name, "Commodore");
    assert_eq!(naval_monthly_salary(70), 14_000);
    assert_eq!(eligible_naval_grade_index(45), 3);
    assert_eq!(naval_salary_for_grade(2), 10_000);
}

#[test]
fn opportunities_refer_to_existing_contacts() {
    let offered =
        opportunity_for_contact(CombatCareerMode::Pirate, 1, 100, 86_400, &contact(), 5).unwrap();
    assert_eq!(offered.target_contact_id, 7);
    assert!(matches!(
        offered.kind,
        OpportunityKind::PirateLead | OpportunityKind::PirateCommission
    ));
}

#[test]
fn prize_percentages_are_bounded_by_career() {
    let privateer = prize_terms(CombatCareerMode::Privateer, 1_000_000, 100, 10, 2);
    assert_eq!(privateer.percent, 30);
    assert_eq!(
        privateer.maximum_advance_credits,
        privateer.settlement_credits / 2
    );
    for entropy in 0..100 {
        assert!((10..=30).contains(
            &prize_terms(CombatCareerMode::Pirate, 1_000_000, 100, 5, entropy).percent
        ));
    }
}
