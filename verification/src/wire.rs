//! Value types shared with the player protocol.

use vstd::prelude::*;

verus! {

#[derive(Clone, Copy, Debug, PartialEq, Eq, Structural)]
pub enum Career {
    Trader,
    Privateer,
    Navy,
}

/// The kinds of ship subsystem that damage and repair track.
#[derive(Clone, Copy, Debug, PartialEq, Eq, Structural)]
pub enum ShipSubsystemKind {
    Hull,
    Structure,
    Armor,
    Bridge,
    Computer,
    Sensors,
    JumpDrive,
    ManeuverDrive,
    PowerPlant,
    FuelSystem,
    LifeSupport,
    CargoHold,
    WeaponMount,
    Screen,
    Hangar,
    Other,
}

/// The skills a person can rate and train.
#[derive(Clone, Copy, Debug, PartialEq, Eq, Structural, Hash)]
pub enum SkillId {
    Admin,
    Astrogation,
    Broker,
    Carouse,
    Communications,
    Computer,
    Electronics,
    EngineerJump,
    EngineerLifeSupport,
    EngineerManeuver,
    EngineerPower,
    Etiquette,
    GunCombat,
    GunnerCapital,
    GunnerScreens,
    GunnerTurrets,
    Investigate,
    JackOfAllTrades,
    Leadership,
    Mechanic,
    Medicine,
    Melee,
    Persuade,
    PilotSmallCraft,
    PilotSpacecraft,
    Recon,
    Stealth,
    TacticsMilitary,
    TacticsNaval,
    TradeCargomaster,
    VaccSuit,
}

/// Position of a skill in the skill list.
pub open spec fn skill_index(skill: SkillId) -> int {
    match skill {
        SkillId::Admin => 0,
        SkillId::Astrogation => 1,
        SkillId::Broker => 2,
        SkillId::Carouse => 3,
        SkillId::Communications => 4,
        SkillId::Computer => 5,
        SkillId::Electronics => 6,
        SkillId::EngineerJump => 7,
        SkillId::EngineerLifeSupport => 8,
        SkillId::EngineerManeuver => 9,
        SkillId::EngineerPower => 10,
        SkillId::Etiquette => 11,
        SkillId::GunCombat => 12,
        SkillId::GunnerCapital => 13,
        SkillId::GunnerScreens => 14,
        SkillId::GunnerTurrets => 15,
        SkillId::Investigate => 16,
        SkillId::JackOfAllTrades => 17,
        SkillId::Leadership => 18,
        SkillId::Mechanic => 19,
        SkillId::Medicine => 20,
        SkillId::Melee => 21,
        SkillId::Persuade => 22,
        SkillId::PilotSmallCraft => 23,
        SkillId::PilotSpacecraft => 24,
        SkillId::Recon => 25,
        SkillId::Stealth => 26,
        SkillId::TacticsMilitary => 27,
        SkillId::TacticsNaval => 28,
        SkillId::TradeCargomaster => 29,
        SkillId::VaccSuit => 30,
    }
}

pub proof fn lemma_skill_index(a: SkillId, b: SkillId)
    ensures
        0 <= skill_index(a) < 31,
        skill_index(a) == skill_index(b) ==> a == b,
{
}

pub open spec fn skill_name(skill: SkillId) -> Seq<char> {
    match skill {
        SkillId::Admin => "Admin"@,
        SkillId::Astrogation => "Astrogation"@,
        SkillId::Broker => "Broker"@,
        SkillId::Carouse => "Carouse"@,
        SkillId::Communications => "Communications"@,
        SkillId::Computer => "Computer"@,
        SkillId::Electronics => "Electronics"@,
        SkillId::EngineerJump => "Engineer (Jump Drive)"@,
        SkillId::EngineerLifeSupport => "Engineer (Life Support)"@,
        SkillId::EngineerManeuver => "Engineer (Maneuver Drive)"@,
        SkillId::EngineerPower => "Engineer (Power Plant)"@,
        SkillId::Etiquette => "Etiquette"@,
        SkillId::GunCombat => "Gun Combat"@,
        SkillId::GunnerCapital => "Gunnery (Capital)"@,
        SkillId::GunnerScreens => "Gunnery (Screens)"@,
        SkillId::GunnerTurrets => "Gunnery (Turrets)"@,
        SkillId::Investigate => "Investigate"@,
        SkillId::JackOfAllTrades => "Jack of All Trades"@,
        SkillId::Leadership => "Leadership"@,
        SkillId::Mechanic => "Mechanic"@,
        SkillId::Medicine => "Medicine"@,
        SkillId::Melee => "Melee"@,
        SkillId::Persuade => "Persuade"@,
        SkillId::PilotSmallCraft => "Pilot (Small Craft)"@,
        SkillId::PilotSpacecraft => "Pilot (Spacecraft)"@,
        SkillId::Recon => "Recon"@,
        SkillId::Stealth => "Stealth"@,
        SkillId::TacticsMilitary => "Tactics (Military)"@,
        SkillId::TacticsNaval => "Tactics (Naval)"@,
        SkillId::TradeCargomaster => "Trade (Cargomaster)"@,
        SkillId::VaccSuit => "Vacc Suit"@,
    }
}

impl SkillId {
    /// The skill's display name.
    pub fn name(self) -> (r: &'static str)
        ensures
            r@ == skill_name(self),
    {
        match self {
            SkillId::Admin => "Admin",
            SkillId::Astrogation => "Astrogation",
            SkillId::Broker => "Broker",
            SkillId::Carouse => "Carouse",
            SkillId::Communications => "Communications",
            SkillId::Computer => "Computer",
            SkillId::Electronics => "Electronics",
            SkillId::EngineerJump => "Engineer (Jump Drive)",
            SkillId::EngineerLifeSupport => "Engineer (Life Support)",
            SkillId::EngineerManeuver => "Engineer (Maneuver Drive)",
            SkillId::EngineerPower => "Engineer (Power Plant)",
            SkillId::Etiquette => "Etiquette",
            SkillId::GunCombat => "Gun Combat",
            SkillId::GunnerCapital => "Gunnery (Capital)",
            SkillId::GunnerScreens => "Gunnery (Screens)",
            SkillId::GunnerTurrets => "Gunnery (Turrets)",
            SkillId::Investigate => "Investigate",
            SkillId::JackOfAllTrades => "Jack of All Trades",
            SkillId::Leadership => "Leadership",
            SkillId::Mechanic => "Mechanic",
            SkillId::Medicine => "Medicine",
            SkillId::Melee => "Melee",
            SkillId::Persuade => "Persuade",
            SkillId::PilotSmallCraft => "Pilot (Small Craft)",
            SkillId::PilotSpacecraft => "Pilot (Spacecraft)",
            SkillId::Recon => "Recon",
            SkillId::Stealth => "Stealth",
            SkillId::TacticsMilitary => "Tactics (Military)",
            SkillId::TacticsNaval => "Tactics (Naval)",
            SkillId::TradeCargomaster => "Trade (Cargomaster)",
            SkillId::VaccSuit => "Vacc Suit",
        }
    }
}

#[derive(Clone, Copy, Debug, PartialEq, Eq, Structural)]
pub struct SkillRating {
    pub skill: SkillId,
    pub level: i8,
}

#[derive(Clone, Copy, Debug, PartialEq, Eq, Structural)]
pub struct SkillTraining {
    pub skill: SkillId,
    pub needed_weeks: u16,
    pub current_weeks: u16,
}

#[derive(Clone, Copy, Debug, PartialEq, Eq, Structural)]
pub struct Characteristics {
    pub strength: u8,
    pub dexterity: u8,
    pub endurance: u8,
    pub intelligence: u8,
    pub education: u8,
    pub charisma: u8,
}

impl Characteristics {
    /// The six scores in the order strength, dexterity, endurance,
    /// intelligence, education, charisma.
    pub fn values(&self) -> (r: [u8; 6])
        ensures
            r@ == seq![
                self.strength,
                self.dexterity,
                self.endurance,
                self.intelligence,
                self.education,
                self.charisma,
            ],
    {
        let r = [
            self.strength,
            self.dexterity,
            self.endurance,
            self.intelligence,
            self.education,
            self.charisma,
        ];
        assert(r@ =~= seq![
            self.strength,
            self.dexterity,
            self.endurance,
            self.intelligence,
            self.education,
            self.charisma,
        ]);
        r
    }
}

#[derive(Clone, Copy, Debug, PartialEq, Eq, Structural)]
pub struct CharacteristicPointBuy {
    pub minimum: u8,
    pub maximum: u8,
    pub neutral: u8,
    pub budget: i16,
}

#[derive(Clone, Copy, Debug, PartialEq, Eq, Structural)]
pub struct SkillPool {
    pub level3: u8,
    pub level2: u8,
    pub level1: u8,
    pub level0: u8,
}

#[derive(Clone, Debug, PartialEq, Eq)]
pub struct PersonDraft {
    pub name: String,
    pub characteristics: Characteristics,
    pub training: SkillTraining,
    pub skills: Vec<SkillRating>,
}

#[derive(Clone, Debug, PartialEq, Eq)]
pub struct CaptainCreationOptions {
    pub setup_revision: u64,
    pub characteristic_point_buy: CharacteristicPointBuy,
    pub skill_pool: SkillPool,
    pub default_captain: PersonDraft,
}


/// One crew member a new player puts into a slot of the starting crew.
#[derive(Clone, Debug, PartialEq, Eq)]
pub struct CrewCreation {
    pub slot_id: u16,
    pub name: String,
    pub training_skill: SkillId,
}

/// Everything a new player chooses at creation.
#[derive(Clone, Debug, PartialEq, Eq)]
pub struct PlayerCreation {
    pub setup_revision: u64,
    pub captain: PersonDraft,
    pub ship_name: String,
    pub starting_offer_id: u32,
    pub refit_option_ids: Vec<u32>,
    pub crew: Vec<CrewCreation>,
}

/// A slot of the starting crew, with the member it holds by default.
#[derive(Clone, Debug, PartialEq, Eq)]
pub struct StartingCrewSlot {
    pub slot_id: u16,
    pub role: String,
    pub required: bool,
    pub represented_positions: u16,
    pub skill_pool: SkillPool,
    pub default_crew: PersonDraft,
}

/// What a new player sees of a starting offer.
#[derive(Clone, Debug, PartialEq, Eq)]
pub struct StartingShipOfferSummary {
    pub offer_id: u32,
    pub career: Career,
    pub package_name: String,
    pub ship_catalog_id: u32,
    pub ship_name: String,
    pub role: String,
    pub rationale: String,
    pub displacement_tons: u32,
    pub jump_rating: u8,
    pub thrust_g: u8,
    pub cargo_millitons: u32,
    pub crew_count: u16,
    pub price_credits: u64,
}

/// On what title a new player holds the starting ship.
#[derive(Clone, Copy, Debug, PartialEq, Eq, Structural)]
pub enum StartingTitleKind {
    OwnedWithLien,
    SponsorOwned,
    InstitutionOwned,
}

/// The financial and legal terms of a starting offer.
#[derive(Clone, Debug, PartialEq, Eq)]
pub struct StartingOfferTerms {
    pub terms_revision: u64,
    pub title: StartingTitleKind,
    pub equity_credits: u64,
    pub principal_credits: u64,
    pub monthly_payment_credits: u64,
    pub liquid_reserve_credits: u64,
    pub restricted_reserve_credits: u64,
    pub monthly_compensation_credits: u64,
    pub refit_credit_limit: u64,
    pub refit_displacement_millitons: u64,
    pub authority: String,
    pub exit_terms: String,
    pub insurance: String,
}

/// One option of a starting refit group.
#[derive(Clone, Debug, PartialEq, Eq)]
pub struct StartingRefitOption {
    pub option_id: u32,
    pub name: String,
    pub description: String,
    pub displacement_delta_millitons: i64,
    pub price_delta_credits: i64,
}

/// A group of starting refit options, one of which is chosen.
#[derive(Clone, Debug, PartialEq, Eq)]
pub struct StartingRefitGroup {
    pub group_id: u32,
    pub name: String,
    pub required: bool,
    pub options: Vec<StartingRefitOption>,
}

/// Everything a new player is shown of a starting offer.
#[derive(Clone, Debug, PartialEq, Eq)]
pub struct StartingShipOptions {
    pub setup_revision: u64,
    pub offer: StartingShipOfferSummary,
    pub description_paragraphs: Vec<String>,
    pub terms: StartingOfferTerms,
    pub refit_groups: Vec<StartingRefitGroup>,
}

/// The crew slots a starting offer comes with.
#[derive(Clone, Debug, PartialEq, Eq)]
pub struct StartingCrewPlan {
    pub setup_revision: u64,
    pub starting_offer_id: u32,
    pub slots: Vec<StartingCrewSlot>,
}

} // verus!
