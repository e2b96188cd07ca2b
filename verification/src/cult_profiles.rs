//! Profiles of the playable cults: how each cult weighs its actions, what it
//! prefers to do, how fearful, aggressive and driven it is, and how far its
//! units coordinate.
//!
//! `f32` values are carried as their bit patterns (see [`crate::float_bits`]).
use vstd::prelude::*;
use crate::coordination::{AICoordination, AIRole};
use crate::float_bits::{F32_HALF, F32_ONE};
use crate::text::str_eq;

verus! {

/// Cult-specific multipliers of the value of actions.
#[derive(Clone, Copy, Debug, PartialEq, Eq, Structural)]
pub struct CultBehaviorModifiers {
    pub attack_bonus: u32,
    pub defense_bonus: u32,
    pub gathering_bonus: u32,
    pub building_bonus: u32,
    pub research_bonus: u32,
    pub expansion_bonus: u32,
}

impl Default for CultBehaviorModifiers {
    fn default() -> (m: Self)
        ensures
            m == neutral_modifiers(),
    {
        neutral()
    }
}

/// Every multiplier at 1.0.
pub open spec fn neutral_modifiers() -> CultBehaviorModifiers {
    CultBehaviorModifiers {
        attack_bonus: F32_ONE,
        defense_bonus: F32_ONE,
        gathering_bonus: F32_ONE,
        building_bonus: F32_ONE,
        research_bonus: F32_ONE,
        expansion_bonus: F32_ONE,
    }
}

fn neutral() -> (m: CultBehaviorModifiers)
    ensures
        m == neutral_modifiers(),
{
    CultBehaviorModifiers {
        attack_bonus: F32_ONE,
        defense_bonus: F32_ONE,
        gathering_bonus: F32_ONE,
        building_bonus: F32_ONE,
        research_bonus: F32_ONE,
        expansion_bonus: F32_ONE,
    }
}

/// Cult-specific AI behavioral modifiers.
#[derive(Clone, Debug)]
pub struct CultProfile {
    pub cult_name: String,
    pub behavioral_modifiers: CultBehaviorModifiers,
    pub preferred_actions: Vec<String>,
    pub fear_threshold: u32,
    pub aggression_level: u32,
    pub thirst_drive: u32,
}

/// The cults that have a profile of their own.
#[derive(Clone, Copy, Debug, PartialEq, Eq, Structural)]
pub enum CultKind {
    OrderOfTheDeep,
    CrimsonCovenant,
    VoidSeekers,
    Other,
}

/// The cult a name stands for.
pub open spec fn cult_kind(name: Seq<char>) -> CultKind {
    if name == "Order of the Deep"@ {
        CultKind::OrderOfTheDeep
    } else if name == "Crimson Covenant"@ {
        CultKind::CrimsonCovenant
    } else if name == "Void Seekers"@ {
        CultKind::VoidSeekers
    } else {
        CultKind::Other
    }
}

/// The cult a name stands for.
pub fn cult_kind_of(name: &str) -> (k: CultKind)
    ensures
        k == cult_kind(name@),
{
    if str_eq(name, "Order of the Deep") {
        CultKind::OrderOfTheDeep
    } else if str_eq(name, "Crimson Covenant") {
        CultKind::CrimsonCovenant
    } else if str_eq(name, "Void Seekers") {
        CultKind::VoidSeekers
    } else {
        CultKind::Other
    }
}

/// The modifiers of a cult: the Order of the Deep researches (1.6) and builds
/// (1.4) and defends (1.3) well but attacks less (0.8); the Crimson Covenant
/// attacks (1.5) and expands (1.3); the Void Seekers research (1.4) and build
/// (1.2); other cults are neutral.
pub open spec fn cult_modifiers(kind: CultKind) -> CultBehaviorModifiers {
    match kind {
        CultKind::OrderOfTheDeep => CultBehaviorModifiers {
            attack_bonus: 0x3F4C_CCCD,
            defense_bonus: 0x3FA6_6666,
            gathering_bonus: 0x3F99_999A,
            building_bonus: 0x3FB3_3333,
            research_bonus: 0x3FCC_CCCD,
            expansion_bonus: 0x3F66_6666,
        },
        CultKind::CrimsonCovenant => CultBehaviorModifiers {
            attack_bonus: 0x3FC0_0000,
            defense_bonus: 0x3F8C_CCCD,
            gathering_bonus: 0x3F80_0000,
            building_bonus: 0x3F66_6666,
            research_bonus: 0x3F4C_CCCD,
            expansion_bonus: 0x3FA6_6666,
        },
        CultKind::VoidSeekers => CultBehaviorModifiers {
            attack_bonus: 0x3F8C_CCCD,
            defense_bonus: 0x3F66_6666,
            gathering_bonus: 0x3F4C_CCCD,
            building_bonus: 0x3F99_999A,
            research_bonus: 0x3FB3_3333,
            expansion_bonus: 0x3F8C_CCCD,
        },
        CultKind::Other => neutral_modifiers(),
    }
}

/// Fear threshold, aggression level and thirst drive of a cult.
pub open spec fn cult_drives(kind: CultKind) -> (u32, u32, u32) {
    match kind {
        CultKind::OrderOfTheDeep => (0x3E99_999A, 0x3ECC_CCCD, 0x3F4C_CCCD),
        CultKind::CrimsonCovenant => (0x3F19_999A, 0x3F4C_CCCD, 0x3F66_6666),
        CultKind::VoidSeekers => (0x3ECC_CCCD, 0x3F19_999A, 0x3F33_3333),
        CultKind::Other => (F32_HALF, F32_HALF, F32_HALF),
    }
}

/// The actions a cult prefers.
pub open spec fn cult_preferred_actions(kind: CultKind) -> Seq<Seq<char>> {
    match kind {
        CultKind::OrderOfTheDeep => seq!["research"@, "build_sanctuary"@, "gather_knowledge"@, "defend_territory"@],
        CultKind::CrimsonCovenant => seq!["attack_enemies"@, "blood_ritual"@, "expand_territory"@, "hunt_souls"@],
        CultKind::VoidSeekers => seq!["corrupt_land"@, "void_ritual"@, "summon_entities"@, "spread_influence"@],
        CultKind::Other => seq!["build_units"@, "gather_resources"@, "expand"@],
    }
}

/// How far the units of a cult coordinate: 80 for the Order of the Deep, 60
/// for the Crimson Covenant, 100 for the Void Seekers, 50 for others.
pub open spec fn cult_coordination_radius(kind: CultKind) -> u32 {
    match kind {
        CultKind::OrderOfTheDeep => 0x42A0_0000,
        CultKind::CrimsonCovenant => 0x4270_0000,
        CultKind::VoidSeekers => 0x42C8_0000,
        CultKind::Other => 0x4248_0000,
    }
}

fn strings_of(items: &[&str]) -> (v: Vec<String>)
    ensures
        v@.len() == items@.len(),
        forall|i: int| 0 <= i < items@.len() ==> #[trigger] v@[i]@ == items@[i]@,
{
    let mut v: Vec<String> = Vec::new();
    let mut i: usize = 0;
    while i < items.len()
        invariant
            i <= items@.len(),
            v@.len() == i,
            forall|j: int| 0 <= j < i ==> #[trigger] v@[j]@ == items@[j]@,
        decreases items@.len() - i,
    {
        v.push(items[i].to_owned());
        i = i + 1;
    }
    v
}

/// The profile of the cult named `cult_name`; a cult without a profile of its
/// own gets neutral modifiers, middling drives and generic preferences.
pub fn create_cult_profile(cult_name: &str) -> (p: CultProfile)
    ensures
        p.cult_name@ == cult_name@,
        p.behavioral_modifiers == cult_modifiers(cult_kind(cult_name@)),
        (p.fear_threshold, p.aggression_level, p.thirst_drive) == cult_drives(cult_kind(cult_name@)),
        p.preferred_actions@.len() == cult_preferred_actions(cult_kind(cult_name@)).len(),
        forall|i: int| 0 <= i < p.preferred_actions@.len() ==> #[trigger] p.preferred_actions@[i]@
            == cult_preferred_actions(cult_kind(cult_name@))[i],
{
    let kind = cult_kind_of(cult_name);
    match kind {
        CultKind::OrderOfTheDeep => {
            let actions = ["research", "build_sanctuary", "gather_knowledge", "defend_territory"];
            let preferred_actions = strings_of(&actions);
            assert(actions@ == seq!["research", "build_sanctuary", "gather_knowledge", "defend_territory"]);
            CultProfile {
                cult_name: cult_name.to_owned(),
                behavioral_modifiers: CultBehaviorModifiers {
                    attack_bonus: 0x3F4C_CCCD,
                    defense_bonus: 0x3FA6_6666,
                    gathering_bonus: 0x3F99_999A,
                    building_bonus: 0x3FB3_3333,
                    research_bonus: 0x3FCC_CCCD,
                    expansion_bonus: 0x3F66_6666,
                },
                preferred_actions,
                fear_threshold: 0x3E99_999A,
                aggression_level: 0x3ECC_CCCD,
                thirst_drive: 0x3F4C_CCCD,
            }
        },
        CultKind::CrimsonCovenant => {
            let actions = ["attack_enemies", "blood_ritual", "expand_territory", "hunt_souls"];
            let preferred_actions = strings_of(&actions);
            assert(actions@ == seq!["attack_enemies", "blood_ritual", "expand_territory", "hunt_souls"]);
            CultProfile {
                cult_name: cult_name.to_owned(),
                behavioral_modifiers: CultBehaviorModifiers {
                    attack_bonus: 0x3FC0_0000,
                    defense_bonus: 0x3F8C_CCCD,
                    gathering_bonus: 0x3F80_0000,
                    building_bonus: 0x3F66_6666,
                    research_bonus: 0x3F4C_CCCD,
                    expansion_bonus: 0x3FA6_6666,
                },
                preferred_actions,
                fear_threshold: 0x3F19_999A,
                aggression_level: 0x3F4C_CCCD,
                thirst_drive: 0x3F66_6666,
            }
        },
        CultKind::VoidSeekers => {
            let actions = ["corrupt_land", "void_ritual", "summon_entities", "spread_influence"];
            let preferred_actions = strings_of(&actions);
            assert(actions@ == seq!["corrupt_land", "void_ritual", "summon_entities", "spread_influence"]);
            CultProfile {
                cult_name: cult_name.to_owned(),
                behavioral_modifiers: CultBehaviorModifiers {
                    attack_bonus: 0x3F8C_CCCD,
                    defense_bonus: 0x3F66_6666,
                    gathering_bonus: 0x3F4C_CCCD,
                    building_bonus: 0x3F99_999A,
                    research_bonus: 0x3FB3_3333,
                    expansion_bonus: 0x3F8C_CCCD,
                },
                preferred_actions,
                fear_threshold: 0x3ECC_CCCD,
                aggression_level: 0x3F19_999A,
                thirst_drive: 0x3F33_3333,
            }
        },
        CultKind::Other => {
            let actions = ["build_units", "gather_resources", "expand"];
            let preferred_actions = strings_of(&actions);
            assert(actions@ == seq!["build_units", "gather_resources", "expand"]);
            CultProfile {
                cult_name: cult_name.to_owned(),
                behavioral_modifiers: neutral(),
                preferred_actions,
                fear_threshold: F32_HALF,
                aggression_level: F32_HALF,
                thirst_drive: F32_HALF,
            }
        },
    }
}

/// The coordination of a unit of `cult_profile` in `role`: on team 1, within
/// the cult's coordination radius; leaders give orders and the others take them.
pub fn create_cult_coordination(cult_profile: &CultProfile, role: AIRole) -> (c: AICoordination)
    ensures
        c.team_id == 1,
        c.role == role,
        c.coordination_radius == cult_coordination_radius(cult_kind(cult_profile.cult_name@)),
        c.can_give_orders == role is Leader,
        c.can_receive_orders == !(role is Leader),
{
    let base_radius = match cult_kind_of(cult_profile.cult_name.as_str()) {
        CultKind::OrderOfTheDeep => 0x42A0_0000,
        CultKind::CrimsonCovenant => 0x4270_0000,
        CultKind::VoidSeekers => 0x42C8_0000,
        CultKind::Other => 0x4248_0000,
    };
    let leader = matches!(role, AIRole::Leader);
    AICoordination {
        team_id: 1,
        role,
        coordination_radius: base_radius,
        can_give_orders: leader,
        can_receive_orders: !leader,
    }
}

} // verus!
