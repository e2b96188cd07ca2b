use cosmic_cults::coordination::AIRole;
use cosmic_cults::cult_profiles::{create_cult_coordination, create_cult_profile};

#[test]
fn test_cult_profiles() {
    let deep_profile = create_cult_profile("Order of the Deep");
    assert_eq!(deep_profile.cult_name, "Order of the Deep");
    assert!(f32::from_bits(deep_profile.behavioral_modifiers.research_bonus) > 1.0);
    assert!(f32::from_bits(deep_profile.behavioral_modifiers.attack_bonus) < 1.0);

    let crimson_profile = create_cult_profile("Crimson Covenant");
    assert_eq!(crimson_profile.cult_name, "Crimson Covenant");
    assert!(f32::from_bits(crimson_profile.behavioral_modifiers.attack_bonus) > 1.0);
    assert!(f32::from_bits(crimson_profile.aggression_level) > 0.5);

    let void_profile = create_cult_profile("Void Seekers");
    assert_eq!(void_profile.cult_name, "Void Seekers");
    assert!(f32::from_bits(void_profile.behavioral_modifiers.research_bonus) > 1.0);
}

#[test]
fn unknown_cults_get_the_default_profile() {
    let p = create_cult_profile("Star Spawn");
    assert_eq!(p.cult_name, "Star Spawn");
    assert_eq!(f32::from_bits(p.behavioral_modifiers.expansion_bonus), 1.0);
    assert_eq!(f32::from_bits(p.fear_threshold), 0.5);
    assert_eq!(p.preferred_actions, vec!["build_units", "gather_resources", "expand"]);
    let deep = create_cult_profile("Order of the Deep");
    assert_eq!(deep.preferred_actions[0], "research");
    assert_eq!(f32::from_bits(deep.thirst_drive), 0.8);
}

#[test]
fn coordination_depends_on_cult_and_role() {
    let void = create_cult_profile("Void Seekers");
    let c = create_cult_coordination(&void, AIRole::Leader);
    assert_eq!(f32::from_bits(c.coordination_radius), 100.0);
    assert!(c.can_give_orders && !c.can_receive_orders);
    let other = create_cult_profile("Nobody");
    let c = create_cult_coordination(&other, AIRole::Worker);
    assert_eq!(f32::from_bits(c.coordination_radius), 50.0);
    assert!(!c.can_give_orders && c.can_receive_orders);
    assert_eq!(c.team_id, 1);
}
