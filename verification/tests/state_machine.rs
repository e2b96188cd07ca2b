use cosmic_cults::state_machine::{AIState, AIStateMachine, AITransition, HierarchicalStateMachine};

#[test]
fn test_state_machine_default() {
    let sm = AIStateMachine::default();
    assert_eq!(sm.current_state, AIState::Idle);
    assert_eq!(sm.previous_state, None);
}

#[test]
fn test_state_transition() {
    let mut sm = AIStateMachine::default();
    assert!(sm.transition(AITransition::EnemySpotted));
    assert_eq!(sm.current_state, AIState::Attacking);
    assert_eq!(sm.previous_state, Some(AIState::Idle));
}

#[test]
fn test_invalid_transition() {
    let mut sm = AIStateMachine::default();
    assert!(!sm.transition(AITransition::BuildingComplete));
    assert_eq!(sm.current_state, AIState::Idle);
}

#[test]
fn test_force_state() {
    let mut sm = AIStateMachine::default();
    sm.force_state(AIState::Attacking);
    assert_eq!(sm.current_state, AIState::Attacking);
    assert_eq!(sm.previous_state, Some(AIState::Idle));
}

#[test]
fn test_add_transition() {
    let mut sm = AIStateMachine::new();
    sm.add_transition(AIState::Idle, AITransition::Custom("test".to_string()), AIState::Scouting);
    assert!(sm.transition(AITransition::Custom("test".to_string())));
    assert_eq!(sm.current_state, AIState::Scouting);
}

#[test]
fn test_ai_state_transitions() {
    let mut state_machine = AIStateMachine::default();
    assert_eq!(state_machine.current_state, AIState::Idle);
    let result = state_machine.transition(AITransition::ResourcesLow);
    assert!(result);
    assert_eq!(state_machine.current_state, AIState::Gathering);
    let result = state_machine.transition(AITransition::BuildingComplete);
    assert!(!result);
    assert_eq!(state_machine.current_state, AIState::Gathering);
}

#[test]
fn can_transition_agrees_with_transition() {
    let mut sm = AIStateMachine::default();
    assert!(sm.can_transition(&AITransition::UnderAttack));
    assert!(!sm.can_transition(&AITransition::HealthHigh));
    assert!(sm.transition(AITransition::UnderAttack));
    assert_eq!(sm.current_state, AIState::Defending);
    assert!(sm.can_transition(&AITransition::HealthLow));
    assert!(sm.transition(AITransition::HealthLow));
    assert_eq!(sm.current_state, AIState::Retreating);
    assert!(sm.transition(AITransition::HealthHigh));
    assert_eq!(sm.current_state, AIState::Idle);
    assert_eq!(sm.previous_state, Some(AIState::Retreating));
}

#[test]
fn custom_triggers_are_told_apart_by_text() {
    let mut sm = AIStateMachine::new();
    sm.add_transition(AIState::Custom("ritual".to_string()), AITransition::Custom("chant".to_string()), AIState::Idle);
    sm.force_state(AIState::Custom("ritual".to_string()));
    assert!(!sm.transition(AITransition::Custom("chan".to_string())));
    assert_eq!(sm.current_state, AIState::Custom("ritual".to_string()));
    assert!(sm.transition(AITransition::Custom("chant".to_string())));
    assert_eq!(sm.current_state, AIState::Idle);
}

#[test]
fn hierarchical_machine_drives_the_active_sub_machine() {
    let mut h = HierarchicalStateMachine::new();
    h.add_sub_state_machine(AIState::Attacking, AIStateMachine::default());
    assert!(!h.transition_sub(AITransition::EnemySpotted));
    h.transition_root(AIState::Attacking);
    assert_eq!(h.active_sub_state, Some(AIState::Attacking));
    assert!(h.transition_sub(AITransition::EnemySpotted));
    assert!(!h.transition_sub(AITransition::EnemySpotted));
    assert!(h.transition_sub(AITransition::EnemyDefeated));
    h.transition_root(AIState::Trading);
    assert_eq!(h.root_state, AIState::Trading);
    assert_eq!(h.active_sub_state, None);
    assert!(!h.transition_sub(AITransition::EnemySpotted));
}

#[test]
fn entering_a_state_restarts_its_timer() {
    let mut sm = AIStateMachine::default();
    assert_eq!(f32::from_bits(sm.get_state_duration()), 0.0);
    sm.set_timers(3.0f32.to_bits(), 3.0f32.to_bits());
    assert_eq!(f32::from_bits(sm.get_state_duration()), 3.0);
    assert_eq!(f32::from_bits(sm.global_timer), 3.0);
    assert!(sm.transition(AITransition::EnemySpotted));
    assert_eq!(f32::from_bits(sm.get_state_duration()), 0.0);
    assert_eq!(f32::from_bits(sm.global_timer), 3.0);
    sm.set_timers(5.0f32.to_bits(), 2.0f32.to_bits());
    sm.force_state(AIState::Idle);
    // Idle's timer was restarted on entering it again.
    assert_eq!(f32::from_bits(sm.get_state_duration()), 0.0);
}

#[test]
fn a_state_held_over_thirty_seconds_times_out() {
    let mut sm = AIStateMachine::default();
    sm.add_transition(AIState::Idle, AITransition::Timeout, AIState::Scouting);
    sm.set_timers(30.0f32.to_bits(), 30.0f32.to_bits());
    assert!(!sm.check_timeout());
    assert_eq!(sm.current_state, AIState::Idle);
    sm.set_timers(30.5f32.to_bits(), 30.5f32.to_bits());
    assert!(sm.check_timeout());
    assert_eq!(sm.current_state, AIState::Scouting);
    // Without a timeout rule the machine stays where it is.
    let mut plain = AIStateMachine::default();
    plain.set_timers(31.0f32.to_bits(), 31.0f32.to_bits());
    assert!(!plain.check_timeout());
    assert_eq!(plain.current_state, AIState::Idle);
}
