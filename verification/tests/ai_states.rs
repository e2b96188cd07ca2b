use cosmic_cults::ai_states::{AIState, AIStateMachine, HealthCheck, StateTransitionTrigger};
use cosmic_cults::float_bits::Vec3Bits;

fn p(x: f32) -> Vec3Bits {
    Vec3Bits { x: x.to_bits(), y: 0, z: 0 }
}

#[test]
fn default_machine_is_idle_with_the_standard_rules() {
    let m = AIStateMachine::default();
    assert_eq!(m.current_state, AIState::Idle);
    assert_eq!(m.previous_state, None);
    assert_eq!(f32::from_bits(m.state_timer), 0.0);
}

#[test]
fn triggers_follow_the_rules() {
    let mut m = AIStateMachine::default();
    assert!(m.transition(StateTransitionTrigger::EnemyDetected));
    assert_eq!(m.current_state, AIState::Attacking);
    assert_eq!(m.previous_state, Some(AIState::Idle));
    assert!(m.transition(StateTransitionTrigger::HealthLow));
    assert_eq!(m.current_state, AIState::Fleeing);
    assert!(m.transition(StateTransitionTrigger::EnemyDetected));
    assert_eq!(m.current_state, AIState::Retreating);
    // Retreating has no rules: nothing fires.
    assert!(!m.transition(StateTransitionTrigger::AllClear));
    assert_eq!(m.current_state, AIState::Retreating);
    assert_eq!(m.previous_state, Some(AIState::Fleeing));
}

#[test]
fn a_transition_resets_the_timer() {
    let mut m = AIStateMachine::default();
    m.state_timer = 3.0f32.to_bits();
    m.transition(StateTransitionTrigger::ResourceFound);
    assert_eq!(m.current_state, AIState::Gathering);
    assert_eq!(f32::from_bits(m.state_timer), 0.0);
}

#[test]
fn idle_times_out_into_patrol_after_five_seconds() {
    let mut m = AIStateMachine::default();
    m.apply_timer(5.0f32.to_bits());
    assert_eq!(m.current_state, AIState::Idle);
    assert_eq!(f32::from_bits(m.state_timer), 5.0);
    m.apply_timer(5.1f32.to_bits());
    assert_eq!(m.current_state, AIState::Patrolling);
    assert_eq!(f32::from_bits(m.state_timer), 0.0);
}

#[test]
fn search_times_out_into_patrol_after_ten_seconds() {
    let mut m = AIStateMachine::default();
    m.force_state(AIState::Searching);
    m.apply_timer(9.0f32.to_bits());
    assert_eq!(m.current_state, AIState::Searching);
    m.apply_timer(10.5f32.to_bits());
    assert_eq!(m.current_state, AIState::Patrolling);
    // Other states never time out.
    m.apply_timer(1000.0f32.to_bits());
    assert_eq!(m.current_state, AIState::Patrolling);
}

#[test]
fn patrol_points_are_visited_in_a_cycle() {
    let mut m = AIStateMachine::default();
    assert_eq!(m.get_next_patrol_point(), None);
    m.set_patrol_points(vec![p(1.0), p(2.0), p(3.0)]);
    let visited: Vec<Option<Vec3Bits>> = (0..7).map(|_| m.get_next_patrol_point()).collect();
    assert_eq!(
        visited,
        vec![Some(p(1.0)), Some(p(2.0)), Some(p(3.0)), Some(p(1.0)), Some(p(2.0)), Some(p(3.0)), Some(p(1.0))]
    );
}

#[test]
fn patrol_step_heads_for_the_next_point_once_the_last_is_reached() {
    let mut m = AIStateMachine::default();
    m.set_patrol_points(vec![p(1.0), p(2.0)]);
    assert_eq!(m.patrol_step(false), Some(p(1.0)));
    assert_eq!(m.state_data.target_position, Some(p(1.0)));
    // Still on the way.
    assert_eq!(m.patrol_step(false), None);
    assert_eq!(m.state_data.target_position, Some(p(1.0)));
    // Reached: the target is dropped, and the next step picks the next point.
    assert_eq!(m.patrol_step(true), None);
    assert_eq!(m.state_data.target_position, None);
    assert_eq!(m.patrol_step(false), Some(p(2.0)));
}

#[test]
fn observations_drive_the_machine() {
    let mut m = AIStateMachine::default();
    m.respond_to_observations(Some(77), None);
    assert_eq!(m.current_state, AIState::Attacking);
    assert_eq!(m.state_data.target_entity, Some(77));
    let hurt = HealthCheck { below_flee_threshold: true, above_recovery_threshold: false };
    m.respond_to_observations(None, Some(hurt));
    assert_eq!(m.current_state, AIState::Fleeing);
    let healed = HealthCheck { below_flee_threshold: false, above_recovery_threshold: true };
    m.respond_to_observations(None, Some(healed));
    assert_eq!(m.current_state, AIState::Idle);
}

#[test]
fn a_long_attack_loses_its_enemy() {
    let mut m = AIStateMachine::default();
    m.respond_to_observations(Some(5), None);
    m.state_timer = 6.0f32.to_bits();
    m.respond_to_observations(None, None);
    assert_eq!(m.current_state, AIState::Searching);
}
