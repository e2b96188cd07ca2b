use cosmic_cults::ai_states::{AIState, StateTransitionTrigger};
use cosmic_cults::coordination::{
    coordinates, create_aggressive_leader, create_defensive_guard, create_economic_worker, perceive, AICoordination,
    AIRole, PerceptionType,
};

fn bits(x: f32) -> u32 {
    x.to_bits()
}

fn unit(team_id: u32, role: AIRole, give: bool, receive: bool) -> AICoordination {
    AICoordination { team_id, role, coordination_radius: bits(50.0), can_give_orders: give, can_receive_orders: receive }
}

#[test]
fn leaders_coordinate_followers_within_their_radius() {
    let leader = unit(1, AIRole::Leader, true, false);
    let follower = unit(1, AIRole::Follower, false, true);
    assert!(coordinates(&leader, &follower, bits(50.0)));
    assert!(!coordinates(&leader, &follower, bits(50.5)));
    assert!(!coordinates(&leader, &unit(2, AIRole::Follower, false, true), bits(1.0)));
    assert!(!coordinates(&leader, &unit(1, AIRole::Scout, false, false), bits(1.0)));
    assert!(!coordinates(&unit(1, AIRole::Defender, true, false), &follower, bits(1.0)));
    assert!(!coordinates(&unit(1, AIRole::Leader, false, false), &follower, bits(1.0)));
}

#[test]
fn perception_by_team_and_distance() {
    assert_eq!(perceive(1, 2, bits(19.0)), Some(PerceptionType::EnemySpotted));
    assert_eq!(perceive(1, 2, bits(20.0)), None);
    assert_eq!(perceive(1, 1, bits(4.0)), Some(PerceptionType::AllyInDanger));
    assert_eq!(perceive(1, 1, bits(6.0)), None);
}

#[test]
fn aggressive_leader_attacks_from_idle_and_gathering() {
    let (mut m, c) = create_aggressive_leader();
    assert_eq!(c.role, AIRole::Leader);
    assert_eq!(f32::from_bits(c.coordination_radius), 100.0);
    assert!(c.can_give_orders && !c.can_receive_orders);
    m.force_state(AIState::Gathering);
    assert!(m.transition(StateTransitionTrigger::EnemyDetected));
    assert_eq!(m.current_state, AIState::Attacking);
}

#[test]
fn defensive_guard_defends_when_alerted_or_hurt() {
    let (mut m, c) = create_defensive_guard();
    assert_eq!(c.role, AIRole::Defender);
    assert_eq!(f32::from_bits(c.coordination_radius), 50.0);
    assert!(m.transition(StateTransitionTrigger::AlertRaised));
    assert_eq!(m.current_state, AIState::Defending);
    m.force_state(AIState::Attacking);
    assert!(m.transition(StateTransitionTrigger::HealthLow));
    assert_eq!(m.current_state, AIState::Defending);
}

#[test]
fn economic_worker_builds_after_gathering() {
    let (mut m, c) = create_economic_worker();
    assert_eq!(c.role, AIRole::Worker);
    assert_eq!(f32::from_bits(c.coordination_radius), 30.0);
    assert!(m.transition(StateTransitionTrigger::ResourceFound));
    assert_eq!(m.current_state, AIState::Gathering);
    assert!(m.transition(StateTransitionTrigger::ResourceGathered));
    assert_eq!(m.current_state, AIState::Building);
}
