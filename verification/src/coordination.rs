//! Coordination between AI units: roles, who may give and take orders, which
//! followers a leader coordinates, what a unit perceives of others nearby, and
//! preset machines for common unit kinds.
//!
//! `f32` values are carried as their bit patterns (see [`crate::float_bits`]).
use vstd::prelude::*;
use crate::ai_states::{default_rules, is_default_state_data, AIState, AIStateMachine, StateTransitionTrigger};
use crate::float_bits::{f32_le, f32_lt, is_nan, order_key, spec_le, spec_lt, F32_FIVE, F32_ZERO};

verus! {

/// The role of an AI unit within its team.
#[derive(Clone, Debug, PartialEq)]
pub enum AIRole {
    Leader,
    Follower,
    Scout,
    Worker,
    Defender,
    Specialist(String),
}

/// AI communication and coordination.
#[derive(Clone, Debug)]
pub struct AICoordination {
    pub team_id: u32,
    pub role: AIRole,
    /// How far orders reach, as an `f32` bit pattern.
    pub coordination_radius: u32,
    pub can_give_orders: bool,
    pub can_receive_orders: bool,
}

/// A leader coordinates a follower when the leader may give orders and leads,
/// the follower may receive orders and is on the same team, and the follower
/// stands within the leader's radius.
pub open spec fn spec_coordinates(leader: AICoordination, follower: AICoordination, distance: u32) -> bool {
    &&& leader.can_give_orders
    &&& leader.role is Leader
    &&& follower.can_receive_orders
    &&& follower.team_id == leader.team_id
    &&& spec_le(distance, leader.coordination_radius)
}

/// Whether `leader` coordinates `follower` standing `distance` away (an `f32` bit pattern).
pub fn coordinates(leader: &AICoordination, follower: &AICoordination, distance: u32) -> (r: bool)
    ensures
        r == spec_coordinates(*leader, *follower, distance),
{
    leader.can_give_orders && matches!(leader.role, AIRole::Leader) && follower.can_receive_orders
        && follower.team_id == leader.team_id && f32_le(distance, leader.coordination_radius)
}

/// What a unit perceives of another unit.
#[derive(Clone, Copy, Debug, PartialEq, Eq, Structural)]
pub enum PerceptionType {
    EnemySpotted,
    AllyInDanger,
    ResourceFound,
    ObstacleDetected,
    SoundHeard,
}

/// Bit pattern of the `f32` value 20.0, the perception range.
pub const PERCEPTION_RANGE: u32 = 0x41A0_0000;

/// A unit of another team closer than 20 is an enemy spotted; one of the same
/// team closer than 5 is an ally in danger.
pub open spec fn spec_perceive(team: u32, other_team: u32, distance: u32) -> Option<PerceptionType> {
    if spec_lt(distance, PERCEPTION_RANGE) {
        if team != other_team {
            Some(PerceptionType::EnemySpotted)
        } else if spec_lt(distance, F32_FIVE) {
            Some(PerceptionType::AllyInDanger)
        } else {
            None
        }
    } else {
        None
    }
}

/// What a unit of `team` perceives of another unit of `other_team` standing
/// `distance` away (an `f32` bit pattern).
pub fn perceive(team: u32, other_team: u32, distance: u32) -> (r: Option<PerceptionType>)
    ensures
        r == spec_perceive(team, other_team, distance),
{
    if f32_lt(distance, PERCEPTION_RANGE) {
        if team != other_team {
            Some(PerceptionType::EnemySpotted)
        } else if f32_lt(distance, F32_FIVE) {
            Some(PerceptionType::AllyInDanger)
        } else {
            None
        }
    } else {
        None
    }
}

/// Bit pattern of the `f32` value 100.0.
pub const RADIUS_100: u32 = 0x42C8_0000;

/// Bit pattern of the `f32` value 50.0.
pub const RADIUS_50: u32 = 0x4248_0000;

/// Bit pattern of the `f32` value 30.0.
pub const RADIUS_30: u32 = 0x41F0_0000;

/// An aggressive leader: attacks enemies detected while idle or gathering, and
/// coordinates team 1 within 100 without taking orders.
pub fn create_aggressive_leader() -> (r: (AIStateMachine, AICoordination))
    ensures
        r.0.current_state == AIState::Idle,
        r.0.previous_state is None,
        r.0.state_timer == F32_ZERO,
        is_default_state_data(r.0.state_data),
        r.0.transition_rules@ == default_rules()
            .insert((AIState::Idle, StateTransitionTrigger::EnemyDetected), AIState::Attacking)
            .insert((AIState::Gathering, StateTransitionTrigger::EnemyDetected), AIState::Attacking),
        r.1 == (AICoordination { team_id: 1, role: AIRole::Leader, coordination_radius: RADIUS_100, can_give_orders: true, can_receive_orders: false }),
{
    let mut state_machine = AIStateMachine::default();
    state_machine.transition_rules.insert((AIState::Idle, StateTransitionTrigger::EnemyDetected), AIState::Attacking);
    state_machine.transition_rules.insert((AIState::Gathering, StateTransitionTrigger::EnemyDetected), AIState::Attacking);
    let coordination = AICoordination {
        team_id: 1,
        role: AIRole::Leader,
        coordination_radius: RADIUS_100,
        can_give_orders: true,
        can_receive_orders: false,
    };
    (state_machine, coordination)
}

/// A defensive guard: defends when an alert is raised while idle or when weak
/// in an attack, and takes orders within 50.
pub fn create_defensive_guard() -> (r: (AIStateMachine, AICoordination))
    ensures
        r.0.current_state == AIState::Idle,
        r.0.previous_state is None,
        r.0.state_timer == F32_ZERO,
        is_default_state_data(r.0.state_data),
        r.0.transition_rules@ == default_rules()
            .insert((AIState::Idle, StateTransitionTrigger::AlertRaised), AIState::Defending)
            .insert((AIState::Attacking, StateTransitionTrigger::HealthLow), AIState::Defending),
        r.1 == (AICoordination { team_id: 1, role: AIRole::Defender, coordination_radius: RADIUS_50, can_give_orders: false, can_receive_orders: true }),
{
    let mut state_machine = AIStateMachine::default();
    state_machine.transition_rules.insert((AIState::Idle, StateTransitionTrigger::AlertRaised), AIState::Defending);
    state_machine.transition_rules.insert((AIState::Attacking, StateTransitionTrigger::HealthLow), AIState::Defending);
    let coordination = AICoordination {
        team_id: 1,
        role: AIRole::Defender,
        coordination_radius: RADIUS_50,
        can_give_orders: false,
        can_receive_orders: true,
    };
    (state_machine, coordination)
}

/// An economic worker: gathers resources found while idle and builds once they
/// are gathered, and takes orders within 30.
pub fn create_economic_worker() -> (r: (AIStateMachine, AICoordination))
    ensures
        r.0.current_state == AIState::Idle,
        r.0.previous_state is None,
        r.0.state_timer == F32_ZERO,
        is_default_state_data(r.0.state_data),
        r.0.transition_rules@ == default_rules()
            .insert((AIState::Idle, StateTransitionTrigger::ResourceFound), AIState::Gathering)
            .insert((AIState::Gathering, StateTransitionTrigger::ResourceGathered), AIState::Building),
        r.1 == (AICoordination { team_id: 1, role: AIRole::Worker, coordination_radius: RADIUS_30, can_give_orders: false, can_receive_orders: true }),
{
    let mut state_machine = AIStateMachine::default();
    state_machine.transition_rules.insert((AIState::Idle, StateTransitionTrigger::ResourceFound), AIState::Gathering);
    state_machine.transition_rules.insert((AIState::Gathering, StateTransitionTrigger::ResourceGathered), AIState::Building);
    let coordination = AICoordination {
        team_id: 1,
        role: AIRole::Worker,
        coordination_radius: RADIUS_30,
        can_give_orders: false,
        can_receive_orders: true,
    };
    (state_machine, coordination)
}

/// What a unit perceives of another: a unit of another team closer than 20.0
/// is always an enemy spotted, and one of another team at 20.0 or more (or at
/// a NaN distance) is not perceived; an ally in danger is reported exactly for
/// a unit of the same team closer than 5.0; nothing else is ever reported.
pub proof fn law_perception(team: u32, other_team: u32, distance: u32)
    ensures
        team != other_team && spec_lt(distance, 0x41A0_0000) ==> spec_perceive(team, other_team, distance)
            == Some(PerceptionType::EnemySpotted),
        team != other_team && !spec_lt(distance, 0x41A0_0000) ==> spec_perceive(team, other_team, distance) is None,
        spec_perceive(team, other_team, distance) == Some(PerceptionType::AllyInDanger) <==> (team == other_team
            && spec_lt(distance, 0x40A0_0000)),
        spec_perceive(team, other_team, distance) == Some(PerceptionType::EnemySpotted) ==> team != other_team,
        spec_perceive(team, other_team, distance) matches Some(p) ==> p == PerceptionType::EnemySpotted || p
            == PerceptionType::AllyInDanger,
{
}

/// A leader coordinates a follower exactly when the leader leads and may give
/// orders, the follower may take orders and is on the leader's team, and the
/// follower stands no farther than the leader's radius.
pub proof fn law_coordination(leader: AICoordination, follower: AICoordination, distance: u32)
    ensures
        spec_coordinates(leader, follower, distance) ==> leader.role == AIRole::Leader && leader.can_give_orders
            && follower.can_receive_orders && follower.team_id == leader.team_id
            && !is_nan(distance) && !is_nan(leader.coordination_radius)
            && order_key(distance) <= order_key(leader.coordination_radius),
        leader.role == AIRole::Leader && leader.can_give_orders && follower.can_receive_orders
            && follower.team_id == leader.team_id && spec_le(distance, leader.coordination_radius)
            ==> spec_coordinates(leader, follower, distance),
{
}

} // verus!
