//! The unit AI state machine: states a unit can be in, the triggers that move
//! it between them, the data the current state works on, and the timer rules
//! that move idle and searching units on by themselves.
//!
//! `f32` values are carried as their bit patterns (see [`crate::float_bits`]);
//! entities as their `u64` bits.
use vstd::prelude::*;
use crate::float_bits::{f32_gt, spec_lt, Vec3Bits, F32_FIVE, F32_TEN, F32_ZERO};
use crate::keyed::{KeyEq, KeyedVec};

verus! {

/// The states an AI unit can be in.
#[derive(Clone, Copy, Debug, PartialEq, Eq, Hash, Structural)]
pub enum AIState {
    Idle,
    Patrolling,
    Attacking,
    Fleeing,
    Following,
    Gathering,
    Defending,
    Building,
    Retreating,
    Searching,
}

/// Triggers that cause state transitions.
#[derive(Clone, Copy, Debug, PartialEq, Eq, Hash, Structural)]
pub enum StateTransitionTrigger {
    EnemyDetected,
    EnemyLost,
    HealthLow,
    HealthRestored,
    TargetDestroyed,
    ResourceFound,
    ResourceGathered,
    OrderReceived,
    PathBlocked,
    TimerExpired,
    AlertRaised,
    AllClear,
}

impl View for AIState {
    type V = AIState;

    open spec fn view(&self) -> AIState {
        *self
    }
}

impl KeyEq for AIState {
    fn key_eq(&self, other: &Self) -> (r: bool) {
        *self == *other
    }
}

impl View for StateTransitionTrigger {
    type V = StateTransitionTrigger;

    open spec fn view(&self) -> StateTransitionTrigger {
        *self
    }
}

impl KeyEq for StateTransitionTrigger {
    fn key_eq(&self, other: &Self) -> (r: bool) {
        *self == *other
    }
}

/// Data associated with the current state.
#[derive(Clone, Debug)]
pub struct StateData {
    pub target_entity: Option<u64>,
    pub target_position: Option<Vec3Bits>,
    pub patrol_points: Vec<Vec3Bits>,
    pub current_patrol_index: usize,
    pub home_position: Vec3Bits,
    pub alert_level: u32,
    pub last_enemy_position: Option<Vec3Bits>,
}

/// Fresh state data: no target, no patrol, home at the origin, no alert.
pub open spec fn is_default_state_data(d: StateData) -> bool {
    &&& d.target_entity is None
    &&& d.target_position is None
    &&& d.patrol_points@.len() == 0
    &&& d.current_patrol_index == 0
    &&& d.home_position == (Vec3Bits { x: F32_ZERO, y: F32_ZERO, z: F32_ZERO })
    &&& d.alert_level == F32_ZERO
    &&& d.last_enemy_position is None
}

impl Default for StateData {
    fn default() -> (d: Self)
        ensures
            is_default_state_data(d),
    {
        StateData {
            target_entity: None,
            target_position: None,
            patrol_points: Vec::new(),
            current_patrol_index: 0,
            home_position: Vec3Bits { x: F32_ZERO, y: F32_ZERO, z: F32_ZERO },
            alert_level: F32_ZERO,
            last_enemy_position: None,
        }
    }
}

/// The transition rules: from a state and a trigger to the next state.
pub type TransitionRules = KeyedVec<(AIState, StateTransitionTrigger), AIState>;

/// State machine component that manages AI state transitions.
pub struct AIStateMachine {
    pub current_state: AIState,
    pub previous_state: Option<AIState>,
    /// Seconds spent in the current state, as an `f32` bit pattern.
    pub state_timer: u32,
    pub transition_rules: TransitionRules,
    pub state_data: StateData,
}

/// The rules that a default machine starts with.
pub open spec fn default_rules() -> Map<(AIState, StateTransitionTrigger), AIState> {
    Map::empty()
        .insert((AIState::Idle, StateTransitionTrigger::EnemyDetected), AIState::Attacking)
        .insert((AIState::Idle, StateTransitionTrigger::OrderReceived), AIState::Following)
        .insert((AIState::Idle, StateTransitionTrigger::ResourceFound), AIState::Gathering)
        .insert((AIState::Idle, StateTransitionTrigger::TimerExpired), AIState::Patrolling)
        .insert((AIState::Patrolling, StateTransitionTrigger::EnemyDetected), AIState::Attacking)
        .insert((AIState::Patrolling, StateTransitionTrigger::AlertRaised), AIState::Searching)
        .insert((AIState::Patrolling, StateTransitionTrigger::OrderReceived), AIState::Following)
        .insert((AIState::Attacking, StateTransitionTrigger::HealthLow), AIState::Fleeing)
        .insert((AIState::Attacking, StateTransitionTrigger::TargetDestroyed), AIState::Searching)
        .insert((AIState::Attacking, StateTransitionTrigger::EnemyLost), AIState::Searching)
        .insert((AIState::Fleeing, StateTransitionTrigger::HealthRestored), AIState::Idle)
        .insert((AIState::Fleeing, StateTransitionTrigger::EnemyDetected), AIState::Retreating)
        .insert((AIState::Following, StateTransitionTrigger::EnemyDetected), AIState::Attacking)
        .insert((AIState::Following, StateTransitionTrigger::OrderReceived), AIState::Idle)
        .insert((AIState::Gathering, StateTransitionTrigger::ResourceGathered), AIState::Idle)
        .insert((AIState::Gathering, StateTransitionTrigger::EnemyDetected), AIState::Defending)
        .insert((AIState::Searching, StateTransitionTrigger::EnemyDetected), AIState::Attacking)
        .insert((AIState::Searching, StateTransitionTrigger::TimerExpired), AIState::Patrolling)
        .insert((AIState::Searching, StateTransitionTrigger::AllClear), AIState::Idle)
}

/// The machine once `trigger` was offered: a matching rule moves it to its
/// target, remembers the state left and restarts the timer; without one nothing
/// changes.
pub open spec fn after_trigger(m: AIStateMachine, trigger: StateTransitionTrigger) -> AIStateMachine {
    let key = (m.current_state, trigger);
    if m.transition_rules@.contains_key(key) {
        AIStateMachine {
            current_state: m.transition_rules@[key],
            previous_state: Some(m.current_state),
            state_timer: F32_ZERO,
            ..m
        }
    } else {
        m
    }
}

/// How long, in whole seconds, a state may last before its timer expires:
/// idle units start patrolling after 5 seconds and searching units after 10.
pub open spec fn timer_limit(state: AIState) -> Option<u32> {
    match state {
        AIState::Idle => Some(F32_FIVE),
        AIState::Searching => Some(F32_TEN),
        _ => None,
    }
}

impl Default for AIStateMachine {
    fn default() -> (m: Self)
        ensures
            m.current_state == AIState::Idle,
            m.previous_state is None,
            m.state_timer == F32_ZERO,
            m.transition_rules@ == default_rules(),
            is_default_state_data(m.state_data),
    {
        let mut rules: TransitionRules = KeyedVec::new();
        rules.insert((AIState::Idle, StateTransitionTrigger::EnemyDetected), AIState::Attacking);
        rules.insert((AIState::Idle, StateTransitionTrigger::OrderReceived), AIState::Following);
        rules.insert((AIState::Idle, StateTransitionTrigger::ResourceFound), AIState::Gathering);
        rules.insert((AIState::Idle, StateTransitionTrigger::TimerExpired), AIState::Patrolling);
        rules.insert((AIState::Patrolling, StateTransitionTrigger::EnemyDetected), AIState::Attacking);
        rules.insert((AIState::Patrolling, StateTransitionTrigger::AlertRaised), AIState::Searching);
        rules.insert((AIState::Patrolling, StateTransitionTrigger::OrderReceived), AIState::Following);
        rules.insert((AIState::Attacking, StateTransitionTrigger::HealthLow), AIState::Fleeing);
        rules.insert((AIState::Attacking, StateTransitionTrigger::TargetDestroyed), AIState::Searching);
        rules.insert((AIState::Attacking, StateTransitionTrigger::EnemyLost), AIState::Searching);
        rules.insert((AIState::Fleeing, StateTransitionTrigger::HealthRestored), AIState::Idle);
        rules.insert((AIState::Fleeing, StateTransitionTrigger::EnemyDetected), AIState::Retreating);
        rules.insert((AIState::Following, StateTransitionTrigger::EnemyDetected), AIState::Attacking);
        rules.insert((AIState::Following, StateTransitionTrigger::OrderReceived), AIState::Idle);
        rules.insert((AIState::Gathering, StateTransitionTrigger::ResourceGathered), AIState::Idle);
        rules.insert((AIState::Gathering, StateTransitionTrigger::EnemyDetected), AIState::Defending);
        rules.insert((AIState::Searching, StateTransitionTrigger::EnemyDetected), AIState::Attacking);
        rules.insert((AIState::Searching, StateTransitionTrigger::TimerExpired), AIState::Patrolling);
        rules.insert((AIState::Searching, StateTransitionTrigger::AllClear), AIState::Idle);
        AIStateMachine {
            current_state: AIState::Idle,
            previous_state: None,
            state_timer: F32_ZERO,
            transition_rules: rules,
            state_data: StateData::default(),
        }
    }
}

impl AIStateMachine {
    /// Offers `trigger`; true when a rule fired.
    pub fn transition(&mut self, trigger: StateTransitionTrigger) -> (fired: bool)
        ensures
            fired == old(self).transition_rules@.contains_key((old(self).current_state, trigger)),
            *final(self) == after_trigger(*old(self), trigger),
    {
        let key = (self.current_state, trigger);
        match self.transition_rules.get(&key) {
            Some(new_state) => {
                self.previous_state = Some(self.current_state);
                self.current_state = *new_state;
                self.state_timer = F32_ZERO;
                true
            },
            None => false,
        }
    }

    /// Moves to `new_state` whatever the rules say.
    pub fn force_state(&mut self, new_state: AIState)
        ensures
            final(self).current_state == new_state,
            final(self).previous_state == Some(old(self).current_state),
            final(self).state_timer == F32_ZERO,
            final(self).transition_rules@ == old(self).transition_rules@,
            final(self).state_data == old(self).state_data,
    {
        self.previous_state = Some(self.current_state);
        self.current_state = new_state;
        self.state_timer = F32_ZERO;
    }

    /// Records that `elapsed` seconds (an `f32` bit pattern) have passed in the
    /// current state, and lets the timer expire when the state has outlasted
    /// its limit.
    pub fn apply_timer(&mut self, elapsed: u32)
        ensures
            ({
                let timed = AIStateMachine { state_timer: elapsed, ..*old(self) };
                match timer_limit(old(self).current_state) {
                    Some(limit) if spec_lt(limit, elapsed) => *final(self) == after_trigger(
                        timed,
                        StateTransitionTrigger::TimerExpired,
                    ),
                    _ => *final(self) == timed,
                }
            }),
    {
        self.state_timer = elapsed;
        match self.current_state {
            AIState::Idle => {
                if f32_gt(self.state_timer, F32_FIVE) {
                    self.transition(StateTransitionTrigger::TimerExpired);
                }
            },
            AIState::Searching => {
                if f32_gt(self.state_timer, F32_TEN) {
                    self.transition(StateTransitionTrigger::TimerExpired);
                }
            },
            _ => {},
        }
    }

    /// Replaces the patrol route and starts it from its first point.
    pub fn set_patrol_points(&mut self, points: Vec<Vec3Bits>)
        ensures
            final(self).state_data == (StateData { patrol_points: points, current_patrol_index: 0, ..old(self).state_data }),
            final(self).current_state == old(self).current_state,
            final(self).previous_state == old(self).previous_state,
            final(self).state_timer == old(self).state_timer,
            final(self).transition_rules == old(self).transition_rules,
    {
        self.state_data.patrol_points = points;
        self.state_data.current_patrol_index = 0;
    }

    /// The next point of the patrol route, which then moves on, wrapping around
    /// at its end; none when the route is empty.
    pub fn get_next_patrol_point(&mut self) -> (p: Option<Vec3Bits>)
        requires
            old(self).state_data.patrol_points@.len() > 0 ==> old(self).state_data.current_patrol_index
                < old(self).state_data.patrol_points@.len(),
        ensures
            ({
                let points = old(self).state_data.patrol_points@;
                let i = old(self).state_data.current_patrol_index;
                if points.len() == 0 {
                    p is None && final(self).state_data.current_patrol_index == i
                } else {
                    &&& p == Some(points[i as int])
                    &&& final(self).state_data.current_patrol_index == (i + 1) % (points.len() as int)
                }
            }),
            final(self).state_data == (StateData { current_patrol_index: final(self).state_data.current_patrol_index, ..old(self).state_data }),
            final(self).current_state == old(self).current_state,
            final(self).previous_state == old(self).previous_state,
            final(self).state_timer == old(self).state_timer,
            final(self).transition_rules == old(self).transition_rules,
    {
        if self.state_data.patrol_points.len() == 0 {
            return None;
        }
        let point = self.state_data.patrol_points[self.state_data.current_patrol_index];
        self.state_data.current_patrol_index = (self.state_data.current_patrol_index + 1)
            % self.state_data.patrol_points.len();
        Some(point)
    }
}

impl AIStateMachine {
    /// One step of patrolling: a unit heading nowhere takes the next point of
    /// its route as its target and is sent there (the point is given back); a
    /// unit that `reached` its target (within 2 units) drops it.
    pub fn patrol_step(&mut self, reached: bool) -> (sent_to: Option<Vec3Bits>)
        requires
            old(self).state_data.patrol_points@.len() > 0 ==> old(self).state_data.current_patrol_index
                < old(self).state_data.patrol_points@.len(),
        ensures
            final(self).current_state == old(self).current_state,
            final(self).previous_state == old(self).previous_state,
            final(self).state_timer == old(self).state_timer,
            final(self).transition_rules == old(self).transition_rules,
            final(self).state_data == (StateData {
                target_position: final(self).state_data.target_position,
                current_patrol_index: final(self).state_data.current_patrol_index,
                ..old(self).state_data
            }),
            ({
                let points = old(self).state_data.patrol_points@;
                let i = old(self).state_data.current_patrol_index;
                match old(self).state_data.target_position {
                    None => if points.len() == 0 {
                        sent_to is None && final(self).state_data.target_position is None
                            && final(self).state_data.current_patrol_index == i
                    } else {
                        &&& sent_to == Some(points[i as int])
                        &&& final(self).state_data.target_position == Some(points[i as int])
                        &&& final(self).state_data.current_patrol_index == (i + 1) % (points.len() as int)
                    },
                    Some(t) => {
                        &&& sent_to is None
                        &&& final(self).state_data.current_patrol_index == i
                        &&& final(self).state_data.target_position == (if reached { None } else { Some(t) })
                    },
                }
            }),
    {
        if self.state_data.target_position.is_none() {
            let next = self.get_next_patrol_point();
            if let Some(point) = next {
                self.state_data.target_position = Some(point);
            }
            next
        } else {
            if reached {
                self.state_data.target_position = None;
            }
            None
        }
    }
}

/// What the caller observed of a unit's health: whether it is below the share
/// at which an attacking unit flees (30%), and whether it is above the share
/// at which a fleeing unit recovers (50%).
#[derive(Clone, Copy, Debug)]
pub struct HealthCheck {
    pub below_flee_threshold: bool,
    pub above_recovery_threshold: bool,
}

/// The machine once the surroundings were observed: a detected enemy becomes
/// the target of a unit that is not attacking yet and is offered as a
/// detection; a weak attacker is offered low health and a recovered fleeing
/// unit restored health; an attacker with a target that has fought for more
/// than 5 seconds in this state is offered the loss of its enemy.
pub open spec fn after_observation(
    m: AIStateMachine,
    closest_enemy: Option<u64>,
    health: Option<HealthCheck>,
) -> AIStateMachine {
    let m1 = match closest_enemy {
        Some(enemy) => if m.current_state != AIState::Attacking {
            after_trigger(
                AIStateMachine { state_data: StateData { target_entity: Some(enemy), ..m.state_data }, ..m },
                StateTransitionTrigger::EnemyDetected,
            )
        } else {
            m
        },
        None => m,
    };
    let m2 = match health {
        Some(h) => if h.below_flee_threshold && m1.current_state == AIState::Attacking {
            after_trigger(m1, StateTransitionTrigger::HealthLow)
        } else if h.above_recovery_threshold && m1.current_state == AIState::Fleeing {
            after_trigger(m1, StateTransitionTrigger::HealthRestored)
        } else {
            m1
        },
        None => m1,
    };
    if m2.current_state == AIState::Attacking && m2.state_data.target_entity is Some && spec_lt(
        F32_FIVE,
        m2.state_timer,
    ) {
        after_trigger(m2, StateTransitionTrigger::EnemyLost)
    } else {
        m2
    }
}

impl AIStateMachine {
    /// Offers the triggers that the observed surroundings call for: the closest
    /// enemy within detection range, if any, and the unit's health, if it has any.
    pub fn respond_to_observations(&mut self, closest_enemy: Option<u64>, health: Option<HealthCheck>)
        ensures
            *final(self) == after_observation(*old(self), closest_enemy, health),
    {
        if let Some(enemy) = closest_enemy {
            if self.current_state != AIState::Attacking {
                self.state_data.target_entity = Some(enemy);
                self.transition(StateTransitionTrigger::EnemyDetected);
            }
        }
        if let Some(h) = health {
            if h.below_flee_threshold && self.current_state == AIState::Attacking {
                self.transition(StateTransitionTrigger::HealthLow);
            } else if h.above_recovery_threshold && self.current_state == AIState::Fleeing {
                self.transition(StateTransitionTrigger::HealthRestored);
            }
        }
        if self.current_state == AIState::Attacking && self.state_data.target_entity.is_some() {
            if f32_gt(self.state_timer, F32_FIVE) {
                self.transition(StateTransitionTrigger::EnemyLost);
            }
        }
    }
}

/// Where a patrol route of `len` points stands after `k` points were handed
/// out since it was set.
pub open spec fn patrol_index_after(len: nat, k: nat) -> int
    decreases k,
{
    if k == 0 {
        0
    } else {
        (patrol_index_after(len, (k - 1) as nat) + 1) % (len as int)
    }
}

/// Walking a patrol route visits its points in order and comes back to the
/// first after the last: after `k` points were handed out since the route was
/// set, the next one is the point at `k` modulo the route's length.
pub proof fn law_patrol_cycles(len: nat, k: nat)
    requires
        len > 0,
    ensures
        patrol_index_after(len, k) == (k as int) % (len as int),
    decreases k,
{
    if k > 0 {
        let prev = (k - 1) as nat;
        law_patrol_cycles(len, prev);
        let m = len as int;
        let p = prev as int;
        assert(patrol_index_after(len, prev) == p % m);
        assert(patrol_index_after(len, k) == (p % m + 1) % m);
        vstd::arithmetic::div_mod::lemma_add_mod_noop_right(1, p, m);
        assert((1 + p % m) % m == (1 + p) % m);
        assert(1 + p == k as int);
    } else {
        vstd::arithmetic::div_mod::lemma_small_mod(0, len);
    }
}

/// An attacking unit does not react to sightings: what it does on observing
/// its surroundings is the same whether or not an enemy is in view.
pub proof fn law_attacker_ignores_sightings(m: AIStateMachine, closest_enemy: Option<u64>, health: Option<HealthCheck>)
    requires
        m.current_state == AIState::Attacking,
    ensures
        after_observation(m, closest_enemy, health) == after_observation(m, None, health),
{
}

/// An attacking unit whose health is below the flee threshold is offered
/// low health, whatever it sees: it moves to the state its rules give for low
/// health in an attack (fleeing, with the default rules), remembers that it
/// was attacking and restarts its timer.
pub proof fn law_hurt_attacker_flees(m: AIStateMachine, closest_enemy: Option<u64>, h: HealthCheck)
    requires
        m.current_state == AIState::Attacking,
        h.below_flee_threshold,
        m.transition_rules@.contains_key((AIState::Attacking, StateTransitionTrigger::HealthLow)),
    ensures
        after_observation(m, closest_enemy, Some(h)).current_state
            == m.transition_rules@[(AIState::Attacking, StateTransitionTrigger::HealthLow)],
        after_observation(m, closest_enemy, Some(h)).previous_state == Some(AIState::Attacking),
        after_observation(m, closest_enemy, Some(h)).state_timer == F32_ZERO,
        m.transition_rules@ == default_rules() ==> after_observation(m, closest_enemy, Some(h)).current_state
            == AIState::Fleeing,
{
    assert(!spec_lt(F32_FIVE, F32_ZERO));
}

/// A unit that is not attacking and sees an enemy takes it as its target and
/// is offered the detection; with the default rules an idle, patrolling,
/// following or searching unit starts attacking it.
pub proof fn law_sighting_starts_attack(m: AIStateMachine, enemy: u64)
    requires
        m.current_state != AIState::Attacking,
    ensures
        after_observation(m, Some(enemy), None).state_data.target_entity == Some(enemy),
        m.transition_rules@ == default_rules() && (m.current_state == AIState::Idle || m.current_state
            == AIState::Patrolling || m.current_state == AIState::Following || m.current_state == AIState::Searching)
            ==> after_observation(m, Some(enemy), None).current_state == AIState::Attacking
            && after_observation(m, Some(enemy), None).previous_state == Some(m.current_state),
{
    assert(!spec_lt(F32_FIVE, F32_ZERO));
}

/// A fleeing unit that sees no enemy and has recovered is offered restored
/// health; with the default rules it goes back to idle.
pub proof fn law_recovered_unit_stops_fleeing(m: AIStateMachine, h: HealthCheck)
    requires
        m.current_state == AIState::Fleeing,
        h.above_recovery_threshold,
        m.transition_rules@ == default_rules(),
    ensures
        after_observation(m, None, Some(h)).current_state == AIState::Idle,
        after_observation(m, None, Some(h)).previous_state == Some(AIState::Fleeing),
{
}

/// An attacker with a target that has fought for more than five seconds and
/// is not weak is offered the loss of its enemy; with the default rules it
/// starts searching. One that has fought for five seconds or less keeps attacking.
pub proof fn law_long_fight_loses_enemy(m: AIStateMachine, closest_enemy: Option<u64>, health: Option<HealthCheck>)
    requires
        m.current_state == AIState::Attacking,
        m.state_data.target_entity is Some,
        m.transition_rules@ == default_rules(),
        health matches Some(h) ==> !h.below_flee_threshold,
    ensures
        spec_lt(0x40A0_0000, m.state_timer) ==> after_observation(m, closest_enemy, health).current_state
            == AIState::Searching,
        !spec_lt(0x40A0_0000, m.state_timer) ==> after_observation(m, closest_enemy, health) == m,
{
}

} // verus!
