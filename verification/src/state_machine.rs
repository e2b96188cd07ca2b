//! A state machine for AI entities: a current state, the state before it, and
//! a table of transitions from a state and a trigger to the next state.
//!
//! The time spent in each state is kept by the caller; a transition reports
//! whether it fired, so that the caller can restart the timer of the new state.
use vstd::prelude::*;
use crate::keyed::{KeyEq, KeyedVec};
use crate::float_bits::{f32_gt, spec_lt, F32_ZERO};

verus! {

/// Generic AI states that can be used in any game.
#[derive(Clone, Debug, PartialEq, Eq, Hash)]
pub enum AIState {
    Idle,
    Gathering,
    Building,
    Attacking,
    Defending,
    Retreating,
    Expanding,
    Scouting,
    Researching,
    Trading,
    Custom(String),
}

/// An [`AIState`] as a mathematical value: a custom state by its characters.
pub enum StateView {
    Idle,
    Gathering,
    Building,
    Attacking,
    Defending,
    Retreating,
    Expanding,
    Scouting,
    Researching,
    Trading,
    Custom(Seq<char>),
}

impl View for AIState {
    type V = StateView;

    open spec fn view(&self) -> StateView {
        match self {
            AIState::Idle => StateView::Idle,
            AIState::Gathering => StateView::Gathering,
            AIState::Building => StateView::Building,
            AIState::Attacking => StateView::Attacking,
            AIState::Defending => StateView::Defending,
            AIState::Retreating => StateView::Retreating,
            AIState::Expanding => StateView::Expanding,
            AIState::Scouting => StateView::Scouting,
            AIState::Researching => StateView::Researching,
            AIState::Trading => StateView::Trading,
            AIState::Custom(s) => StateView::Custom(s@),
        }
    }
}

impl KeyEq for AIState {
    fn key_eq(&self, other: &Self) -> (r: bool) {
        match self {
            AIState::Idle => matches!(other, AIState::Idle),
            AIState::Gathering => matches!(other, AIState::Gathering),
            AIState::Building => matches!(other, AIState::Building),
            AIState::Attacking => matches!(other, AIState::Attacking),
            AIState::Defending => matches!(other, AIState::Defending),
            AIState::Retreating => matches!(other, AIState::Retreating),
            AIState::Expanding => matches!(other, AIState::Expanding),
            AIState::Scouting => matches!(other, AIState::Scouting),
            AIState::Researching => matches!(other, AIState::Researching),
            AIState::Trading => matches!(other, AIState::Trading),
            AIState::Custom(a) => match other {
                AIState::Custom(b) => *a == *b,
                _ => false,
            },
        }
    }
}

impl AIState {
    /// A copy of this state.
    pub fn duplicate(&self) -> (r: Self)
        ensures
            r@ == self@,
    {
        match self {
            AIState::Idle => AIState::Idle,
            AIState::Gathering => AIState::Gathering,
            AIState::Building => AIState::Building,
            AIState::Attacking => AIState::Attacking,
            AIState::Defending => AIState::Defending,
            AIState::Retreating => AIState::Retreating,
            AIState::Expanding => AIState::Expanding,
            AIState::Scouting => AIState::Scouting,
            AIState::Researching => AIState::Researching,
            AIState::Trading => AIState::Trading,
            AIState::Custom(s) => AIState::Custom(s.clone()),
        }
    }
}

/// Transition triggers for state changes.
#[derive(Clone, Debug, PartialEq, Eq, Hash)]
pub enum AITransition {
    ResourcesLow,
    ResourcesHigh,
    UnderAttack,
    EnemySpotted,
    EnemyDefeated,
    BuildingComplete,
    ResearchComplete,
    HealthLow,
    HealthHigh,
    GoalAchieved,
    Timeout,
    Custom(String),
}

/// An [`AITransition`] as a mathematical value: a custom trigger by its characters.
pub enum TriggerView {
    ResourcesLow,
    ResourcesHigh,
    UnderAttack,
    EnemySpotted,
    EnemyDefeated,
    BuildingComplete,
    ResearchComplete,
    HealthLow,
    HealthHigh,
    GoalAchieved,
    Timeout,
    Custom(Seq<char>),
}

impl View for AITransition {
    type V = TriggerView;

    open spec fn view(&self) -> TriggerView {
        match self {
            AITransition::ResourcesLow => TriggerView::ResourcesLow,
            AITransition::ResourcesHigh => TriggerView::ResourcesHigh,
            AITransition::UnderAttack => TriggerView::UnderAttack,
            AITransition::EnemySpotted => TriggerView::EnemySpotted,
            AITransition::EnemyDefeated => TriggerView::EnemyDefeated,
            AITransition::BuildingComplete => TriggerView::BuildingComplete,
            AITransition::ResearchComplete => TriggerView::ResearchComplete,
            AITransition::HealthLow => TriggerView::HealthLow,
            AITransition::HealthHigh => TriggerView::HealthHigh,
            AITransition::GoalAchieved => TriggerView::GoalAchieved,
            AITransition::Timeout => TriggerView::Timeout,
            AITransition::Custom(s) => TriggerView::Custom(s@),
        }
    }
}

impl KeyEq for AITransition {
    fn key_eq(&self, other: &Self) -> (r: bool) {
        match self {
            AITransition::ResourcesLow => matches!(other, AITransition::ResourcesLow),
            AITransition::ResourcesHigh => matches!(other, AITransition::ResourcesHigh),
            AITransition::UnderAttack => matches!(other, AITransition::UnderAttack),
            AITransition::EnemySpotted => matches!(other, AITransition::EnemySpotted),
            AITransition::EnemyDefeated => matches!(other, AITransition::EnemyDefeated),
            AITransition::BuildingComplete => matches!(other, AITransition::BuildingComplete),
            AITransition::ResearchComplete => matches!(other, AITransition::ResearchComplete),
            AITransition::HealthLow => matches!(other, AITransition::HealthLow),
            AITransition::HealthHigh => matches!(other, AITransition::HealthHigh),
            AITransition::GoalAchieved => matches!(other, AITransition::GoalAchieved),
            AITransition::Timeout => matches!(other, AITransition::Timeout),
            AITransition::Custom(a) => match other {
                AITransition::Custom(b) => *a == *b,
                _ => false,
            },
        }
    }
}

impl AITransition {
    /// A copy of this trigger.
    pub fn duplicate(&self) -> (r: Self)
        ensures
            r@ == self@,
    {
        match self {
            AITransition::ResourcesLow => AITransition::ResourcesLow,
            AITransition::ResourcesHigh => AITransition::ResourcesHigh,
            AITransition::UnderAttack => AITransition::UnderAttack,
            AITransition::EnemySpotted => AITransition::EnemySpotted,
            AITransition::EnemyDefeated => AITransition::EnemyDefeated,
            AITransition::BuildingComplete => AITransition::BuildingComplete,
            AITransition::ResearchComplete => AITransition::ResearchComplete,
            AITransition::HealthLow => AITransition::HealthLow,
            AITransition::HealthHigh => AITransition::HealthHigh,
            AITransition::GoalAchieved => AITransition::GoalAchieved,
            AITransition::Timeout => AITransition::Timeout,
            AITransition::Custom(s) => AITransition::Custom(s.clone()),
        }
    }
}

/// The transition table: from a state and a trigger to the next state.
pub type TransitionTable = KeyedVec<(AIState, AITransition), AIState>;

/// AI state machine for managing entity behavior states.
pub struct AIStateMachine {
    pub current_state: AIState,
    pub previous_state: Option<AIState>,
    pub state_transitions: TransitionTable,
    /// Seconds spent in each state since it was last entered (`f32` bit patterns).
    pub state_timers: KeyedVec<AIState, u32>,
    /// Seconds since the machine was made (an `f32` bit pattern).
    pub global_timer: u32,
}

/// The transitions that a default machine starts with.
pub open spec fn default_transitions() -> Map<(StateView, TriggerView), AIState> {
    Map::empty()
        .insert((StateView::Idle, TriggerView::ResourcesLow), AIState::Gathering)
        .insert((StateView::Idle, TriggerView::UnderAttack), AIState::Defending)
        .insert((StateView::Idle, TriggerView::EnemySpotted), AIState::Attacking)
        .insert((StateView::Gathering, TriggerView::ResourcesHigh), AIState::Building)
        .insert((StateView::Gathering, TriggerView::UnderAttack), AIState::Defending)
        .insert((StateView::Building, TriggerView::BuildingComplete), AIState::Idle)
        .insert((StateView::Building, TriggerView::UnderAttack), AIState::Defending)
        .insert((StateView::Attacking, TriggerView::HealthLow), AIState::Retreating)
        .insert((StateView::Attacking, TriggerView::EnemyDefeated), AIState::Idle)
        .insert((StateView::Defending, TriggerView::EnemyDefeated), AIState::Idle)
        .insert((StateView::Defending, TriggerView::HealthLow), AIState::Retreating)
        .insert((StateView::Retreating, TriggerView::HealthHigh), AIState::Idle)
}

/// `after` is `before` once `trigger` was offered: when the table holds a rule
/// for the current state and the trigger, the machine moved to its target,
/// remembers the state it left, and restarted the timer of the state entered;
/// otherwise nothing changed.
pub open spec fn transitioned(before: AIStateMachine, after: AIStateMachine, trigger: TriggerView) -> bool {
    let key = (before.current_state@, trigger);
    &&& after.state_transitions@ == before.state_transitions@
    &&& after.global_timer == before.global_timer
    &&& if before.state_transitions@.contains_key(key) {
        &&& after.current_state@ == before.state_transitions@[key]@
        &&& after.previous_state == Some(before.current_state)
        &&& after.state_timers@ == before.state_timers@.insert(after.current_state@, F32_ZERO)
    } else {
        &&& after.current_state == before.current_state
        &&& after.previous_state == before.previous_state
        &&& after.state_timers@ == before.state_timers@
    }
}

/// How long the machine has been in its current state: its timer, or 0 when it has none.
pub open spec fn state_duration(m: AIStateMachine) -> u32 {
    if m.state_timers@.contains_key(m.current_state@) {
        m.state_timers@[m.current_state@]
    } else {
        F32_ZERO
    }
}

/// Bit pattern of the `f32` value 30.0, the longest a state lasts before it times out.
pub const STATE_TIMEOUT: u32 = 0x41F0_0000;

impl Default for AIStateMachine {
    fn default() -> (m: Self)
        ensures
            m.current_state@ == StateView::Idle,
            m.previous_state is None,
            m.state_transitions@ == default_transitions(),
            m.state_timers@ == Map::<StateView, u32>::empty(),
            m.global_timer == F32_ZERO,
    {
        let mut m = AIStateMachine::new();
        m.add_transition(AIState::Idle, AITransition::ResourcesLow, AIState::Gathering);
        m.add_transition(AIState::Idle, AITransition::UnderAttack, AIState::Defending);
        m.add_transition(AIState::Idle, AITransition::EnemySpotted, AIState::Attacking);
        m.add_transition(AIState::Gathering, AITransition::ResourcesHigh, AIState::Building);
        m.add_transition(AIState::Gathering, AITransition::UnderAttack, AIState::Defending);
        m.add_transition(AIState::Building, AITransition::BuildingComplete, AIState::Idle);
        m.add_transition(AIState::Building, AITransition::UnderAttack, AIState::Defending);
        m.add_transition(AIState::Attacking, AITransition::HealthLow, AIState::Retreating);
        m.add_transition(AIState::Attacking, AITransition::EnemyDefeated, AIState::Idle);
        m.add_transition(AIState::Defending, AITransition::EnemyDefeated, AIState::Idle);
        m.add_transition(AIState::Defending, AITransition::HealthLow, AIState::Retreating);
        m.add_transition(AIState::Retreating, AITransition::HealthHigh, AIState::Idle);
        m
    }
}

impl AIStateMachine {
    /// A machine in the idle state with no transitions and no time spent.
    pub fn new() -> (m: Self)
        ensures
            m.current_state@ == StateView::Idle,
            m.previous_state is None,
            m.state_transitions@ == Map::<(StateView, TriggerView), AIState>::empty(),
            m.state_timers@ == Map::<StateView, u32>::empty(),
            m.global_timer == F32_ZERO,
    {
        AIStateMachine {
            current_state: AIState::Idle,
            previous_state: None,
            state_transitions: KeyedVec::new(),
            state_timers: KeyedVec::new(),
            global_timer: F32_ZERO,
        }
    }

    /// Attempts to move to a new state on `trigger`; true when a rule fired.
    pub fn transition(&mut self, trigger: AITransition) -> (fired: bool)
        ensures
            fired == old(self).state_transitions@.contains_key((old(self).current_state@, trigger@)),
            transitioned(*old(self), *final(self), trigger@),
    {
        let key = (self.current_state.duplicate(), trigger);
        match self.state_transitions.get(&key) {
            Some(new_state) => {
                let mut state = new_state.duplicate();
                let entered = new_state.duplicate();
                std::mem::swap(&mut self.current_state, &mut state);
                self.previous_state = Some(state);
                self.state_timers.insert(entered, F32_ZERO);
                true
            },
            None => false,
        }
    }

    /// Moves to `new_state` whatever the table says, remembering the state
    /// left and restarting the timer of the state entered.
    pub fn force_state(&mut self, new_state: AIState)
        ensures
            final(self).current_state == new_state,
            final(self).previous_state == Some(old(self).current_state),
            final(self).state_transitions@ == old(self).state_transitions@,
            final(self).state_timers@ == old(self).state_timers@.insert(new_state@, F32_ZERO),
            final(self).global_timer == old(self).global_timer,
    {
        let entered = new_state.duplicate();
        let mut state = new_state;
        std::mem::swap(&mut self.current_state, &mut state);
        self.previous_state = Some(state);
        self.state_timers.insert(entered, F32_ZERO);
    }

    /// How long the machine has been in its current state (0 when its timer
    /// never started), as an `f32` bit pattern.
    pub fn get_state_duration(&self) -> (d: u32)
        ensures
            d == state_duration(*self),
    {
        match self.state_timers.get(&self.current_state) {
            Some(t) => *t,
            None => F32_ZERO,
        }
    }

    /// Records the time after a frame: the machine's age and the timer of the
    /// current state (`f32` bit patterns, as the frame's length added to them
    /// gives them).
    pub fn set_timers(&mut self, global_timer: u32, state_timer: u32)
        ensures
            final(self).global_timer == global_timer,
            final(self).state_timers@ == old(self).state_timers@.insert(old(self).current_state@, state_timer),
            final(self).current_state == old(self).current_state,
            final(self).previous_state == old(self).previous_state,
            final(self).state_transitions@ == old(self).state_transitions@,
    {
        self.global_timer = global_timer;
        let current = self.current_state.duplicate();
        self.state_timers.insert(current, state_timer);
    }

    /// A state held for more than 30 seconds times out: the timeout trigger is
    /// offered to the machine. True when a rule fired.
    pub fn check_timeout(&mut self) -> (fired: bool)
        ensures
            spec_lt(STATE_TIMEOUT, state_duration(*old(self))) ==> {
                &&& fired == old(self).state_transitions@.contains_key((old(self).current_state@, TriggerView::Timeout))
                &&& transitioned(*old(self), *final(self), TriggerView::Timeout)
            },
            !spec_lt(STATE_TIMEOUT, state_duration(*old(self))) ==> !fired && *final(self) == *old(self),
    {
        if f32_gt(self.get_state_duration(), STATE_TIMEOUT) {
            self.transition(AITransition::Timeout)
        } else {
            false
        }
    }

    /// Adds (or replaces) the rule from `from` on `trigger` to `to`.
    pub fn add_transition(&mut self, from: AIState, trigger: AITransition, to: AIState)
        ensures
            final(self).state_transitions@ == old(self).state_transitions@.insert((from@, trigger@), to),
            final(self).current_state == old(self).current_state,
            final(self).previous_state == old(self).previous_state,
            final(self).state_timers@ == old(self).state_timers@,
            final(self).global_timer == old(self).global_timer,
    {
        self.state_transitions.insert((from, trigger), to);
    }

    /// Whether a rule exists for the current state and `trigger`.
    pub fn can_transition(&self, trigger: &AITransition) -> (r: bool)
        ensures
            r == self.state_transitions@.contains_key((self.current_state@, trigger@)),
    {
        let key = (self.current_state.duplicate(), trigger.duplicate());
        self.state_transitions.contains_key(&key)
    }
}

/// A rule added for the current state fires on its trigger and leads to its
/// target, whatever the table held for that state and trigger before.
pub proof fn law_added_rule_fires(
    before: AIStateMachine,
    after_add: AIStateMachine,
    after: AIStateMachine,
    from: AIState,
    trigger: AITransition,
    to: AIState,
)
    requires
        before.current_state@ == from@,
        after_add.current_state == before.current_state,
        after_add.state_transitions@ == before.state_transitions@.insert((from@, trigger@), to),
        transitioned(after_add, after, trigger@),
    ensures
        after.current_state@ == to@,
        after.previous_state == Some(before.current_state),
{
}

/// Hierarchical state machine: a root state, and a sub-machine for some of the
/// root states, the one of the current root state being active.
pub struct HierarchicalStateMachine {
    pub root_state: AIState,
    pub sub_states: KeyedVec<AIState, AIStateMachine>,
    pub active_sub_state: Option<AIState>,
}

impl Default for HierarchicalStateMachine {
    fn default() -> (m: Self)
        ensures
            m.root_state@ == StateView::Idle,
            m.sub_states@ == Map::<StateView, AIStateMachine>::empty(),
            m.active_sub_state is None,
    {
        Self::new()
    }
}

impl HierarchicalStateMachine {
    /// An idle root with no sub-machines.
    pub fn new() -> (m: Self)
        ensures
            m.root_state@ == StateView::Idle,
            m.sub_states@ == Map::<StateView, AIStateMachine>::empty(),
            m.active_sub_state is None,
    {
        HierarchicalStateMachine {
            root_state: AIState::Idle,
            sub_states: KeyedVec::new(),
            active_sub_state: None,
        }
    }

    /// Attaches `sub_machine` to the root state `parent`.
    pub fn add_sub_state_machine(&mut self, parent: AIState, sub_machine: AIStateMachine)
        ensures
            final(self).sub_states@ == old(self).sub_states@.insert(parent@, sub_machine),
            final(self).root_state == old(self).root_state,
            final(self).active_sub_state == old(self).active_sub_state,
    {
        self.sub_states.insert(parent, sub_machine);
    }

    /// Moves the root to `new_state`; its sub-machine, if it has one, becomes active.
    pub fn transition_root(&mut self, new_state: AIState)
        ensures
            final(self).root_state@ == new_state@,
            final(self).sub_states@ == old(self).sub_states@,
            old(self).sub_states@.contains_key(new_state@) ==> final(self).active_sub_state == Some(new_state),
            !old(self).sub_states@.contains_key(new_state@) ==> final(self).active_sub_state is None,
    {
        self.root_state = new_state.duplicate();
        if self.sub_states.contains_key(&new_state) {
            self.active_sub_state = Some(new_state);
        } else {
            self.active_sub_state = None;
        }
    }

    /// Offers `trigger` to the active sub-machine; true when one of its rules fired.
    pub fn transition_sub(&mut self, trigger: AITransition) -> (fired: bool)
        ensures
            final(self).root_state == old(self).root_state,
            final(self).active_sub_state == old(self).active_sub_state,
            final(self).sub_states@.dom() == old(self).sub_states@.dom(),
            match old(self).active_sub_state {
                Some(active) => if old(self).sub_states@.contains_key(active@) {
                    let before = old(self).sub_states@[active@];
                    &&& fired == before.state_transitions@.contains_key((before.current_state@, trigger@))
                    &&& transitioned(before, final(self).sub_states@[active@], trigger@)
                    &&& forall|s: StateView| s != active@ && #[trigger] old(self).sub_states@.contains_key(s)
                        ==> final(self).sub_states@[s] == old(self).sub_states@[s]
                } else {
                    !fired && final(self).sub_states@ == old(self).sub_states@
                },
                None => !fired && final(self).sub_states@ == old(self).sub_states@,
            },
    {
        match &self.active_sub_state {
            Some(active) => {
                let key = active.duplicate();
                match self.sub_states.remove(&key) {
                    Some(mut sub_machine) => {
                        let fired = sub_machine.transition(trigger);
                        self.sub_states.insert(key, sub_machine);
                        proof {
                            assert(self.sub_states@.dom() =~= old(self).sub_states@.dom());
                        }
                        fired
                    },
                    None => false,
                }
            },
            None => false,
        }
    }
}

} // verus!
