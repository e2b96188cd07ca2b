//! A composable behavior tree: composite nodes (sequence, selector, parallel),
//! decorators (inverter, repeater, succeeder, failer) and leaf actions and
//! conditions that read a shared blackboard.
//!
//! `f32` values on the blackboard and on the tree are carried as their bit
//! patterns (see [`crate::float_bits`]); entities are carried as their `u64` bits.
use vstd::prelude::*;
use crate::float_bits::{f32_gt, spec_lt, Vec3Bits, F32_FIFTY, F32_HUNDRED, F32_ONE, F32_ZERO};
use crate::keyed::StrMap;

verus! {

/// Values that can be stored in the blackboard.
#[derive(Clone, Debug, PartialEq)]
pub enum BlackboardValue {
    Bool(bool),
    /// An `f32`, by its bit pattern.
    Float(u32),
    Int(i32),
    String(String),
    /// Three `f32` coordinates, by their bit patterns.
    Vec3(Vec3Bits),
    /// An entity, by its `u64` bits.
    Entity(u64),
}

/// Blackboard for sharing data between nodes.
pub struct Blackboard {
    values: StrMap<BlackboardValue>,
}

/// The value stored under `key`, if any.
pub open spec fn lookup(m: Map<Seq<char>, BlackboardValue>, key: Seq<char>) -> Option<BlackboardValue> {
    if m.contains_key(key) {
        Some(m[key])
    } else {
        None
    }
}

pub open spec fn spec_get_bool(m: Map<Seq<char>, BlackboardValue>, key: Seq<char>) -> Option<bool> {
    match lookup(m, key) {
        Some(BlackboardValue::Bool(v)) => Some(v),
        _ => None,
    }
}

pub open spec fn spec_get_float(m: Map<Seq<char>, BlackboardValue>, key: Seq<char>) -> Option<u32> {
    match lookup(m, key) {
        Some(BlackboardValue::Float(v)) => Some(v),
        _ => None,
    }
}

pub open spec fn spec_get_int(m: Map<Seq<char>, BlackboardValue>, key: Seq<char>) -> Option<i32> {
    match lookup(m, key) {
        Some(BlackboardValue::Int(v)) => Some(v),
        _ => None,
    }
}

pub open spec fn spec_get_string(m: Map<Seq<char>, BlackboardValue>, key: Seq<char>) -> Option<String> {
    match lookup(m, key) {
        Some(BlackboardValue::String(v)) => Some(v),
        _ => None,
    }
}

pub open spec fn spec_get_vec3(m: Map<Seq<char>, BlackboardValue>, key: Seq<char>) -> Option<Vec3Bits> {
    match lookup(m, key) {
        Some(BlackboardValue::Vec3(v)) => Some(v),
        _ => None,
    }
}

pub open spec fn spec_get_entity(m: Map<Seq<char>, BlackboardValue>, key: Seq<char>) -> Option<u64> {
    match lookup(m, key) {
        Some(BlackboardValue::Entity(v)) => Some(v),
        _ => None,
    }
}

impl View for Blackboard {
    type V = Map<Seq<char>, BlackboardValue>;

    closed spec fn view(&self) -> Map<Seq<char>, BlackboardValue> {
        self.values@
    }
}

impl Blackboard {
    /// An empty blackboard.
    pub fn new() -> (b: Self)
        ensures
            b@ == Map::<Seq<char>, BlackboardValue>::empty(),
    {
        Blackboard { values: StrMap::new() }
    }

    pub fn get_bool(&self, key: &str) -> (r: Option<bool>)
        ensures
            r == spec_get_bool(self@, key@),
    {
        match self.values.get(key) {
            Some(BlackboardValue::Bool(val)) => Some(*val),
            _ => None,
        }
    }

    /// The `f32` stored under `key`, by its bit pattern.
    pub fn get_float(&self, key: &str) -> (r: Option<u32>)
        ensures
            r == spec_get_float(self@, key@),
    {
        match self.values.get(key) {
            Some(BlackboardValue::Float(val)) => Some(*val),
            _ => None,
        }
    }

    pub fn get_int(&self, key: &str) -> (r: Option<i32>)
        ensures
            r == spec_get_int(self@, key@),
    {
        match self.values.get(key) {
            Some(BlackboardValue::Int(val)) => Some(*val),
            _ => None,
        }
    }

    pub fn get_string(&self, key: &str) -> (r: Option<String>)
        ensures
            r == spec_get_string(self@, key@),
    {
        match self.values.get(key) {
            Some(BlackboardValue::String(val)) => Some(val.clone()),
            _ => None,
        }
    }

    /// The three coordinates stored under `key`, by their bit patterns.
    pub fn get_vec3(&self, key: &str) -> (r: Option<Vec3Bits>)
        ensures
            r == spec_get_vec3(self@, key@),
    {
        match self.values.get(key) {
            Some(BlackboardValue::Vec3(v)) => Some(*v),
            _ => None,
        }
    }

    /// The entity stored under `key`, by its bits.
    pub fn get_entity(&self, key: &str) -> (r: Option<u64>)
        ensures
            r == spec_get_entity(self@, key@),
    {
        match self.values.get(key) {
            Some(BlackboardValue::Entity(bits)) => Some(*bits),
            _ => None,
        }
    }

    /// Stores `value` under `key`, replacing what was there.
    pub fn set(&mut self, key: String, value: BlackboardValue)
        ensures
            final(self)@ == old(self)@.insert(key@, value),
    {
        self.values.insert(key, value);
    }

    pub fn set_bool(&mut self, key: String, value: bool)
        ensures
            final(self)@ == old(self)@.insert(key@, BlackboardValue::Bool(value)),
    {
        self.values.insert(key, BlackboardValue::Bool(value));
    }

    /// Stores an `f32` given by its bit pattern.
    pub fn set_float(&mut self, key: String, value: u32)
        ensures
            final(self)@ == old(self)@.insert(key@, BlackboardValue::Float(value)),
    {
        self.values.insert(key, BlackboardValue::Float(value));
    }

    pub fn set_int(&mut self, key: String, value: i32)
        ensures
            final(self)@ == old(self)@.insert(key@, BlackboardValue::Int(value)),
    {
        self.values.insert(key, BlackboardValue::Int(value));
    }

    pub fn set_string(&mut self, key: String, value: String)
        ensures
            final(self)@ == old(self)@.insert(key@, BlackboardValue::String(value)),
    {
        self.values.insert(key, BlackboardValue::String(value));
    }

    /// Stores three `f32` coordinates given by their bit patterns.
    pub fn set_vec3(&mut self, key: String, value: Vec3Bits)
        ensures
            final(self)@ == old(self)@.insert(key@, BlackboardValue::Vec3(value)),
    {
        self.values.insert(key, BlackboardValue::Vec3(value));
    }

    /// Stores an entity given by its bits.
    pub fn set_entity(&mut self, key: String, value: u64)
        ensures
            final(self)@ == old(self)@.insert(key@, BlackboardValue::Entity(value)),
    {
        self.values.insert(key, BlackboardValue::Entity(value));
    }
}

impl Default for Blackboard {
    fn default() -> (b: Self)
        ensures
            b@ == Map::<Seq<char>, BlackboardValue>::empty(),
    {
        Blackboard::new()
    }
}

/// Behavior node types.
#[derive(Debug)]
pub enum BehaviorNode {
    Sequence(Vec<Box<BehaviorNode>>),
    Selector(Vec<Box<BehaviorNode>>),
    /// Children and the least number of them that must succeed.
    Parallel(Vec<Box<BehaviorNode>>, usize),
    Inverter(Box<BehaviorNode>),
    Repeater(Box<BehaviorNode>, u32),
    Succeeder(Box<BehaviorNode>),
    Failer(Box<BehaviorNode>),
    Action(ActionNode),
    Condition(ConditionNode),
}

/// Action node for executing behaviors.
#[derive(Clone, Debug)]
pub struct ActionNode {
    pub action_type: ActionType,
    pub name: String,
}

/// Generic action types.
#[derive(Clone, Debug)]
pub enum ActionType {
    MoveTo,
    Attack,
    Build,
    Gather,
    Patrol,
    Wait,
    Custom(String),
}

/// Condition node for checking state.
#[derive(Clone, Debug)]
pub struct ConditionNode {
    pub condition_type: ConditionType,
    pub name: String,
}

/// Generic condition types.
#[derive(Clone, Debug)]
pub enum ConditionType {
    HasTarget,
    HasResources,
    IsHealthy,
    IsUnderAttack,
    CanBuild,
    Custom(String),
}

/// Node execution result.
#[derive(Clone, Copy, Debug, PartialEq, Eq, Structural)]
pub enum NodeStatus {
    Success,
    Failure,
    Running,
}

/// What an action leaf reports: moving and attacking run while their target is
/// on the blackboard and fail without one; building, gathering and patrolling
/// run; waiting and custom actions succeed.
pub open spec fn action_status(action: ActionType, bb: Map<Seq<char>, BlackboardValue>) -> NodeStatus {
    match action {
        ActionType::MoveTo => if spec_get_vec3(bb, "move_target"@) is Some {
            NodeStatus::Running
        } else {
            NodeStatus::Failure
        },
        ActionType::Attack => if spec_get_entity(bb, "attack_target"@) is Some {
            NodeStatus::Running
        } else {
            NodeStatus::Failure
        },
        ActionType::Build => NodeStatus::Running,
        ActionType::Gather => NodeStatus::Running,
        ActionType::Patrol => NodeStatus::Running,
        ActionType::Wait => NodeStatus::Success,
        ActionType::Custom(_) => NodeStatus::Success,
    }
}

/// The `f32` under `key`, by its bit pattern, or 0.0 when there is none.
pub open spec fn float_or_zero(bb: Map<Seq<char>, BlackboardValue>, key: Seq<char>) -> u32 {
    match spec_get_float(bb, key) {
        Some(v) => v,
        None => F32_ZERO,
    }
}

/// Whether a condition leaf holds: an entity is stored under `target_key`, resources exceed 100,
/// health exceeds 50, the flags `under_attack` and `can_build` are set; custom
/// conditions always hold.
pub open spec fn condition_holds(condition: ConditionType, bb: Map<Seq<char>, BlackboardValue>, target_key: Seq<char>) -> bool {
    match condition {
        ConditionType::HasTarget => spec_get_entity(bb, target_key) is Some,
        ConditionType::HasResources => spec_lt(F32_HUNDRED, float_or_zero(bb, "resources"@)),
        ConditionType::IsHealthy => spec_lt(F32_FIFTY, float_or_zero(bb, "health"@)),
        ConditionType::IsUnderAttack => spec_get_bool(bb, "under_attack"@) == Some(true),
        ConditionType::CanBuild => spec_get_bool(bb, "can_build"@) == Some(true),
        ConditionType::Custom(_) => true,
    }
}

/// The first result that is not a success, from index `i` on; success when there is none.
pub open spec fn sequence_from(rs: Seq<NodeStatus>, i: int) -> NodeStatus
    decreases rs.len() - i,
{
    if i >= rs.len() || i < 0 {
        NodeStatus::Success
    } else if rs[i] == NodeStatus::Success {
        sequence_from(rs, i + 1)
    } else {
        rs[i]
    }
}

/// The first result that is not a failure, from index `i` on; failure when there is none.
pub open spec fn selector_from(rs: Seq<NodeStatus>, i: int) -> NodeStatus
    decreases rs.len() - i,
{
    if i >= rs.len() || i < 0 {
        NodeStatus::Failure
    } else if rs[i] == NodeStatus::Failure {
        selector_from(rs, i + 1)
    } else {
        rs[i]
    }
}

/// How many of the first `n` results equal `st`.
pub open spec fn count_status(rs: Seq<NodeStatus>, n: int, st: NodeStatus) -> nat
    decreases n,
{
    if n <= 0 {
        0
    } else {
        count_status(rs, n - 1, st) + if rs[n - 1] == st {
            1nat
        } else {
            0nat
        }
    }
}

/// A parallel node succeeds when at least `min_success` children succeed,
/// otherwise runs while some child runs, otherwise fails.
pub open spec fn parallel_status(rs: Seq<NodeStatus>, min_success: nat) -> NodeStatus {
    if count_status(rs, rs.len() as int, NodeStatus::Success) >= min_success {
        NodeStatus::Success
    } else if count_status(rs, rs.len() as int, NodeStatus::Running) > 0 {
        NodeStatus::Running
    } else {
        NodeStatus::Failure
    }
}

pub open spec fn invert(st: NodeStatus) -> NodeStatus {
    match st {
        NodeStatus::Success => NodeStatus::Failure,
        NodeStatus::Failure => NodeStatus::Success,
        NodeStatus::Running => NodeStatus::Running,
    }
}

/// What ticking `node` against the blackboard `bb` returns, where a target
/// condition looks for an entity under `target_key`.
pub open spec fn tick_result(node: BehaviorNode, bb: Map<Seq<char>, BlackboardValue>, target_key: Seq<char>) -> NodeStatus
    decreases node, 0int,
{
    match node {
        BehaviorNode::Sequence(children) => sequence_from(child_results(children@, bb, target_key), 0),
        BehaviorNode::Selector(children) => selector_from(child_results(children@, bb, target_key), 0),
        BehaviorNode::Parallel(children, min_success) => parallel_status(
            child_results(children@, bb, target_key),
            min_success as nat,
        ),
        BehaviorNode::Inverter(child) => invert(tick_result(*child, bb, target_key)),
        BehaviorNode::Repeater(child, times) => if times > 0 && tick_result(*child, bb, target_key)
            == NodeStatus::Failure {
            NodeStatus::Failure
        } else {
            NodeStatus::Success
        },
        BehaviorNode::Succeeder(_) => NodeStatus::Success,
        BehaviorNode::Failer(_) => NodeStatus::Failure,
        BehaviorNode::Action(action) => action_status(action.action_type, bb),
        BehaviorNode::Condition(condition) => if condition_holds(condition.condition_type, bb, target_key) {
            NodeStatus::Success
        } else {
            NodeStatus::Failure
        },
    }
}

/// The results of ticking each of `children`, in order.
pub open spec fn child_results(
    children: Seq<Box<BehaviorNode>>,
    bb: Map<Seq<char>, BlackboardValue>,
    target_key: Seq<char>,
) -> Seq<NodeStatus>
    decreases children, children.len(),
{
    if children.len() == 0 {
        Seq::empty()
    } else {
        child_results(children.subrange(0, children.len() - 1), bb, target_key).push(
            tick_result(*children[children.len() - 1], bb, target_key),
        )
    }
}

pub proof fn lemma_child_results(
    children: Seq<Box<BehaviorNode>>,
    bb: Map<Seq<char>, BlackboardValue>,
    target_key: Seq<char>,
)
    ensures
        child_results(children, bb, target_key).len() == children.len(),
        forall|i: int| 0 <= i < children.len() ==> #[trigger] child_results(children, bb, target_key)[i] == tick_result(*children[i], bb, target_key),
    decreases children.len(),
{
    if children.len() > 0 {
        let prefix = children.subrange(0, children.len() - 1);
        lemma_child_results(prefix, bb, target_key);
        assert forall|i: int| 0 <= i < children.len() implies #[trigger] child_results(children, bb, target_key)[i] == tick_result(*children[i], bb, target_key) by {
            if i < children.len() - 1 {
                assert(prefix[i] == children[i]);
            }
        }
    }
}

impl BehaviorNode {
    /// Executes the node against the blackboard and reports its status; a
    /// target condition looks for an entity under "attack_target".
    pub fn tick(&self, blackboard: &Blackboard) -> (r: NodeStatus)
        ensures
            r == tick_result(*self, blackboard@, "attack_target"@),
    {
        self.tick_with_target_key(blackboard, "attack_target")
    }

    /// Executes the node against the blackboard and reports its status; a
    /// target condition looks for an entity under `target_key`.
    #[verifier::loop_isolation(false)]
    pub fn tick_with_target_key(&self, blackboard: &Blackboard, target_key: &str) -> (r: NodeStatus)
        ensures
            r == tick_result(*self, blackboard@, target_key@),
        decreases self,
    {
        match self {
            BehaviorNode::Sequence(children) => {
                proof {
                    lemma_child_results(children@, blackboard@, target_key@);
                }
                let ghost rs = child_results(children@, blackboard@, target_key@);
                let mut i: usize = 0;
                while i < children.len()
                    invariant
                        i <= children@.len(),
                        rs.len() == children@.len(),
                        rs == child_results(children@, blackboard@, target_key@),
                        forall|j: int| 0 <= j < children@.len() ==> #[trigger] rs[j] == tick_result(*children@[j], blackboard@, target_key@),
                        sequence_from(rs, 0) == sequence_from(rs, i as int),
                    decreases children@.len() - i,
                {
                    proof {
                        assert(decreases_to!(*self => *children));
                        assert(decreases_to!(*children => children@));
                        assert(decreases_to!(children@ => children@[i as int]));
                    }
                    let st = children[i].tick_with_target_key(blackboard, target_key);
                    match st {
                        NodeStatus::Failure => {
                            assert(rs[i as int] == st);
                            return NodeStatus::Failure;
                        },
                        NodeStatus::Running => {
                            assert(rs[i as int] == st);
                            return NodeStatus::Running;
                        },
                        NodeStatus::Success => {},
                    }
                    i = i + 1;
                }
                NodeStatus::Success
            },
            BehaviorNode::Selector(children) => {
                proof {
                    lemma_child_results(children@, blackboard@, target_key@);
                }
                let ghost rs = child_results(children@, blackboard@, target_key@);
                let mut i: usize = 0;
                while i < children.len()
                    invariant
                        i <= children@.len(),
                        rs.len() == children@.len(),
                        rs == child_results(children@, blackboard@, target_key@),
                        forall|j: int| 0 <= j < children@.len() ==> #[trigger] rs[j] == tick_result(*children@[j], blackboard@, target_key@),
                        selector_from(rs, 0) == selector_from(rs, i as int),
                    decreases children@.len() - i,
                {
                    proof {
                        assert(decreases_to!(*self => *children));
                        assert(decreases_to!(*children => children@));
                        assert(decreases_to!(children@ => children@[i as int]));
                    }
                    let st = children[i].tick_with_target_key(blackboard, target_key);
                    match st {
                        NodeStatus::Success => {
                            assert(rs[i as int] == st);
                            return NodeStatus::Success;
                        },
                        NodeStatus::Running => {
                            assert(rs[i as int] == st);
                            return NodeStatus::Running;
                        },
                        NodeStatus::Failure => {},
                    }
                    i = i + 1;
                }
                NodeStatus::Failure
            },
            BehaviorNode::Parallel(children, min_success) => {
                proof {
                    lemma_child_results(children@, blackboard@, target_key@);
                }
                let ghost rs = child_results(children@, blackboard@, target_key@);
                let mut success_count: usize = 0;
                let mut has_running = false;
                let mut i: usize = 0;
                while i < children.len()
                    invariant
                        i <= children@.len(),
                        rs.len() == children@.len(),
                        rs == child_results(children@, blackboard@, target_key@),
                        forall|j: int| 0 <= j < children@.len() ==> #[trigger] rs[j] == tick_result(*children@[j], blackboard@, target_key@),
                        success_count == count_status(rs, i as int, NodeStatus::Success),
                        success_count <= i,
                        has_running == (count_status(rs, i as int, NodeStatus::Running) > 0),
                    decreases children@.len() - i,
                {
                    proof {
                        assert(decreases_to!(*self => *children));
                        assert(decreases_to!(*children => children@));
                        assert(decreases_to!(children@ => children@[i as int]));
                    }
                    let st = children[i].tick_with_target_key(blackboard, target_key);
                    match st {
                        NodeStatus::Success => success_count = success_count + 1,
                        NodeStatus::Running => has_running = true,
                        NodeStatus::Failure => {},
                    }
                    i = i + 1;
                }
                if success_count >= *min_success {
                    NodeStatus::Success
                } else if has_running {
                    NodeStatus::Running
                } else {
                    NodeStatus::Failure
                }
            },
            BehaviorNode::Inverter(child) => match child.tick_with_target_key(blackboard, target_key) {
                NodeStatus::Success => NodeStatus::Failure,
                NodeStatus::Failure => NodeStatus::Success,
                NodeStatus::Running => NodeStatus::Running,
            },
            BehaviorNode::Repeater(child, times) => {
                let mut k: u32 = 0;
                while k < *times
                    invariant
                        k <= *times,
                        k > 0 ==> tick_result(**child, blackboard@, target_key@) != NodeStatus::Failure,
                    decreases *times - k,
                {
                    if child.tick_with_target_key(blackboard, target_key) == NodeStatus::Failure {
                        return NodeStatus::Failure;
                    }
                    k = k + 1;
                }
                NodeStatus::Success
            },
            BehaviorNode::Succeeder(child) => {
                child.tick_with_target_key(blackboard, target_key);
                NodeStatus::Success
            },
            BehaviorNode::Failer(child) => {
                child.tick_with_target_key(blackboard, target_key);
                NodeStatus::Failure
            },
            BehaviorNode::Action(action) => execute_action(action, blackboard),
            BehaviorNode::Condition(condition) => {
                if check_condition(condition, blackboard, target_key) {
                    NodeStatus::Success
                } else {
                    NodeStatus::Failure
                }
            },
        }
    }
}

/// Executes an action leaf.
fn execute_action(action: &ActionNode, blackboard: &Blackboard) -> (r: NodeStatus)
    ensures
        r == action_status(action.action_type, blackboard@),
{
    match &action.action_type {
        ActionType::MoveTo => {
            if blackboard.get_vec3("move_target").is_some() {
                NodeStatus::Running
            } else {
                NodeStatus::Failure
            }
        },
        ActionType::Attack => {
            if blackboard.get_entity("attack_target").is_some() {
                NodeStatus::Running
            } else {
                NodeStatus::Failure
            }
        },
        ActionType::Build => NodeStatus::Running,
        ActionType::Gather => NodeStatus::Running,
        ActionType::Patrol => NodeStatus::Running,
        ActionType::Wait => NodeStatus::Success,
        ActionType::Custom(_) => NodeStatus::Success,
    }
}

fn float_or_zero_of(blackboard: &Blackboard, key: &str) -> (r: u32)
    ensures
        r == float_or_zero(blackboard@, key@),
{
    match blackboard.get_float(key) {
        Some(v) => v,
        None => F32_ZERO,
    }
}

/// Checks a condition leaf.
fn check_condition(condition: &ConditionNode, blackboard: &Blackboard, target_key: &str) -> (r: bool)
    ensures
        r == condition_holds(condition.condition_type, blackboard@, target_key@),
{
    match &condition.condition_type {
        ConditionType::HasTarget => blackboard.get_entity(target_key).is_some(),
        ConditionType::HasResources => f32_gt(float_or_zero_of(blackboard, "resources"), F32_HUNDRED),
        ConditionType::IsHealthy => f32_gt(float_or_zero_of(blackboard, "health"), F32_FIFTY),
        ConditionType::IsUnderAttack => match blackboard.get_bool("under_attack") {
            Some(v) => v,
            None => false,
        },
        ConditionType::CanBuild => match blackboard.get_bool("can_build") {
            Some(v) => v,
            None => false,
        },
        ConditionType::Custom(_) => true,
    }
}

/// Behavior tree: a root node, its blackboard, and how often it is ticked.
pub struct BehaviorTree {
    pub root: Box<BehaviorNode>,
    pub blackboard: Blackboard,
    /// Seconds between ticks, as an `f32` bit pattern.
    pub tick_rate: u32,
    /// Time of the last tick in seconds, as an `f32` bit pattern.
    pub last_tick: u32,
}

/// Behavior tree builder for convenient tree construction.
pub struct BehaviorTreeBuilder {
    nodes: Vec<Box<BehaviorNode>>,
}

/// The root that an empty builder gives: a succeeder around a wait action named "default".
pub open spec fn is_default_root(node: BehaviorNode) -> bool {
    node matches BehaviorNode::Succeeder(child) && *child matches BehaviorNode::Action(a)
        && a.action_type matches ActionType::Wait && a.name@ == "default"@
}

impl View for BehaviorTreeBuilder {
    type V = Seq<Box<BehaviorNode>>;

    closed spec fn view(&self) -> Seq<Box<BehaviorNode>> {
        self.nodes@
    }
}

impl Default for BehaviorTreeBuilder {
    fn default() -> (b: Self)
        ensures
            b@ == Seq::<Box<BehaviorNode>>::empty(),
    {
        Self::new()
    }
}

impl BehaviorTreeBuilder {
    /// A builder with no nodes.
    pub fn new() -> (b: Self)
        ensures
            b@ == Seq::<Box<BehaviorNode>>::empty(),
    {
        BehaviorTreeBuilder { nodes: Vec::new() }
    }

    /// Wraps every node added so far in one sequence.
    pub fn sequence(self) -> (b: Self)
        ensures
            b@.len() == 1,
            *b@[0] matches BehaviorNode::Sequence(children) && children@ == self@,
    {
        let sequence = BehaviorNode::Sequence(self.nodes);
        let mut nodes = Vec::new();
        nodes.push(Box::new(sequence));
        BehaviorTreeBuilder { nodes }
    }

    /// Wraps every node added so far in one selector.
    pub fn selector(self) -> (b: Self)
        ensures
            b@.len() == 1,
            *b@[0] matches BehaviorNode::Selector(children) && children@ == self@,
    {
        let selector = BehaviorNode::Selector(self.nodes);
        let mut nodes = Vec::new();
        nodes.push(Box::new(selector));
        BehaviorTreeBuilder { nodes }
    }

    /// Adds an action leaf after the nodes added so far.
    pub fn action(self, action_type: ActionType, name: &str) -> (b: Self)
        ensures
            b@.len() == self@.len() + 1,
            b@.subrange(0, self@.len() as int) == self@,
            *b@[self@.len() as int] matches BehaviorNode::Action(a) && a.action_type == action_type
                && a.name@ == name@,
    {
        let mut nodes = self.nodes;
        let action = BehaviorNode::Action(ActionNode { action_type, name: name.to_owned() });
        nodes.push(Box::new(action));
        BehaviorTreeBuilder { nodes }
    }

    /// Adds a condition leaf after the nodes added so far.
    pub fn condition(self, condition_type: ConditionType, name: &str) -> (b: Self)
        ensures
            b@.len() == self@.len() + 1,
            b@.subrange(0, self@.len() as int) == self@,
            *b@[self@.len() as int] matches BehaviorNode::Condition(c) && c.condition_type
                == condition_type && c.name@ == name@,
    {
        let mut nodes = self.nodes;
        let condition = BehaviorNode::Condition(ConditionNode { condition_type, name: name.to_owned() });
        nodes.push(Box::new(condition));
        BehaviorTreeBuilder { nodes }
    }

    /// The tree whose root is the first node added, or a succeeder around a wait
    /// action when none was; its blackboard is empty, it ticks once a second and
    /// has not ticked yet.
    pub fn build(self) -> (t: BehaviorTree)
        ensures
            self@.len() > 0 ==> *t.root == *self@[0],
            self@.len() == 0 ==> is_default_root(*t.root),
            t.blackboard@ == Map::<Seq<char>, BlackboardValue>::empty(),
            t.tick_rate == F32_ONE,
            t.last_tick == F32_ZERO,
    {
        let mut nodes = self.nodes;
        let root = if nodes.len() > 0 {
            nodes.remove(0)
        } else {
            Box::new(
                BehaviorNode::Succeeder(
                    Box::new(
                        BehaviorNode::Action(
                            ActionNode { action_type: ActionType::Wait, name: "default".to_owned() },
                        ),
                    ),
                ),
            )
        };
        BehaviorTree { root, blackboard: Blackboard::new(), tick_rate: F32_ONE, last_tick: F32_ZERO }
    }
}

/// Inverting twice gives back what the node itself reports.
pub proof fn law_double_inversion(node: BehaviorNode, bb: Map<Seq<char>, BlackboardValue>, target_key: Seq<char>)
    ensures
        tick_result(BehaviorNode::Inverter(Box::new(BehaviorNode::Inverter(Box::new(node)))), bb, target_key)
            == tick_result(node, bb, target_key),
{
    let inner = BehaviorNode::Inverter(Box::new(node));
    assert(tick_result(inner, bb, target_key) == invert(tick_result(node, bb, target_key)));
    assert(tick_result(BehaviorNode::Inverter(Box::new(inner)), bb, target_key) == invert(tick_result(inner, bb, target_key)));
}

/// A succeeder always succeeds and a failer always fails, whatever their child reports.
pub proof fn law_forced_outcomes(node: BehaviorNode, bb: Map<Seq<char>, BlackboardValue>, target_key: Seq<char>)
    ensures
        tick_result(BehaviorNode::Succeeder(Box::new(node)), bb, target_key) == NodeStatus::Success,
        tick_result(BehaviorNode::Failer(Box::new(node)), bb, target_key) == NodeStatus::Failure,
{
}

proof fn lemma_sequence_from_all(rs: Seq<NodeStatus>, i: int)
    requires
        0 <= i <= rs.len(),
    ensures
        sequence_from(rs, i) == NodeStatus::Success <==> (forall|j: int| i <= j < rs.len() ==> rs[j] == NodeStatus::Success),
    decreases rs.len() - i,
{
    if i < rs.len() {
        lemma_sequence_from_all(rs, i + 1);
    }
}

proof fn lemma_selector_from_all(rs: Seq<NodeStatus>, i: int)
    requires
        0 <= i <= rs.len(),
    ensures
        selector_from(rs, i) == NodeStatus::Failure <==> (forall|j: int| i <= j < rs.len() ==> rs[j] == NodeStatus::Failure),
    decreases rs.len() - i,
{
    if i < rs.len() {
        lemma_selector_from_all(rs, i + 1);
    }
}

/// A sequence succeeds exactly when every child succeeds, and a selector fails
/// exactly when every child fails.
pub proof fn law_composite_outcomes(children: Vec<Box<BehaviorNode>>, bb: Map<Seq<char>, BlackboardValue>, target_key: Seq<char>)
    ensures
        tick_result(BehaviorNode::Sequence(children), bb, target_key) == NodeStatus::Success <==> (forall|i: int|
            0 <= i < children@.len() ==> tick_result(*#[trigger] children@[i], bb, target_key) == NodeStatus::Success),
        tick_result(BehaviorNode::Selector(children), bb, target_key) == NodeStatus::Failure <==> (forall|i: int|
            0 <= i < children@.len() ==> tick_result(*#[trigger] children@[i], bb, target_key) == NodeStatus::Failure),
{
    lemma_child_results(children@, bb, target_key);
    let rs = child_results(children@, bb, target_key);
    lemma_sequence_from_all(rs, 0);
    lemma_selector_from_all(rs, 0);
    assert(forall|i: int| 0 <= i < children@.len() ==> rs[i] == tick_result(*#[trigger] children@[i], bb, target_key));
}

proof fn lemma_inverted_selector(rs: Seq<NodeStatus>, inv: Seq<NodeStatus>, i: int)
    requires
        rs.len() == inv.len(),
        forall|j: int| 0 <= j < rs.len() ==> inv[j] == invert(#[trigger] rs[j]),
        0 <= i <= rs.len(),
    ensures
        invert(sequence_from(rs, i)) == selector_from(inv, i),
    decreases rs.len() - i,
{
    if i < rs.len() {
        lemma_inverted_selector(rs, inv, i + 1);
        assert(inv[i] == invert(rs[i]));
    }
}

/// Inverting a sequence is the same as selecting among the inverted children.
pub proof fn law_inverted_sequence_is_selector(
    children: Vec<Box<BehaviorNode>>,
    inverted: Vec<Box<BehaviorNode>>,
    bb: Map<Seq<char>, BlackboardValue>,
    target_key: Seq<char>,
)
    requires
        inverted@.len() == children@.len(),
        forall|i: int| 0 <= i < children@.len() ==> *#[trigger] inverted@[i] == BehaviorNode::Inverter(children@[i]),
    ensures
        tick_result(BehaviorNode::Inverter(Box::new(BehaviorNode::Sequence(children))), bb, target_key)
            == tick_result(BehaviorNode::Selector(inverted), bb, target_key),
{
    lemma_child_results(children@, bb, target_key);
    lemma_child_results(inverted@, bb, target_key);
    let rs = child_results(children@, bb, target_key);
    let inv = child_results(inverted@, bb, target_key);
    assert forall|j: int| 0 <= j < rs.len() implies inv[j] == invert(#[trigger] rs[j]) by {
        assert(*inverted@[j] == BehaviorNode::Inverter(children@[j]));
    }
    lemma_inverted_selector(rs, inv, 0);
    let seq_node = BehaviorNode::Sequence(children);
    assert(tick_result(seq_node, bb, target_key) == sequence_from(rs, 0));
    assert(tick_result(BehaviorNode::Inverter(Box::new(seq_node)), bb, target_key) == invert(tick_result(seq_node, bb, target_key)));
    assert(tick_result(BehaviorNode::Selector(inverted), bb, target_key) == selector_from(inv, 0));
}

proof fn lemma_inverted_sequence(rs: Seq<NodeStatus>, inv: Seq<NodeStatus>, i: int)
    requires
        rs.len() == inv.len(),
        forall|j: int| 0 <= j < rs.len() ==> inv[j] == invert(#[trigger] rs[j]),
        0 <= i <= rs.len(),
    ensures
        invert(selector_from(rs, i)) == sequence_from(inv, i),
    decreases rs.len() - i,
{
    if i < rs.len() {
        lemma_inverted_sequence(rs, inv, i + 1);
        assert(inv[i] == invert(rs[i]));
    }
}

/// Inverting a selector is the same as sequencing the inverted children.
pub proof fn law_inverted_selector_is_sequence(
    children: Vec<Box<BehaviorNode>>,
    inverted: Vec<Box<BehaviorNode>>,
    bb: Map<Seq<char>, BlackboardValue>,
    target_key: Seq<char>,
)
    requires
        inverted@.len() == children@.len(),
        forall|i: int| 0 <= i < children@.len() ==> *#[trigger] inverted@[i] == BehaviorNode::Inverter(children@[i]),
    ensures
        tick_result(BehaviorNode::Inverter(Box::new(BehaviorNode::Selector(children))), bb, target_key)
            == tick_result(BehaviorNode::Sequence(inverted), bb, target_key),
{
    lemma_child_results(children@, bb, target_key);
    lemma_child_results(inverted@, bb, target_key);
    let rs = child_results(children@, bb, target_key);
    let inv = child_results(inverted@, bb, target_key);
    assert forall|j: int| 0 <= j < rs.len() implies inv[j] == invert(#[trigger] rs[j]) by {
        assert(*inverted@[j] == BehaviorNode::Inverter(children@[j]));
    }
    lemma_inverted_sequence(rs, inv, 0);
    let sel_node = BehaviorNode::Selector(children);
    assert(tick_result(sel_node, bb, target_key) == selector_from(rs, 0));
    assert(tick_result(BehaviorNode::Inverter(Box::new(sel_node)), bb, target_key) == invert(tick_result(sel_node, bb, target_key)));
    assert(tick_result(BehaviorNode::Sequence(inverted), bb, target_key) == sequence_from(inv, 0));
}

/// The leaf for `action_type`, named `name`.
pub open spec fn action_leaf(action_type: ActionType, name: String) -> BehaviorNode {
    BehaviorNode::Action(ActionNode { action_type, name })
}

/// The leaf for `condition_type`, named `name`.
pub open spec fn condition_leaf(condition_type: ConditionType, name: String) -> BehaviorNode {
    BehaviorNode::Condition(ConditionNode { condition_type, name })
}

/// Action leaves: moving runs exactly while a point is stored under
/// "move_target" and attacking exactly while an entity is stored under
/// "attack_target", failing otherwise; building, gathering and patrolling
/// always run; waiting and custom actions always succeed.
pub proof fn law_action_leaves(name: String, custom: String, bb: Map<Seq<char>, BlackboardValue>, target_key: Seq<char>)
    ensures
        tick_result(action_leaf(ActionType::MoveTo, name), bb, target_key) == if bb.contains_key("move_target"@)
            && bb["move_target"@] is Vec3 {
            NodeStatus::Running
        } else {
            NodeStatus::Failure
        },
        tick_result(action_leaf(ActionType::Attack, name), bb, target_key) == if bb.contains_key("attack_target"@)
            && bb["attack_target"@] is Entity {
            NodeStatus::Running
        } else {
            NodeStatus::Failure
        },
        tick_result(action_leaf(ActionType::Build, name), bb, target_key) == NodeStatus::Running,
        tick_result(action_leaf(ActionType::Gather, name), bb, target_key) == NodeStatus::Running,
        tick_result(action_leaf(ActionType::Patrol, name), bb, target_key) == NodeStatus::Running,
        tick_result(action_leaf(ActionType::Wait, name), bb, target_key) == NodeStatus::Success,
        tick_result(action_leaf(ActionType::Custom(custom), name), bb, target_key) == NodeStatus::Success,
{
}

/// A moving leaf reads nothing but "move_target", and an attacking leaf
/// nothing but "attack_target": storing any other key leaves their result as it was.
pub proof fn law_action_leaves_read_only_their_key(
    name: String,
    bb: Map<Seq<char>, BlackboardValue>,
    key: Seq<char>,
    v: BlackboardValue,
    target_key: Seq<char>,
)
    ensures
        key != "move_target"@ ==> tick_result(action_leaf(ActionType::MoveTo, name), bb.insert(key, v), target_key)
            == tick_result(action_leaf(ActionType::MoveTo, name), bb, target_key),
        key != "attack_target"@ ==> tick_result(action_leaf(ActionType::Attack, name), bb.insert(key, v), target_key)
            == tick_result(action_leaf(ActionType::Attack, name), bb, target_key),
{
    law_action_leaves(name, name, bb, target_key);
    law_action_leaves(name, name, bb.insert(key, v), target_key);
}

/// Condition leaves: a target condition holds exactly when an entity is
/// stored under the target key; the resource condition exactly when a float
/// above 100 is stored under "resources", the health condition exactly when a
/// float above 50 is stored under "health"; the attack and build conditions
/// exactly when `true` is stored under "under_attack" and "can_build"; custom
/// conditions always hold.
pub proof fn law_condition_leaves(name: String, custom: String, bb: Map<Seq<char>, BlackboardValue>, target_key: Seq<char>)
    ensures
        tick_result(condition_leaf(ConditionType::HasTarget, name), bb, target_key) == if bb.contains_key(target_key)
            && bb[target_key] is Entity {
            NodeStatus::Success
        } else {
            NodeStatus::Failure
        },
        tick_result(condition_leaf(ConditionType::HasResources, name), bb, target_key) == if bb.contains_key(
            "resources"@,
        ) && (match bb["resources"@] {
            BlackboardValue::Float(v) => spec_lt(0x42C8_0000, v),
            _ => false,
        }) {
            NodeStatus::Success
        } else {
            NodeStatus::Failure
        },
        tick_result(condition_leaf(ConditionType::IsHealthy, name), bb, target_key) == if bb.contains_key("health"@)
            && (match bb["health"@] {
            BlackboardValue::Float(v) => spec_lt(0x4248_0000, v),
            _ => false,
        }) {
            NodeStatus::Success
        } else {
            NodeStatus::Failure
        },
        tick_result(condition_leaf(ConditionType::IsUnderAttack, name), bb, target_key) == if bb.contains_key(
            "under_attack"@,
        ) && bb["under_attack"@] == BlackboardValue::Bool(true) {
            NodeStatus::Success
        } else {
            NodeStatus::Failure
        },
        tick_result(condition_leaf(ConditionType::CanBuild, name), bb, target_key) == if bb.contains_key(
            "can_build"@,
        ) && bb["can_build"@] == BlackboardValue::Bool(true) {
            NodeStatus::Success
        } else {
            NodeStatus::Failure
        },
        tick_result(condition_leaf(ConditionType::Custom(custom), name), bb, target_key) == NodeStatus::Success,
{
}

/// Values stored and read back: a read gives back the last value written under
/// the same key, of the kind it was written as, and a write leaves every other
/// key as it was.
pub proof fn law_blackboard_read_after_write(
    before: Map<Seq<char>, BlackboardValue>,
    key: Seq<char>,
    other: Seq<char>,
    v: BlackboardValue,
)
    requires
        other != key,
    ensures
        lookup(before.insert(key, v), key) == Some(v),
        lookup(before.insert(key, v), other) == lookup(before, other),
{
}

} // verus!
