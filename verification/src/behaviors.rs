//! Unit behavior trees: composites (sequence, selector, parallel), decorators
//! (inverter, repeater, until-fail, until-success) and unit actions and
//! conditions. Actions update the blackboard and hand back the component
//! commands that the game applies to the unit.
//!
//! What the tree needs of the world is read before a tick into a [`UnitView`]:
//! the unit's health ratio, its distances to the points it may be sent to, and
//! its four patrol points.
use vstd::prelude::*;
use crate::behavior_tree::{
    float_or_zero, spec_get_bool, spec_get_entity, spec_get_float, spec_get_vec3, Blackboard,
    BlackboardValue, NodeStatus,
};
use crate::float_bits::{f32_gt, f32_le, f32_lt, spec_le, spec_lt, Vec3Bits, F32_HALF, F32_ONE, F32_FIVE, F32_TEN, F32_ZERO};
use vstd::arithmetic::power2::pow2;
use crate::float_convert::{f32_to_usize, spec_f32_to_usize, spec_u32_to_f32, u32_to_f32_bits};

verus! {

/// Bit pattern of the `f32` value 4.0.
pub const F32_FOUR: u32 = 0x4080_0000;

/// Bit pattern of the `f32` value 15.0.
pub const F32_FIFTEEN: u32 = 0x4170_0000;

/// Bit pattern of the `f32` value 0.3.
pub const F32_THREE_TENTHS: u32 = 0x3E99_999A;

/// Bit pattern of the `f32` value 0.8.
pub const F32_FOUR_FIFTHS: u32 = 0x3F4C_CCCD;

/// A node of a unit behavior tree.
#[derive(Debug)]
pub enum BehaviorNode {
    Sequence(Vec<BehaviorNode>),
    Selector(Vec<BehaviorNode>),
    /// Children and the least number of them that must succeed.
    Parallel(Vec<BehaviorNode>, usize),
    Inverter(Box<BehaviorNode>),
    /// A child run up to the given number of times in one tick.
    Repeater(Box<BehaviorNode>, u32),
    UntilFail(Box<BehaviorNode>),
    UntilSuccess(Box<BehaviorNode>),
    Action(AIAction),
    Condition(AICondition),
}

/// Actions that units can perform.
#[derive(Clone, Debug, PartialEq)]
pub enum AIAction {
    MoveToTarget,
    AttackTarget,
    Patrol,
    GatherResource,
    ReturnToBase,
    DefendPosition,
    SearchArea,
    CallForHelp,
    UseAbility(String),
}

/// Conditions for decision making; the `f32` parameters are bit patterns.
#[derive(Clone, Copy, Debug, PartialEq, Eq, Structural)]
pub enum AICondition {
    HasTarget,
    /// Distance from the unit to `target_position`, at most this.
    TargetInRange(u32),
    /// Health ratio above this.
    HealthAbove(u32),
    /// Health ratio below this.
    HealthBelow(u32),
    HasResources(u32),
    AlliesNearby(u32),
    EnemiesNearby(u32),
    AtBase,
    PathClear,
}

/// A component that an action asks the game to insert on the unit; `f32`
/// fields are bit patterns and entities their `u64` bits.
#[derive(Clone, Copy, Debug, PartialEq, Eq, Structural)]
pub enum UnitCommand {
    /// A movement target, not yet reached, to approach at `speed`.
    MoveTo { target: Vec3Bits, speed: u32 },
    /// An attack behavior against `target`.
    Attack { target: u64, aggression_level: u32 },
    /// A gathering behavior, on `resource` when one is named.
    Gather { resource: Option<u64>, gathering_rate: u32 },
    /// A defend behavior around `position`.
    Defend { position: Vec3Bits, patrol_radius: u32 },
}

/// What the world shows of the unit at the start of a tick.
#[derive(Clone, Debug)]
pub struct UnitView {
    /// Health over maximum health, as an `f32` bit pattern; `None` when the
    /// entity is not a unit.
    pub health_ratio: Option<u32>,
    /// Distances (`f32` bit patterns) from the unit's position to points it
    /// may be sent to; empty when the entity has no position.
    pub distances: Vec<(Vec3Bits, u32)>,
    /// The patrol points around the base position (the origin when there is
    /// none): 10 units along +x, +z, -x and -z, in that order.
    pub patrol_points: [Vec3Bits; 4],
}

/// The blackboard, the commands issued so far, and a status.
pub type Outcome = (Map<Seq<char>, BlackboardValue>, Seq<UnitCommand>, NodeStatus);

/// The distance listed for `point`: the first entry with that point.
pub open spec fn distance_to(ds: Seq<(Vec3Bits, u32)>, point: Vec3Bits) -> Option<u32>
    decreases ds.len(),
{
    if ds.len() == 0 {
        None
    } else if ds[0].0 == point {
        Some(ds[0].1)
    } else {
        distance_to(ds.drop_first(), point)
    }
}

/// The unit's count under `key` reaches `n` (`value >= n as f32`).
pub open spec fn count_reaches(bb: Map<Seq<char>, BlackboardValue>, key: Seq<char>, n: u32) -> bool {
    spec_le(spec_u32_to_f32(n) as u32, float_or_zero(bb, key))
}

/// Whether a condition holds for the unit.
pub open spec fn condition_holds(c: AICondition, bb: Map<Seq<char>, BlackboardValue>, view: UnitView) -> bool {
    match c {
        AICondition::HasTarget => spec_get_entity(bb, "attack_target"@) is Some || spec_get_vec3(
            bb,
            "target_position"@,
        ) is Some,
        AICondition::TargetInRange(range) => match spec_get_vec3(bb, "target_position"@) {
            Some(target) => match distance_to(view.distances@, target) {
                Some(d) => spec_le(d, range),
                None => false,
            },
            None => false,
        },
        AICondition::HealthAbove(threshold) => match view.health_ratio {
            Some(ratio) => spec_lt(threshold, ratio),
            None => true,
        },
        AICondition::HealthBelow(threshold) => match view.health_ratio {
            Some(ratio) => spec_lt(ratio, threshold),
            None => false,
        },
        AICondition::HasResources(n) => count_reaches(bb, "resources"@, n),
        AICondition::AlliesNearby(n) => count_reaches(bb, "nearby_allies"@, n),
        AICondition::EnemiesNearby(n) => count_reaches(bb, "nearby_enemies"@, n),
        AICondition::AtBase => spec_get_bool(bb, "at_base"@) == Some(true),
        AICondition::PathClear => spec_get_bool(bb, "path_blocked"@) != Some(true),
    }
}

/// The patrol index that follows the stored one: `(index as usize + 1) % 4`.
pub open spec fn next_patrol_index(stored: u32) -> int {
    (spec_f32_to_usize(stored) + 1) % 4
}

/// What an action does: the blackboard and commands after it, and its status.
/// Moving, attacking, gathering, returning and defending need their key on the
/// blackboard, issue one command and run, and fail without it; patrolling
/// advances the patrol index and aims at the next patrol point; searching,
/// calling for help and using an ability leave a note on the blackboard.
pub open spec fn action_outcome(
    a: AIAction,
    bb: Map<Seq<char>, BlackboardValue>,
    cmds: Seq<UnitCommand>,
    view: UnitView,
) -> Outcome {
    match a {
        AIAction::MoveToTarget => match spec_get_vec3(bb, "target_position"@) {
            Some(p) => (bb, cmds.push(UnitCommand::MoveTo { target: p, speed: F32_FIVE }), NodeStatus::Running),
            None => (bb, cmds, NodeStatus::Failure),
        },
        AIAction::AttackTarget => match spec_get_entity(bb, "attack_target"@) {
            Some(t) => (
                bb,
                cmds.push(UnitCommand::Attack { target: t, aggression_level: F32_ONE }),
                NodeStatus::Running,
            ),
            None => (bb, cmds, NodeStatus::Failure),
        },
        AIAction::Patrol => match spec_get_float(bb, "patrol_index"@) {
            Some(stored) => {
                let next = next_patrol_index(stored);
                (
                    bb.insert("patrol_index"@, BlackboardValue::Float(spec_u32_to_f32(next as u32) as u32)).insert(
                        "target_position"@,
                        BlackboardValue::Vec3(view.patrol_points[next]),
                    ),
                    cmds,
                    NodeStatus::Success,
                )
            },
            None => (bb.insert("patrol_index"@, BlackboardValue::Float(F32_ZERO)), cmds, NodeStatus::Success),
        },
        AIAction::GatherResource => match spec_get_entity(bb, "resource_target"@) {
            Some(r) => (
                bb,
                cmds.push(UnitCommand::Gather { resource: Some(r), gathering_rate: F32_ONE }),
                NodeStatus::Running,
            ),
            None => (bb, cmds, NodeStatus::Failure),
        },
        AIAction::ReturnToBase => match spec_get_vec3(bb, "base_position"@) {
            Some(p) => (bb, cmds.push(UnitCommand::MoveTo { target: p, speed: F32_FOUR }), NodeStatus::Running),
            None => (bb, cmds, NodeStatus::Failure),
        },
        AIAction::DefendPosition => match spec_get_vec3(bb, "defend_position"@) {
            Some(p) => (
                bb,
                cmds.push(UnitCommand::Defend { position: p, patrol_radius: F32_TEN }),
                NodeStatus::Running,
            ),
            None => (bb, cmds, NodeStatus::Failure),
        },
        AIAction::SearchArea => (bb.insert("searching"@, BlackboardValue::Bool(true)), cmds, NodeStatus::Running),
        AIAction::CallForHelp => (
            bb.insert("help_requested"@, BlackboardValue::Bool(true)),
            cmds,
            NodeStatus::Success,
        ),
        AIAction::UseAbility(name) => (
            bb.insert("ability_used"@, BlackboardValue::String(name)),
            cmds,
            NodeStatus::Success,
        ),
    }
}

/// Running `node` once from the blackboard `bb` with the commands `cmds` issued so far.
pub open spec fn run(node: BehaviorNode, bb: Map<Seq<char>, BlackboardValue>, cmds: Seq<UnitCommand>, view: UnitView) -> Outcome
    decreases node, 0int,
{
    match node {
        BehaviorNode::Sequence(children) => run_sequence(children@, 0, bb, cmds, view),
        BehaviorNode::Selector(children) => run_selector(children@, 0, bb, cmds, view),
        BehaviorNode::Parallel(children, min_success) => run_parallel(
            children@,
            0,
            bb,
            cmds,
            view,
            0,
            false,
            min_success as nat,
        ),
        BehaviorNode::Inverter(child) => {
            let (b, c, s) = run(*child, bb, cmds, view);
            (b, c, match s {
                NodeStatus::Success => NodeStatus::Failure,
                NodeStatus::Failure => NodeStatus::Success,
                NodeStatus::Running => NodeStatus::Running,
            })
        },
        BehaviorNode::Repeater(child, times) => run_repeat(*child, times as nat, bb, cmds, view),
        BehaviorNode::UntilFail(child) => {
            let (b, c, s) = run(*child, bb, cmds, view);
            (b, c, if s == NodeStatus::Failure {
                NodeStatus::Success
            } else {
                NodeStatus::Running
            })
        },
        BehaviorNode::UntilSuccess(child) => {
            let (b, c, s) = run(*child, bb, cmds, view);
            (b, c, if s == NodeStatus::Success {
                NodeStatus::Success
            } else {
                NodeStatus::Running
            })
        },
        BehaviorNode::Action(a) => action_outcome(a, bb, cmds, view),
        BehaviorNode::Condition(c) => (bb, cmds, if condition_holds(c, bb, view) {
            NodeStatus::Success
        } else {
            NodeStatus::Failure
        }),
    }
}

/// Running the children from index `i` on in turn, stopping at the first that
/// does not succeed; success when all do.
pub open spec fn run_sequence(
    children: Seq<BehaviorNode>,
    i: int,
    bb: Map<Seq<char>, BlackboardValue>,
    cmds: Seq<UnitCommand>,
    view: UnitView,
) -> Outcome
    decreases children, children.len() - i,
{
    if i < 0 || i >= children.len() {
        (bb, cmds, NodeStatus::Success)
    } else {
        let (b, c, s) = run(children[i], bb, cmds, view);
        if s == NodeStatus::Success {
            run_sequence(children, i + 1, b, c, view)
        } else {
            (b, c, s)
        }
    }
}

/// Running the children from index `i` on in turn, stopping at the first that
/// does not fail; failure when all do.
pub open spec fn run_selector(
    children: Seq<BehaviorNode>,
    i: int,
    bb: Map<Seq<char>, BlackboardValue>,
    cmds: Seq<UnitCommand>,
    view: UnitView,
) -> Outcome
    decreases children, children.len() - i,
{
    if i < 0 || i >= children.len() {
        (bb, cmds, NodeStatus::Failure)
    } else {
        let (b, c, s) = run(children[i], bb, cmds, view);
        if s == NodeStatus::Failure {
            run_selector(children, i + 1, b, c, view)
        } else {
            (b, c, s)
        }
    }
}

/// Running every child from index `i` on, counting successes and noting
/// whether any runs; success at `min_success` successes, else running if any
/// child runs, else failure.
pub open spec fn run_parallel(
    children: Seq<BehaviorNode>,
    i: int,
    bb: Map<Seq<char>, BlackboardValue>,
    cmds: Seq<UnitCommand>,
    view: UnitView,
    successes: nat,
    running: bool,
    min_success: nat,
) -> Outcome
    decreases children, children.len() - i,
{
    if i < 0 || i >= children.len() {
        (bb, cmds, if successes >= min_success {
            NodeStatus::Success
        } else if running {
            NodeStatus::Running
        } else {
            NodeStatus::Failure
        })
    } else {
        let (b, c, s) = run(children[i], bb, cmds, view);
        run_parallel(
            children,
            i + 1,
            b,
            c,
            view,
            if s == NodeStatus::Success {
                successes + 1
            } else {
                successes
            },
            running || s == NodeStatus::Running,
            min_success,
        )
    }
}

/// Running `child` up to `times` more times, stopping at the first run that
/// does not succeed; success when all do.
pub open spec fn run_repeat(
    child: BehaviorNode,
    times: nat,
    bb: Map<Seq<char>, BlackboardValue>,
    cmds: Seq<UnitCommand>,
    view: UnitView,
) -> Outcome
    decreases child, times + 1,
{
    if times == 0 {
        (bb, cmds, NodeStatus::Success)
    } else {
        let (b, c, s) = run(child, bb, cmds, view);
        if s == NodeStatus::Success {
            run_repeat(child, (times - 1) as nat, b, c, view)
        } else {
            (b, c, s)
        }
    }
}

impl UnitView {
    /// The distance listed for `point`, if any.
    pub fn distance_to(&self, point: Vec3Bits) -> (r: Option<u32>)
        ensures
            r == distance_to(self.distances@, point),
    {
        let mut i: usize = 0;
        assert(self.distances@.subrange(0, self.distances@.len() as int) =~= self.distances@);
        while i < self.distances.len()
            invariant
                i <= self.distances@.len(),
                distance_to(self.distances@, point) == distance_to(
                    self.distances@.subrange(i as int, self.distances@.len() as int),
                    point,
                ),
            decreases self.distances@.len() - i,
        {
            let ghost rest = self.distances@.subrange(i as int, self.distances@.len() as int);
            assert(rest.drop_first() =~= self.distances@.subrange(i + 1, self.distances@.len() as int));
            let (p, d) = self.distances[i];
            if p == point {
                return Some(d);
            }
            i = i + 1;
        }
        assert(self.distances@.subrange(i as int, self.distances@.len() as int).len() == 0);
        None
    }
}

/// Whether the unit's count under `key` reaches `n`.
fn count_reaches_of(blackboard: &Blackboard, key: &str, n: u32) -> (r: bool)
    ensures
        r == count_reaches(blackboard@, key@, n),
{
    let value = match blackboard.get_float(key) {
        Some(v) => v,
        None => F32_ZERO,
    };
    f32_le(u32_to_f32_bits(n), value)
}

/// Checks a condition for the unit.
fn check_condition(condition: &AICondition, blackboard: &Blackboard, view: &UnitView) -> (r: bool)
    ensures
        r == condition_holds(*condition, blackboard@, *view),
{
    match condition {
        AICondition::HasTarget => blackboard.get_entity("attack_target").is_some()
            || blackboard.get_vec3("target_position").is_some(),
        AICondition::TargetInRange(range) => match blackboard.get_vec3("target_position") {
            Some(target) => match view.distance_to(target) {
                Some(d) => f32_le(d, *range),
                None => false,
            },
            None => false,
        },
        AICondition::HealthAbove(threshold) => match view.health_ratio {
            Some(ratio) => f32_gt(ratio, *threshold),
            None => true,
        },
        AICondition::HealthBelow(threshold) => match view.health_ratio {
            Some(ratio) => f32_lt(ratio, *threshold),
            None => false,
        },
        AICondition::HasResources(n) => count_reaches_of(blackboard, "resources", *n),
        AICondition::AlliesNearby(n) => count_reaches_of(blackboard, "nearby_allies", *n),
        AICondition::EnemiesNearby(n) => count_reaches_of(blackboard, "nearby_enemies", *n),
        AICondition::AtBase => match blackboard.get_bool("at_base") {
            Some(v) => v,
            None => false,
        },
        AICondition::PathClear => match blackboard.get_bool("path_blocked") {
            Some(v) => !v,
            None => true,
        },
    }
}

/// Performs an action for the unit.
fn execute_action(
    action: &AIAction,
    blackboard: &mut Blackboard,
    view: &UnitView,
    commands: &mut Vec<UnitCommand>,
) -> (r: NodeStatus)
    ensures
        (final(blackboard)@, final(commands)@, r) == action_outcome(
            *action,
            old(blackboard)@,
            old(commands)@,
            *view,
        ),
{
    match action {
        AIAction::MoveToTarget => match blackboard.get_vec3("target_position") {
            Some(target) => {
                commands.push(UnitCommand::MoveTo { target, speed: F32_FIVE });
                NodeStatus::Running
            },
            None => NodeStatus::Failure,
        },
        AIAction::AttackTarget => match blackboard.get_entity("attack_target") {
            Some(target) => {
                commands.push(UnitCommand::Attack { target, aggression_level: F32_ONE });
                NodeStatus::Running
            },
            None => NodeStatus::Failure,
        },
        AIAction::Patrol => match blackboard.get_float("patrol_index") {
            Some(stored) => {
                let current = f32_to_usize(stored);
                let next: usize = (current % 4 + 1) % 4;
                assert(next == next_patrol_index(stored));
                blackboard.set(
                    String::from_str("patrol_index"),
                    BlackboardValue::Float(u32_to_f32_bits(next as u32)),
                );
                blackboard.set(
                    String::from_str("target_position"),
                    BlackboardValue::Vec3(view.patrol_points[next]),
                );
                NodeStatus::Success
            },
            None => {
                blackboard.set(String::from_str("patrol_index"), BlackboardValue::Float(F32_ZERO));
                NodeStatus::Success
            },
        },
        AIAction::GatherResource => match blackboard.get_entity("resource_target") {
            Some(resource) => {
                commands.push(UnitCommand::Gather { resource: Some(resource), gathering_rate: F32_ONE });
                NodeStatus::Running
            },
            None => NodeStatus::Failure,
        },
        AIAction::ReturnToBase => match blackboard.get_vec3("base_position") {
            Some(target) => {
                commands.push(UnitCommand::MoveTo { target, speed: F32_FOUR });
                NodeStatus::Running
            },
            None => NodeStatus::Failure,
        },
        AIAction::DefendPosition => match blackboard.get_vec3("defend_position") {
            Some(position) => {
                commands.push(UnitCommand::Defend { position, patrol_radius: F32_TEN });
                NodeStatus::Running
            },
            None => NodeStatus::Failure,
        },
        AIAction::SearchArea => {
            blackboard.set(String::from_str("searching"), BlackboardValue::Bool(true));
            NodeStatus::Running
        },
        AIAction::CallForHelp => {
            blackboard.set(String::from_str("help_requested"), BlackboardValue::Bool(true));
            NodeStatus::Success
        },
        AIAction::UseAbility(ability_name) => {
            blackboard.set(String::from_str("ability_used"), BlackboardValue::String(ability_name.clone()));
            NodeStatus::Success
        },
    }
}

impl BehaviorNode {
    /// Runs the node once for the unit: the blackboard is updated and the
    /// components to insert on the unit are appended to `commands`.
    #[verifier::loop_isolation(false)]
    pub fn execute(&self, blackboard: &mut Blackboard, view: &UnitView, commands: &mut Vec<UnitCommand>) -> (r: NodeStatus)
        ensures
            (final(blackboard)@, final(commands)@, r) == run(*self, old(blackboard)@, old(commands)@, *view),
        decreases self,
    {
        let ghost bb0 = blackboard@;
        let ghost c0 = commands@;
        match self {
            BehaviorNode::Sequence(children) => {
                let mut i: usize = 0;
                while i < children.len()
                    invariant
                        i <= children@.len(),
                        run(*self, bb0, c0, *view) == run_sequence(children@, i as int, blackboard@, commands@, *view),
                    decreases children@.len() - i,
                {
                    proof {
                        assert(decreases_to!(*self => *children));
                        assert(decreases_to!(*children => children@));
                        assert(decreases_to!(children@ => children@[i as int]));
                    }
                    let st = children[i].execute(blackboard, view, commands);
                    match st {
                        NodeStatus::Success => {},
                        _ => {
                            return st;
                        },
                    }
                    i = i + 1;
                }
                NodeStatus::Success
            },
            BehaviorNode::Selector(children) => {
                let mut i: usize = 0;
                while i < children.len()
                    invariant
                        i <= children@.len(),
                        run(*self, bb0, c0, *view) == run_selector(children@, i as int, blackboard@, commands@, *view),
                    decreases children@.len() - i,
                {
                    proof {
                        assert(decreases_to!(*self => *children));
                        assert(decreases_to!(*children => children@));
                        assert(decreases_to!(children@ => children@[i as int]));
                    }
                    let st = children[i].execute(blackboard, view, commands);
                    match st {
                        NodeStatus::Failure => {},
                        _ => {
                            return st;
                        },
                    }
                    i = i + 1;
                }
                NodeStatus::Failure
            },
            BehaviorNode::Parallel(children, min_success) => {
                let mut success_count: usize = 0;
                let mut has_running = false;
                let mut i: usize = 0;
                while i < children.len()
                    invariant
                        i <= children@.len(),
                        success_count <= i,
                        run(*self, bb0, c0, *view) == run_parallel(
                            children@,
                            i as int,
                            blackboard@,
                            commands@,
                            *view,
                            success_count as nat,
                            has_running,
                            *min_success as nat,
                        ),
                    decreases children@.len() - i,
                {
                    proof {
                        assert(decreases_to!(*self => *children));
                        assert(decreases_to!(*children => children@));
                        assert(decreases_to!(children@ => children@[i as int]));
                    }
                    let st = children[i].execute(blackboard, view, commands);
                    match st {
                        NodeStatus::Success => success_count = success_count + 1,
                        NodeStatus::Running => has_running = true,
                        NodeStatus::Failure => {},
                    }
                    i = i + 1;
                }
                if success_count >= *min_success {
                    NodeStatus::Success
                } else if has_running {
                    NodeStatus::Running
                } else {
                    NodeStatus::Failure
                }
            },
            BehaviorNode::Inverter(child) => match child.execute(blackboard, view, commands) {
                NodeStatus::Success => NodeStatus::Failure,
                NodeStatus::Failure => NodeStatus::Success,
                NodeStatus::Running => NodeStatus::Running,
            },
            BehaviorNode::Repeater(child, times) => {
                let mut k: u32 = 0;
                while k < *times
                    invariant
                        k <= *times,
                        run(*self, bb0, c0, *view) == run_repeat(
                            **child,
                            (*times - k) as nat,
                            blackboard@,
                            commands@,
                            *view,
                        ),
                    decreases *times - k,
                {
                    proof {
                        assert(decreases_to!(*self => **child));
                    }
                    let st = child.execute(blackboard, view, commands);
                    match st {
                        NodeStatus::Success => {},
                        _ => {
                            return st;
                        },
                    }
                    k = k + 1;
                }
                NodeStatus::Success
            },
            BehaviorNode::UntilFail(child) => match child.execute(blackboard, view, commands) {
                NodeStatus::Failure => NodeStatus::Success,
                NodeStatus::Running => NodeStatus::Running,
                NodeStatus::Success => NodeStatus::Running,
            },
            BehaviorNode::UntilSuccess(child) => match child.execute(blackboard, view, commands) {
                NodeStatus::Success => NodeStatus::Success,
                NodeStatus::Running => NodeStatus::Running,
                NodeStatus::Failure => NodeStatus::Running,
            },
            BehaviorNode::Action(action) => execute_action(action, blackboard, view, commands),
            BehaviorNode::Condition(condition) => {
                if check_condition(condition, blackboard, view) {
                    NodeStatus::Success
                } else {
                    NodeStatus::Failure
                }
            },
        }
    }
}

/// A unit's behavior tree, its blackboard, and how often it is ticked.
pub struct BehaviorTree {
    pub root: Box<BehaviorNode>,
    pub blackboard: Blackboard,
    /// The path of child indices being executed.
    pub current_path: Vec<usize>,
    /// Seconds between ticks, as an `f32` bit pattern.
    pub tick_rate: u32,
    /// Time of the last tick in seconds, as an `f32` bit pattern.
    pub last_tick: u32,
}

impl BehaviorTree {
    /// One tick of the tree at time `now` for a unit at `position`: the
    /// position is noted on the blackboard as `current_position`, the root is
    /// run once, and a finished run (success or failure) resets the current
    /// path. Returns the root's status and the commands for the unit.
    pub fn run_tick(&mut self, now: u32, position: Vec3Bits, view: &UnitView) -> (r: (NodeStatus, Vec<UnitCommand>))
        ensures
            ({
                let (bb, cmds, st) = run(
                    *old(self).root,
                    old(self).blackboard@.insert("current_position"@, BlackboardValue::Vec3(position)),
                    Seq::empty(),
                    *view,
                );
                &&& final(self).blackboard@ == bb
                &&& r.1@ == cmds
                &&& r.0 == st
            }),
            final(self).root == old(self).root,
            final(self).tick_rate == old(self).tick_rate,
            final(self).last_tick == now,
            final(self).current_path@ == if r.0 == NodeStatus::Running {
                old(self).current_path@
            } else {
                Seq::empty()
            },
    {
        self.last_tick = now;
        self.blackboard.set(String::from_str("current_position"), BlackboardValue::Vec3(position));
        let mut commands: Vec<UnitCommand> = Vec::new();
        let status = self.root.execute(&mut self.blackboard, view, &mut commands);
        match status {
            NodeStatus::Success | NodeStatus::Failure => {
                self.current_path.clear();
            },
            NodeStatus::Running => {},
        }
        (status, commands)
    }
}

/// `node` is a sequence of exactly the nodes `kids`.
pub open spec fn is_sequence_of(node: BehaviorNode, kids: Seq<BehaviorNode>) -> bool {
    node matches BehaviorNode::Sequence(c) && c@ == kids
}

/// A fresh tree around `root`: empty blackboard and path, never ticked.
pub open spec fn is_fresh_tree(t: BehaviorTree, tick_rate: u32) -> bool {
    &&& t.blackboard@ == Map::<Seq<char>, BlackboardValue>::empty()
    &&& t.current_path@ == Seq::<usize>::empty()
    &&& t.tick_rate == tick_rate
    &&& t.last_tick == F32_ZERO
}

/// Attack a target in range, else search and move, else patrol and move.
pub open spec fn is_aggressive_root(root: BehaviorNode) -> bool {
    root matches BehaviorNode::Selector(branches) && branches@.len() == 3
        && is_sequence_of(
        branches@[0],
        seq![
            BehaviorNode::Condition(AICondition::HasTarget),
            BehaviorNode::Condition(AICondition::TargetInRange(F32_FIFTEEN)),
            BehaviorNode::Action(AIAction::AttackTarget),
        ],
    ) && is_sequence_of(
        branches@[1],
        seq![BehaviorNode::Action(AIAction::SearchArea), BehaviorNode::Action(AIAction::MoveToTarget)],
    ) && is_sequence_of(
        branches@[2],
        seq![BehaviorNode::Action(AIAction::Patrol), BehaviorNode::Action(AIAction::MoveToTarget)],
    )
}

/// Return to base below 0.3 health, else defend when enemies are near, else patrol and move.
pub open spec fn is_defensive_root(root: BehaviorNode) -> bool {
    root matches BehaviorNode::Selector(branches) && branches@.len() == 3
        && is_sequence_of(
        branches@[0],
        seq![
            BehaviorNode::Condition(AICondition::HealthBelow(F32_THREE_TENTHS)),
            BehaviorNode::Action(AIAction::ReturnToBase),
        ],
    ) && is_sequence_of(
        branches@[1],
        seq![
            BehaviorNode::Condition(AICondition::EnemiesNearby(1)),
            BehaviorNode::Action(AIAction::DefendPosition),
        ],
    ) && is_sequence_of(
        branches@[2],
        seq![BehaviorNode::Action(AIAction::Patrol), BehaviorNode::Action(AIAction::MoveToTarget)],
    )
}

/// Below 0.8 health call for help and return to base; else gather a target;
/// else bring 10 resources home; else search.
pub open spec fn is_gatherer_root(root: BehaviorNode) -> bool {
    root matches BehaviorNode::Selector(branches) && branches@.len() == 4
        && is_sequence_of(
        branches@[0],
        seq![
            BehaviorNode::Condition(AICondition::HealthBelow(F32_FOUR_FIFTHS)),
            BehaviorNode::Action(AIAction::CallForHelp),
            BehaviorNode::Action(AIAction::ReturnToBase),
        ],
    ) && is_sequence_of(
        branches@[1],
        seq![
            BehaviorNode::Condition(AICondition::HasTarget),
            BehaviorNode::Action(AIAction::GatherResource),
        ],
    ) && is_sequence_of(
        branches@[2],
        seq![
            BehaviorNode::Condition(AICondition::HasResources(10)),
            BehaviorNode::Action(AIAction::ReturnToBase),
        ],
    ) && branches@[3] == BehaviorNode::Action(AIAction::SearchArea)
}

/// The tree of an aggressive unit, ticked every half second.
pub fn create_aggressive_behavior() -> (t: BehaviorTree)
    ensures
        is_aggressive_root(*t.root),
        is_fresh_tree(t, F32_HALF),
{
    let root = Box::new(
        BehaviorNode::Selector(
            vec![
                BehaviorNode::Sequence(
                    vec![
                        BehaviorNode::Condition(AICondition::HasTarget),
                        BehaviorNode::Condition(AICondition::TargetInRange(F32_FIFTEEN)),
                        BehaviorNode::Action(AIAction::AttackTarget),
                    ],
                ),
                BehaviorNode::Sequence(
                    vec![BehaviorNode::Action(AIAction::SearchArea), BehaviorNode::Action(AIAction::MoveToTarget)],
                ),
                BehaviorNode::Sequence(
                    vec![BehaviorNode::Action(AIAction::Patrol), BehaviorNode::Action(AIAction::MoveToTarget)],
                ),
            ],
        ),
    );
    BehaviorTree {
        root,
        blackboard: Blackboard::new(),
        current_path: Vec::new(),
        tick_rate: F32_HALF,
        last_tick: F32_ZERO,
    }
}

/// The tree of a defensive unit, ticked every half second.
pub fn create_defensive_behavior() -> (t: BehaviorTree)
    ensures
        is_defensive_root(*t.root),
        is_fresh_tree(t, F32_HALF),
{
    let root = Box::new(
        BehaviorNode::Selector(
            vec![
                BehaviorNode::Sequence(
                    vec![
                        BehaviorNode::Condition(AICondition::HealthBelow(F32_THREE_TENTHS)),
                        BehaviorNode::Action(AIAction::ReturnToBase),
                    ],
                ),
                BehaviorNode::Sequence(
                    vec![
                        BehaviorNode::Condition(AICondition::EnemiesNearby(1)),
                        BehaviorNode::Action(AIAction::DefendPosition),
                    ],
                ),
                BehaviorNode::Sequence(
                    vec![BehaviorNode::Action(AIAction::Patrol), BehaviorNode::Action(AIAction::MoveToTarget)],
                ),
            ],
        ),
    );
    BehaviorTree {
        root,
        blackboard: Blackboard::new(),
        current_path: Vec::new(),
        tick_rate: F32_HALF,
        last_tick: F32_ZERO,
    }
}

/// The tree of a gathering unit, ticked every second.
pub fn create_gatherer_behavior() -> (t: BehaviorTree)
    ensures
        is_gatherer_root(*t.root),
        is_fresh_tree(t, F32_ONE),
{
    let root = Box::new(
        BehaviorNode::Selector(
            vec![
                BehaviorNode::Sequence(
                    vec![
                        BehaviorNode::Condition(AICondition::HealthBelow(F32_FOUR_FIFTHS)),
                        BehaviorNode::Action(AIAction::CallForHelp),
                        BehaviorNode::Action(AIAction::ReturnToBase),
                    ],
                ),
                BehaviorNode::Sequence(
                    vec![
                        BehaviorNode::Condition(AICondition::HasTarget),
                        BehaviorNode::Action(AIAction::GatherResource),
                    ],
                ),
                BehaviorNode::Sequence(
                    vec![
                        BehaviorNode::Condition(AICondition::HasResources(10)),
                        BehaviorNode::Action(AIAction::ReturnToBase),
                    ],
                ),
                BehaviorNode::Action(AIAction::SearchArea),
            ],
        ),
    );
    BehaviorTree {
        root,
        blackboard: Blackboard::new(),
        current_path: Vec::new(),
        tick_rate: F32_ONE,
        last_tick: F32_ZERO,
    }
}

/// The blackboard keys that actions write.
pub open spec fn is_action_key(key: Seq<char>) -> bool {
    key == "patrol_index"@ || key == "target_position"@ || key == "searching"@ || key == "help_requested"@
        || key == "ability_used"@
}

/// `after` keeps every entry of `before` except under the keys that actions write.
pub open spec fn keeps_other_keys(before: Map<Seq<char>, BlackboardValue>, after: Map<Seq<char>, BlackboardValue>) -> bool {
    forall|k: Seq<char>|
        !is_action_key(k) ==> (#[trigger] after.contains_key(k) == before.contains_key(k) && (before.contains_key(k)
            ==> after[k] == before[k]))
}

/// `after` begins with the commands of `before`.
pub open spec fn extends(before: Seq<UnitCommand>, after: Seq<UnitCommand>) -> bool {
    before.len() <= after.len() && after.subrange(0, before.len() as int) == before
}

proof fn lemma_effects_compose(
    bb0: Map<Seq<char>, BlackboardValue>,
    bb1: Map<Seq<char>, BlackboardValue>,
    bb2: Map<Seq<char>, BlackboardValue>,
    c0: Seq<UnitCommand>,
    c1: Seq<UnitCommand>,
    c2: Seq<UnitCommand>,
)
    requires
        keeps_other_keys(bb0, bb1),
        keeps_other_keys(bb1, bb2),
        extends(c0, c1),
        extends(c1, c2),
    ensures
        keeps_other_keys(bb0, bb2),
        extends(c0, c2),
{
    assert(c2.subrange(0, c0.len() as int) =~= c2.subrange(0, c1.len() as int).subrange(0, c0.len() as int));
}

/// Running a node only adds commands after those already issued, and changes
/// the blackboard only under the keys that actions write (`patrol_index`,
/// `target_position`, `searching`, `help_requested`, `ability_used`).
pub proof fn law_effects_are_confined(
    node: BehaviorNode,
    bb: Map<Seq<char>, BlackboardValue>,
    cmds: Seq<UnitCommand>,
    view: UnitView,
)
    ensures
        keeps_other_keys(bb, run(node, bb, cmds, view).0),
        extends(cmds, run(node, bb, cmds, view).1),
    decreases node, 0int,
{
    assert(cmds.subrange(0, cmds.len() as int) =~= cmds);
    match node {
        BehaviorNode::Sequence(children) => lemma_sequence_confined(children@, 0, bb, cmds, view),
        BehaviorNode::Selector(children) => lemma_selector_confined(children@, 0, bb, cmds, view),
        BehaviorNode::Parallel(children, min_success) => lemma_parallel_confined(
            children@,
            0,
            bb,
            cmds,
            view,
            0,
            false,
            min_success as nat,
        ),
        BehaviorNode::Inverter(child) => law_effects_are_confined(*child, bb, cmds, view),
        BehaviorNode::Repeater(child, times) => lemma_repeat_confined(*child, times as nat, bb, cmds, view),
        BehaviorNode::UntilFail(child) => law_effects_are_confined(*child, bb, cmds, view),
        BehaviorNode::UntilSuccess(child) => law_effects_are_confined(*child, bb, cmds, view),
        BehaviorNode::Action(a) => {
            let c2 = action_outcome(a, bb, cmds, view).1;
            if c2.len() > cmds.len() {
                assert(c2.subrange(0, cmds.len() as int) =~= cmds);
            }
        },
        BehaviorNode::Condition(_) => {},
    }
}

proof fn lemma_sequence_confined(
    children: Seq<BehaviorNode>,
    i: int,
    bb: Map<Seq<char>, BlackboardValue>,
    cmds: Seq<UnitCommand>,
    view: UnitView,
)
    ensures
        keeps_other_keys(bb, run_sequence(children, i, bb, cmds, view).0),
        extends(cmds, run_sequence(children, i, bb, cmds, view).1),
    decreases children, children.len() - i,
{
    assert(cmds.subrange(0, cmds.len() as int) =~= cmds);
    if 0 <= i < children.len() {
        let (b, c, st) = run(children[i], bb, cmds, view);
        law_effects_are_confined(children[i], bb, cmds, view);
        if st == NodeStatus::Success {
            lemma_sequence_confined(children, i + 1, b, c, view);
            let out = run_sequence(children, i + 1, b, c, view);
            lemma_effects_compose(bb, b, out.0, cmds, c, out.1);
        }
    }
}

proof fn lemma_selector_confined(
    children: Seq<BehaviorNode>,
    i: int,
    bb: Map<Seq<char>, BlackboardValue>,
    cmds: Seq<UnitCommand>,
    view: UnitView,
)
    ensures
        keeps_other_keys(bb, run_selector(children, i, bb, cmds, view).0),
        extends(cmds, run_selector(children, i, bb, cmds, view).1),
    decreases children, children.len() - i,
{
    assert(cmds.subrange(0, cmds.len() as int) =~= cmds);
    if 0 <= i < children.len() {
        let (b, c, st) = run(children[i], bb, cmds, view);
        law_effects_are_confined(children[i], bb, cmds, view);
        if st == NodeStatus::Failure {
            lemma_selector_confined(children, i + 1, b, c, view);
            let out = run_selector(children, i + 1, b, c, view);
            lemma_effects_compose(bb, b, out.0, cmds, c, out.1);
        }
    }
}

proof fn lemma_parallel_confined(
    children: Seq<BehaviorNode>,
    i: int,
    bb: Map<Seq<char>, BlackboardValue>,
    cmds: Seq<UnitCommand>,
    view: UnitView,
    successes: nat,
    running: bool,
    min_success: nat,
)
    ensures
        keeps_other_keys(bb, run_parallel(children, i, bb, cmds, view, successes, running, min_success).0),
        extends(cmds, run_parallel(children, i, bb, cmds, view, successes, running, min_success).1),
    decreases children, children.len() - i,
{
    assert(cmds.subrange(0, cmds.len() as int) =~= cmds);
    if 0 <= i < children.len() {
        let (b, c, st) = run(children[i], bb, cmds, view);
        law_effects_are_confined(children[i], bb, cmds, view);
        let s2 = if st == NodeStatus::Success {
            successes + 1
        } else {
            successes
        };
        let r2 = running || st == NodeStatus::Running;
        lemma_parallel_confined(children, i + 1, b, c, view, s2, r2, min_success);
        let out = run_parallel(children, i + 1, b, c, view, s2, r2, min_success);
        lemma_effects_compose(bb, b, out.0, cmds, c, out.1);
    }
}

proof fn lemma_repeat_confined(
    child: BehaviorNode,
    times: nat,
    bb: Map<Seq<char>, BlackboardValue>,
    cmds: Seq<UnitCommand>,
    view: UnitView,
)
    ensures
        keeps_other_keys(bb, run_repeat(child, times, bb, cmds, view).0),
        extends(cmds, run_repeat(child, times, bb, cmds, view).1),
    decreases child, times + 1,
{
    assert(cmds.subrange(0, cmds.len() as int) =~= cmds);
    if times > 0 {
        let (b, c, st) = run(child, bb, cmds, view);
        law_effects_are_confined(child, bb, cmds, view);
        if st == NodeStatus::Success {
            lemma_repeat_confined(child, (times - 1) as nat, b, c, view);
            let out = run_repeat(child, (times - 1) as nat, b, c, view);
            lemma_effects_compose(bb, b, out.0, cmds, c, out.1);
        }
    }
}

/// Inverting twice gives back the node's own run: same blackboard, same
/// commands, same status.
pub proof fn law_double_inversion(node: BehaviorNode, bb: Map<Seq<char>, BlackboardValue>, cmds: Seq<UnitCommand>, view: UnitView)
    ensures
        run(BehaviorNode::Inverter(Box::new(BehaviorNode::Inverter(Box::new(node)))), bb, cmds, view) == run(
            node,
            bb,
            cmds,
            view,
        ),
{
    let inner = BehaviorNode::Inverter(Box::new(node));
    let outer = BehaviorNode::Inverter(Box::new(inner));
    let once = run(node, bb, cmds, view);
    let twice = run(inner, bb, cmds, view);
    assert(twice.0 == once.0 && twice.1 == once.1);
    assert(twice.2 == NodeStatus::Success <==> once.2 == NodeStatus::Failure);
    assert(twice.2 == NodeStatus::Running <==> once.2 == NodeStatus::Running);
    let thrice = run(outer, bb, cmds, view);
    assert(thrice.0 == twice.0 && thrice.1 == twice.1);
    assert(thrice.2 == once.2);
}

/// An until-fail or until-success node never fails: it runs its child once
/// per tick and reports running until the child fails (until-fail) or
/// succeeds (until-success), and success then.
pub proof fn law_until_never_fails(node: BehaviorNode, bb: Map<Seq<char>, BlackboardValue>, cmds: Seq<UnitCommand>, view: UnitView)
    ensures
        run(BehaviorNode::UntilFail(Box::new(node)), bb, cmds, view).2 != NodeStatus::Failure,
        run(BehaviorNode::UntilSuccess(Box::new(node)), bb, cmds, view).2 != NodeStatus::Failure,
        run(BehaviorNode::UntilFail(Box::new(node)), bb, cmds, view).2 == NodeStatus::Success <==> run(
            node,
            bb,
            cmds,
            view,
        ).2 == NodeStatus::Failure,
        run(BehaviorNode::UntilSuccess(Box::new(node)), bb, cmds, view).2 == NodeStatus::Success <==> run(
            node,
            bb,
            cmds,
            view,
        ).2 == NodeStatus::Success,
{
}

proof fn lemma_small_index_round_trip(j: u32)
    requires
        j < 4,
    ensures
        spec_f32_to_usize(spec_u32_to_f32(j) as u32) == j,
{
    vstd::arithmetic::power2::lemma2_to64();
    reveal_with_fuel(crate::float_convert::log2_floor, 3);
    assert(crate::float_convert::log2_floor(1) == 0);
    assert(crate::float_convert::log2_floor(2) == 1);
    assert(crate::float_convert::log2_floor(3) == 1);
    if j == 1 {
        assert(spec_u32_to_f32(j) == 0x3F80_0000);
        assert(crate::float_convert::exponent_field(0x3F80_0000) == 127);
        assert(crate::float_convert::significand(0x3F80_0000) == 0x80_0000);
        assert(pow2((150 - 127int) as nat) == 0x80_0000);
        assert(0x80_0000int / 0x80_0000int == 1);
        assert(crate::float_convert::integer_part(0x3F80_0000) == 1);
    } else if j == 2 {
        assert(spec_u32_to_f32(j) == 0x4000_0000);
        assert(crate::float_convert::exponent_field(0x4000_0000) == 128);
        assert(crate::float_convert::significand(0x4000_0000) == 0x80_0000);
        assert(pow2((150 - 128int) as nat) == 0x40_0000);
        assert(0x80_0000int / 0x40_0000int == 2);
        assert(crate::float_convert::integer_part(0x4000_0000) == 2);
    } else if j == 3 {
        assert(spec_u32_to_f32(j) == 0x4040_0000);
        assert(crate::float_convert::exponent_field(0x4040_0000) == 128);
        assert(crate::float_convert::significand(0x4040_0000) == 0xC0_0000);
        assert(pow2((150 - 128int) as nat) == 0x40_0000);
        assert(0xC0_0000int / 0x40_0000int == 3);
        assert(crate::float_convert::integer_part(0x4040_0000) == 3);
    }
}

/// Patrolling walks the four patrol points in turn: from index `j` (stored as
/// an `f32`) a patrol stores index `(j + 1) % 4` and aims at that patrol
/// point; with no index stored it stores 0, so the next patrol aims at point 1.
pub proof fn law_patrol_visits_points_in_turn(
    j: u32,
    bb: Map<Seq<char>, BlackboardValue>,
    cmds: Seq<UnitCommand>,
    view: UnitView,
)
    requires
        j < 4,
    ensures
        spec_get_float(bb, "patrol_index"@) == Some(spec_u32_to_f32(j) as u32) ==> ({
            let out = action_outcome(AIAction::Patrol, bb, cmds, view);
            let k = (j + 1) % 4;
            &&& spec_get_float(out.0, "patrol_index"@) == Some(spec_u32_to_f32(k as u32) as u32)
            &&& spec_get_vec3(out.0, "target_position"@) == Some(view.patrol_points[k])
            &&& out.1 == cmds
            &&& out.2 == NodeStatus::Success
        }),
        spec_get_float(bb, "patrol_index"@) is None ==> spec_get_float(
            action_outcome(AIAction::Patrol, bb, cmds, view).0,
            "patrol_index"@,
        ) == Some(spec_u32_to_f32(0) as u32),
{
    lemma_small_index_round_trip(j);
    assert(spec_u32_to_f32(0) == 0);
    let p = "patrol_index"@;
    let t = "target_position"@;
    reveal_strlit("patrol_index");
    reveal_strlit("target_position");
    assert(p.len() != t.len());
}

/// Unit actions that need a key: moving to the target runs at speed 5 toward
/// the point under "target_position"; attacking runs against the entity under
/// "attack_target" with aggression 1; gathering runs on the entity under
/// "resource_target" at rate 1; returning runs at speed 4 toward the point
/// under "base_position"; defending runs around the point under
/// "defend_position" within 10. Each issues exactly that one command and
/// leaves the blackboard as it was; without its key it fails and does nothing.
pub proof fn law_unit_actions_with_a_key(bb: Map<Seq<char>, BlackboardValue>, cmds: Seq<UnitCommand>, view: UnitView)
    ensures
        action_outcome(AIAction::MoveToTarget, bb, cmds, view) == (if bb.contains_key("target_position"@)
            && bb["target_position"@] is Vec3 {
            (bb, cmds.push(UnitCommand::MoveTo { target: bb["target_position"@]->Vec3_0, speed: 0x40A0_0000 }), NodeStatus::Running)
        } else {
            (bb, cmds, NodeStatus::Failure)
        }),
        action_outcome(AIAction::AttackTarget, bb, cmds, view) == (if bb.contains_key("attack_target"@)
            && bb["attack_target"@] is Entity {
            (
                bb,
                cmds.push(UnitCommand::Attack { target: bb["attack_target"@]->Entity_0, aggression_level: 0x3F80_0000 }),
                NodeStatus::Running,
            )
        } else {
            (bb, cmds, NodeStatus::Failure)
        }),
        action_outcome(AIAction::GatherResource, bb, cmds, view) == (if bb.contains_key("resource_target"@)
            && bb["resource_target"@] is Entity {
            (
                bb,
                cmds.push(
                    UnitCommand::Gather { resource: Some(bb["resource_target"@]->Entity_0), gathering_rate: 0x3F80_0000 },
                ),
                NodeStatus::Running,
            )
        } else {
            (bb, cmds, NodeStatus::Failure)
        }),
        action_outcome(AIAction::ReturnToBase, bb, cmds, view) == (if bb.contains_key("base_position"@)
            && bb["base_position"@] is Vec3 {
            (bb, cmds.push(UnitCommand::MoveTo { target: bb["base_position"@]->Vec3_0, speed: 0x4080_0000 }), NodeStatus::Running)
        } else {
            (bb, cmds, NodeStatus::Failure)
        }),
        action_outcome(AIAction::DefendPosition, bb, cmds, view) == (if bb.contains_key("defend_position"@)
            && bb["defend_position"@] is Vec3 {
            (
                bb,
                cmds.push(UnitCommand::Defend { position: bb["defend_position"@]->Vec3_0, patrol_radius: 0x4120_0000 }),
                NodeStatus::Running,
            )
        } else {
            (bb, cmds, NodeStatus::Failure)
        }),
{
}

/// Unit actions that leave a note: searching marks "searching" and keeps
/// running; calling for help marks "help_requested" and succeeds; using an
/// ability records its name under "ability_used" and succeeds. None issues a command.
pub proof fn law_unit_actions_that_note(name: String, bb: Map<Seq<char>, BlackboardValue>, cmds: Seq<UnitCommand>, view: UnitView)
    ensures
        action_outcome(AIAction::SearchArea, bb, cmds, view) == (
            bb.insert("searching"@, BlackboardValue::Bool(true)),
            cmds,
            NodeStatus::Running,
        ),
        action_outcome(AIAction::CallForHelp, bb, cmds, view) == (
            bb.insert("help_requested"@, BlackboardValue::Bool(true)),
            cmds,
            NodeStatus::Success,
        ),
        action_outcome(AIAction::UseAbility(name), bb, cmds, view) == (
            bb.insert("ability_used"@, BlackboardValue::String(name)),
            cmds,
            NodeStatus::Success,
        ),
{
}

/// Unit conditions: a target is known when an entity is stored under
/// "attack_target" or a point under "target_position"; the target is in range
/// when the unit's distance to that point is at most the range; with no
/// health known a unit counts as above any health threshold and below none;
/// counts under "resources", "nearby_allies" and "nearby_enemies" (0 when
/// missing) are compared with at least; the unit is at base when `true` is
/// stored under "at_base"; the path is clear unless `true` is stored under
/// "path_blocked".
pub proof fn law_unit_conditions(bb: Map<Seq<char>, BlackboardValue>, view: UnitView, x: u32)
    ensures
        condition_holds(AICondition::HasTarget, bb, view) <==> (bb.contains_key("attack_target"@)
            && bb["attack_target"@] is Entity) || (bb.contains_key("target_position"@) && bb["target_position"@] is Vec3),
        condition_holds(AICondition::TargetInRange(x), bb, view) <==> bb.contains_key("target_position"@)
            && bb["target_position"@] is Vec3 && (match distance_to(view.distances@, bb["target_position"@]->Vec3_0) {
            Some(d) => spec_le(d, x),
            None => false,
        }),
        view.health_ratio is None ==> condition_holds(AICondition::HealthAbove(x), bb, view) && !condition_holds(
            AICondition::HealthBelow(x),
            bb,
            view,
        ),
        view.health_ratio matches Some(r) ==> (condition_holds(AICondition::HealthAbove(x), bb, view) <==> spec_lt(x, r))
            && (condition_holds(AICondition::HealthBelow(x), bb, view) <==> spec_lt(r, x)),
        condition_holds(AICondition::HasResources(x), bb, view) <==> spec_le(
            spec_u32_to_f32(x) as u32,
            if bb.contains_key("resources"@) && bb["resources"@] is Float { bb["resources"@]->Float_0 } else { 0 },
        ),
        condition_holds(AICondition::AlliesNearby(x), bb, view) <==> spec_le(
            spec_u32_to_f32(x) as u32,
            if bb.contains_key("nearby_allies"@) && bb["nearby_allies"@] is Float { bb["nearby_allies"@]->Float_0 } else { 0 },
        ),
        condition_holds(AICondition::EnemiesNearby(x), bb, view) <==> spec_le(
            spec_u32_to_f32(x) as u32,
            if bb.contains_key("nearby_enemies"@) && bb["nearby_enemies"@] is Float { bb["nearby_enemies"@]->Float_0 } else { 0 },
        ),
        condition_holds(AICondition::AtBase, bb, view) <==> bb.contains_key("at_base"@) && bb["at_base"@]
            == BlackboardValue::Bool(true),
        condition_holds(AICondition::PathClear, bb, view) <==> !(bb.contains_key("path_blocked"@) && bb["path_blocked"@]
            == BlackboardValue::Bool(true)),
{
}

} // verus!
