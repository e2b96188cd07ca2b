//! Steps of the actions that units carry out: moving along a path, gathering
//! from a resource node, and attacking a target. Each step takes the state of
//! the action and what was observed, and gives the next state and what to do.
use vstd::prelude::*;

verus! {

/// The state of an action.
#[derive(Clone, Copy, Debug, PartialEq, Eq, Structural)]
pub enum ActionState {
    Init,
    Requested,
    Executing,
    Cancelled,
    Success,
    Failure,
}

/// What a moving unit does with its velocity.
#[derive(Clone, Copy, Debug, PartialEq, Eq, Structural)]
pub enum MoveOrder {
    /// Leave the velocity as it is.
    Keep,
    /// Stop.
    Stop,
    /// Head for the current waypoint at the unit's speed.
    Steer,
}

/// One step of moving along a path: a requested move starts; an executing move
/// stops and succeeds when the path is empty or its waypoint is reached (within
/// half a unit), and otherwise steers; a cancelled move stops and fails.
/// The last part tells whether the caller stops stepping other moves this
/// round, which it does when a move finds its path empty.
pub open spec fn spec_move_to_step(state: ActionState, path_empty: bool, arrived: bool) -> (ActionState, MoveOrder, bool) {
    match state {
        ActionState::Requested => (ActionState::Executing, MoveOrder::Keep, false),
        ActionState::Executing => if path_empty {
            (ActionState::Success, MoveOrder::Stop, true)
        } else if arrived {
            (ActionState::Success, MoveOrder::Stop, false)
        } else {
            (ActionState::Executing, MoveOrder::Steer, false)
        },
        ActionState::Cancelled => (ActionState::Failure, MoveOrder::Stop, false),
        _ => (state, MoveOrder::Keep, false),
    }
}

/// One step of moving along a path; see [`spec_move_to_step`].
pub fn move_to_step(state: ActionState, path_empty: bool, arrived: bool) -> (r: (ActionState, MoveOrder, bool))
    ensures
        r == spec_move_to_step(state, path_empty, arrived),
{
    match state {
        ActionState::Requested => (ActionState::Executing, MoveOrder::Keep, false),
        ActionState::Executing => {
            if path_empty {
                (ActionState::Success, MoveOrder::Stop, true)
            } else if arrived {
                (ActionState::Success, MoveOrder::Stop, false)
            } else {
                (ActionState::Executing, MoveOrder::Steer, false)
            }
        },
        ActionState::Cancelled => (ActionState::Failure, MoveOrder::Stop, false),
        _ => (state, MoveOrder::Keep, false),
    }
}

/// One step of gathering: a requested gathering starts; an executing one fails
/// when no resource node is near, and succeeds once the node it gathered from
/// is depleted (`node` tells whether it is, after this step's gathering); a
/// cancelled one fails.
pub open spec fn spec_gather_step(state: ActionState, node: Option<bool>) -> ActionState {
    match state {
        ActionState::Requested => ActionState::Executing,
        ActionState::Executing => match node {
            None => ActionState::Failure,
            Some(depleted) => if depleted {
                ActionState::Success
            } else {
                ActionState::Executing
            },
        },
        ActionState::Cancelled => ActionState::Failure,
        _ => state,
    }
}

/// One step of gathering; see [`spec_gather_step`].
pub fn gather_step(state: ActionState, node: Option<bool>) -> (r: ActionState)
    ensures
        r == spec_gather_step(state, node),
{
    match state {
        ActionState::Requested => ActionState::Executing,
        ActionState::Executing => match node {
            None => ActionState::Failure,
            Some(depleted) => if depleted {
                ActionState::Success
            } else {
                ActionState::Executing
            },
        },
        ActionState::Cancelled => ActionState::Failure,
        _ => state,
    }
}

/// What an attacker sees of its target.
#[derive(Clone, Copy, Debug, PartialEq, Eq, Structural)]
pub enum AttackSight {
    /// The attacker has no target.
    NoTarget,
    /// The target no longer exists.
    Missing,
    /// The target is dead or on the attacker's team.
    DeadOrAlly,
    /// A living enemy: whether it is within attack range, and whether the
    /// attacker's cooldown has passed.
    Enemy { in_range: bool, ready: bool },
}

/// One step of attacking: without a target, or when the target is gone, the
/// attack fails; a dead or allied target ends it successfully; otherwise a
/// requested attack starts, an executing one strikes when in range and ready
/// and fails when out of range, and a cancelled one fails. The second part
/// tells whether to strike now.
pub open spec fn spec_attack_step(state: ActionState, sight: AttackSight) -> (ActionState, bool) {
    match sight {
        AttackSight::NoTarget => (ActionState::Failure, false),
        AttackSight::Missing => (ActionState::Failure, false),
        AttackSight::DeadOrAlly => (ActionState::Success, false),
        AttackSight::Enemy { in_range, ready } => match state {
            ActionState::Requested => (ActionState::Executing, false),
            ActionState::Executing => if in_range {
                (ActionState::Executing, ready)
            } else {
                (ActionState::Failure, false)
            },
            ActionState::Cancelled => (ActionState::Failure, false),
            _ => (state, false),
        },
    }
}

/// One step of attacking; see [`spec_attack_step`].
pub fn attack_step(state: ActionState, sight: AttackSight) -> (r: (ActionState, bool))
    ensures
        r == spec_attack_step(state, sight),
{
    match sight {
        AttackSight::NoTarget => (ActionState::Failure, false),
        AttackSight::Missing => (ActionState::Failure, false),
        AttackSight::DeadOrAlly => (ActionState::Success, false),
        AttackSight::Enemy { in_range, ready } => match state {
            ActionState::Requested => (ActionState::Executing, false),
            ActionState::Executing => if in_range {
                (ActionState::Executing, ready)
            } else {
                (ActionState::Failure, false)
            },
            ActionState::Cancelled => (ActionState::Failure, false),
            _ => (state, false),
        },
    }
}

/// Finished actions stay finished: a step leaves a succeeded or failed move or
/// gathering as it is, and an attack too while its target is a living enemy.
pub proof fn law_finished_actions_stay(
    state: ActionState,
    path_empty: bool,
    arrived: bool,
    node: Option<bool>,
    in_range: bool,
    ready: bool,
)
    requires
        state == ActionState::Success || state == ActionState::Failure,
    ensures
        spec_move_to_step(state, path_empty, arrived).0 == state,
        spec_gather_step(state, node) == state,
        spec_attack_step(state, AttackSight::Enemy { in_range, ready }) == (state, false),
{
}

/// How actions move on: a requested move, gathering or attack on a living
/// enemy starts executing without acting yet; a cancelled move or gathering
/// fails, and so does a cancelled attack on a living enemy; an attack strikes
/// exactly when it is executing against an enemy in range with its cooldown
/// passed; an attack whose target is missing or absent fails and one whose
/// target died or turned friendly succeeds, whatever state it was in.
pub proof fn law_actions_progress(state: ActionState, path_empty: bool, arrived: bool, node: Option<bool>, sight: AttackSight)
    ensures
        spec_move_to_step(ActionState::Requested, path_empty, arrived) == (ActionState::Executing, MoveOrder::Keep, false),
        spec_gather_step(ActionState::Requested, node) == ActionState::Executing,
        sight is Enemy ==> spec_attack_step(ActionState::Requested, sight) == (ActionState::Executing, false),
        spec_move_to_step(ActionState::Cancelled, path_empty, arrived).0 == ActionState::Failure,
        spec_move_to_step(ActionState::Cancelled, path_empty, arrived).1 == MoveOrder::Stop,
        spec_gather_step(ActionState::Cancelled, node) == ActionState::Failure,
        sight is Enemy ==> spec_attack_step(ActionState::Cancelled, sight).0 == ActionState::Failure,
        spec_attack_step(state, sight).1 <==> state == ActionState::Executing && sight == (AttackSight::Enemy {
            in_range: true,
            ready: true,
        }),
        sight == AttackSight::NoTarget || sight == AttackSight::Missing ==> spec_attack_step(state, sight).0
            == ActionState::Failure,
        sight == AttackSight::DeadOrAlly ==> spec_attack_step(state, sight).0 == ActionState::Success,
{
}

/// An executing move ends, stopping the unit, exactly when its path is empty
/// or its waypoint is reached, and steers toward the waypoint otherwise; only
/// an empty path stops the stepping of other moves. An executing gathering
/// fails when no node is near, succeeds when the node is depleted and goes on
/// otherwise.
pub proof fn law_executing_actions(path_empty: bool, arrived: bool)
    ensures
        spec_move_to_step(ActionState::Executing, path_empty, arrived).0 == (if path_empty || arrived {
            ActionState::Success
        } else {
            ActionState::Executing
        }),
        spec_move_to_step(ActionState::Executing, path_empty, arrived).1 == (if path_empty || arrived {
            MoveOrder::Stop
        } else {
            MoveOrder::Steer
        }),
        spec_move_to_step(ActionState::Executing, path_empty, arrived).2 == path_empty,
        spec_gather_step(ActionState::Executing, None) == ActionState::Failure,
        spec_gather_step(ActionState::Executing, Some(true)) == ActionState::Success,
        spec_gather_step(ActionState::Executing, Some(false)) == ActionState::Executing,
{
}

} // verus!
