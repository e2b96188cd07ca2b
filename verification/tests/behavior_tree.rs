use cosmic_cults::behavior_tree::{
    ActionNode, ActionType, BehaviorNode, BehaviorTreeBuilder, Blackboard, ConditionNode, ConditionType,
    NodeStatus,
};
use cosmic_cults::float_bits::Vec3Bits;

#[test]
fn test_blackboard() {
    let mut blackboard = Blackboard::default();
    blackboard.set_bool("test".to_string(), true);
    assert_eq!(blackboard.get_bool("test"), Some(true));

    blackboard.set_float("value".to_string(), 42.0f32.to_bits());
    assert_eq!(blackboard.get_float("value").map(f32::from_bits), Some(42.0));
}

#[test]
fn test_behavior_tree_builder() {
    let tree = BehaviorTreeBuilder::new()
        .condition(ConditionType::HasTarget, "check_target")
        .action(ActionType::Attack, "attack")
        .sequence()
        .build();

    assert_eq!(f32::from_bits(tree.tick_rate), 1.0);
}

fn action(action_type: ActionType) -> Box<BehaviorNode> {
    Box::new(BehaviorNode::Action(ActionNode { action_type, name: "a".to_string() }))
}

fn condition(condition_type: ConditionType) -> Box<BehaviorNode> {
    Box::new(BehaviorNode::Condition(ConditionNode { condition_type, name: "c".to_string() }))
}

#[test]
fn blackboard_values_of_every_kind_read_back() {
    let mut bb = Blackboard::new();
    bb.set_int("count".to_string(), -7);
    bb.set_string("name".to_string(), "deep".to_string());
    bb.set_entity("attack_target".to_string(), 99);
    bb.set_vec3("move_target".to_string(), Vec3Bits { x: 1, y: 2, z: 3 });
    assert_eq!(bb.get_int("count"), Some(-7));
    assert_eq!(bb.get_string("name"), Some("deep".to_string()));
    assert_eq!(bb.get_entity("attack_target"), Some(99));
    assert_eq!(bb.get_vec3("move_target"), Some(Vec3Bits { x: 1, y: 2, z: 3 }));
    // A value of another kind under the key reads as nothing.
    assert_eq!(bb.get_bool("count"), None);
    // Writing again replaces the value.
    bb.set_int("count".to_string(), 3);
    assert_eq!(bb.get_int("count"), Some(3));
    assert_eq!(bb.get_int("missing"), None);
}

#[test]
fn sequence_fails_without_target_and_runs_with_one() {
    let tree = BehaviorTreeBuilder::new()
        .condition(ConditionType::HasTarget, "check_target")
        .action(ActionType::Attack, "attack")
        .sequence()
        .build();
    let mut bb = Blackboard::new();
    assert_eq!(tree.root.tick(&bb), NodeStatus::Failure);
    bb.set_entity("attack_target".to_string(), 5);
    assert_eq!(tree.root.tick(&bb), NodeStatus::Running);
}

#[test]
fn target_condition_reads_the_given_key() {
    let check = condition(ConditionType::HasTarget);
    let mut bb = Blackboard::new();
    bb.set_entity("attack_target".to_string(), 9);
    assert_eq!(check.tick(&bb), NodeStatus::Success);
    assert_eq!(check.tick_with_target_key(&bb, "target"), NodeStatus::Failure);
    bb.set_entity("target".to_string(), 4);
    assert_eq!(check.tick_with_target_key(&bb, "target"), NodeStatus::Success);
    let attack = BehaviorNode::Sequence(vec![check, action(ActionType::Attack)]);
    assert_eq!(attack.tick_with_target_key(&bb, "target"), NodeStatus::Running);
    let mut only_target = Blackboard::new();
    only_target.set_entity("target".to_string(), 4);
    assert_eq!(attack.tick_with_target_key(&only_target, "target"), NodeStatus::Failure);
}

#[test]
fn empty_builder_gives_a_succeeding_wait() {
    let tree = BehaviorTreeBuilder::new().build();
    assert_eq!(tree.root.tick(&Blackboard::new()), NodeStatus::Success);
    assert_eq!(f32::from_bits(tree.last_tick), 0.0);
}

#[test]
fn selector_takes_the_first_that_does_not_fail() {
    let bb = Blackboard::new();
    let node = BehaviorNode::Selector(vec![
        action(ActionType::MoveTo),
        action(ActionType::Gather),
        action(ActionType::Wait),
    ]);
    assert_eq!(node.tick(&bb), NodeStatus::Running);
    let empty = BehaviorNode::Selector(vec![]);
    assert_eq!(empty.tick(&bb), NodeStatus::Failure);
    let empty_sequence = BehaviorNode::Sequence(vec![]);
    assert_eq!(empty_sequence.tick(&bb), NodeStatus::Success);
}

#[test]
fn parallel_counts_successes() {
    let bb = Blackboard::new();
    let children = || vec![action(ActionType::Wait), action(ActionType::Patrol), action(ActionType::MoveTo)];
    assert_eq!(BehaviorNode::Parallel(children(), 1).tick(&bb), NodeStatus::Success);
    assert_eq!(BehaviorNode::Parallel(children(), 2).tick(&bb), NodeStatus::Running);
    let failing = vec![action(ActionType::MoveTo), action(ActionType::Attack)];
    assert_eq!(BehaviorNode::Parallel(failing, 1).tick(&bb), NodeStatus::Failure);
}

#[test]
fn decorators() {
    let bb = Blackboard::new();
    assert_eq!(BehaviorNode::Inverter(action(ActionType::Wait)).tick(&bb), NodeStatus::Failure);
    assert_eq!(BehaviorNode::Inverter(action(ActionType::MoveTo)).tick(&bb), NodeStatus::Success);
    assert_eq!(BehaviorNode::Inverter(action(ActionType::Build)).tick(&bb), NodeStatus::Running);
    let double = BehaviorNode::Inverter(Box::new(BehaviorNode::Inverter(action(ActionType::Build))));
    assert_eq!(double.tick(&bb), NodeStatus::Running);
    assert_eq!(BehaviorNode::Repeater(action(ActionType::MoveTo), 3).tick(&bb), NodeStatus::Failure);
    assert_eq!(BehaviorNode::Repeater(action(ActionType::MoveTo), 0).tick(&bb), NodeStatus::Success);
    assert_eq!(BehaviorNode::Repeater(action(ActionType::Patrol), 2).tick(&bb), NodeStatus::Success);
    assert_eq!(BehaviorNode::Succeeder(action(ActionType::MoveTo)).tick(&bb), NodeStatus::Success);
    assert_eq!(BehaviorNode::Failer(action(ActionType::Wait)).tick(&bb), NodeStatus::Failure);
}

#[test]
fn conditions_compare_blackboard_floats() {
    let mut bb = Blackboard::new();
    let resources = condition(ConditionType::HasResources);
    let healthy = condition(ConditionType::IsHealthy);
    assert_eq!(resources.tick(&bb), NodeStatus::Failure);
    bb.set_float("resources".to_string(), 100.0f32.to_bits());
    assert_eq!(resources.tick(&bb), NodeStatus::Failure);
    bb.set_float("resources".to_string(), 100.5f32.to_bits());
    assert_eq!(resources.tick(&bb), NodeStatus::Success);
    bb.set_float("health".to_string(), (-60.0f32).to_bits());
    assert_eq!(healthy.tick(&bb), NodeStatus::Failure);
    bb.set_float("health".to_string(), f32::NAN.to_bits());
    assert_eq!(healthy.tick(&bb), NodeStatus::Failure);
    bb.set_float("health".to_string(), f32::INFINITY.to_bits());
    assert_eq!(healthy.tick(&bb), NodeStatus::Success);
    assert_eq!(condition(ConditionType::IsUnderAttack).tick(&bb), NodeStatus::Failure);
    bb.set_bool("under_attack".to_string(), true);
    assert_eq!(condition(ConditionType::IsUnderAttack).tick(&bb), NodeStatus::Success);
    assert_eq!(condition(ConditionType::CanBuild).tick(&bb), NodeStatus::Failure);
    assert_eq!(condition(ConditionType::Custom("x".to_string())).tick(&bb), NodeStatus::Success);
}

#[test]
fn inverted_sequence_matches_selector_of_inverted_children() {
    let mut bb = Blackboard::new();
    bb.set_entity("attack_target".to_string(), 1);
    let kinds = [ActionType::Wait, ActionType::MoveTo, ActionType::Attack];
    let seq = BehaviorNode::Inverter(Box::new(BehaviorNode::Sequence(
        kinds.iter().cloned().map(action).collect(),
    )));
    let sel = BehaviorNode::Selector(
        kinds.iter().cloned().map(|k| Box::new(BehaviorNode::Inverter(action(k)))).collect(),
    );
    assert_eq!(seq.tick(&bb), sel.tick(&bb));
    assert_eq!(seq.tick(&bb), NodeStatus::Success);
}

#[test]
fn inverted_selector_ticks_like_a_sequence_of_inverted_children() {
    let bb = Blackboard::new();
    let kinds = [ActionType::MoveTo, ActionType::Wait, ActionType::Build];
    for a in kinds.iter() {
        for b in kinds.iter() {
            let children = || vec![action(a.clone()), action(b.clone())];
            let inverted_selector = BehaviorNode::Inverter(Box::new(BehaviorNode::Selector(children())));
            let sequence_of_inverted = BehaviorNode::Sequence(
                children().into_iter().map(|c| Box::new(BehaviorNode::Inverter(c))).collect(),
            );
            assert_eq!(inverted_selector.tick(&bb), sequence_of_inverted.tick(&bb));
        }
    }
    let all_fail = BehaviorNode::Inverter(Box::new(BehaviorNode::Selector(vec![action(ActionType::MoveTo)])));
    assert_eq!(all_fail.tick(&bb), NodeStatus::Success);
}
