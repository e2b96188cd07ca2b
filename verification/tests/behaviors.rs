use cosmic_cults::behavior_tree::{Blackboard, BlackboardValue, NodeStatus};
use cosmic_cults::behaviors::{
    create_aggressive_behavior, create_defensive_behavior, create_gatherer_behavior, AIAction, AICondition,
    BehaviorNode, UnitCommand, UnitView,
};
use cosmic_cults::float_bits::Vec3Bits;

fn v3(x: f32, y: f32, z: f32) -> Vec3Bits {
    Vec3Bits { x: x.to_bits(), y: y.to_bits(), z: z.to_bits() }
}

fn patrol_points_around(base: (f32, f32, f32)) -> [Vec3Bits; 4] {
    [
        v3(base.0 + 10.0, base.1, base.2),
        v3(base.0, base.1, base.2 + 10.0),
        v3(base.0 - 10.0, base.1, base.2),
        v3(base.0, base.1, base.2 - 10.0),
    ]
}

fn view(health_ratio: Option<f32>, distances: Vec<(Vec3Bits, f32)>) -> UnitView {
    UnitView {
        health_ratio: health_ratio.map(f32::to_bits),
        distances: distances.into_iter().map(|(p, d)| (p, d.to_bits())).collect(),
        patrol_points: patrol_points_around((0.0, 0.0, 0.0)),
    }
}

fn run(node: &BehaviorNode, bb: &mut Blackboard, v: &UnitView) -> (NodeStatus, Vec<UnitCommand>) {
    let mut commands = Vec::new();
    let status = node.execute(bb, v, &mut commands);
    (status, commands)
}

#[test]
fn move_to_target_needs_a_target_position() {
    let node = BehaviorNode::Action(AIAction::MoveToTarget);
    let mut bb = Blackboard::new();
    let v = view(None, vec![]);
    assert_eq!(run(&node, &mut bb, &v), (NodeStatus::Failure, vec![]));
    bb.set_vec3("target_position".to_string(), v3(1.0, 2.0, 3.0));
    assert_eq!(
        run(&node, &mut bb, &v),
        (NodeStatus::Running, vec![UnitCommand::MoveTo { target: v3(1.0, 2.0, 3.0), speed: 5.0f32.to_bits() }])
    );
}

#[test]
fn each_command_action_issues_its_component() {
    let v = view(None, vec![]);
    let mut bb = Blackboard::new();
    bb.set_entity("attack_target".to_string(), 7);
    bb.set_entity("resource_target".to_string(), 8);
    bb.set_vec3("base_position".to_string(), v3(5.0, 0.0, 5.0));
    bb.set_vec3("defend_position".to_string(), v3(-1.0, 0.0, 2.0));
    assert_eq!(
        run(&BehaviorNode::Action(AIAction::AttackTarget), &mut bb, &v),
        (NodeStatus::Running, vec![UnitCommand::Attack { target: 7, aggression_level: 1.0f32.to_bits() }])
    );
    assert_eq!(
        run(&BehaviorNode::Action(AIAction::GatherResource), &mut bb, &v),
        (NodeStatus::Running, vec![UnitCommand::Gather { resource: Some(8), gathering_rate: 1.0f32.to_bits() }])
    );
    assert_eq!(
        run(&BehaviorNode::Action(AIAction::ReturnToBase), &mut bb, &v),
        (NodeStatus::Running, vec![UnitCommand::MoveTo { target: v3(5.0, 0.0, 5.0), speed: 4.0f32.to_bits() }])
    );
    assert_eq!(
        run(&BehaviorNode::Action(AIAction::DefendPosition), &mut bb, &v),
        (
            NodeStatus::Running,
            vec![UnitCommand::Defend { position: v3(-1.0, 0.0, 2.0), patrol_radius: 10.0f32.to_bits() }]
        )
    );
    let mut empty = Blackboard::new();
    for a in [AIAction::AttackTarget, AIAction::GatherResource, AIAction::ReturnToBase, AIAction::DefendPosition] {
        assert_eq!(run(&BehaviorNode::Action(a), &mut empty, &v), (NodeStatus::Failure, vec![]));
    }
}

#[test]
fn note_actions_write_the_blackboard() {
    let v = view(None, vec![]);
    let mut bb = Blackboard::new();
    assert_eq!(run(&BehaviorNode::Action(AIAction::SearchArea), &mut bb, &v).0, NodeStatus::Running);
    assert_eq!(bb.get_bool("searching"), Some(true));
    assert_eq!(run(&BehaviorNode::Action(AIAction::CallForHelp), &mut bb, &v).0, NodeStatus::Success);
    assert_eq!(bb.get_bool("help_requested"), Some(true));
    let ability = BehaviorNode::Action(AIAction::UseAbility("blood_rite".to_string()));
    assert_eq!(run(&ability, &mut bb, &v).0, NodeStatus::Success);
    assert_eq!(bb.get_string("ability_used"), Some("blood_rite".to_string()));
}

#[test]
fn patrol_visits_the_four_points_in_turn() {
    let v = view(None, vec![]);
    let node = BehaviorNode::Action(AIAction::Patrol);
    let mut bb = Blackboard::new();
    // The first patrol only starts the index.
    assert_eq!(run(&node, &mut bb, &v), (NodeStatus::Success, vec![]));
    assert_eq!(bb.get_float("patrol_index").map(f32::from_bits), Some(0.0));
    assert_eq!(bb.get_vec3("target_position"), None);
    let expected = [1usize, 2, 3, 0, 1];
    for k in expected {
        assert_eq!(run(&node, &mut bb, &v), (NodeStatus::Success, vec![]));
        assert_eq!(bb.get_float("patrol_index").map(f32::from_bits), Some(k as f32));
        assert_eq!(bb.get_vec3("target_position"), Some(v.patrol_points[k]));
    }
}

#[test]
fn patrol_truncates_a_fractional_or_large_index() {
    let v = view(None, vec![]);
    let node = BehaviorNode::Action(AIAction::Patrol);
    let mut bb = Blackboard::new();
    bb.set_float("patrol_index".to_string(), 2.7f32.to_bits());
    run(&node, &mut bb, &v);
    assert_eq!(bb.get_float("patrol_index").map(f32::from_bits), Some(3.0));
    bb.set_float("patrol_index".to_string(), 13.0f32.to_bits());
    run(&node, &mut bb, &v);
    assert_eq!(bb.get_float("patrol_index").map(f32::from_bits), Some(2.0));
    bb.set_float("patrol_index".to_string(), (-4.0f32).to_bits());
    run(&node, &mut bb, &v);
    assert_eq!(bb.get_float("patrol_index").map(f32::from_bits), Some(1.0));
}

#[test]
fn conditions_read_the_view_and_blackboard() {
    let target = v3(3.0, 0.0, 4.0);
    let near = view(Some(0.25), vec![(target, 5.0)]);
    let mut bb = Blackboard::new();
    let check = |c: AICondition, bb: &mut Blackboard, v: &UnitView| run(&BehaviorNode::Condition(c), bb, v).0;
    assert_eq!(check(AICondition::HasTarget, &mut bb, &near), NodeStatus::Failure);
    assert_eq!(check(AICondition::TargetInRange(5.0f32.to_bits()), &mut bb, &near), NodeStatus::Failure);
    bb.set_vec3("target_position".to_string(), target);
    assert_eq!(check(AICondition::HasTarget, &mut bb, &near), NodeStatus::Success);
    assert_eq!(check(AICondition::TargetInRange(5.0f32.to_bits()), &mut bb, &near), NodeStatus::Success);
    assert_eq!(check(AICondition::TargetInRange(4.9f32.to_bits()), &mut bb, &near), NodeStatus::Failure);
    // No position known: never in range.
    let blind = view(Some(0.25), vec![]);
    assert_eq!(check(AICondition::TargetInRange(100.0f32.to_bits()), &mut bb, &blind), NodeStatus::Failure);

    assert_eq!(check(AICondition::HealthBelow(0.3f32.to_bits()), &mut bb, &near), NodeStatus::Success);
    assert_eq!(check(AICondition::HealthAbove(0.3f32.to_bits()), &mut bb, &near), NodeStatus::Failure);
    // Not a unit: health is above every threshold and below none.
    let no_unit = view(None, vec![]);
    assert_eq!(check(AICondition::HealthAbove(0.9f32.to_bits()), &mut bb, &no_unit), NodeStatus::Success);
    assert_eq!(check(AICondition::HealthBelow(0.9f32.to_bits()), &mut bb, &no_unit), NodeStatus::Failure);

    assert_eq!(check(AICondition::HasResources(0), &mut bb, &near), NodeStatus::Success);
    assert_eq!(check(AICondition::HasResources(10), &mut bb, &near), NodeStatus::Failure);
    bb.set_float("resources".to_string(), 10.0f32.to_bits());
    assert_eq!(check(AICondition::HasResources(10), &mut bb, &near), NodeStatus::Success);
    assert_eq!(check(AICondition::HasResources(11), &mut bb, &near), NodeStatus::Failure);
    bb.set_float("nearby_enemies".to_string(), 2.0f32.to_bits());
    assert_eq!(check(AICondition::EnemiesNearby(2), &mut bb, &near), NodeStatus::Success);
    assert_eq!(check(AICondition::AlliesNearby(1), &mut bb, &near), NodeStatus::Failure);

    assert_eq!(check(AICondition::AtBase, &mut bb, &near), NodeStatus::Failure);
    assert_eq!(check(AICondition::PathClear, &mut bb, &near), NodeStatus::Success);
    bb.set_bool("at_base".to_string(), true);
    bb.set_bool("path_blocked".to_string(), true);
    assert_eq!(check(AICondition::AtBase, &mut bb, &near), NodeStatus::Success);
    assert_eq!(check(AICondition::PathClear, &mut bb, &near), NodeStatus::Failure);
}

#[test]
fn large_counts_compare_after_rounding_to_f32() {
    let v = view(None, vec![]);
    let mut bb = Blackboard::new();
    // 16777217 as f32 is 16777216.0, so a count of 16777216.0 reaches it.
    bb.set_float("resources".to_string(), 16_777_216.0f32.to_bits());
    let node = BehaviorNode::Condition(AICondition::HasResources(16_777_217));
    assert_eq!(run(&node, &mut bb, &v).0, NodeStatus::Success);
}

#[test]
fn decorators_shape_the_child_status() {
    let v = view(None, vec![]);
    let mut bb = Blackboard::new();
    let fail = || Box::new(BehaviorNode::Condition(AICondition::AtBase));
    let succeed = || Box::new(BehaviorNode::Condition(AICondition::PathClear));
    let running = || Box::new(BehaviorNode::Action(AIAction::SearchArea));
    assert_eq!(run(&BehaviorNode::Inverter(fail()), &mut bb, &v).0, NodeStatus::Success);
    assert_eq!(run(&BehaviorNode::Inverter(running()), &mut bb, &v).0, NodeStatus::Running);
    assert_eq!(run(&BehaviorNode::UntilFail(fail()), &mut bb, &v).0, NodeStatus::Success);
    assert_eq!(run(&BehaviorNode::UntilFail(succeed()), &mut bb, &v).0, NodeStatus::Running);
    assert_eq!(run(&BehaviorNode::UntilSuccess(succeed()), &mut bb, &v).0, NodeStatus::Success);
    assert_eq!(run(&BehaviorNode::UntilSuccess(fail()), &mut bb, &v).0, NodeStatus::Running);
    assert_eq!(run(&BehaviorNode::Repeater(succeed(), 3), &mut bb, &v).0, NodeStatus::Success);
    assert_eq!(run(&BehaviorNode::Repeater(fail(), 3), &mut bb, &v).0, NodeStatus::Failure);
    assert_eq!(run(&BehaviorNode::Repeater(fail(), 0), &mut bb, &v).0, NodeStatus::Success);
    assert_eq!(run(&BehaviorNode::Repeater(running(), 3), &mut bb, &v).0, NodeStatus::Running);
    // Double inversion gives the child's own status.
    let twice = BehaviorNode::Inverter(Box::new(BehaviorNode::Inverter(fail())));
    assert_eq!(run(&twice, &mut bb, &v).0, NodeStatus::Failure);
}

#[test]
fn repeater_runs_the_patrol_each_time() {
    let v = view(None, vec![]);
    let mut bb = Blackboard::new();
    bb.set_float("patrol_index".to_string(), 0.0f32.to_bits());
    let node = BehaviorNode::Repeater(Box::new(BehaviorNode::Action(AIAction::Patrol)), 3);
    assert_eq!(run(&node, &mut bb, &v).0, NodeStatus::Success);
    assert_eq!(bb.get_float("patrol_index").map(f32::from_bits), Some(3.0));
    assert_eq!(bb.get_vec3("target_position"), Some(v.patrol_points[3]));
}

#[test]
fn parallel_counts_successes_and_runs_every_child() {
    let v = view(None, vec![]);
    let mut bb = Blackboard::new();
    let children = vec![
        BehaviorNode::Action(AIAction::CallForHelp),
        BehaviorNode::Action(AIAction::SearchArea),
        BehaviorNode::Condition(AICondition::AtBase),
    ];
    let node = BehaviorNode::Parallel(children, 2);
    assert_eq!(run(&node, &mut bb, &v).0, NodeStatus::Running);
    assert_eq!(bb.get_bool("help_requested"), Some(true));
    assert_eq!(bb.get_bool("searching"), Some(true));
    let node = BehaviorNode::Parallel(vec![BehaviorNode::Action(AIAction::CallForHelp)], 1);
    assert_eq!(run(&node, &mut bb, &v).0, NodeStatus::Success);
    let node = BehaviorNode::Parallel(vec![BehaviorNode::Condition(AICondition::AtBase)], 1);
    assert_eq!(run(&node, &mut bb, &v).0, NodeStatus::Failure);
}

#[test]
fn aggressive_tree_attacks_a_target_in_range() {
    let mut tree = create_aggressive_behavior();
    assert_eq!(f32::from_bits(tree.tick_rate), 0.5);
    assert_eq!(f32::from_bits(tree.last_tick), 0.0);
    let target = v3(0.0, 0.0, 10.0);
    tree.blackboard.set_vec3("target_position".to_string(), target);
    tree.blackboard.set_entity("attack_target".to_string(), 42);
    let v = view(Some(1.0), vec![(target, 10.0)]);
    let (status, commands) = tree.run_tick(2.0f32.to_bits(), v3(0.0, 0.0, 0.0), &v);
    assert_eq!(status, NodeStatus::Running);
    assert_eq!(commands, vec![UnitCommand::Attack { target: 42, aggression_level: 1.0f32.to_bits() }]);
    assert_eq!(f32::from_bits(tree.last_tick), 2.0);
    assert_eq!(tree.blackboard.get_vec3("current_position"), Some(v3(0.0, 0.0, 0.0)));
}

#[test]
fn aggressive_tree_searches_when_the_target_is_far() {
    let mut tree = create_aggressive_behavior();
    let target = v3(0.0, 0.0, 40.0);
    tree.blackboard.set_vec3("target_position".to_string(), target);
    let v = view(Some(1.0), vec![(target, 40.0)]);
    tree.current_path = vec![1, 2];
    let (status, commands) = tree.run_tick(1.0f32.to_bits(), v3(0.0, 0.0, 0.0), &v);
    // The search runs, so the sequence stops there for this tick.
    assert_eq!(status, NodeStatus::Running);
    assert!(commands.is_empty());
    assert_eq!(tree.blackboard.get_bool("searching"), Some(true));
    // A running tick keeps the current path.
    assert_eq!(tree.current_path, vec![1, 2]);
}

#[test]
fn defensive_tree_retreats_when_hurt() {
    let mut tree = create_defensive_behavior();
    tree.blackboard.set_vec3("base_position".to_string(), v3(1.0, 0.0, 1.0));
    let v = view(Some(0.1), vec![]);
    let (status, commands) = tree.run_tick(0.0f32.to_bits(), v3(5.0, 0.0, 5.0), &v);
    assert_eq!(status, NodeStatus::Running);
    assert_eq!(commands, vec![UnitCommand::MoveTo { target: v3(1.0, 0.0, 1.0), speed: 4.0f32.to_bits() }]);
}

#[test]
fn defensive_tree_patrols_when_safe() {
    let mut tree = create_defensive_behavior();
    let v = view(Some(1.0), vec![]);
    // No patrol index yet: the patrol starts the index and the move fails for lack of a target.
    let (status, commands) = tree.run_tick(0.0f32.to_bits(), v3(0.0, 0.0, 0.0), &v);
    assert_eq!(status, NodeStatus::Failure);
    assert!(commands.is_empty());
    let (status, commands) = tree.run_tick(0.5f32.to_bits(), v3(0.0, 0.0, 0.0), &v);
    assert_eq!(status, NodeStatus::Running);
    assert_eq!(commands, vec![UnitCommand::MoveTo { target: v.patrol_points[1], speed: 5.0f32.to_bits() }]);
}

#[test]
fn gatherer_tree_searches_when_idle_and_finishes_its_path() {
    let mut tree = create_gatherer_behavior();
    assert_eq!(f32::from_bits(tree.tick_rate), 1.0);
    tree.current_path = vec![0];
    let v = view(Some(1.0), vec![]);
    let (status, commands) = tree.run_tick(0.0f32.to_bits(), v3(0.0, 0.0, 0.0), &v);
    assert_eq!(status, NodeStatus::Running);
    assert!(commands.is_empty());
    assert_eq!(tree.blackboard.get_bool("searching"), Some(true));
    // Hurt: call for help, then head home; with no base the sequence fails and
    // the selector goes on to search.
    let hurt = view(Some(0.5), vec![]);
    let (status, _) = tree.run_tick(1.0f32.to_bits(), v3(0.0, 0.0, 0.0), &hurt);
    assert_eq!(status, NodeStatus::Running);
    assert_eq!(tree.blackboard.get_bool("help_requested"), Some(true));
}

#[test]
fn finished_tick_clears_the_path() {
    let mut tree = create_gatherer_behavior();
    tree.root = Box::new(BehaviorNode::Condition(AICondition::AtBase));
    tree.current_path = vec![3, 1];
    let (status, _) = tree.run_tick(0.0f32.to_bits(), v3(0.0, 0.0, 0.0), &view(None, vec![]));
    assert_eq!(status, NodeStatus::Failure);
    assert!(tree.current_path.is_empty());
}

#[test]
fn blackboard_set_stores_any_value() {
    let mut bb = Blackboard::new();
    bb.set("k".to_string(), BlackboardValue::Int(5));
    assert_eq!(bb.get_int("k"), Some(5));
}

#[test]
fn a_run_only_appends_commands_and_writes_action_keys() {
    let v = view(Some(1.0), vec![]);
    let mut bb = Blackboard::new();
    bb.set_vec3("base_position".to_string(), v3(1.0, 0.0, 1.0));
    bb.set_bool("at_base".to_string(), false);
    bb.set_entity("attack_target".to_string(), 5);
    let tree = BehaviorNode::Parallel(
        vec![
            BehaviorNode::Action(AIAction::AttackTarget),
            BehaviorNode::Action(AIAction::ReturnToBase),
            BehaviorNode::Action(AIAction::Patrol),
            BehaviorNode::Action(AIAction::CallForHelp),
        ],
        4,
    );
    let earlier = UnitCommand::Gather { resource: None, gathering_rate: 1.0f32.to_bits() };
    let mut commands = vec![earlier];
    tree.execute(&mut bb, &v, &mut commands);
    assert_eq!(commands[0], earlier);
    assert_eq!(commands.len(), 3);
    // Keys that actions do not write keep their values.
    assert_eq!(bb.get_vec3("base_position"), Some(v3(1.0, 0.0, 1.0)));
    assert_eq!(bb.get_bool("at_base"), Some(false));
    assert_eq!(bb.get_entity("attack_target"), Some(5));
}
