use cosmic_cults::behaviors::UnitCommand;
use cosmic_cults::decision::{
    scored_goals, AIPersonality, DecisionContext, DecisionMaker, GoalScores, StrategicGoal,
};
use cosmic_cults::float_bits::Vec3Bits;

fn bits(x: f32) -> u32 {
    x.to_bits()
}

fn context(nearby_enemies: usize, threat: f32) -> DecisionContext {
    DecisionContext {
        entity: 1,
        position: Vec3Bits { x: bits(3.0), y: 0, z: bits(4.0) },
        team_id: 1,
        health_percentage: bits(1.0),
        nearby_enemies,
        nearby_allies: 0,
        threat_level: bits(threat),
        has_resources: false,
        time_elapsed: bits(12.0),
    }
}

fn scores(attack: f32, defend: f32, gather: f32, explore: f32) -> GoalScores {
    GoalScores { attack: bits(attack), defend: bits(defend), gather: bits(gather), explore: bits(explore) }
}

#[test]
fn personalities() {
    let a = DecisionMaker::aggressive();
    assert_eq!(f32::from_bits(a.personality.aggression), 0.9);
    assert_eq!(f32::from_bits(a.personality.caution), 0.2);
    let d = DecisionMaker::defensive();
    assert_eq!(f32::from_bits(d.personality.caution), 0.8);
    let e = DecisionMaker::economic();
    assert_eq!(f32::from_bits(e.personality.greed), 0.9);
    let b = DecisionMaker::balanced();
    assert_eq!(f32::from_bits(b.personality.loyalty), 0.5);
    assert!(!b.has_goal());
    assert_eq!(f32::from_bits(b.evaluation_interval), 2.0);
}

#[test]
fn goals_weighed_depend_on_the_context() {
    let s = scores(0.1, 0.2, 0.3, 0.4);
    let calm = scored_goals(&context(0, 0.0), &s, 99);
    assert_eq!(calm.len(), 2);
    assert!(matches!(calm[0].0, StrategicGoal::GatherResources));
    assert!(matches!(calm[1].0, StrategicGoal::ExploreTerrain(p) if p == Vec3Bits { x: bits(50.0), y: 0, z: bits(50.0) }));
    let war = scored_goals(&context(2, 0.8), &s, 99);
    assert_eq!(war.len(), 2);
    assert!(matches!(war[0].0, StrategicGoal::EliminateEnemy(99)));
    assert!(matches!(war[1].0, StrategicGoal::DefendPosition(_)));
    assert_eq!(f32::from_bits(war[1].1), 0.2);
    // Between 0.3 and 0.5 threat with no enemy near, nothing is weighed.
    assert!(scored_goals(&context(0, 0.4), &s, 99).is_empty());
}

#[test]
fn update_adopts_the_best_goal_above_one_half() {
    let mut m = DecisionMaker::balanced();
    m.update(&context(0, 0.0), &scores(0.0, 0.0, 0.6, 0.8), 99);
    assert!(matches!(m.current_goal, Some(StrategicGoal::ExploreTerrain(_))));
    assert_eq!(m.decision_history.len(), 1);
    assert_eq!(f32::from_bits(m.decision_history[0].score), 0.8);
    assert_eq!(f32::from_bits(m.decision_history[0].timestamp), 12.0);
    assert!(!m.decision_history[0].success);
    // A best score of 0.5 is not enough: nothing changes.
    m.update(&context(0, 0.0), &scores(0.0, 0.0, 0.5, 0.5), 99);
    assert!(matches!(m.current_goal, Some(StrategicGoal::ExploreTerrain(_))));
    assert_eq!(m.decision_history.len(), 1);
}

#[test]
fn equal_scores_keep_the_first_goal() {
    let mut m = DecisionMaker::balanced();
    m.update(&context(0, 0.0), &scores(0.0, 0.0, 0.7, 0.7), 99);
    assert!(matches!(m.current_goal, Some(StrategicGoal::GatherResources)));
}

#[test]
fn history_keeps_the_last_twenty_decisions() {
    let mut m = DecisionMaker::balanced();
    for i in 0..25 {
        let mut c = context(0, 0.0);
        c.time_elapsed = bits(i as f32);
        m.update(&c, &scores(0.0, 0.0, 0.9, 0.1), 99);
    }
    assert_eq!(m.decision_history.len(), 20);
    assert_eq!(f32::from_bits(m.decision_history[0].timestamp), 5.0);
    assert_eq!(f32::from_bits(m.decision_history[19].timestamp), 24.0);
}

#[test]
fn goals_complete_in_queue_order() {
    let mut m = DecisionMaker::new(AIPersonality {
        aggression: bits(0.5),
        caution: bits(0.5),
        greed: bits(0.5),
        loyalty: bits(0.5),
        exploration: bits(0.5),
    });
    m.update(&context(3, 0.1), &scores(0.9, 0.0, 0.0, 0.0), 7);
    assert!(matches!(m.current_goal, Some(StrategicGoal::EliminateEnemy(7))));
    m.add_goal(StrategicGoal::GatherResources);
    m.add_goal(StrategicGoal::BuildBase(Vec3Bits { x: 0, y: 0, z: 0 }));
    m.complete_goal(true);
    assert!(m.decision_history[0].success);
    assert!(matches!(m.current_goal, Some(StrategicGoal::GatherResources)));
    m.complete_goal(false);
    assert!(matches!(m.current_goal, Some(StrategicGoal::BuildBase(_))));
    m.complete_goal(false);
    assert!(!m.has_goal());
    m.add_goal(StrategicGoal::GatherResources);
    m.clear_goals();
    assert!(!m.has_goal());
    assert!(m.goal_queue.is_empty());
}

#[test]
fn each_goal_puts_its_component() {
    let mut m = DecisionMaker::aggressive();
    assert_eq!(m.goal_command(), None);
    m.current_goal = Some(StrategicGoal::EliminateEnemy(4));
    assert_eq!(m.goal_command(), Some(UnitCommand::Attack { target: 4, aggression_level: bits(0.9) }));
    let here = Vec3Bits { x: bits(1.0), y: 0, z: 0 };
    m.current_goal = Some(StrategicGoal::DefendPosition(here));
    assert_eq!(m.goal_command(), Some(UnitCommand::Defend { position: here, patrol_radius: bits(10.0) }));
    m.current_goal = Some(StrategicGoal::GatherResources);
    assert_eq!(m.goal_command(), Some(UnitCommand::Gather { resource: None, gathering_rate: bits(1.0) }));
    m.current_goal = Some(StrategicGoal::ExploreTerrain(here));
    assert_eq!(m.goal_command(), Some(UnitCommand::MoveTo { target: here, speed: bits(4.0) }));
    m.current_goal = Some(StrategicGoal::EscortUnit(3));
    assert_eq!(m.goal_command(), None);
}
