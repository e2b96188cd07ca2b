use cosmic_cults::decision_making::{AIDecisionMaker, DecisionType};
use cosmic_cults::float_bits::Vec3Bits;

fn bits(x: f32) -> u32 {
    x.to_bits()
}

fn priorities(m: &AIDecisionMaker) -> Vec<f32> {
    m.decision_queue.iter().map(|d| f32::from_bits(d.priority)).collect()
}

#[test]
fn decisions_queue_by_priority() {
    let mut m = AIDecisionMaker::default();
    assert!(m.get_next_decision().is_none());
    m.add_decision(DecisionType::Research("runes".to_string()), bits(0.5), bits(1.0), bits(11.0));
    m.add_decision(DecisionType::BuildUnit("cultist".to_string()), bits(0.9), bits(1.0), bits(11.0));
    m.add_decision(DecisionType::Attack(Vec3Bits { x: 0, y: 0, z: 0 }), bits(0.7), bits(1.0), bits(11.0));
    // An equal priority goes after those already queued.
    m.add_decision(DecisionType::BuildStructure("altar".to_string()), bits(0.7), bits(1.0), bits(11.0));
    assert_eq!(priorities(&m), vec![0.9, 0.7, 0.7, 0.5]);
    assert!(matches!(m.decision_queue[1].decision_type, DecisionType::Attack(_)));
    assert!(matches!(m.decision_queue[2].decision_type, DecisionType::BuildStructure(_)));
    assert!(matches!(m.get_next_decision().unwrap().decision_type, DecisionType::BuildUnit(_)));
    m.complete_decision();
    assert_eq!(priorities(&m), vec![0.7, 0.7, 0.5]);
}

#[test]
fn the_queue_keeps_the_ten_most_urgent() {
    let mut m = AIDecisionMaker::default();
    for i in 0..12 {
        m.add_decision(DecisionType::Research(format!("r{}", i)), bits(i as f32), bits(0.0), bits(10.0));
    }
    assert_eq!(m.decision_queue.len(), 10);
    assert_eq!(priorities(&m), vec![11.0, 10.0, 9.0, 8.0, 7.0, 6.0, 5.0, 4.0, 3.0, 2.0]);
}

#[test]
fn expired_decisions_are_cleared() {
    let mut m = AIDecisionMaker::default();
    m.add_decision(DecisionType::Defend(Vec3Bits { x: 0, y: 0, z: 0 }), bits(0.9), bits(0.0), bits(5.0));
    m.add_decision(DecisionType::Expand(Vec3Bits { x: 0, y: 0, z: 0 }), bits(0.8), bits(0.0), bits(15.0));
    m.clear_expired_decisions(bits(5.0));
    assert_eq!(priorities(&m), vec![0.8]);
    m.clear_expired_decisions(bits(20.0));
    assert!(m.decision_queue.is_empty());
    // Completing with nothing queued leaves nothing.
    m.complete_decision();
    assert!(m.decision_queue.is_empty());
}

fn options(scores: &[f32]) -> Vec<(DecisionType, u32)> {
    let kinds = [
        DecisionType::BuildUnit("warrior".to_string()),
        DecisionType::BuildStructure("essence_extractor".to_string()),
        DecisionType::Research("improved_extraction".to_string()),
        DecisionType::Attack(Vec3Bits { x: bits(100.0), y: 0, z: bits(100.0) }),
        DecisionType::Expand(Vec3Bits { x: bits(50.0), y: 0, z: bits(50.0) }),
    ];
    kinds.into_iter().zip(scores.iter()).map(|(k, s)| (k, bits(*s))).collect()
}

#[test]
fn options_are_weighed_best_first_and_the_good_ones_queued() {
    let mut m = AIDecisionMaker::default();
    // The scores of a young team: few units, little essence.
    m.evaluate_options(options(&[0.6, 0.156, 0.02, 0.048, 0.01]), bits(4.0), bits(34.0));
    let order: Vec<f32> = m.evaluation_scores.iter().map(|(_, s)| f32::from_bits(*s)).collect();
    assert_eq!(order, vec![0.6, 0.156, 0.048, 0.02, 0.01]);
    assert!(matches!(m.evaluation_scores[2].0, DecisionType::Attack(_)));
    assert_eq!(priorities(&m), vec![0.6]);
    let d = m.get_next_decision().unwrap();
    assert!(matches!(&d.decision_type, DecisionType::BuildUnit(name) if name == "warrior"));
    assert_eq!((f32::from_bits(d.timestamp), f32::from_bits(d.expires_at)), (4.0, 34.0));
}

#[test]
fn only_the_three_best_options_are_considered() {
    let mut m = AIDecisionMaker::default();
    m.evaluate_options(options(&[0.9, 0.7, 0.7, 0.8, 0.95]), bits(0.0), bits(30.0));
    // Best first; of the equal 0.7 scores the earlier option comes first.
    let order: Vec<f32> = m.evaluation_scores.iter().map(|(_, s)| f32::from_bits(*s)).collect();
    assert_eq!(order, vec![0.95, 0.9, 0.8, 0.7, 0.7]);
    assert!(matches!(m.evaluation_scores[3].0, DecisionType::BuildStructure(_)));
    assert!(matches!(m.evaluation_scores[4].0, DecisionType::Research(_)));
    assert_eq!(priorities(&m), vec![0.95, 0.9, 0.8]);
    assert!(matches!(m.decision_queue[0].decision_type, DecisionType::Expand(_)));
}

#[test]
fn no_options_queue_nothing() {
    let mut m = AIDecisionMaker::default();
    m.evaluate_options(vec![], bits(0.0), bits(30.0));
    assert!(m.evaluation_scores.is_empty());
    assert!(m.decision_queue.is_empty());
}
