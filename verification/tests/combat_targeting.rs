use cosmic_cults::combat_targeting::{ScoredTarget, TargetLostReason, TargetObservation, TargetingSystem};

fn bits(x: f32) -> u32 {
    x.to_bits()
}

fn seen(beyond_range: bool, same_team: bool, visible: bool) -> Option<TargetObservation> {
    Some(TargetObservation { beyond_range, same_team, visible })
}

#[test]
fn default_targeting() {
    let t = TargetingSystem::default();
    assert_eq!(f32::from_bits(t.range), 30.0);
    assert_eq!(f32::from_bits(t.field_of_view), std::f32::consts::PI);
    assert_eq!(t.current_target, None);
    assert!(t.can_target_air && t.can_target_ground);
}

#[test]
fn the_best_scored_candidate_is_acquired() {
    let mut t = TargetingSystem::default();
    let candidates = vec![
        ScoredTarget { entity: 1, distance: bits(10.0), score: bits(0.5) },
        ScoredTarget { entity: 2, distance: bits(20.0), score: bits(0.8) },
        ScoredTarget { entity: 3, distance: bits(5.0), score: bits(0.8) },
    ];
    assert_eq!(t.acquire_target(&candidates), Some((2, bits(20.0))));
    assert_eq!(t.current_target, Some(2));
    // With a target held, nothing new is acquired.
    assert_eq!(t.acquire_target(&candidates), None);
    assert_eq!(t.current_target, Some(2));
}

#[test]
fn no_candidates_no_target() {
    let mut t = TargetingSystem::default();
    assert_eq!(t.acquire_target(&vec![]), None);
    assert_eq!(t.current_target, None);
}

#[test]
fn targets_are_lost_for_a_reason() {
    let mut t = TargetingSystem::default();
    assert_eq!(t.validate_target(None), None);
    t.current_target = Some(9);
    assert_eq!(t.validate_target(seen(false, false, true)), None);
    assert_eq!(t.current_target, Some(9));
    assert_eq!(t.validate_target(seen(true, false, true)), Some((9, TargetLostReason::OutOfRange)));
    assert_eq!(t.current_target, None);
    t.current_target = Some(9);
    assert_eq!(t.validate_target(seen(true, true, true)), Some((9, TargetLostReason::ManualDisengage)));
    t.current_target = Some(9);
    assert_eq!(t.validate_target(seen(true, true, false)), Some((9, TargetLostReason::LineOfSightBlocked)));
    t.current_target = Some(9);
    assert_eq!(t.validate_target(None), Some((9, TargetLostReason::TargetDestroyed)));
}
