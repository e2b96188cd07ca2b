use cosmic_cults::float_bits::Vec3Bits;
use cosmic_cults::targeting::{
    enemy_candidates, get_enemies_in_range, get_nearest_enemy, get_target_priority_for_role, get_weakest_enemy, resources_within, Sighting,
    TargetCandidate, TargetPriority, TargetSelector,
};

#[test]
fn test_target_selector_creation() {
    let selector = TargetSelector::new(TargetPriority::Closest);
    assert_eq!(selector.priority, TargetPriority::Closest);
    assert!(!selector.has_target());
}

#[test]
fn test_target_priority_for_role() {
    assert_eq!(get_target_priority_for_role("tank"), TargetPriority::Closest);
    assert_eq!(get_target_priority_for_role("assassin"), TargetPriority::Weakest);
}

#[test]
fn test_clear_target() {
    let mut selector = TargetSelector::new(TargetPriority::Balanced);
    selector.current_target = Some(1);
    selector.clear_target();
    assert!(!selector.has_target());
}

#[test]
fn other_roles() {
    assert_eq!(get_target_priority_for_role("support"), TargetPriority::Leader);
    assert_eq!(get_target_priority_for_role("gatherer"), TargetPriority::Resource);
    assert_eq!(get_target_priority_for_role("healer"), TargetPriority::Balanced);
    assert_eq!(get_target_priority_for_role(""), TargetPriority::Balanced);
}

fn candidate(entity: u64, distance: f32, health: f32, threat: f32, is_leader: bool) -> TargetCandidate {
    TargetCandidate {
        entity,
        position: Vec3Bits { x: (entity as f32).to_bits(), y: 0, z: 0 },
        distance: distance.to_bits(),
        health: health.to_bits(),
        max_health: 100.0f32.to_bits(),
        damage: 0,
        is_leader,
        threat_level: threat.to_bits(),
        priority_score: 0,
    }
}

fn candidates() -> Vec<TargetCandidate> {
    vec![
        candidate(1, 10.0, 50.0, 0.2, false),
        candidate(2, 4.0, 80.0, 0.9, false),
        candidate(3, 4.0, 20.0, 0.5, true),
        candidate(4, 25.0, 20.0, 0.1, true),
    ]
}

#[test]
fn each_strategy_picks_its_target() {
    let cases = [
        (TargetPriority::Closest, 2),
        (TargetPriority::Weakest, 3),
        (TargetPriority::Strongest, 2),
        (TargetPriority::MostDangerous, 2),
        (TargetPriority::Leader, 3),
        (TargetPriority::Resource, 2),
    ];
    for (priority, expected) in cases {
        let mut s = TargetSelector::new(priority);
        assert_eq!(s.evaluate_targets(candidates(), &vec![], 7.0f32.to_bits()), Some(expected));
        assert_eq!(s.current_target, Some(expected));
        assert_eq!(s.target_position.map(|p| f32::from_bits(p.x)), Some(expected as f32));
        assert_eq!(f32::from_bits(s.last_target_check), 7.0);
        assert_eq!(s.target_history, vec![expected]);
    }
    let mut s = TargetSelector::new(TargetPriority::Balanced);
    let scores: Vec<u32> = [0.5f32, 1.5, 1.5, 0.1].iter().map(|v| v.to_bits()).collect();
    assert_eq!(s.evaluate_targets(candidates(), &scores, 0), Some(2));
}

#[test]
fn no_candidates_clears_the_target() {
    let mut s = TargetSelector::new(TargetPriority::Closest);
    s.current_target = Some(9);
    assert_eq!(s.evaluate_targets(vec![], &vec![], 0), None);
    assert!(!s.has_target());
}

#[test]
fn history_keeps_the_last_ten() {
    let mut s = TargetSelector::new(TargetPriority::Closest);
    for e in 0..12u64 {
        s.evaluate_targets(vec![candidate(e, 1.0, 1.0, 1.0, false)], &vec![], 0);
    }
    assert_eq!(s.target_history, (2..12).collect::<Vec<u64>>());
}

fn sighting(entity: u64, team_id: u32, distance: f32, health: f32) -> Sighting {
    Sighting { entity, team_id, distance: distance.to_bits(), health: health.to_bits() }
}

#[test]
fn nearest_weakest_and_in_range() {
    let s = vec![
        sighting(1, 1, 2.0, 10.0),
        sighting(2, 2, 8.0, 30.0),
        sighting(3, 2, 5.0, 40.0),
        sighting(4, 3, 5.0, 5.0),
        sighting(5, 2, 50.0, 1.0),
    ];
    assert_eq!(get_nearest_enemy(1, &s), Some(3));
    assert_eq!(get_nearest_enemy(2, &s), Some(1));
    assert_eq!(get_weakest_enemy(1, 10.0f32.to_bits(), &s), Some(4));
    assert_eq!(get_weakest_enemy(1, 100.0f32.to_bits(), &s), Some(5));
    assert_eq!(get_enemies_in_range(1, 8.0f32.to_bits(), &s), vec![2, 3, 4]);
    assert_eq!(get_nearest_enemy(1, &vec![sighting(1, 1, 1.0, 1.0)]), None);
    assert_eq!(get_nearest_enemy(1, &vec![sighting(2, 2, f32::MAX, 1.0)]), None);
}

#[test]
fn switching_needs_a_better_candidate() {
    let mut closest = TargetSelector::new(TargetPriority::Closest);
    // Without a target any candidate is taken.
    assert!(closest.should_switch_target(&candidate(9, 100.0, 1.0, 0.0, false)));
    closest.current_target = Some(1);
    assert!(closest.should_switch_target(&candidate(9, 4.9, 1.0, 0.0, false)));
    assert!(!closest.should_switch_target(&candidate(9, 5.0, 1.0, 0.0, false)));

    let mut leader = TargetSelector::new(TargetPriority::Leader);
    leader.current_target = Some(1);
    // Half the default range of 30 is 15.
    assert!(leader.should_switch_target(&candidate(9, 14.0, 1.0, 0.0, true)));
    assert!(!leader.should_switch_target(&candidate(9, 15.0, 1.0, 0.0, true)));
    assert!(!leader.should_switch_target(&candidate(9, 1.0, 1.0, 0.0, false)));

    let mut weakest = TargetSelector::new(TargetPriority::Weakest);
    weakest.current_target = Some(1);
    assert!(!weakest.should_switch_target(&candidate(9, 0.1, 0.1, 0.0, true)));
}

#[test]
fn leader_switch_uses_the_halved_range_exactly() {
    let mut leader = TargetSelector::new(TargetPriority::Leader);
    leader.current_target = Some(1);
    for range in [30.0f32, 1.0, 0.0, 3.0e38, f32::INFINITY, 1.0e-45, 3.0e-45, f32::MIN_POSITIVE] {
        leader.max_range = range.to_bits();
        for d in [0.0f32, 1.0e-45, range * 0.5, range * 0.25, 10.0, f32::INFINITY] {
            let expected = d < range * 0.5;
            assert_eq!(leader.should_switch_target(&candidate(9, d, 1.0, 0.0, true)), expected, "{} vs {}", d, range);
        }
    }
}

#[test]
fn candidates_are_live_enemies_in_range() {
    let sightings = vec![
        sighting(1, 2, 10.0, 50.0),
        sighting(2, 1, 5.0, 50.0),
        sighting(3, 2, 31.0, 50.0),
        sighting(4, 2, 30.0, 0.0),
        sighting(5, 2, 30.0, -1.0),
        sighting(6, 2, 30.0, 0.5),
        sighting(7, 2, f32::NAN, 50.0),
        sighting(8, 2, 1.0, f32::NAN),
    ];
    let range = 30.0f32.to_bits();
    assert_eq!(enemy_candidates(1, range, &sightings), vec![0, 5, 7]);
    assert_eq!(enemy_candidates(2, range, &sightings), vec![1]);
    assert_eq!(enemy_candidates(1, range, &vec![]), Vec::<usize>::new());
}

#[test]
fn resources_are_kept_within_range() {
    let distances: Vec<u32> = [3.0f32, 30.0, 30.5, f32::NAN, f32::INFINITY, 0.0].iter().map(|d| d.to_bits()).collect();
    assert_eq!(resources_within(30.0f32.to_bits(), &distances), vec![0, 1, 5]);
}
