use cosmic_cults::xp::{calculate_next_level_xp, Experience, VeteranTier};

#[test]
fn experience_starts_at_level_one() {
    let e = Experience::default();
    assert_eq!((e.current, e.total, e.level, e.next_level_xp), (0, 0, 1, 100));
}

#[test]
fn next_level_threshold_grows_with_the_square_of_the_level() {
    assert_eq!(calculate_next_level_xp(1), 150);
    assert_eq!(calculate_next_level_xp(2), 300);
    assert_eq!(calculate_next_level_xp(3), 550);
    assert_eq!(calculate_next_level_xp(10), 5100);
}

#[test]
fn add_xp_counts_held_and_total() {
    let mut e = Experience::default();
    e.add_xp(40);
    e.add_xp(30);
    assert_eq!((e.current, e.total, e.level), (70, 70, 1));
    assert!(!e.can_level_up());
    e.add_xp(30);
    assert!(e.can_level_up());
}

#[test]
fn level_up_spends_the_threshold() {
    let mut e = Experience::default();
    e.add_xp(120);
    e.level_up();
    assert_eq!((e.current, e.total, e.level, e.next_level_xp), (20, 120, 2, 300));
}

#[test]
fn gain_xp_rises_every_level_paid_for() {
    let mut e = Experience::default();
    // 100 for level 2, 300 for level 3, 550 for level 4: 950 in all.
    assert!(e.gain_fits(1000));
    let levels = e.gain_xp(1000);
    assert_eq!(levels, vec![2, 3, 4]);
    assert_eq!((e.current, e.total, e.level, e.next_level_xp), (50, 1000, 4, 900));
    // Experience is conserved: what is held plus the thresholds paid is what was gained.
    assert_eq!(e.current + 100 + 300 + 550, 1000);
}

#[test]
fn gain_xp_in_two_steps_ends_where_one_step_does() {
    let mut a = Experience::default();
    a.gain_xp(130);
    a.gain_xp(400);
    let mut b = Experience::default();
    b.gain_xp(530);
    assert_eq!((a.current, a.level, a.next_level_xp), (b.current, b.level, b.next_level_xp));
    assert_eq!(a.total, b.total);
}

#[test]
fn gain_below_threshold_rises_no_level() {
    let mut e = Experience::default();
    assert!(e.gain_xp(99).is_empty());
    assert_eq!(e.level, 1);
}

#[test]
fn gain_fits_refuses_an_overflowing_gain() {
    let mut e = Experience::default();
    e.add_xp(u32::MAX - 10);
    assert!(!e.gain_fits(11));
    // Gaining everything at once from level one still fits.
    assert!(Experience::default().gain_fits(u32::MAX));
    // At level 9268 the next threshold would not fit in a u32.
    let high = Experience { current: 0, total: 0, level: 9268, next_level_xp: 4_294_791_300 };
    assert!(high.gain_fits(4_294_791_299));
    assert!(!high.gain_fits(4_294_791_300));
}

#[test]
fn veteran_multipliers() {
    let tiers = [
        (VeteranTier::Recruit, 1.0f32),
        (VeteranTier::Regular, 1.1),
        (VeteranTier::Veteran, 1.25),
        (VeteranTier::Elite, 1.4),
        (VeteranTier::Champion, 1.6),
        (VeteranTier::Legendary, 2.0),
    ];
    for (tier, m) in tiers {
        assert_eq!(f32::from_bits(tier.stat_multiplier()), m);
    }
}
