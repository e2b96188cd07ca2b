use cosmic_cults::combat::{CombatStats, Health};

#[test]
fn default_combat_stats() {
    let s = CombatStats::default();
    let f = |b: u32| f32::from_bits(b);
    assert_eq!(
        (f(s.damage), f(s.attack_speed), f(s.armor), f(s.magic_resist), f(s.critical_chance), f(s.critical_damage), f(s.life_steal)),
        (10.0, 1.0, 0.0, 0.0, 0.1, 2.0, 0.0)
    );
}

#[test]
fn health_starts_full_and_dies_at_zero() {
    let mut h = Health::new(100.0f32.to_bits());
    assert_eq!(f32::from_bits(h.current), 100.0);
    assert!(!h.is_dead());
    h.current = 0.0f32.to_bits();
    assert!(h.is_dead());
    h.current = (-0.0f32).to_bits();
    assert!(h.is_dead());
    h.current = (-5.0f32).to_bits();
    assert!(h.is_dead());
    h.current = 0.001f32.to_bits();
    assert!(!h.is_dead());
    // NaN health is not dead: NaN <= 0.0 is false.
    h.current = f32::NAN.to_bits();
    assert!(!h.is_dead());
}
