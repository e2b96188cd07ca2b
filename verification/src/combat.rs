//! Health and combat stats of units.
//!
//! `f32` values are carried as their bit patterns (see [`crate::float_bits`]).
use vstd::prelude::*;
use crate::float_bits::{f32_le, spec_le, F32_ONE, F32_TEN, F32_ZERO};

verus! {

/// Bit pattern of the `f32` value 0.1.
pub const F32_ONE_TENTH: u32 = 0x3DCC_CCCD;

/// Bit pattern of the `f32` value 2.0.
pub const F32_TWO: u32 = 0x4000_0000;

/// Combat stats of a unit.
#[derive(Clone, Copy, Debug, PartialEq, Eq, Structural)]
pub struct CombatStats {
    pub damage: u32,
    pub attack_speed: u32,
    pub armor: u32,
    pub magic_resist: u32,
    pub critical_chance: u32,
    pub critical_damage: u32,
    pub life_steal: u32,
}

impl Default for CombatStats {
    /// 10 damage at one attack a second, no armor or resistance, a 10% chance
    /// of a critical hit that deals double damage, no life steal.
    fn default() -> (s: Self)
        ensures
            s == (CombatStats {
                damage: F32_TEN,
                attack_speed: F32_ONE,
                armor: F32_ZERO,
                magic_resist: F32_ZERO,
                critical_chance: F32_ONE_TENTH,
                critical_damage: F32_TWO,
                life_steal: F32_ZERO,
            }),
    {
        CombatStats {
            damage: F32_TEN,
            attack_speed: F32_ONE,
            armor: F32_ZERO,
            magic_resist: F32_ZERO,
            critical_chance: F32_ONE_TENTH,
            critical_damage: F32_TWO,
            life_steal: F32_ZERO,
        }
    }
}

/// Health of an entity that can take damage.
#[derive(Clone, Copy, Debug, PartialEq, Eq, Structural)]
pub struct Health {
    pub current: u32,
    pub maximum: u32,
}

impl Health {
    /// Full health of `maximum`.
    pub fn new(maximum: u32) -> (h: Self)
        ensures
            h.current == maximum,
            h.maximum == maximum,
    {
        Health { current: maximum, maximum }
    }

    /// Dead at zero health or below.
    pub fn is_dead(&self) -> (r: bool)
        ensures
            r == spec_le(self.current, F32_ZERO),
    {
        f32_le(self.current, F32_ZERO)
    }
}

} // verus!
