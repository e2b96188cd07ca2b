//! Experience and levels: experience is gained in amounts, and whenever the
//! experience held reaches the threshold of the current level, that much is
//! spent and the level rises by one.
use vstd::prelude::*;

verus! {

/// Experience needed to leave `level`.
pub open spec fn spec_next_level_xp(level: nat) -> nat {
    100 + level * level * 50
}

/// Whether spending `current` experience from `level`, whose threshold is
/// `next`, stays within `u32` throughout: each rise must leave a level number
/// and a threshold that fit, and a zero threshold would never stop rising.
pub open spec fn settles_within_u32(current: nat, level: nat, next: nat) -> bool
    decreases current,
{
    if current < next {
        true
    } else {
        &&& next > 0
        &&& level + 1 <= u32::MAX
        &&& spec_next_level_xp(level + 1) <= u32::MAX
        &&& settles_within_u32((current - next) as nat, level + 1, spec_next_level_xp(level + 1))
    }
}

/// Experience, level and threshold once `current` experience was spent from
/// `level` with threshold `next`.
pub open spec fn settle(current: nat, level: nat, next: nat) -> (nat, nat, nat)
    decreases current,
{
    if current < next || next == 0 {
        (current, level, next)
    } else {
        settle((current - next) as nat, level + 1, spec_next_level_xp(level + 1))
    }
}

/// Experience gained, spent on levels.
#[derive(Clone, Debug)]
pub struct Experience {
    pub current: u32,
    pub total: u32,
    pub level: u32,
    pub next_level_xp: u32,
}

impl Default for Experience {
    fn default() -> (e: Self)
        ensures
            e.current == 0,
            e.total == 0,
            e.level == 1,
            e.next_level_xp == 100,
    {
        Experience { current: 0, total: 0, level: 1, next_level_xp: 100 }
    }
}

/// Experience needed to leave `level`.
pub fn calculate_next_level_xp(level: u32) -> (r: u32)
    requires
        spec_next_level_xp(level as nat) <= u32::MAX,
    ensures
        r == spec_next_level_xp(level as nat),
{
    assert(level * level <= level * level * 50) by (nonlinear_arith);
    100 + level * level * 50
}

impl Experience {
    /// Adds `amount` to the experience held and to the total ever gained.
    pub fn add_xp(&mut self, amount: u32)
        requires
            old(self).current + amount <= u32::MAX,
            old(self).total + amount <= u32::MAX,
        ensures
            final(self).current == old(self).current + amount,
            final(self).total == old(self).total + amount,
            final(self).level == old(self).level,
            final(self).next_level_xp == old(self).next_level_xp,
    {
        self.current = self.current + amount;
        self.total = self.total + amount;
    }

    /// Whether enough experience is held to rise a level.
    pub fn can_level_up(&self) -> (r: bool)
        ensures
            r == (self.current >= self.next_level_xp),
    {
        self.current >= self.next_level_xp
    }

    /// Spends the threshold of the current level and rises one level.
    pub fn level_up(&mut self)
        requires
            old(self).current >= old(self).next_level_xp,
            old(self).level + 1 <= u32::MAX,
            spec_next_level_xp((old(self).level + 1) as nat) <= u32::MAX,
        ensures
            final(self).current == old(self).current - old(self).next_level_xp,
            final(self).level == old(self).level + 1,
            final(self).next_level_xp == spec_next_level_xp(final(self).level as nat),
            final(self).total == old(self).total,
    {
        self.current = self.current - self.next_level_xp;
        self.level = self.level + 1;
        self.next_level_xp = calculate_next_level_xp(self.level);
    }

    /// Whether gaining `amount` keeps every count within `u32`: the experience
    /// held and the total, and each level and threshold reached on the way.
    pub fn gain_fits(&self, amount: u32) -> (r: bool)
        ensures
            r == (self.current + amount <= u32::MAX && self.total + amount <= u32::MAX && settles_within_u32(
                (self.current + amount) as nat,
                self.level as nat,
                self.next_level_xp as nat,
            )),
    {
        if amount > u32::MAX - self.current || amount > u32::MAX - self.total {
            return false;
        }
        let mut current: u32 = self.current + amount;
        let mut level: u32 = self.level;
        let mut next: u32 = self.next_level_xp;
        while current >= next
            invariant
                settles_within_u32(current as nat, level as nat, next as nat) == settles_within_u32(
                    (self.current + amount) as nat,
                    self.level as nat,
                    self.next_level_xp as nat,
                ),
            decreases current,
        {
            if next == 0 || level == u32::MAX {
                return false;
            }
            let l: u128 = (level + 1) as u128;
            assert(l * l <= 0x1_0000_0000 * 0x1_0000_0000) by (nonlinear_arith)
                requires
                    l <= 0x1_0000_0000,
            ;
            let n2: u128 = 100 + l * l * 50;
            if n2 > u32::MAX as u128 {
                return false;
            }
            current = current - next;
            level = level + 1;
            next = n2 as u32;
        }
        true
    }

    /// Gains `amount` and rises as many levels as the experience held pays for;
    /// gives back each level reached, in order.
    pub fn gain_xp(&mut self, amount: u32) -> (levels: Vec<u32>)
        requires
            old(self).current + amount <= u32::MAX,
            old(self).total + amount <= u32::MAX,
            settles_within_u32(
                (old(self).current + amount) as nat,
                old(self).level as nat,
                old(self).next_level_xp as nat,
            ),
        ensures
            ({
                let (c, l, n) = settle(
                    (old(self).current + amount) as nat,
                    old(self).level as nat,
                    old(self).next_level_xp as nat,
                );
                &&& final(self).current == c
                &&& final(self).level == l
                &&& final(self).next_level_xp == n
            }),
            final(self).total == old(self).total + amount,
            final(self).current < final(self).next_level_xp,
            levels@.len() == final(self).level - old(self).level,
            forall|i: int| 0 <= i < levels@.len() ==> #[trigger] levels@[i] == old(self).level + i + 1,
    {
        self.add_xp(amount);
        let mut levels: Vec<u32> = Vec::new();
        let ghost start_level = self.level;
        while self.can_level_up()
            invariant
                settles_within_u32(self.current as nat, self.level as nat, self.next_level_xp as nat),
                settle(self.current as nat, self.level as nat, self.next_level_xp as nat) == settle(
                    (old(self).current + amount) as nat,
                    old(self).level as nat,
                    old(self).next_level_xp as nat,
                ),
                self.total == old(self).total + amount,
                self.level >= start_level,
                start_level == old(self).level,
                levels@.len() == self.level - start_level,
                forall|i: int| 0 <= i < levels@.len() ==> #[trigger] levels@[i] == start_level + i + 1,
            decreases self.current,
        {
            self.level_up();
            levels.push(self.level);
        }
        levels
    }
}

/// The thresholds paid while `current` experience is spent from `level` with threshold `next`.
pub open spec fn thresholds_paid(current: nat, level: nat, next: nat) -> nat
    decreases current,
{
    if current < next || next == 0 {
        0
    } else {
        next + thresholds_paid((current - next) as nat, level + 1, spec_next_level_xp(level + 1))
    }
}

/// Experience is never lost: what is still held after rising levels, plus the
/// thresholds paid for them, is what was held before.
pub proof fn law_experience_conserved(current: nat, level: nat, next: nat)
    ensures
        settle(current, level, next).0 + thresholds_paid(current, level, next) == current,
        settle(current, level, next).1 >= level,
    decreases current,
{
    if !(current < next || next == 0) {
        law_experience_conserved((current - next) as nat, level + 1, spec_next_level_xp(level + 1));
    }
}

/// Gaining two amounts one after the other ends where gaining their sum at once
/// ends, when the thresholds follow the usual formula.
pub proof fn law_settle_in_two_steps(current: nat, level: nat, a: nat, b: nat)
    ensures
        ({
            let (c1, l1, n1) = settle(current + a, level, spec_next_level_xp(level));
            settle(c1 + b, l1, n1)
        }) == settle(current + a + b, level, spec_next_level_xp(level)),
    decreases current + a,
{
    let next = spec_next_level_xp(level);
    if current + a >= next {
        assert(next > 0);
        if current >= next {
            law_settle_in_two_steps((current - next) as nat, level + 1, a, b);
        } else {
            law_settle_in_two_steps(0, level + 1, (current + a - next) as nat, b);
        }
    } else {
        let (c1, l1, n1) = settle(current + a, level, next);
        assert(c1 == current + a && l1 == level && n1 == next);
    }
}

/// Veteran tiers of a unit.
#[derive(Clone, Copy, Debug, PartialEq, Eq)]
pub enum VeteranTier {
    Recruit,
    Regular,
    Veteran,
    Elite,
    Champion,
    Legendary,
}

impl VeteranTier {
    /// The multiplier of a unit's stats at this tier, as an `f32` bit pattern:
    /// 1.0, 1.1, 1.25, 1.4, 1.6 and 2.0 from recruits to legends.
    pub fn stat_multiplier(&self) -> (m: u32)
        ensures
            m == match *self {
                VeteranTier::Recruit => 0x3F80_0000u32,
                VeteranTier::Regular => 0x3F8C_CCCDu32,
                VeteranTier::Veteran => 0x3FA0_0000u32,
                VeteranTier::Elite => 0x3FB3_3333u32,
                VeteranTier::Champion => 0x3FCC_CCCDu32,
                VeteranTier::Legendary => 0x4000_0000u32,
            },
    {
        match self {
            VeteranTier::Recruit => 0x3F80_0000,
            VeteranTier::Regular => 0x3F8C_CCCD,
            VeteranTier::Veteran => 0x3FA0_0000,
            VeteranTier::Elite => 0x3FB3_3333,
            VeteranTier::Champion => 0x3FCC_CCCD,
            VeteranTier::Legendary => 0x4000_0000,
        }
    }
}

/// Thresholds grow with the level: 100 at level 0, and each level costs
/// 50 * (2 * level + 1) more than the one before, so higher levels always cost more.
pub proof fn law_thresholds_grow(level: nat)
    ensures
        spec_next_level_xp(0) == 100,
        spec_next_level_xp(level + 1) == spec_next_level_xp(level) + 50 * (2 * level + 1),
        spec_next_level_xp(level) < spec_next_level_xp(level + 1),
{
    assert((level + 1) * (level + 1) == level * level + 2 * level + 1) by (nonlinear_arith);
    assert((level + 1) * (level + 1) * 50 == level * level * 50 + 50 * (2 * level + 1)) by (nonlinear_arith);
}

} // verus!
