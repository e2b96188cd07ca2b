//! Targeting of combat units: acquiring the best visible enemy in range, and
//! losing a target that left range, turned friendly, hid or was destroyed.
//!
//! `f32` values are carried as their bit patterns (see [`crate::float_bits`]);
//! entities as their `u64` bits.
use vstd::prelude::*;
use crate::float_bits::{f32_lt, is_nan, order_key, spec_lt, F32_ZERO};
use crate::ranking::is_earliest_min;

verus! {

/// Why a target was lost.
#[derive(Clone, Copy, Debug, PartialEq, Eq, Structural)]
pub enum TargetLostReason {
    OutOfRange,
    LineOfSightBlocked,
    TargetDestroyed,
    ManualDisengage,
}

/// Component for entities that can acquire targets.
#[derive(Clone, Copy, Debug)]
pub struct TargetingSystem {
    pub range: u32,
    /// Field of view in radians, as an `f32` bit pattern.
    pub field_of_view: u32,
    pub current_target: Option<u64>,
    pub target_lock_time: u32,
    pub can_target_air: bool,
    pub can_target_ground: bool,
}

/// What is seen of the current target: whether it is beyond the range (with
/// its margin), on the same team, and visible.
#[derive(Clone, Copy, Debug)]
pub struct TargetObservation {
    pub beyond_range: bool,
    pub same_team: bool,
    pub visible: bool,
}

/// A candidate target that passed the team, visibility, range and field of
/// view checks, with its distance and score (`f32` bit patterns).
#[derive(Clone, Copy, Debug)]
pub struct ScoredTarget {
    pub entity: u64,
    pub distance: u32,
    pub score: u32,
}

impl Default for TargetingSystem {
    fn default() -> (t: Self)
        ensures
            t.range == 0x41F0_0000,
            t.field_of_view == 0x4049_0FDB,
            t.current_target is None,
            t.target_lock_time == F32_ZERO,
            t.can_target_air,
            t.can_target_ground,
    {
        TargetingSystem {
            range: 0x41F0_0000,
            field_of_view: 0x4049_0FDB,
            current_target: None,
            target_lock_time: F32_ZERO,
            can_target_air: true,
            can_target_ground: true,
        }
    }
}

/// Why the current target is lost, if it is: a destroyed target is lost; of a
/// living one, hiding counts over turning friendly, which counts over leaving range.
pub open spec fn loss_reason(observation: Option<TargetObservation>) -> Option<TargetLostReason> {
    match observation {
        None => Some(TargetLostReason::TargetDestroyed),
        Some(o) => if !o.visible {
            Some(TargetLostReason::LineOfSightBlocked)
        } else if o.same_team {
            Some(TargetLostReason::ManualDisengage)
        } else if o.beyond_range {
            Some(TargetLostReason::OutOfRange)
        } else {
            None
        },
    }
}

/// The index of the candidate picked by scanning: the first one, replaced by
/// any later one that scores strictly higher than the one held.
pub open spec fn scan_best(cs: Seq<ScoredTarget>) -> Option<int>
    decreases cs.len(),
{
    if cs.len() == 0 {
        None
    } else {
        match scan_best(cs.drop_last()) {
            None => Some(cs.len() - 1),
            Some(i) => if spec_lt(cs[i].score, cs.last().score) {
                Some(cs.len() - 1)
            } else {
                Some(i)
            },
        }
    }
}

proof fn lemma_scan_best_range(cs: Seq<ScoredTarget>)
    ensures
        cs.len() == 0 <==> scan_best(cs) is None,
        scan_best(cs) matches Some(i) ==> 0 <= i < cs.len(),
    decreases cs.len(),
{
    if cs.len() > 0 {
        lemma_scan_best_range(cs.drop_last());
    }
}

impl TargetingSystem {
    /// Checks the current target against what is seen of it (none when it no
    /// longer exists); a lost target is dropped and reported with the reason.
    pub fn validate_target(&mut self, observation: Option<TargetObservation>) -> (lost: Option<(u64, TargetLostReason)>)
        ensures
            old(self).current_target is None ==> lost is None && *final(self) == *old(self),
            old(self).current_target matches Some(t) ==> match loss_reason(observation) {
                Some(reason) => {
                    &&& lost == Some((t, reason))
                    &&& *final(self) == TargetingSystem { current_target: None, target_lock_time: F32_ZERO, ..*old(self) }
                },
                None => lost is None && *final(self) == *old(self),
            },
    {
        match self.current_target {
            None => None,
            Some(t) => {
                let reason = match observation {
                    None => Some(TargetLostReason::TargetDestroyed),
                    Some(o) => if !o.visible {
                        Some(TargetLostReason::LineOfSightBlocked)
                    } else if o.same_team {
                        Some(TargetLostReason::ManualDisengage)
                    } else if o.beyond_range {
                        Some(TargetLostReason::OutOfRange)
                    } else {
                        None
                    },
                };
                match reason {
                    Some(r) => {
                        self.current_target = None;
                        self.target_lock_time = F32_ZERO;
                        Some((t, r))
                    },
                    None => None,
                }
            },
        }
    }

    /// Without a target, takes the best scored candidate and reports it with
    /// its distance; with one, keeps it.
    pub fn acquire_target(&mut self, candidates: &Vec<ScoredTarget>) -> (acquired: Option<(u64, u32)>)
        ensures
            old(self).current_target is Some ==> acquired is None && *final(self) == *old(self),
            old(self).current_target is None ==> match scan_best(candidates@) {
                Some(i) => {
                    &&& acquired == Some((candidates@[i].entity, candidates@[i].distance))
                    &&& *final(self) == TargetingSystem {
                        current_target: Some(candidates@[i].entity),
                        target_lock_time: F32_ZERO,
                        ..*old(self)
                    }
                },
                None => acquired is None && *final(self) == *old(self),
            },
    {
        if self.current_target.is_some() {
            return None;
        }
        let mut best: Option<usize> = None;
        let mut i: usize = 0;
        while i < candidates.len()
            invariant
                i <= candidates@.len(),
                match best {
                    None => scan_best(candidates@.subrange(0, i as int)) is None,
                    Some(b) => scan_best(candidates@.subrange(0, i as int)) == Some(b as int) && b < i,
                },
            decreases candidates@.len() - i,
        {
            proof {
                lemma_scan_best_range(candidates@.subrange(0, i as int));
                assert(candidates@.subrange(0, i + 1).drop_last() =~= candidates@.subrange(0, i as int));
            }
            best = match best {
                None => Some(i),
                Some(b) => if f32_lt(candidates[b].score, candidates[i].score) {
                    Some(i)
                } else {
                    Some(b)
                },
            };
            i = i + 1;
        }
        proof {
            assert(candidates@.subrange(0, candidates@.len() as int) =~= candidates@);
        }
        match best {
            Some(b) => {
                let c = candidates[b];
                self.current_target = Some(c.entity);
                self.target_lock_time = F32_ZERO;
                Some((c.entity, c.distance))
            },
            None => None,
        }
    }
}

/// The rank by which candidates are compared: the highest score first.
pub open spec fn score_rank(c: ScoredTarget) -> Option<int> {
    if is_nan(c.score) {
        None
    } else {
        Some(-order_key(c.score))
    }
}

/// When no score is NaN, the scan picks the earliest of the best-scored candidates.
pub proof fn law_scan_picks_earliest_best(cs: Seq<ScoredTarget>)
    requires
        cs.len() > 0,
        forall|i: int| 0 <= i < cs.len() ==> !is_nan(#[trigger] cs[i].score),
    ensures
        scan_best(cs) matches Some(i) && is_earliest_min(cs.map_values(|c: ScoredTarget| score_rank(c)), cs.len() as int, i),
    decreases cs.len(),
{
    let ranks = cs.map_values(|c: ScoredTarget| score_rank(c));
    if cs.len() == 1 {
        assert(cs.drop_last().len() == 0);
        assert(scan_best(cs.drop_last()) is None);
        assert(scan_best(cs) == Some(0int));
        assert(ranks[0] == score_rank(cs[0]));
    } else {
        let prefix = cs.drop_last();
        law_scan_picks_earliest_best(prefix);
        let pranks = prefix.map_values(|c: ScoredTarget| score_rank(c));
        assert forall|j: int| 0 <= j < prefix.len() implies #[trigger] pranks[j] == ranks[j] by {
            assert(prefix[j] == cs[j]);
        }
        let i = scan_best(prefix)->0;
        let n = cs.len() - 1;
        assert(ranks[n] == score_rank(cs[n]));
        assert(ranks[i] == score_rank(cs[i]));
        assert(cs.last() == cs[n]);
        assert(prefix[i] == cs[i]);
        if spec_lt(cs[i].score, cs[n].score) {
            assert(scan_best(cs) == Some(n));
            assert forall|j: int| 0 <= j < cs.len() && #[trigger] ranks[j] is Some implies ranks[n]->0 <= ranks[j]->0 by {
                if j < n {
                    assert(pranks[j] == ranks[j]);
                }
            }
            assert forall|j: int| 0 <= j < n && #[trigger] ranks[j] is Some implies ranks[n]->0 < ranks[j]->0 by {
                assert(pranks[j] == ranks[j]);
            }
        } else {
            assert(scan_best(cs) == Some(i));
            assert forall|j: int| 0 <= j < cs.len() && #[trigger] ranks[j] is Some implies ranks[i]->0 <= ranks[j]->0 by {
                if j < n {
                    assert(pranks[j] == ranks[j]);
                }
            }
            assert forall|j: int| 0 <= j < i && #[trigger] ranks[j] is Some implies ranks[i]->0 < ranks[j]->0 by {
                assert(pranks[j] == ranks[j]);
            }
        }
    }
}

/// When a held target is dropped: always when it no longer exists; when it
/// is hidden, whatever else holds; when it is visible and on the unit's own
/// team, whatever its range; when it is a visible enemy, exactly when it is
/// beyond range. Each drop has its own reason.
pub proof fn law_target_loss(beyond_range: bool, same_team: bool, visible: bool)
    ensures
        loss_reason(None) == Some(TargetLostReason::TargetDestroyed),
        !visible ==> loss_reason(Some(TargetObservation { beyond_range, same_team, visible }))
            == Some(TargetLostReason::LineOfSightBlocked),
        visible && same_team ==> loss_reason(Some(TargetObservation { beyond_range, same_team, visible }))
            == Some(TargetLostReason::ManualDisengage),
        visible && !same_team && beyond_range ==> loss_reason(Some(TargetObservation { beyond_range, same_team, visible }))
            == Some(TargetLostReason::OutOfRange),
        visible && !same_team && !beyond_range ==> loss_reason(Some(TargetObservation { beyond_range, same_team, visible })) is None,
{
}

/// Whether a visible allied target is dropped does not depend on its range.
pub proof fn law_allies_dropped_at_any_range(o: TargetObservation)
    requires
        o.visible,
        o.same_team,
    ensures
        loss_reason(Some(o)) == loss_reason(Some(TargetObservation { beyond_range: !o.beyond_range, ..o })),
        loss_reason(Some(o)) is Some,
{
    law_target_loss(o.beyond_range, o.same_team, o.visible);
    law_target_loss(!o.beyond_range, o.same_team, o.visible);
}

} // verus!
