//! Target selection and prioritization: a selector picks, among candidates, the
//! one its priority strategy ranks first, and remembers the last targets it picked.
//!
//! `f32` values are carried as their bit patterns (see [`crate::float_bits`]);
//! entities as their `u64` bits.
use vstd::prelude::*;
use crate::float_bits::{f32_le, f32_lt, is_nan, order_key, spec_le, spec_lt, Vec3Bits, F32_FIVE, F32_ONE, F32_ZERO};
use crate::float_convert::{f32_half, spec_f32_half};
use crate::ranking::{best_so_far, is_earliest_min, lemma_best_step};
use crate::text::str_eq;

verus! {

/// Target priority strategies.
#[derive(Clone, Copy, Debug, PartialEq, Eq, Structural)]
pub enum TargetPriority {
    /// Target the nearest enemy.
    Closest,
    /// Target the enemy with the least health.
    Weakest,
    /// Target the enemy with the most health.
    Strongest,
    /// Target the enemy with the highest threat.
    MostDangerous,
    /// Target leaders first, the nearest among them.
    Leader,
    /// Target resources, the nearest first.
    Resource,
    /// Target by a balanced score of distance, health, threat and leadership.
    Balanced,
}

/// Target evaluation data.
#[derive(Clone, Copy, Debug)]
pub struct TargetCandidate {
    pub entity: u64,
    pub position: Vec3Bits,
    pub distance: u32,
    pub health: u32,
    pub max_health: u32,
    pub damage: u32,
    pub is_leader: bool,
    pub threat_level: u32,
    pub priority_score: u32,
}

/// Target selector component for AI entities.
#[derive(Debug)]
pub struct TargetSelector {
    pub priority: TargetPriority,
    pub current_target: Option<u64>,
    pub target_position: Option<Vec3Bits>,
    pub max_range: u32,
    pub reacquisition_time: u32,
    pub last_target_check: u32,
    pub target_history: Vec<u64>,
}

/// How many past targets a selector remembers.
pub const TARGET_HISTORY_LIMIT: usize = 10;

/// Bit pattern of the `f32` value 30.0, the default range of a selector.
pub const DEFAULT_MAX_RANGE: u32 = 0x41F0_0000;

/// The rank of a candidate under a strategy, smaller first; `score` is its
/// balanced score. None when a compared value is NaN.
pub open spec fn candidate_rank(priority: TargetPriority, c: TargetCandidate, score: u32) -> Option<int> {
    let v = match priority {
        TargetPriority::Closest | TargetPriority::Resource | TargetPriority::Leader => c.distance,
        TargetPriority::Weakest | TargetPriority::Strongest => c.health,
        TargetPriority::MostDangerous => c.threat_level,
        TargetPriority::Balanced => score,
    };
    if is_nan(v) {
        None
    } else {
        Some(
            match priority {
                TargetPriority::Closest | TargetPriority::Resource | TargetPriority::Weakest => order_key(v),
                TargetPriority::Strongest | TargetPriority::MostDangerous | TargetPriority::Balanced => -order_key(v),
                TargetPriority::Leader => (if c.is_leader {
                    0int
                } else {
                    0x1_0000_0000int
                }) + order_key(v),
            },
        )
    }
}

/// The ranks of all candidates.
pub open spec fn candidate_ranks(priority: TargetPriority, cs: Seq<TargetCandidate>, scores: Seq<u32>) -> Seq<Option<int>> {
    Seq::new(cs.len(), |i: int| candidate_rank(priority, cs[i], scores[i]))
}

/// The remembered targets once `entity` was picked: it is appended, and the
/// oldest is forgotten when more than ten are remembered.
pub open spec fn history_after(history: Seq<u64>, entity: u64) -> Seq<u64> {
    let h = history.push(entity);
    if h.len() > TARGET_HISTORY_LIMIT {
        h.drop_first()
    } else {
        h
    }
}

/// The strategy for a unit role: tanks take the closest, assassins the
/// weakest, supports the leaders, gatherers the resources, others a balance.
pub open spec fn role_priority(role: Seq<char>) -> TargetPriority {
    if role == "tank"@ {
        TargetPriority::Closest
    } else if role == "assassin"@ {
        TargetPriority::Weakest
    } else if role == "support"@ {
        TargetPriority::Leader
    } else if role == "gatherer"@ {
        TargetPriority::Resource
    } else {
        TargetPriority::Balanced
    }
}

/// The target priority for a unit role.
pub fn get_target_priority_for_role(role: &str) -> (p: TargetPriority)
    ensures
        p == role_priority(role@),
{
    if str_eq(role, "tank") {
        TargetPriority::Closest
    } else if str_eq(role, "assassin") {
        TargetPriority::Weakest
    } else if str_eq(role, "support") {
        TargetPriority::Leader
    } else if str_eq(role, "gatherer") {
        TargetPriority::Resource
    } else {
        TargetPriority::Balanced
    }
}

proof fn lemma_order_key_bounds(bits: u32)
    ensures
        -0x8000_0000 < order_key(bits) < 0x8000_0000,
{
}

/// Whether `a` (with balanced score `sa`) ranks strictly before `b` (with `sb`).
fn ranks_before(priority: TargetPriority, a: &TargetCandidate, sa: u32, b: &TargetCandidate, sb: u32) -> (r: bool)
    requires
        candidate_rank(priority, *a, sa) is Some,
        candidate_rank(priority, *b, sb) is Some,
    ensures
        r == (candidate_rank(priority, *a, sa)->0 < candidate_rank(priority, *b, sb)->0),
{
    proof {
        lemma_order_key_bounds(a.distance);
        lemma_order_key_bounds(b.distance);
    }
    match priority {
        TargetPriority::Closest => f32_lt(a.distance, b.distance),
        TargetPriority::Weakest => f32_lt(a.health, b.health),
        TargetPriority::Strongest => f32_lt(b.health, a.health),
        TargetPriority::MostDangerous => f32_lt(b.threat_level, a.threat_level),
        TargetPriority::Leader => {
            if a.is_leader && !b.is_leader {
                true
            } else if !a.is_leader && b.is_leader {
                false
            } else {
                f32_lt(a.distance, b.distance)
            }
        },
        TargetPriority::Resource => f32_lt(a.distance, b.distance),
        TargetPriority::Balanced => f32_lt(sb, sa),
    }
}

impl TargetSelector {
    /// A selector with the given strategy, no target, a range of 30 and a
    /// reacquisition time of 1 second.
    pub fn new(priority: TargetPriority) -> (s: Self)
        ensures
            s.priority == priority,
            s.current_target is None,
            s.target_position is None,
            s.max_range == DEFAULT_MAX_RANGE,
            s.reacquisition_time == F32_ONE,
            s.last_target_check == F32_ZERO,
            s.target_history@.len() == 0,
    {
        TargetSelector {
            priority,
            current_target: None,
            target_position: None,
            max_range: DEFAULT_MAX_RANGE,
            reacquisition_time: F32_ONE,
            last_target_check: F32_ZERO,
            target_history: Vec::new(),
        }
    }

    /// Picks the candidate that the strategy ranks first (the earliest of
    /// those ranked first), makes it the current target and remembers it;
    /// with no candidates the current target is cleared. `balanced_scores[i]`
    /// is the balanced score of `candidates[i]`, read by the balanced strategy only.
    pub fn evaluate_targets(
        &mut self,
        candidates: Vec<TargetCandidate>,
        balanced_scores: &Vec<u32>,
        current_time: u32,
    ) -> (picked: Option<u64>)
        requires
            old(self).priority == TargetPriority::Balanced ==> balanced_scores@.len() == candidates@.len(),
            forall|i: int| 0 <= i < candidates@.len() ==> #[trigger] candidate_ranks(
                old(self).priority,
                candidates@,
                balanced_scores@,
            )[i] is Some,
        ensures
            final(self).priority == old(self).priority,
            final(self).max_range == old(self).max_range,
            final(self).reacquisition_time == old(self).reacquisition_time,
            candidates@.len() == 0 ==> {
                &&& picked is None
                &&& final(self).current_target is None
                &&& final(self).target_position == old(self).target_position
                &&& final(self).last_target_check == old(self).last_target_check
                &&& final(self).target_history@ == old(self).target_history@
            },
            candidates@.len() > 0 ==> exists|i: int| {
                &&& #[trigger] is_earliest_min(
                    candidate_ranks(old(self).priority, candidates@, balanced_scores@),
                    candidates@.len() as int,
                    i,
                )
                &&& picked == Some(candidates@[i].entity)
                &&& final(self).current_target == picked
                &&& final(self).target_position == Some(candidates@[i].position)
                &&& final(self).last_target_check == current_time
                &&& final(self).target_history@ == history_after(old(self).target_history@, candidates@[i].entity)
            },
    {
        if candidates.len() == 0 {
            self.current_target = None;
            return None;
        }
        let ghost ranks = candidate_ranks(self.priority, candidates@, balanced_scores@);
        let mut best: Option<usize> = None;
        let mut i: usize = 0;
        while i < candidates.len()
            invariant
                i <= candidates@.len(),
                ranks == candidate_ranks(self.priority, candidates@, balanced_scores@),
                ranks.len() == candidates@.len(),
                forall|j: int| 0 <= j < candidates@.len() ==> #[trigger] ranks[j] is Some,
                self.priority == TargetPriority::Balanced ==> balanced_scores@.len() == candidates@.len(),
                best_so_far(ranks, i as int, best),
            decreases candidates@.len() - i,
        {
            let si = if self.priority == TargetPriority::Balanced { balanced_scores[i] } else { 0 };
            assert(ranks[i as int] == candidate_rank(self.priority, candidates@[i as int], si)) by {
                assert(ranks[i as int] == candidate_rank(self.priority, candidates@[i as int], balanced_scores@[i as int]));
            }
            let next = match best {
                None => Some(i),
                Some(b) => {
                    let sb = if self.priority == TargetPriority::Balanced { balanced_scores[b] } else { 0 };
                    assert(ranks[b as int] == candidate_rank(self.priority, candidates@[b as int], sb)) by {
                        assert(ranks[b as int] == candidate_rank(self.priority, candidates@[b as int], balanced_scores@[b as int]));
                    }
                    if ranks_before(self.priority, &candidates[i], si, &candidates[b], sb) {
                        Some(i)
                    } else {
                        Some(b)
                    }
                },
            };
            proof {
                lemma_best_step(ranks, i as int, best, next);
            }
            best = next;
            i = i + 1;
        }
        let b = match best {
            Some(b) => b,
            None => {
                assert(ranks[0] is Some);
                0
            },
        };
        let chosen = candidates[b];
        self.current_target = Some(chosen.entity);
        self.target_position = Some(chosen.position);
        self.last_target_check = current_time;
        self.target_history.push(chosen.entity);
        if self.target_history.len() > TARGET_HISTORY_LIMIT {
            self.target_history.remove(0);
        }
        proof {
            assert(is_earliest_min(ranks, candidates@.len() as int, b as int));
            assert(self.target_history@ =~= history_after(old(self).target_history@, chosen.entity));
        }
        Some(chosen.entity)
    }

    /// Whether a new candidate should replace the current target: always when
    /// there is none; a closest-first selector switches to a candidate nearer
    /// than 5, a leader-first one to a leader nearer than half its range;
    /// other strategies keep their target.
    pub fn should_switch_target(&self, new_candidate: &TargetCandidate) -> (r: bool)
        ensures
            r == match self.current_target {
                None => true,
                Some(_) => match self.priority {
                    TargetPriority::Closest => spec_lt(new_candidate.distance, F32_FIVE),
                    TargetPriority::Leader => new_candidate.is_leader && spec_lt(
                        new_candidate.distance,
                        spec_f32_half(self.max_range) as u32,
                    ),
                    _ => false,
                },
            },
    {
        if self.current_target.is_none() {
            return true;
        }
        match self.priority {
            TargetPriority::Closest => f32_lt(new_candidate.distance, F32_FIVE),
            TargetPriority::Leader => new_candidate.is_leader && f32_lt(new_candidate.distance, f32_half(self.max_range)),
            _ => false,
        }
    }

    /// Forgets the current target and where it was.
    pub fn clear_target(&mut self)
        ensures
            final(self).current_target is None,
            final(self).target_position is None,
            final(self).priority == old(self).priority,
            final(self).max_range == old(self).max_range,
            final(self).reacquisition_time == old(self).reacquisition_time,
            final(self).last_target_check == old(self).last_target_check,
            final(self).target_history@ == old(self).target_history@,
    {
        self.current_target = None;
        self.target_position = None;
    }

    /// Whether the selector has a target.
    pub fn has_target(&self) -> (r: bool)
        ensures
            r == self.current_target is Some,
    {
        self.current_target.is_some()
    }
}

/// What is known of a unit that may be an enemy: its team, its distance from
/// the unit looking for a target, and its health.
#[derive(Clone, Copy, Debug)]
pub struct Sighting {
    pub entity: u64,
    pub team_id: u32,
    pub distance: u32,
    pub health: u32,
}

/// Bit pattern of the largest finite `f32`.
pub const F32_MAX: u32 = 0x7F7F_FFFF;

/// The rank by which the nearest enemy is chosen: units of other teams nearer
/// than the largest finite `f32`, by distance.
pub open spec fn nearest_rank(s: Sighting, team_id: u32) -> Option<int> {
    if s.team_id != team_id && spec_lt(s.distance, F32_MAX) {
        Some(order_key(s.distance))
    } else {
        None
    }
}

/// The rank by which the weakest enemy is chosen: units of other teams within
/// `max_range`, with less health than the largest finite `f32`, by health.
pub open spec fn weakest_rank(s: Sighting, team_id: u32, max_range: u32) -> Option<int> {
    if s.team_id != team_id && spec_le(s.distance, max_range) && spec_lt(s.health, F32_MAX) {
        Some(order_key(s.health))
    } else {
        None
    }
}

/// The enemies within `range`, in the order they were sighted.
pub open spec fn enemies_in_range(sightings: Seq<Sighting>, team_id: u32, range: u32) -> Seq<u64>
    decreases sightings.len(),
{
    if sightings.len() == 0 {
        Seq::empty()
    } else {
        let rest = enemies_in_range(sightings.drop_last(), team_id, range);
        let s = sightings.last();
        if s.team_id != team_id && spec_le(s.distance, range) {
            rest.push(s.entity)
        } else {
            rest
        }
    }
}

/// The nearest unit of another team, the first sighted among equally near ones.
pub fn get_nearest_enemy(team_id: u32, sightings: &Vec<Sighting>) -> (r: Option<u64>)
    ensures
        ({
            let ranks = Seq::new(sightings@.len(), |i: int| nearest_rank(sightings@[i], team_id));
            &&& r is None <==> (forall|i: int| 0 <= i < sightings@.len() ==> #[trigger] ranks[i] is None)
            &&& r is Some ==> exists|i: int| #[trigger] is_earliest_min(ranks, sightings@.len() as int, i)
                && r == Some(sightings@[i].entity)
        }),
{
    let ghost ranks = Seq::new(sightings@.len(), |i: int| nearest_rank(sightings@[i], team_id));
    let mut best: Option<usize> = None;
    let mut i: usize = 0;
    while i < sightings.len()
        invariant
            i <= sightings@.len(),
            ranks == Seq::new(sightings@.len(), |i: int| nearest_rank(sightings@[i], team_id)),
            best_so_far(ranks, i as int, best),
        decreases sightings@.len() - i,
    {
        let s = sightings[i];
        let eligible = s.team_id != team_id && f32_lt(s.distance, F32_MAX);
        let next = if !eligible {
            best
        } else {
            match best {
                None => Some(i),
                Some(b) => if f32_lt(s.distance, sightings[b].distance) {
                    Some(i)
                } else {
                    Some(b)
                },
            }
        };
        proof {
            lemma_best_step(ranks, i as int, best, next);
        }
        best = next;
        i = i + 1;
    }
    match best {
        Some(b) => Some(sightings[b].entity),
        None => None,
    }
}

/// The unit of another team within `max_range` with the least health, the
/// first sighted among equally weak ones.
pub fn get_weakest_enemy(team_id: u32, max_range: u32, sightings: &Vec<Sighting>) -> (r: Option<u64>)
    ensures
        ({
            let ranks = Seq::new(sightings@.len(), |i: int| weakest_rank(sightings@[i], team_id, max_range));
            &&& r is None <==> (forall|i: int| 0 <= i < sightings@.len() ==> #[trigger] ranks[i] is None)
            &&& r is Some ==> exists|i: int| #[trigger] is_earliest_min(ranks, sightings@.len() as int, i)
                && r == Some(sightings@[i].entity)
        }),
{
    let ghost ranks = Seq::new(sightings@.len(), |i: int| weakest_rank(sightings@[i], team_id, max_range));
    let mut best: Option<usize> = None;
    let mut i: usize = 0;
    while i < sightings.len()
        invariant
            i <= sightings@.len(),
            ranks == Seq::new(sightings@.len(), |i: int| weakest_rank(sightings@[i], team_id, max_range)),
            best_so_far(ranks, i as int, best),
        decreases sightings@.len() - i,
    {
        let s = sightings[i];
        let eligible = s.team_id != team_id && f32_le(s.distance, max_range) && f32_lt(s.health, F32_MAX);
        let next = if !eligible {
            best
        } else {
            match best {
                None => Some(i),
                Some(b) => if f32_lt(s.health, sightings[b].health) {
                    Some(i)
                } else {
                    Some(b)
                },
            }
        };
        proof {
            lemma_best_step(ranks, i as int, best, next);
        }
        best = next;
        i = i + 1;
    }
    match best {
        Some(b) => Some(sightings[b].entity),
        None => None,
    }
}

/// The units of other teams within `range`, in the order they were sighted.
pub fn get_enemies_in_range(team_id: u32, range: u32, sightings: &Vec<Sighting>) -> (r: Vec<u64>)
    ensures
        r@ == enemies_in_range(sightings@, team_id, range),
{
    let mut in_range: Vec<u64> = Vec::new();
    let mut i: usize = 0;
    while i < sightings.len()
        invariant
            i <= sightings@.len(),
            in_range@ == enemies_in_range(sightings@.subrange(0, i as int), team_id, range),
        decreases sightings@.len() - i,
    {
        let s = sightings[i];
        assert(sightings@.subrange(0, i + 1).drop_last() =~= sightings@.subrange(0, i as int));
        if s.team_id != team_id && f32_le(s.distance, range) {
            in_range.push(s.entity);
        }
        i = i + 1;
    }
    assert(sightings@.subrange(0, sightings@.len() as int) =~= sightings@);
    in_range
}

/// Whether a sighted unit may be a target: it belongs to another team, its
/// health is not at or below zero, and it is within `max_range`.
pub open spec fn is_enemy_candidate(s: Sighting, team_id: u32, max_range: u32) -> bool {
    s.team_id != team_id && !spec_le(s.health, F32_ZERO) && spec_le(s.distance, max_range)
}

/// The indices of the sightings that may be targets, in the order they were sighted.
pub open spec fn enemy_candidate_indices(sightings: Seq<Sighting>, team_id: u32, max_range: u32) -> Seq<usize>
    decreases sightings.len(),
{
    if sightings.len() == 0 {
        Seq::empty()
    } else {
        let rest = enemy_candidate_indices(sightings.drop_last(), team_id, max_range);
        if is_enemy_candidate(sightings.last(), team_id, max_range) {
            rest.push((sightings.len() - 1) as usize)
        } else {
            rest
        }
    }
}

/// The indices of the distances within `max_range`, in order.
pub open spec fn indices_within(distances: Seq<u32>, max_range: u32) -> Seq<usize>
    decreases distances.len(),
{
    if distances.len() == 0 {
        Seq::empty()
    } else {
        let rest = indices_within(distances.drop_last(), max_range);
        if spec_le(distances.last(), max_range) {
            rest.push((distances.len() - 1) as usize)
        } else {
            rest
        }
    }
}

/// The sightings a selector may pick among: the indices of units of other
/// teams that are alive (health not at or below zero) and within `max_range`,
/// in the order they were sighted.
pub fn enemy_candidates(team_id: u32, max_range: u32, sightings: &Vec<Sighting>) -> (r: Vec<usize>)
    ensures
        r@ == enemy_candidate_indices(sightings@, team_id, max_range),
{
    let mut kept: Vec<usize> = Vec::new();
    let mut i: usize = 0;
    while i < sightings.len()
        invariant
            i <= sightings@.len(),
            kept@ == enemy_candidate_indices(sightings@.subrange(0, i as int), team_id, max_range),
        decreases sightings@.len() - i,
    {
        let s = sightings[i];
        assert(sightings@.subrange(0, i + 1).drop_last() =~= sightings@.subrange(0, i as int));
        if s.team_id != team_id && !f32_le(s.health, F32_ZERO) && f32_le(s.distance, max_range) {
            kept.push(i);
        }
        i = i + 1;
    }
    assert(sightings@.subrange(0, sightings@.len() as int) =~= sightings@);
    kept
}

/// The resources a resource-seeking selector may pick among: the indices of
/// the distances within `max_range`, in order.
pub fn resources_within(max_range: u32, distances: &Vec<u32>) -> (r: Vec<usize>)
    ensures
        r@ == indices_within(distances@, max_range),
{
    let mut kept: Vec<usize> = Vec::new();
    let mut i: usize = 0;
    while i < distances.len()
        invariant
            i <= distances@.len(),
            kept@ == indices_within(distances@.subrange(0, i as int), max_range),
        decreases distances@.len() - i,
    {
        assert(distances@.subrange(0, i + 1).drop_last() =~= distances@.subrange(0, i as int));
        if f32_le(distances[i], max_range) {
            kept.push(i);
        }
        i = i + 1;
    }
    assert(distances@.subrange(0, distances@.len() as int) =~= distances@);
    kept
}

/// A selector never remembers more than ten targets: after a pick it
/// remembers the last (at most ten) of its earlier targets followed by the
/// one just picked.
pub proof fn law_history_bounded(history: Seq<u64>, entity: u64)
    requires
        history.len() <= TARGET_HISTORY_LIMIT,
    ensures
        history_after(history, entity).len() <= TARGET_HISTORY_LIMIT,
        history_after(history, entity).last() == entity,
        history_after(history, entity) == history.push(entity).skip(
            history.len() + 1 - (if history.len() + 1 <= TARGET_HISTORY_LIMIT {
                (history.len() + 1) as int
            } else {
                TARGET_HISTORY_LIMIT as int
            }),
        ),
{
    let h = history.push(entity);
    if h.len() > TARGET_HISTORY_LIMIT {
        assert(h.drop_first() =~= h.skip(1));
    } else {
        assert(h.skip(0) =~= h);
    }
}

/// The candidate filter keeps, in increasing order, exactly the indices of
/// the sightings of another team whose health is not at or below 0.0 and whose
/// distance is at most `max_range`; a NaN distance is never kept.
pub proof fn law_enemy_candidates(sightings: Seq<Sighting>, team_id: u32, max_range: u32)
    requires
        sightings.len() <= usize::MAX,
    ensures
        forall|k: int| 0 <= k < enemy_candidate_indices(sightings, team_id, max_range).len() ==> {
            let i = #[trigger] enemy_candidate_indices(sightings, team_id, max_range)[k] as int;
            &&& 0 <= i < sightings.len()
            &&& sightings[i].team_id != team_id
            &&& !spec_le(sightings[i].health, 0)
            &&& spec_le(sightings[i].distance, max_range)
        },
        forall|k1: int, k2: int| 0 <= k1 < k2 < enemy_candidate_indices(sightings, team_id, max_range).len() ==>
            #[trigger] enemy_candidate_indices(sightings, team_id, max_range)[k1] < #[trigger] enemy_candidate_indices(
                sightings,
                team_id,
                max_range,
            )[k2],
        forall|i: int| 0 <= i < sightings.len() && sightings[i].team_id != team_id && !spec_le(sightings[i].health, 0)
            && spec_le(#[trigger] sightings[i].distance, max_range) ==> enemy_candidate_indices(sightings, team_id, max_range).contains(
            i as usize,
        ),
        forall|i: int| 0 <= i < sightings.len() && is_nan(#[trigger] sightings[i].distance) ==> !enemy_candidate_indices(
            sightings,
            team_id,
            max_range,
        ).contains(i as usize),
    decreases sightings.len(),
{
    let r = enemy_candidate_indices(sightings, team_id, max_range);
    if sightings.len() > 0 {
        let pre = sightings.drop_last();
        law_enemy_candidates(pre, team_id, max_range);
        let rp = enemy_candidate_indices(pre, team_id, max_range);
        assert forall|k: int| 0 <= k < rp.len() implies (rp[k] as int) < pre.len() by {}
        assert forall|i: int| 0 <= i < pre.len() implies #[trigger] pre[i] == sightings[i] by {}
        let n = sightings.len() - 1;
        assert forall|i: int| 0 <= i < sightings.len() && sightings[i].team_id != team_id && !spec_le(sightings[i].health, 0)
            && spec_le(#[trigger] sightings[i].distance, max_range) implies r.contains(i as usize) by {
            if i < n {
                assert(pre[i] == sightings[i]);
                assert(rp.contains(i as usize));
                let k = choose|k: int| 0 <= k < rp.len() && rp[k] == i as usize;
                assert(r[k] == rp[k]);
            } else {
                assert(r[r.len() - 1] == n as usize);
            }
        }
        assert forall|i: int| 0 <= i < sightings.len() && is_nan(#[trigger] sightings[i].distance) implies !r.contains(
            i as usize,
        ) by {
            if r.contains(i as usize) {
                let k = choose|k: int| 0 <= k < r.len() && r[k] == i as usize;
                if k < rp.len() {
                    assert(r[k] == rp[k]);
                    assert((rp[k] as int) < pre.len());
                    assert(pre[i] == sightings[i]);
                    assert(rp.contains(i as usize));
                } else {
                    assert(is_enemy_candidate(sightings.last(), team_id, max_range));
                    assert(i == n);
                }
            }
        }
    }
}

} // verus!
