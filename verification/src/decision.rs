//! Strategic goals of an AI unit: a personality that weighs goals, the goal
//! being pursued, goals waiting their turn, and the last twenty decisions taken.
//!
//! `f32` values are carried as their bit patterns (see [`crate::float_bits`]);
//! entities as their `u64` bits.
use vstd::prelude::*;
use std::collections::VecDeque;
use crate::float_bits::{f32_gt, f32_lt, is_nan, order_key, spec_lt, Vec3Bits, F32_HALF, F32_ZERO};
use crate::ranking::{best_so_far, is_earliest_min, lemma_best_step};
use crate::behaviors::UnitCommand;
use crate::float_bits::{F32_ONE, F32_TEN};

verus! {

/// AI personality: weights in [0, 1], as `f32` bit patterns.
#[derive(Clone, Copy, Debug)]
pub struct AIPersonality {
    pub aggression: u32,
    pub caution: u32,
    pub greed: u32,
    pub loyalty: u32,
    pub exploration: u32,
}

/// Strategic goals the AI can pursue.
#[derive(Debug)]
pub enum StrategicGoal {
    EliminateEnemy(u64),
    CaptureResource(Vec3Bits),
    DefendPosition(Vec3Bits),
    ExploreTerrain(Vec3Bits),
    EscortUnit(u64),
    BuildBase(Vec3Bits),
    GatherResources,
    PatrolArea(Vec<Vec3Bits>),
}

/// A [`StrategicGoal`] as a mathematical value: a patrol by its points.
pub enum GoalView {
    EliminateEnemy(u64),
    CaptureResource(Vec3Bits),
    DefendPosition(Vec3Bits),
    ExploreTerrain(Vec3Bits),
    EscortUnit(u64),
    BuildBase(Vec3Bits),
    GatherResources,
    PatrolArea(Seq<Vec3Bits>),
}

impl View for StrategicGoal {
    type V = GoalView;

    open spec fn view(&self) -> GoalView {
        match self {
            StrategicGoal::EliminateEnemy(e) => GoalView::EliminateEnemy(*e),
            StrategicGoal::CaptureResource(p) => GoalView::CaptureResource(*p),
            StrategicGoal::DefendPosition(p) => GoalView::DefendPosition(*p),
            StrategicGoal::ExploreTerrain(p) => GoalView::ExploreTerrain(*p),
            StrategicGoal::EscortUnit(e) => GoalView::EscortUnit(*e),
            StrategicGoal::BuildBase(p) => GoalView::BuildBase(*p),
            StrategicGoal::GatherResources => GoalView::GatherResources,
            StrategicGoal::PatrolArea(points) => GoalView::PatrolArea(points@),
        }
    }
}

/// A decision taken, kept in the history.
#[derive(Debug)]
pub struct Decision {
    pub goal: StrategicGoal,
    pub score: u32,
    pub timestamp: u32,
    pub success: bool,
}

/// Decision maker component for strategic AI decisions.
#[derive(Debug)]
pub struct DecisionMaker {
    pub personality: AIPersonality,
    pub current_goal: Option<StrategicGoal>,
    pub goal_queue: VecDeque<StrategicGoal>,
    pub decision_history: Vec<Decision>,
    pub evaluation_interval: u32,
    pub last_evaluation: u32,
}

/// How many decisions the history keeps.
pub const DECISION_HISTORY_LIMIT: usize = 20;

/// Bit pattern of the `f32` value 2.0, the default evaluation interval.
pub const DEFAULT_EVALUATION_INTERVAL: u32 = 0x4000_0000;

impl StrategicGoal {
    /// A copy of this goal.
    pub fn duplicate(&self) -> (g: Self)
        ensures
            g@ == self@,
    {
        match self {
            StrategicGoal::EliminateEnemy(e) => StrategicGoal::EliminateEnemy(*e),
            StrategicGoal::CaptureResource(p) => StrategicGoal::CaptureResource(*p),
            StrategicGoal::DefendPosition(p) => StrategicGoal::DefendPosition(*p),
            StrategicGoal::ExploreTerrain(p) => StrategicGoal::ExploreTerrain(*p),
            StrategicGoal::EscortUnit(e) => StrategicGoal::EscortUnit(*e),
            StrategicGoal::BuildBase(p) => StrategicGoal::BuildBase(*p),
            StrategicGoal::GatherResources => StrategicGoal::GatherResources,
            StrategicGoal::PatrolArea(points) => {
                let mut copy: Vec<Vec3Bits> = Vec::new();
                let mut i: usize = 0;
                while i < points.len()
                    invariant
                        i <= points@.len(),
                        copy@ == points@.subrange(0, i as int),
                    decreases points@.len() - i,
                {
                    copy.push(points[i]);
                    i = i + 1;
                }
                assert(copy@ =~= points@);
                StrategicGoal::PatrolArea(copy)
            },
        }
    }
}

/// The rank by which the best goal is chosen: the highest score first.
pub open spec fn goal_rank(candidate: (StrategicGoal, u32)) -> Option<int> {
    if is_nan(candidate.1) {
        None
    } else {
        Some(-order_key(candidate.1))
    }
}

/// The goals and scores as mathematical values.
pub open spec fn goal_views(cs: Seq<(StrategicGoal, u32)>) -> Seq<(GoalView, u32)> {
    cs.map_values(|c: (StrategicGoal, u32)| (c.0@, c.1))
}

/// The rank of each scored goal, the highest score first; None for a NaN score.
pub open spec fn score_ranks(cs: Seq<(GoalView, u32)>) -> Seq<Option<int>> {
    cs.map_values(|c: (GoalView, u32)| if is_nan(c.1) {
        None
    } else {
        Some(-order_key(c.1))
    })
}

/// `after` is `before` once the best of the scored goals `cs` was weighed at
/// `time`: the highest-scored goal (the first of equals) is adopted and
/// recorded when its score exceeds 0.5; otherwise nothing changes. The
/// personality and the waiting goals stay as they were.
pub open spec fn adopts_best(before: DecisionMaker, after: DecisionMaker, cs: Seq<(GoalView, u32)>, time: u32) -> bool {
    let ranks = score_ranks(cs);
    &&& after.personality == before.personality
    &&& after.goal_queue@ == before.goal_queue@
    &&& after.evaluation_interval == before.evaluation_interval
    &&& after.last_evaluation == before.last_evaluation
    &&& if exists|i: int| #[trigger] is_earliest_min(ranks, cs.len() as int, i) && spec_lt(F32_HALF, cs[i].1) {
        exists|i: int|
            {
                &&& #[trigger] is_earliest_min(ranks, cs.len() as int, i)
                &&& after.current_goal matches Some(g) && g@ == cs[i].0
                &&& history_records(after.decision_history@) == history_after(
                    history_records(before.decision_history@),
                    (cs[i].0, cs[i].1, time, false),
                )
            }
    } else {
        &&& after.current_goal == before.current_goal
        &&& after.decision_history@ == before.decision_history@
    }
}

/// A decision as a mathematical value: its goal, score, time and outcome.
pub open spec fn decision_record(d: Decision) -> (GoalView, u32, u32, bool) {
    (d.goal@, d.score, d.timestamp, d.success)
}

/// The history as mathematical values.
pub open spec fn history_records(h: Seq<Decision>) -> Seq<(GoalView, u32, u32, bool)> {
    h.map_values(|d: Decision| decision_record(d))
}

/// The history once `d` was recorded: it is appended, and the oldest decision
/// is forgotten when more than twenty are kept.
pub open spec fn history_after(history: Seq<(GoalView, u32, u32, bool)>, d: (GoalView, u32, u32, bool)) -> Seq<(GoalView, u32, u32, bool)> {
    let h = history.push(d);
    if h.len() > DECISION_HISTORY_LIMIT {
        h.drop_first()
    } else {
        h
    }
}

/// A mind just made with `personality`: no goal, nothing waiting, no
/// history, an evaluation every 2 seconds and none made yet.
pub open spec fn is_new_mind(m: DecisionMaker, personality: AIPersonality) -> bool {
    &&& m.personality == personality
    &&& m.current_goal is None
    &&& m.goal_queue@.len() == 0
    &&& m.decision_history@.len() == 0
    &&& m.evaluation_interval == DEFAULT_EVALUATION_INTERVAL
    &&& m.last_evaluation == F32_ZERO
}

impl DecisionMaker {
    /// A decision maker with `personality`, no goal, and an evaluation every 2 seconds.
    pub fn new(personality: AIPersonality) -> (m: Self)
        ensures
            is_new_mind(m, personality),
    {
        DecisionMaker {
            personality,
            current_goal: None,
            goal_queue: VecDeque::new(),
            decision_history: Vec::new(),
            evaluation_interval: DEFAULT_EVALUATION_INTERVAL,
            last_evaluation: F32_ZERO,
        }
    }

    /// An aggressive personality: aggression 0.9, caution 0.2, greed 0.4, loyalty 0.6, exploration 0.7.
    pub fn aggressive() -> (m: Self)
        ensures
            is_new_mind(m, (AIPersonality { aggression: 0x3F66_6666, caution: 0x3E4C_CCCD, greed: 0x3ECC_CCCD, loyalty: 0x3F19_999A, exploration: 0x3F33_3333 })),
    {
        Self::new(AIPersonality { aggression: 0x3F66_6666, caution: 0x3E4C_CCCD, greed: 0x3ECC_CCCD, loyalty: 0x3F19_999A, exploration: 0x3F33_3333 })
    }

    /// A defensive personality: aggression 0.3, caution 0.8, greed 0.5, loyalty 0.7, exploration 0.3.
    pub fn defensive() -> (m: Self)
        ensures
            is_new_mind(m, (AIPersonality { aggression: 0x3E99_999A, caution: 0x3F4C_CCCD, greed: 0x3F00_0000, loyalty: 0x3F33_3333, exploration: 0x3E99_999A })),
    {
        Self::new(AIPersonality { aggression: 0x3E99_999A, caution: 0x3F4C_CCCD, greed: 0x3F00_0000, loyalty: 0x3F33_3333, exploration: 0x3E99_999A })
    }

    /// An economic personality: aggression 0.2, caution 0.6, greed 0.9, loyalty 0.5, exploration 0.6.
    pub fn economic() -> (m: Self)
        ensures
            is_new_mind(m, (AIPersonality { aggression: 0x3E4C_CCCD, caution: 0x3F19_999A, greed: 0x3F66_6666, loyalty: 0x3F00_0000, exploration: 0x3F19_999A })),
    {
        Self::new(AIPersonality { aggression: 0x3E4C_CCCD, caution: 0x3F19_999A, greed: 0x3F66_6666, loyalty: 0x3F00_0000, exploration: 0x3F19_999A })
    }

    /// A balanced personality: every weight 0.5.
    pub fn balanced() -> (m: Self)
        ensures
            is_new_mind(m, (AIPersonality { aggression: F32_HALF, caution: F32_HALF, greed: F32_HALF, loyalty: F32_HALF, exploration: F32_HALF })),
    {
        Self::new(AIPersonality { aggression: F32_HALF, caution: F32_HALF, greed: F32_HALF, loyalty: F32_HALF, exploration: F32_HALF })
    }

    /// Adopts the highest-scored of the scored goals (the first of equals) when
    /// its score exceeds 0.5, and records the decision taken at `time_elapsed`.
    pub fn adopt_best_goal(&mut self, goal_scores: Vec<(StrategicGoal, u32)>, time_elapsed: u32)
        requires
            forall|i: int| 0 <= i < goal_scores@.len() ==> !is_nan(#[trigger] goal_scores@[i].1),
        ensures
            adopts_best(*old(self), *final(self), goal_views(goal_scores@), time_elapsed),
    {
        let ghost ranks = goal_scores@.map_values(|c: (StrategicGoal, u32)| goal_rank(c));
        assert(ranks =~= score_ranks(goal_views(goal_scores@)));
        let mut best: Option<usize> = None;
        let mut i: usize = 0;
        while i < goal_scores.len()
            invariant
                i <= goal_scores@.len(),
                ranks == goal_scores@.map_values(|c: (StrategicGoal, u32)| goal_rank(c)),
                forall|j: int| 0 <= j < goal_scores@.len() ==> goal_rank(#[trigger] goal_scores@[j]) is Some,
                best_so_far(ranks, i as int, best),
            decreases goal_scores@.len() - i,
        {
            let next = match best {
                None => Some(i),
                Some(b) => if f32_gt(goal_scores[i].1, goal_scores[b].1) {
                    Some(i)
                } else {
                    Some(b)
                },
            };
            proof {
                assert(ranks[i as int] == goal_rank(goal_scores@[i as int]));
                if let Some(b) = best {
                    assert(ranks[b as int] == goal_rank(goal_scores@[b as int]));
                }
                lemma_best_step(ranks, i as int, best, next);
            }
            best = next;
            i = i + 1;
        }
        if let Some(b) = best {
            proof {
                assert forall|k: int| #[trigger] is_earliest_min(ranks, goal_scores@.len() as int, k) implies k == b as int by {
                    crate::ranking::lemma_earliest_min_unique(ranks, goal_scores@.len() as int, k, b as int);
                }
            }
            let score = goal_scores[b].1;
            if f32_gt(score, F32_HALF) {
                let goal = goal_scores[b].0.duplicate();
                let recorded = goal_scores[b].0.duplicate();
                self.current_goal = Some(goal);
                self.decision_history.push(Decision { goal: recorded, score, timestamp: time_elapsed, success: false });
                if self.decision_history.len() > DECISION_HISTORY_LIMIT {
                    self.decision_history.remove(0);
                }
                proof {
                    assert(history_records(self.decision_history@) =~= history_after(
                        history_records(old(self).decision_history@),
                        (goal_scores@[b as int].0@, goal_scores@[b as int].1, time_elapsed, false),
                    ));
                }
            }
        }
    }

    /// Whether a goal is being pursued.
    pub fn has_goal(&self) -> (r: bool)
        ensures
            r == self.current_goal is Some,
    {
        self.current_goal.is_some()
    }

    /// Ends the current goal, marking the last decision taken as a success or
    /// not when a goal was being pursued, and takes up the next waiting goal.
    pub fn complete_goal(&mut self, success: bool)
        ensures
            final(self).evaluation_interval == old(self).evaluation_interval,
            final(self).last_evaluation == old(self).last_evaluation,
            final(self).personality == old(self).personality,
            old(self).goal_queue@.len() == 0 ==> final(self).current_goal is None && final(self).goal_queue@ == old(self).goal_queue@,
            old(self).goal_queue@.len() > 0 ==> final(self).current_goal == Some(old(self).goal_queue@[0])
                && final(self).goal_queue@ == old(self).goal_queue@.drop_first(),
            final(self).decision_history@.len() == old(self).decision_history@.len(),
            (old(self).current_goal is Some && old(self).decision_history@.len() > 0) ==> final(self).decision_history@
                == old(self).decision_history@.update(
                    old(self).decision_history@.len() - 1,
                    Decision { success, ..old(self).decision_history@.last() },
                ),
            !(old(self).current_goal is Some && old(self).decision_history@.len() > 0) ==> final(self).decision_history@
                == old(self).decision_history@,
    {
        if self.current_goal.is_some() {
            let n = self.decision_history.len();
            if n > 0 {
                let mut last = self.decision_history.remove(n - 1);
                last.success = success;
                self.decision_history.push(last);
                proof {
                    assert(self.decision_history@ =~= old(self).decision_history@.update(
                        n - 1,
                        Decision { success, ..old(self).decision_history@.last() },
                    ));
                }
            }
        }
        self.current_goal = self.goal_queue.pop_front();
        proof {
            if old(self).goal_queue@.len() > 0 {
                assert(self.goal_queue@ =~= old(self).goal_queue@.drop_first());
            }
        }
    }

    /// Queues a goal to be pursued after those waiting.
    pub fn add_goal(&mut self, goal: StrategicGoal)
        ensures
            final(self).evaluation_interval == old(self).evaluation_interval,
            final(self).last_evaluation == old(self).last_evaluation,
            final(self).goal_queue@ == old(self).goal_queue@.push(goal),
            final(self).current_goal == old(self).current_goal,
            final(self).decision_history@ == old(self).decision_history@,
    {
        self.goal_queue.push_back(goal);
    }

    /// Drops the current goal and every waiting goal.
    pub fn clear_goals(&mut self)
        ensures
            final(self).evaluation_interval == old(self).evaluation_interval,
            final(self).last_evaluation == old(self).last_evaluation,
            final(self).current_goal is None,
            final(self).goal_queue@.len() == 0,
            final(self).decision_history@ == old(self).decision_history@,
    {
        self.current_goal = None;
        self.goal_queue.clear();
    }
}

/// Bit pattern of the `f32` value 0.3.
pub const F32_THREE_TENTHS: u32 = 0x3E99_999A;

/// Bit pattern of the `f32` value 0.2.
pub const F32_ONE_FIFTH: u32 = 0x3E4C_CCCD;

/// Bit pattern of the `f32` value 4.0.
pub const F32_FOUR: u32 = 0x4080_0000;

/// Where exploration heads: (50, 0, 50).
pub open spec fn explore_target() -> Vec3Bits {
    Vec3Bits { x: 0x4248_0000, y: F32_ZERO, z: 0x4248_0000 }
}

/// What a unit knows of its surroundings when it weighs its goals; `f32`
/// values are bit patterns and entities their `u64` bits.
#[derive(Clone, Copy, Debug)]
pub struct DecisionContext {
    pub entity: u64,
    pub position: Vec3Bits,
    pub team_id: u32,
    pub health_percentage: u32,
    pub nearby_enemies: usize,
    pub nearby_allies: usize,
    pub threat_level: u32,
    pub has_resources: bool,
    pub time_elapsed: u32,
}

/// How much the unit's personality wants each kind of goal in its context
/// (`f32` bit patterns, each between 0 and 1).
#[derive(Clone, Copy, Debug)]
pub struct GoalScores {
    pub attack: u32,
    pub defend: u32,
    pub gather: u32,
    pub explore: u32,
}

/// The goals weighed in a context, in order, with their scores: eliminating an
/// enemy when enemies are near; defending the unit's position above 0.5
/// threat; gathering below 0.3 threat; exploring toward (50, 0, 50) with no
/// enemy near and below 0.2 threat. `enemy` is the entity an elimination goal names.
pub open spec fn spec_scored_goals(c: DecisionContext, s: GoalScores, enemy: u64) -> Seq<(GoalView, u32)> {
    let attack: Seq<(GoalView, u32)> = if c.nearby_enemies > 0 {
        seq![(GoalView::EliminateEnemy(enemy), s.attack)]
    } else {
        Seq::empty()
    };
    let defend: Seq<(GoalView, u32)> = if spec_lt(F32_HALF, c.threat_level) {
        seq![(GoalView::DefendPosition(c.position), s.defend)]
    } else {
        Seq::empty()
    };
    let gather: Seq<(GoalView, u32)> = if spec_lt(c.threat_level, F32_THREE_TENTHS) {
        seq![(GoalView::GatherResources, s.gather)]
    } else {
        Seq::empty()
    };
    let explore: Seq<(GoalView, u32)> = if c.nearby_enemies == 0 && spec_lt(c.threat_level, F32_ONE_FIFTH) {
        seq![(GoalView::ExploreTerrain(explore_target()), s.explore)]
    } else {
        Seq::empty()
    };
    attack + defend + gather + explore
}

/// The goals weighed in `context`, with their scores; see [`spec_scored_goals`].
pub fn scored_goals(context: &DecisionContext, scores: &GoalScores, enemy: u64) -> (r: Vec<(StrategicGoal, u32)>)
    ensures
        goal_views(r@) == spec_scored_goals(*context, *scores, enemy),
{
    let mut r: Vec<(StrategicGoal, u32)> = Vec::new();
    if context.nearby_enemies > 0 {
        r.push((StrategicGoal::EliminateEnemy(enemy), scores.attack));
    }
    if f32_gt(context.threat_level, F32_HALF) {
        r.push((StrategicGoal::DefendPosition(context.position), scores.defend));
    }
    if f32_lt(context.threat_level, F32_THREE_TENTHS) {
        r.push((StrategicGoal::GatherResources, scores.gather));
    }
    if context.nearby_enemies == 0 && f32_lt(context.threat_level, F32_ONE_FIFTH) {
        r.push(
            (
                StrategicGoal::ExploreTerrain(Vec3Bits { x: 0x4248_0000, y: F32_ZERO, z: 0x4248_0000 }),
                scores.explore,
            ),
        );
    }
    assert(goal_views(r@) =~= spec_scored_goals(*context, *scores, enemy));
    r
}

impl DecisionMaker {
    /// Weighs the goals of `context` with their `scores` and adopts the best of
    /// them; see [`spec_scored_goals`] and [`adopts_best`].
    pub fn update(&mut self, context: &DecisionContext, scores: &GoalScores, enemy: u64)
        requires
            forall|i: int|
                0 <= i < spec_scored_goals(*context, *scores, enemy).len() ==> !is_nan(
                    #[trigger] spec_scored_goals(*context, *scores, enemy)[i].1,
                ),
        ensures
            adopts_best(*old(self), *final(self), spec_scored_goals(*context, *scores, enemy), context.time_elapsed),
    {
        let goals = scored_goals(context, scores, enemy);
        proof {
            assert forall|i: int| 0 <= i < goals@.len() implies !is_nan(#[trigger] goals@[i].1) by {
                assert(goal_views(goals@)[i].1 == goals@[i].1);
            }
        }
        self.adopt_best_goal(goals, context.time_elapsed);
    }

    /// The component that pursuing the current goal puts on the unit: an
    /// attack on the enemy to eliminate, with the unit's aggression; a defense
    /// of the position within 10; gathering at rate 1; a move to the terrain
    /// to explore at speed 4. Other goals, and no goal, put none.
    pub fn goal_command(&self) -> (c: Option<UnitCommand>)
        ensures
            c == match self.current_goal {
                Some(StrategicGoal::EliminateEnemy(t)) => Some(
                    UnitCommand::Attack { target: t, aggression_level: self.personality.aggression },
                ),
                Some(StrategicGoal::DefendPosition(p)) => Some(UnitCommand::Defend { position: p, patrol_radius: F32_TEN }),
                Some(StrategicGoal::GatherResources) => Some(UnitCommand::Gather { resource: None, gathering_rate: F32_ONE }),
                Some(StrategicGoal::ExploreTerrain(t)) => Some(UnitCommand::MoveTo { target: t, speed: F32_FOUR }),
                _ => None,
            },
    {
        match &self.current_goal {
            Some(StrategicGoal::EliminateEnemy(t)) => Some(
                UnitCommand::Attack { target: *t, aggression_level: self.personality.aggression },
            ),
            Some(StrategicGoal::DefendPosition(p)) => Some(UnitCommand::Defend { position: *p, patrol_radius: F32_TEN }),
            Some(StrategicGoal::GatherResources) => Some(UnitCommand::Gather { resource: None, gathering_rate: F32_ONE }),
            Some(StrategicGoal::ExploreTerrain(t)) => Some(UnitCommand::MoveTo { target: *t, speed: F32_FOUR }),
            _ => None,
        }
    }
}

/// The decision history never grows past twenty decisions, and the decision
/// just recorded is always its latest.
pub proof fn law_decision_history_bounded(history: Seq<(GoalView, u32, u32, bool)>, d: (GoalView, u32, u32, bool))
    requires
        history.len() <= DECISION_HISTORY_LIMIT,
    ensures
        history_after(history, d).len() <= DECISION_HISTORY_LIMIT,
        history_after(history, d).last() == d,
{
}

/// Which goals are weighed, whatever else the context holds: eliminating the
/// enemy (with the attack score) exactly when enemies are near; defending the
/// unit's position (with the defend score) exactly when the threat is above
/// 0.5; gathering (with the gather score) exactly when the threat is below
/// 0.3, however many enemies are near; exploring (50, 0, 50) (with the explore
/// score) exactly when no enemy is near and the threat is below 0.2; and no
/// other goal.
pub proof fn law_weighed_goals(c: DecisionContext, s: GoalScores, enemy: u64)
    ensures
        spec_scored_goals(c, s, enemy).contains((GoalView::EliminateEnemy(enemy), s.attack)) <==> c.nearby_enemies > 0,
        spec_scored_goals(c, s, enemy).contains((GoalView::DefendPosition(c.position), s.defend)) <==> spec_lt(
            0x3F00_0000,
            c.threat_level,
        ),
        spec_scored_goals(c, s, enemy).contains((GoalView::GatherResources, s.gather)) <==> spec_lt(
            c.threat_level,
            0x3E99_999A,
        ),
        spec_scored_goals(c, s, enemy).contains(
            (GoalView::ExploreTerrain(Vec3Bits { x: 0x4248_0000, y: 0, z: 0x4248_0000 }), s.explore),
        ) <==> c.nearby_enemies == 0 && spec_lt(c.threat_level, 0x3E4C_CCCD),
        spec_scored_goals(c, s, enemy).len() == (if c.nearby_enemies > 0 { 1int } else { 0int }) + (if spec_lt(
            0x3F00_0000,
            c.threat_level,
        ) {
            1int
        } else {
            0int
        }) + (if spec_lt(c.threat_level, 0x3E99_999A) {
            1int
        } else {
            0int
        }) + (if c.nearby_enemies == 0 && spec_lt(c.threat_level, 0x3E4C_CCCD) {
            1int
        } else {
            0int
        }),
{
    let none = Seq::<(GoalView, u32)>::empty();
    let attack = if c.nearby_enemies > 0 { seq![(GoalView::EliminateEnemy(enemy), s.attack)] } else { none };
    let defend = if spec_lt(F32_HALF, c.threat_level) { seq![(GoalView::DefendPosition(c.position), s.defend)] } else { none };
    let gather = if spec_lt(c.threat_level, F32_THREE_TENTHS) { seq![(GoalView::GatherResources, s.gather)] } else { none };
    let explore = if c.nearby_enemies == 0 && spec_lt(c.threat_level, F32_ONE_FIFTH) {
        seq![(GoalView::ExploreTerrain(explore_target()), s.explore)]
    } else {
        none
    };
    let all = spec_scored_goals(c, s, enemy);
    assert(all == attack + defend + gather + explore);
    let a = attack.len() as int;
    let d = defend.len() as int;
    let g = gather.len() as int;
    assert forall|x: (GoalView, u32)| all.contains(x) <==> (attack.contains(x) || defend.contains(x) || gather.contains(x)
        || explore.contains(x)) by {
        if all.contains(x) {
            let k = choose|k: int| 0 <= k < all.len() && all[k] == x;
            if k < a {
                assert(attack[k] == x);
            } else if k < a + d {
                assert(defend[k - a] == x);
            } else if k < a + d + g {
                assert(gather[k - a - d] == x);
            } else {
                assert(explore[k - a - d - g] == x);
            }
        }
        if attack.contains(x) {
            let k = choose|k: int| 0 <= k < attack.len() && attack[k] == x;
            assert(all[k] == x);
        }
        if defend.contains(x) {
            let k = choose|k: int| 0 <= k < defend.len() && defend[k] == x;
            assert(all[a + k] == x);
        }
        if gather.contains(x) {
            let k = choose|k: int| 0 <= k < gather.len() && gather[k] == x;
            assert(all[a + d + k] == x);
        }
        if explore.contains(x) {
            let k = choose|k: int| 0 <= k < explore.len() && explore[k] == x;
            assert(all[a + d + g + k] == x);
        }
    }
    if c.nearby_enemies > 0 {
        assert(attack[0] == (GoalView::EliminateEnemy(enemy), s.attack));
    }
    if spec_lt(F32_HALF, c.threat_level) {
        assert(defend[0] == (GoalView::DefendPosition(c.position), s.defend));
    }
    if spec_lt(c.threat_level, F32_THREE_TENTHS) {
        assert(gather[0] == (GoalView::GatherResources, s.gather));
    }
    if c.nearby_enemies == 0 && spec_lt(c.threat_level, F32_ONE_FIFTH) {
        assert(explore[0] == (GoalView::ExploreTerrain(explore_target()), s.explore));
    }
}

/// A goal scored above 0.5 and strictly above every other weighed goal is
/// the one adopted, and it is recorded as the latest decision.
pub proof fn law_strictly_best_goal_is_adopted(
    before: DecisionMaker,
    after: DecisionMaker,
    cs: Seq<(GoalView, u32)>,
    time: u32,
    k: int,
)
    requires
        adopts_best(before, after, cs, time),
        0 <= k < cs.len(),
        spec_lt(0x3F00_0000, cs[k].1),
        forall|i: int| 0 <= i < cs.len() && i != k ==> spec_lt(#[trigger] cs[i].1, cs[k].1) || is_nan(cs[i].1),
    ensures
        after.current_goal matches Some(g) && g@ == cs[k].0,
        history_records(after.decision_history@).last() == (cs[k].0, cs[k].1, time, false),
{
    let ranks = score_ranks(cs);
    assert(ranks[k] == Some(-order_key(cs[k].1)));
    assert forall|j: int| 0 <= j < cs.len() && #[trigger] ranks[j] is Some implies ranks[k]->0 <= ranks[j]->0 by {
        assert(ranks[j] == (if is_nan(cs[j].1) { None } else { Some(-order_key(cs[j].1)) }));
    }
    assert forall|j: int| 0 <= j < k && #[trigger] ranks[j] is Some implies ranks[k]->0 < ranks[j]->0 by {
        assert(ranks[j] == (if is_nan(cs[j].1) { None } else { Some(-order_key(cs[j].1)) }));
    }
    assert(is_earliest_min(ranks, cs.len() as int, k));
    let i = choose|i: int|
        {
            &&& #[trigger] is_earliest_min(ranks, cs.len() as int, i)
            &&& after.current_goal matches Some(g) && g@ == cs[i].0
            &&& history_records(after.decision_history@) == history_after(
                history_records(before.decision_history@),
                (cs[i].0, cs[i].1, time, false),
            )
        };
    crate::ranking::lemma_earliest_min_unique(ranks, cs.len() as int, i, k);
}

/// A calm unit (threat below 0.3) weighs gathering with its gather score
/// however many enemies are near, so when that score is above 0.5 and above
/// every other weighed score, updating the mind adopts gathering.
pub proof fn law_calm_unit_gathers(
    before: DecisionMaker,
    after: DecisionMaker,
    c: DecisionContext,
    s: GoalScores,
    enemy: u64,
)
    requires
        adopts_best(before, after, spec_scored_goals(c, s, enemy), c.time_elapsed),
        spec_lt(c.threat_level, 0x3E99_999A),
        spec_lt(0x3F00_0000, s.gather),
        spec_lt(s.attack, s.gather),
        spec_lt(s.defend, s.gather),
        spec_lt(s.explore, s.gather),
    ensures
        after.current_goal matches Some(g) && g@ == GoalView::GatherResources,
{
    let cs = spec_scored_goals(c, s, enemy);
    let a: int = if c.nearby_enemies > 0 { 1 } else { 0 };
    let d: int = if spec_lt(F32_HALF, c.threat_level) { 1 } else { 0 };
    let e: int = if c.nearby_enemies == 0 && spec_lt(c.threat_level, F32_ONE_FIFTH) { 1 } else { 0 };
    let k = a + d;
    assert(cs.len() == a + d + 1 + e);
    assert(cs[k] == (GoalView::GatherResources, s.gather));
    assert forall|i: int| 0 <= i < cs.len() && i != k implies spec_lt(#[trigger] cs[i].1, cs[k].1) || is_nan(cs[i].1) by {
        if i < a {
            assert(cs[i].1 == s.attack);
        } else if i < a + d {
            assert(cs[i].1 == s.defend);
        } else {
            assert(cs[i].1 == s.explore);
        }
    }
    law_strictly_best_goal_is_adopted(before, after, cs, c.time_elapsed, k);
}

} // verus!
