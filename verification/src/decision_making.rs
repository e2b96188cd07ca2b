//! Strategic decisions of an AI player: a queue of decisions ordered by
//! priority, the most urgent first, holding ten decisions at most; decisions
//! that expire leave it.
//!
//! `f32` values are carried as their bit patterns (see [`crate::float_bits`]).
use vstd::prelude::*;
use std::collections::VecDeque;
use crate::float_bits::{f32_gt, f32_lt, order_key, spec_lt, Vec3Bits, F32_HALF, F32_ONE, F32_ZERO};

verus! {

/// Decision types for AI actions.
#[derive(Debug)]
pub enum DecisionType {
    BuildUnit(String),
    BuildStructure(String),
    Research(String),
    Attack(Vec3Bits),
    Defend(Vec3Bits),
    Expand(Vec3Bits),
}

/// A queued decision; its priority and times are `f32` bit patterns.
#[derive(Debug)]
pub struct AIDecision {
    pub decision_type: DecisionType,
    pub priority: u32,
    pub timestamp: u32,
    pub expires_at: u32,
}

/// How many decisions the queue holds at most.
pub const DECISION_QUEUE_LIMIT: usize = 10;

/// AI decision maker component.
#[derive(Debug)]
pub struct AIDecisionMaker {
    pub decision_queue: VecDeque<AIDecision>,
    pub evaluation_scores: Vec<(DecisionType, u32)>,
    /// Seconds between evaluations, as an `f32` bit pattern.
    pub decision_cooldown: u32,
    /// Time of the last evaluation in seconds, as an `f32` bit pattern.
    pub last_decision_time: u32,
}

/// Where a decision of `priority` goes: before the first queued decision of
/// lower priority, or at the end.
pub open spec fn insertion_point(q: Seq<AIDecision>, priority: u32) -> int
    decreases q.len(),
{
    if q.len() == 0 {
        0
    } else if spec_lt(q[0].priority, priority) {
        0
    } else {
        1 + insertion_point(q.drop_first(), priority)
    }
}

/// The queue once `d` was inserted by its priority and cut to ten decisions.
pub open spec fn queue_after_insert(q: Seq<AIDecision>, d: AIDecision) -> Seq<AIDecision> {
    let inserted = q.insert(insertion_point(q, d.priority), d);
    if inserted.len() > DECISION_QUEUE_LIMIT {
        inserted.subrange(0, DECISION_QUEUE_LIMIT as int)
    } else {
        inserted
    }
}

/// The decisions of `q` that have not expired at `current_time`, in order.
pub open spec fn unexpired(q: Seq<AIDecision>, current_time: u32) -> Seq<AIDecision>
    decreases q.len(),
{
    if q.len() == 0 {
        Seq::empty()
    } else {
        let rest = unexpired(q.drop_last(), current_time);
        if spec_lt(current_time, q.last().expires_at) {
            rest.push(q.last())
        } else {
            rest
        }
    }
}

/// The decisions are ordered from the highest priority to the lowest.
pub open spec fn by_priority(q: Seq<AIDecision>) -> bool {
    forall|i: int, j: int| 0 <= i < j < q.len() ==> !spec_lt(#[trigger] q[i].priority, #[trigger] q[j].priority)
}

proof fn lemma_insertion_point(q: Seq<AIDecision>, priority: u32)
    ensures
        0 <= insertion_point(q, priority) <= q.len(),
        forall|j: int| 0 <= j < insertion_point(q, priority) ==> !spec_lt(#[trigger] q[j].priority, priority),
        insertion_point(q, priority) < q.len() ==> spec_lt(q[insertion_point(q, priority)].priority, priority),
    decreases q.len(),
{
    if q.len() > 0 && !spec_lt(q[0].priority, priority) {
        lemma_insertion_point(q.drop_first(), priority);
        assert forall|j: int| 0 <= j < insertion_point(q, priority) implies !spec_lt(#[trigger] q[j].priority, priority) by {
            if j > 0 {
                assert(q[j] == q.drop_first()[j - 1]);
            }
        }
    }
}

impl Default for AIDecisionMaker {
    fn default() -> (m: Self)
        ensures
            m.decision_queue@.len() == 0,
            m.evaluation_scores@.len() == 0,
            m.decision_cooldown == F32_ONE,
            m.last_decision_time == F32_ZERO,
    {
        AIDecisionMaker {
            decision_queue: VecDeque::new(),
            evaluation_scores: Vec::new(),
            decision_cooldown: F32_ONE,
            last_decision_time: F32_ZERO,
        }
    }
}

impl AIDecisionMaker {
    /// Queues a decision of `priority` taken at `current_time` that expires at
    /// `expires_at`, after every queued decision of at least its priority, and
    /// keeps the ten most urgent.
    pub fn add_decision(&mut self, decision_type: DecisionType, priority: u32, current_time: u32, expires_at: u32)
        ensures
            final(self).decision_queue@ == queue_after_insert(
                old(self).decision_queue@,
                AIDecision { decision_type, priority, timestamp: current_time, expires_at },
            ),
            final(self).decision_cooldown == old(self).decision_cooldown,
            final(self).last_decision_time == old(self).last_decision_time,
            final(self).evaluation_scores@ == old(self).evaluation_scores@,
    {
        let decision = AIDecision { decision_type, priority, timestamp: current_time, expires_at };
        let ghost q = self.decision_queue@;
        proof {
            lemma_insertion_point(q, priority);
        }
        let mut position: usize = 0;
        while position < self.decision_queue.len() && !f32_lt(self.decision_queue[position].priority, priority)
            invariant
                self.decision_queue@ == q,
                position <= q.len(),
                position <= insertion_point(q, priority),
                insertion_point(q, priority) <= q.len(),
                insertion_point(q, priority) < q.len() ==> spec_lt(q[insertion_point(q, priority)].priority, priority),
                forall|j: int| 0 <= j < position ==> !spec_lt(#[trigger] q[j].priority, priority),
            decreases q.len() - position,
        {
            position = position + 1;
        }
        proof {
            if position < insertion_point(q, priority) {
                assert(spec_lt(q[position as int].priority, priority) || position == q.len());
            }
        }
        self.decision_queue.insert(position, decision);
        if self.decision_queue.len() > DECISION_QUEUE_LIMIT {
            self.decision_queue.truncate(DECISION_QUEUE_LIMIT);
        }
    }

    /// The most urgent decision, if any.
    pub fn get_next_decision(&self) -> (d: Option<&AIDecision>)
        ensures
            self.decision_queue@.len() == 0 ==> d is None,
            self.decision_queue@.len() > 0 ==> d == Some(&self.decision_queue@[0]),
    {
        if self.decision_queue.len() > 0 {
            Some(&self.decision_queue[0])
        } else {
            None
        }
    }

    /// Drops the most urgent decision, once it was carried out.
    pub fn complete_decision(&mut self)
        ensures
            old(self).decision_queue@.len() == 0 ==> final(self).decision_queue@ == old(self).decision_queue@,
            old(self).decision_queue@.len() > 0 ==> final(self).decision_queue@ == old(self).decision_queue@.drop_first(),
            final(self).decision_cooldown == old(self).decision_cooldown,
            final(self).last_decision_time == old(self).last_decision_time,
            final(self).evaluation_scores@ == old(self).evaluation_scores@,
    {
        self.decision_queue.pop_front();
    }

    /// Drops the decisions that have expired at `current_time`.
    pub fn clear_expired_decisions(&mut self, current_time: u32)
        ensures
            final(self).decision_queue@ == unexpired(old(self).decision_queue@, current_time),
            final(self).decision_cooldown == old(self).decision_cooldown,
            final(self).last_decision_time == old(self).last_decision_time,
            final(self).evaluation_scores@ == old(self).evaluation_scores@,
    {
        let mut kept: VecDeque<AIDecision> = VecDeque::new();
        let ghost q = self.decision_queue@;
        let ghost mut taken: int = 0;
        while self.decision_queue.len() > 0
            invariant
                0 <= taken <= q.len(),
                self.decision_queue@ == q.subrange(taken, q.len() as int),
                kept@ == unexpired(q.subrange(0, taken), current_time),
                self.evaluation_scores@ == old(self).evaluation_scores@,
                self.decision_cooldown == old(self).decision_cooldown,
                self.last_decision_time == old(self).last_decision_time,
            decreases q.len() - taken,
        {
            let d = self.decision_queue.pop_front();
            match d {
                Some(d) => {
                    proof {
                        assert(q.subrange(0, taken + 1).drop_last() =~= q.subrange(0, taken));
                        assert(q.subrange(0, taken + 1).last() == d);
                        taken = taken + 1;
                    }
                    if f32_gt(d.expires_at, current_time) {
                        kept.push_back(d);
                    }
                },
                None => {},
            }
        }
        proof {
            assert(q.subrange(0, q.len() as int) =~= q);
        }
        self.decision_queue = kept;
    }
}

/// The queue stays ordered from the most urgent decision to the least, and
/// never holds more than ten decisions.
pub proof fn law_queue_stays_ordered(q: Seq<AIDecision>, d: AIDecision)
    requires
        by_priority(q),
        q.len() <= DECISION_QUEUE_LIMIT,
        forall|i: int| 0 <= i < q.len() ==> !crate::float_bits::is_nan(#[trigger] q[i].priority),
        !crate::float_bits::is_nan(d.priority),
    ensures
        by_priority(queue_after_insert(q, d)),
        queue_after_insert(q, d).len() <= DECISION_QUEUE_LIMIT,
{
    lemma_insertion_point(q, d.priority);
    let p = insertion_point(q, d.priority);
    let ins = q.insert(p, d);
    assert forall|i: int, j: int| 0 <= i < j < ins.len() implies !spec_lt(#[trigger] ins[i].priority, #[trigger] ins[j].priority) by {
        if i < p && j < p {
            assert(ins[i] == q[i] && ins[j] == q[j]);
        } else if i < p && j == p {
            assert(ins[i] == q[i]);
        } else if i < p && j > p {
            assert(ins[i] == q[i] && ins[j] == q[j - 1]);
        } else if i == p {
            assert(ins[j] == q[j - 1]);
            assert(spec_lt(q[p].priority, d.priority));
            assert(!spec_lt(q[p].priority, q[j - 1].priority) || j - 1 == p);
        } else {
            assert(ins[i] == q[i - 1] && ins[j] == q[j - 1]);
        }
    }
    let r = queue_after_insert(q, d);
    assert forall|i: int, j: int| 0 <= i < j < r.len() implies !spec_lt(#[trigger] r[i].priority, #[trigger] r[j].priority) by {
        assert(r[i] == ins[i] && r[j] == ins[j]);
    }
}

/// A decision type as a mathematical value.
pub enum DecisionView {
    BuildUnit(Seq<char>),
    BuildStructure(Seq<char>),
    Research(Seq<char>),
    Attack(Vec3Bits),
    Defend(Vec3Bits),
    Expand(Vec3Bits),
}

impl View for DecisionType {
    type V = DecisionView;

    open spec fn view(&self) -> DecisionView {
        match self {
            DecisionType::BuildUnit(s) => DecisionView::BuildUnit(s@),
            DecisionType::BuildStructure(s) => DecisionView::BuildStructure(s@),
            DecisionType::Research(s) => DecisionView::Research(s@),
            DecisionType::Attack(p) => DecisionView::Attack(*p),
            DecisionType::Defend(p) => DecisionView::Defend(*p),
            DecisionType::Expand(p) => DecisionView::Expand(*p),
        }
    }
}

impl DecisionType {
    /// A copy of the decision type.
    pub fn duplicate(&self) -> (d: Self)
        ensures
            d@ == self@,
    {
        match self {
            DecisionType::BuildUnit(s) => DecisionType::BuildUnit(s.clone()),
            DecisionType::BuildStructure(s) => DecisionType::BuildStructure(s.clone()),
            DecisionType::Research(s) => DecisionType::Research(s.clone()),
            DecisionType::Attack(p) => DecisionType::Attack(*p),
            DecisionType::Defend(p) => DecisionType::Defend(*p),
            DecisionType::Expand(p) => DecisionType::Expand(*p),
        }
    }
}

/// A queued decision as a mathematical value: its type, priority, time and expiry.
pub open spec fn record(d: AIDecision) -> (DecisionView, u32, u32, u32) {
    (d.decision_type@, d.priority, d.timestamp, d.expires_at)
}

/// The queue as mathematical values.
pub open spec fn records(q: Seq<AIDecision>) -> Seq<(DecisionView, u32, u32, u32)> {
    q.map_values(|d: AIDecision| record(d))
}

/// Where a decision of priority `priority` goes in a queue of records.
pub open spec fn record_insertion_point(q: Seq<(DecisionView, u32, u32, u32)>, priority: u32) -> int
    decreases q.len(),
{
    if q.len() == 0 {
        0
    } else if spec_lt(q[0].1, priority) {
        0
    } else {
        1 + record_insertion_point(q.drop_first(), priority)
    }
}

/// The queue of records once `r` was added; see [`queue_after_insert`].
pub open spec fn records_after_insert(q: Seq<(DecisionView, u32, u32, u32)>, r: (DecisionView, u32, u32, u32)) -> Seq<(DecisionView, u32, u32, u32)> {
    let inserted = q.insert(record_insertion_point(q, r.1), r);
    if inserted.len() > DECISION_QUEUE_LIMIT {
        inserted.subrange(0, DECISION_QUEUE_LIMIT as int)
    } else {
        inserted
    }
}

/// The queue of records once each of `rs` was added, in turn.
pub open spec fn records_after_inserts(q: Seq<(DecisionView, u32, u32, u32)>, rs: Seq<(DecisionView, u32, u32, u32)>) -> Seq<(DecisionView, u32, u32, u32)>
    decreases rs.len(),
{
    if rs.len() == 0 {
        q
    } else {
        records_after_insert(records_after_inserts(q, rs.drop_last()), rs.last())
    }
}

proof fn lemma_insertion_point_of_records(q: Seq<AIDecision>, priority: u32)
    ensures
        insertion_point(q, priority) == record_insertion_point(records(q), priority),
    decreases q.len(),
{
    if q.len() > 0 {
        assert(records(q.drop_first()) =~= records(q).drop_first());
        lemma_insertion_point_of_records(q.drop_first(), priority);
    }
}

proof fn lemma_records_after_insert(q: Seq<AIDecision>, d: AIDecision)
    ensures
        records(queue_after_insert(q, d)) == records_after_insert(records(q), record(d)),
{
    lemma_insertion_point_of_records(q, d.priority);
    lemma_insertion_point(q, d.priority);
    let p = insertion_point(q, d.priority);
    assert(records(q.insert(p, d)) =~= records(q).insert(p, record(d)));
    if q.len() + 1 > DECISION_QUEUE_LIMIT {
        assert(records(q.insert(p, d).subrange(0, DECISION_QUEUE_LIMIT as int)) =~= records(q).insert(
            p,
            record(d),
        ).subrange(0, DECISION_QUEUE_LIMIT as int));
    }
}

/// The options as mathematical values.
pub open spec fn option_views(options: Seq<(DecisionType, u32)>) -> Seq<(DecisionView, u32)> {
    options.map_values(|o: (DecisionType, u32)| (o.0@, o.1))
}

/// The scores of the options.
pub open spec fn option_scores(options: Seq<(DecisionType, u32)>) -> Seq<u32> {
    options.map_values(|o: (DecisionType, u32)| o.1)
}

/// Option `i` comes before option `j` when weighing: the higher score first,
/// the earlier of equal scores first.
pub open spec fn evaluated_before(scores: Seq<u32>, i: int, j: int) -> bool {
    order_key(scores[i]) > order_key(scores[j]) || (order_key(scores[i]) == order_key(scores[j]) && i < j)
}

/// `order` lists the options of `scores` from the best to the worst.
pub open spec fn is_evaluation_order(scores: Seq<u32>, order: Seq<usize>) -> bool {
    &&& order.len() == scores.len()
    &&& forall|a: int| 0 <= a < order.len() ==> #[trigger] order[a] < scores.len()
    &&& forall|a: int, b: int|
        0 <= a < b < order.len() ==> evaluated_before(scores, #[trigger] order[a] as int, #[trigger] order[b] as int)
}

/// The decisions taken from the first `k` options of `order`: those scored
/// above 0.5, made at `time` and expiring at `expires_at`.
pub open spec fn chosen_records(
    options: Seq<(DecisionView, u32)>,
    order: Seq<usize>,
    time: u32,
    expires_at: u32,
    k: int,
) -> Seq<(DecisionView, u32, u32, u32)>
    decreases k,
{
    if k <= 0 {
        Seq::empty()
    } else {
        let prev = chosen_records(options, order, time, expires_at, k - 1);
        let o = options[order[k - 1] as int];
        if spec_lt(F32_HALF, o.1) {
            prev.push((o.0, o.1, time, expires_at))
        } else {
            prev
        }
    }
}

/// How many of the best options are considered.
pub const OPTIONS_CONSIDERED: usize = 3;

proof fn lemma_evaluated_before_transitive(scores: Seq<u32>, i: int, j: int, k: int)
    requires
        evaluated_before(scores, i, j),
        evaluated_before(scores, j, k),
    ensures
        evaluated_before(scores, i, k),
{
}

impl AIDecisionMaker {
    /// Weighs the scored options: keeps them best first (the earlier of equal
    /// scores first) as the evaluation scores, and queues, of the three best,
    /// each scored above 0.5 as a decision made at `current_time` that
    /// expires at `expires_at`.
    pub fn evaluate_options(&mut self, options: Vec<(DecisionType, u32)>, current_time: u32, expires_at: u32)
        requires
            forall|i: int| 0 <= i < options@.len() ==> !crate::float_bits::is_nan(#[trigger] options@[i].1),
        ensures
            exists|order: Seq<usize>|
                {
                    &&& #[trigger] is_evaluation_order(option_scores(options@), order)
                    &&& option_views(final(self).evaluation_scores@) == order.map_values(
                        |k: usize| option_views(options@)[k as int],
                    )
                    &&& records(final(self).decision_queue@) == records_after_inserts(
                        records(old(self).decision_queue@),
                        chosen_records(
                            option_views(options@),
                            order,
                            current_time,
                            expires_at,
                            if options@.len() < OPTIONS_CONSIDERED {
                                options@.len() as int
                            } else {
                                OPTIONS_CONSIDERED as int
                            },
                        ),
                    )
                },
            final(self).decision_cooldown == old(self).decision_cooldown,
            final(self).last_decision_time == old(self).last_decision_time,
    {
        let ghost scores = option_scores(options@);
        let ghost views = option_views(options@);
        let mut order: Vec<usize> = Vec::new();
        let mut i: usize = 0;
        while i < options.len()
            invariant
                i <= options@.len(),
                scores == option_scores(options@),
                forall|j: int| 0 <= j < options@.len() ==> !crate::float_bits::is_nan(#[trigger] options@[j].1),
                order@.len() == i,
                forall|a: int| 0 <= a < order@.len() ==> #[trigger] order@[a] < i,
                forall|a: int, b: int|
                    0 <= a < b < order@.len() ==> evaluated_before(scores, #[trigger] order@[a] as int, #[trigger] order@[b] as int),
            decreases options@.len() - i,
        {
            let mut pos: usize = 0;
            while pos < order.len() && !f32_gt(options[i].1, options[order[pos]].1)
                invariant
                    pos <= order@.len(),
                    i < options@.len(),
                    scores == option_scores(options@),
                    forall|j: int| 0 <= j < options@.len() ==> !crate::float_bits::is_nan(#[trigger] options@[j].1),
                    forall|a: int| 0 <= a < order@.len() ==> #[trigger] order@[a] < i,
                    forall|a: int| 0 <= a < pos ==> evaluated_before(scores, #[trigger] order@[a] as int, i as int),
                decreases order@.len() - pos,
            {
                proof {
                    assert(scores[order@[pos as int] as int] == options@[order@[pos as int] as int].1);
                    assert(scores[i as int] == options@[i as int].1);
                }
                pos = pos + 1;
            }
            proof {
                if pos < order@.len() {
                    assert(scores[order@[pos as int] as int] == options@[order@[pos as int] as int].1);
                    assert(scores[i as int] == options@[i as int].1);
                    assert(evaluated_before(scores, i as int, order@[pos as int] as int));
                }
            }
            let ghost before = order@;
            order.insert(pos, i);
            proof {
                assert forall|a: int, b: int| 0 <= a < b < order@.len() implies evaluated_before(
                    scores,
                    #[trigger] order@[a] as int,
                    #[trigger] order@[b] as int,
                ) by {
                    if b < pos {
                        assert(order@[a] == before[a] && order@[b] == before[b]);
                    } else if b == pos {
                        assert(order@[a] == before[a]);
                    } else if a < pos {
                        assert(order@[a] == before[a] && order@[b] == before[b - 1]);
                    } else if a == pos {
                        assert(order@[b] == before[b - 1]);
                        if b - 1 > pos {
                            lemma_evaluated_before_transitive(scores, i as int, before[pos as int] as int, before[b - 1] as int);
                        }
                    } else {
                        assert(order@[a] == before[a - 1] && order@[b] == before[b - 1]);
                    }
                }
                assert forall|a: int| 0 <= a < order@.len() implies #[trigger] order@[a] < i + 1 by {
                    if a < pos {
                        assert(order@[a] == before[a]);
                    } else if a > pos {
                        assert(order@[a] == before[a - 1]);
                    }
                }
            }
            i = i + 1;
        }
        let mut sorted: Vec<(DecisionType, u32)> = Vec::new();
        let mut a: usize = 0;
        while a < order.len()
            invariant
                a <= order@.len(),
                order@.len() == options@.len(),
                views == option_views(options@),
                forall|b: int| 0 <= b < order@.len() ==> #[trigger] order@[b] < options@.len(),
                option_views(sorted@) == order@.subrange(0, a as int).map_values(|k: usize| views[k as int]),
            decreases order@.len() - a,
        {
            let k = order[a];
            let ghost prev = sorted@;
            sorted.push((options[k].0.duplicate(), options[k].1));
            proof {
                assert(option_views(sorted@) =~= option_views(prev).push((options@[k as int].0@, options@[k as int].1)));
                assert(order@.subrange(0, a + 1).map_values(|k: usize| views[k as int]) =~= order@.subrange(
                    0,
                    a as int,
                ).map_values(|k: usize| views[k as int]).push(views[k as int]));
                assert(option_views(sorted@) =~= order@.subrange(0, a + 1).map_values(|k: usize| views[k as int]));
            }
            a = a + 1;
        }
        proof {
            assert(order@.subrange(0, order@.len() as int) =~= order@);
        }
        self.evaluation_scores = sorted;
        assert(option_views(self.evaluation_scores@) == order@.map_values(|k: usize| option_views(options@)[k as int]));
        let limit: usize = if options.len() < OPTIONS_CONSIDERED {
            options.len()
        } else {
            OPTIONS_CONSIDERED
        };
        let ghost q0 = records(self.decision_queue@);
        let mut c: usize = 0;
        while c < limit
            invariant
                c <= limit <= order@.len(),
                order@.len() == options@.len(),
                views == option_views(options@),
                forall|b: int| 0 <= b < order@.len() ==> #[trigger] order@[b] < options@.len(),
                records(self.decision_queue@) == records_after_inserts(
                    q0,
                    chosen_records(views, order@, current_time, expires_at, c as int),
                ),
                self.decision_cooldown == old(self).decision_cooldown,
                self.last_decision_time == old(self).last_decision_time,
                option_views(self.evaluation_scores@) == order@.map_values(|k: usize| option_views(options@)[k as int]),
            decreases limit - c,
        {
            let k = order[c];
            let score = options[k].1;
            let ghost prev_chosen = chosen_records(views, order@, current_time, expires_at, c as int);
            let ghost next_chosen = chosen_records(views, order@, current_time, expires_at, c + 1);
            proof {
                assert(views[k as int] == (options@[k as int].0@, options@[k as int].1));
            }
            if f32_gt(score, F32_HALF) {
                let d = options[k].0.duplicate();
                let ghost before = self.decision_queue@;
                proof {
                    lemma_records_after_insert(
                        before,
                        AIDecision { decision_type: d, priority: score, timestamp: current_time, expires_at },
                    );
                    assert(next_chosen == prev_chosen.push((views[k as int].0, score, current_time, expires_at)));
                    assert(next_chosen.drop_last() =~= prev_chosen);
                }
                self.add_decision(d, score, current_time, expires_at);
            } else {
                proof {
                    assert(next_chosen == prev_chosen);
                }
            }
            c = c + 1;
        }
        proof {
            assert(is_evaluation_order(option_scores(options@), order@));
            assert(option_views(self.evaluation_scores@) == order@.map_values(|k: usize| option_views(options@)[k as int]));
        }
    }
}

} // verus!
