use vstd::prelude::*;

use crate::target::{Target, input_dir_of, output_dir_of, target_name};
use crate::text::str_equal;

verus! {

/// One build attempt for one target. The input and output directories are
/// derived from the target.
#[derive(Clone, Copy, Debug, PartialEq, Eq, Structural)]
pub struct Task {
    pub target: Target,
}

impl Task {
    pub fn for_target(target: Target) -> (r: Task)
        ensures
            r.target == target,
    {
        Task { target }
    }

    pub fn input_path(&self) -> (r: &'static str)
        ensures
            r@ == input_dir_of(self.target),
    {
        self.target.input_dir()
    }

    pub fn output_path(&self) -> (r: &'static str)
        ensures
            r@ == output_dir_of(self.target),
    {
        self.target.output_dir()
    }
}

/// Where a target's task currently stands.
#[derive(Clone, Copy, Debug, PartialEq, Eq, Structural)]
pub enum Stage {
    Pending,
    InProgress,
    Complete,
    Unknown,
}

/// Some task of `s` is for `t`.
pub open spec fn holds(s: Seq<Task>, t: Target) -> bool {
    exists|i: int| 0 <= i < s.len() && #[trigger] s[i].target == t
}

/// No two tasks of `s` share a target.
pub open spec fn distinct_targets(s: Seq<Task>) -> bool {
    forall|i: int, j: int|
        0 <= i < s.len() && 0 <= j < s.len() && i != j ==> #[trigger] s[i].target
            != #[trigger] s[j].target
}

/// The three stages of the queue as sequences of tasks.
pub ghost struct QueueModel {
    pub pending: Seq<Task>,
    pub in_progress: Seq<Task>,
    pub complete: Seq<Task>,
}

impl QueueModel {
    /// Every target has at most one task, in at most one stage.
    pub open spec fn wf(self) -> bool {
        &&& distinct_targets(self.pending)
        &&& distinct_targets(self.in_progress)
        &&& distinct_targets(self.complete)
        &&& forall|t: Target| #[trigger] self.in_one_stage(t)
    }

    /// No two stages both hold a task for `t`.
    pub open spec fn in_one_stage(self, t: Target) -> bool {
        &&& !(holds(self.pending, t) && holds(self.in_progress, t))
        &&& !(holds(self.pending, t) && holds(self.complete, t))
        &&& !(holds(self.in_progress, t) && holds(self.complete, t))
    }

    pub open spec fn stage(self, t: Target) -> Stage {
        if holds(self.complete, t) {
            Stage::Complete
        } else if holds(self.in_progress, t) {
            Stage::InProgress
        } else if holds(self.pending, t) {
            Stage::Pending
        } else {
            Stage::Unknown
        }
    }
}

/// The shared build state: tasks waiting (first in, first out), the task being
/// built, and the finished ones.
pub struct TaskQueue {
    pending: Vec<Task>,
    in_progress: Vec<Task>,
    complete: Vec<Task>,
}

impl View for TaskQueue {
    type V = QueueModel;

    closed spec fn view(&self) -> QueueModel {
        QueueModel {
            pending: self.pending@,
            in_progress: self.in_progress@,
            complete: self.complete@,
        }
    }
}

/// Index of the task for `t` in `list`, if there is one.
pub fn position(list: &Vec<Task>, t: Target) -> (r: Option<usize>)
    ensures
        r matches Some(i) ==> i < list@.len() && list@[i as int].target == t,
        r is None <==> !holds(list@, t),
{
    let mut i: usize = 0;
    while i < list.len()
        invariant
            i <= list@.len(),
            forall|j: int| 0 <= j < i ==> list@[j].target != t,
        decreases list@.len() - i,
    {
        if list[i].target == t {
            return Some(i);
        }
        i = i + 1;
    }
    None
}

/// The first task of `list` whose target is named `system`, if any.
pub fn contains<'a>(list: &'a [Task], system: &str) -> (r: Option<&'a Task>)
    ensures
        r matches Some(k) ==> exists|i: int|
            0 <= i < list@.len() && list@[i] == *k && target_name(k.target) == system@
                && forall|j: int| 0 <= j < i ==> target_name(#[trigger] list@[j].target) != system@,
        r is None <==> forall|i: int|
            0 <= i < list@.len() ==> target_name(#[trigger] list@[i].target) != system@,
{
    let mut i: usize = 0;
    while i < list.len()
        invariant
            i <= list@.len(),
            forall|j: int| 0 <= j < i ==> target_name(#[trigger] list@[j].target) != system@,
        decreases list@.len() - i,
    {
        if str_equal(list[i].target.name(), system) {
            return Some(&list[i]);
        }
        i = i + 1;
    }
    None
}

/// Number of tasks of `s` for `t`.
pub open spec fn count_for(s: Seq<Task>, t: Target) -> nat
    decreases s.len(),
{
    if s.len() == 0 {
        0
    } else {
        count_for(s.drop_last(), t) + if s.last().target == t {
            1nat
        } else {
            0nat
        }
    }
}

impl QueueModel {
    /// Number of tasks for `t` over all three stages.
    pub open spec fn occurrences(self, t: Target) -> nat {
        count_for(self.pending, t) + count_for(self.in_progress, t) + count_for(self.complete, t)
    }

    /// `t` has moved to stage `to`; every other target stays where it was.
    pub open spec fn moved(self, next: QueueModel, t: Target, to: Stage) -> bool {
        &&& next.stage(t) == to
        &&& forall|u: Target| u != t ==> #[trigger] next.stage(u) == self.stage(u)
    }
}

proof fn lemma_count_distinct(s: Seq<Task>, t: Target)
    requires
        distinct_targets(s),
    ensures
        count_for(s, t) == if holds(s, t) {
            1nat
        } else {
            0nat
        },
    decreases s.len(),
{
    if s.len() > 0 {
        let d = s.drop_last();
        assert(distinct_targets(d)) by {
            assert forall|i: int, j: int|
                0 <= i < d.len() && 0 <= j < d.len() && i != j implies #[trigger] d[i].target
                != #[trigger] d[j].target by {
                assert(d[i] == s[i] && d[j] == s[j]);
            }
        }
        lemma_count_distinct(d, t);
        if holds(d, t) {
            let i = choose|i: int| 0 <= i < d.len() && #[trigger] d[i].target == t;
            assert(s[i] == d[i]);
            assert(s[s.len() - 1] == s.last());
            assert(holds(s, t));
        }
        if s.last().target == t {
            assert(s[s.len() - 1].target == t);
            assert(holds(s, t));
            if holds(d, t) {
                let i = choose|i: int| 0 <= i < d.len() && #[trigger] d[i].target == t;
                assert(s[i] == d[i]);
                assert(s[i].target == s[s.len() - 1].target);
            }
        }
        if holds(s, t) && s.last().target != t {
            let i = choose|i: int| 0 <= i < s.len() && #[trigger] s[i].target == t;
            assert(i != s.len() - 1);
            assert(d[i] == s[i]);
        }
    }
}

proof fn lemma_remove(s: Seq<Task>, i: int)
    requires
        distinct_targets(s),
        0 <= i < s.len(),
    ensures
        distinct_targets(s.remove(i)),
        forall|t: Target| holds(s.remove(i), t) <==> (holds(s, t) && t != s[i].target),
{
    let r = s.remove(i);
    assert forall|j: int| 0 <= j < r.len() implies #[trigger] r[j] == if j < i {
        s[j]
    } else {
        s[j + 1]
    } by {}
    assert forall|a: int, b: int|
        0 <= a < r.len() && 0 <= b < r.len() && a != b implies #[trigger] r[a].target
        != #[trigger] r[b].target by {
        let sa = if a < i { a } else { a + 1 };
        let sb = if b < i { b } else { b + 1 };
        assert(r[a] == s[sa] && r[b] == s[sb]);
    }
    assert forall|t: Target| holds(r, t) <==> (holds(s, t) && t != s[i].target) by {
        if holds(r, t) {
            let j = choose|j: int| 0 <= j < r.len() && #[trigger] r[j].target == t;
            let sj = if j < i { j } else { j + 1 };
            assert(r[j] == s[sj]);
            assert(s[sj].target == t);
        }
        if holds(s, t) && t != s[i].target {
            let j = choose|j: int| 0 <= j < s.len() && #[trigger] s[j].target == t;
            if j < i {
                assert(r[j] == s[j]);
            } else {
                assert(j != i);
                assert(r[j - 1] == s[j]);
            }
        }
    }
}

proof fn lemma_push(s: Seq<Task>, k: Task)
    requires
        distinct_targets(s),
        !holds(s, k.target),
    ensures
        distinct_targets(s.push(k)),
        forall|t: Target| holds(s.push(k), t) <==> (holds(s, t) || t == k.target),
{
    let r = s.push(k);
    assert(r[s.len() as int] == k);
    assert forall|a: int, b: int|
        0 <= a < r.len() && 0 <= b < r.len() && a != b implies #[trigger] r[a].target
        != #[trigger] r[b].target by {
        if a < s.len() && b < s.len() {
            assert(r[a] == s[a] && r[b] == s[b]);
        } else if a < s.len() {
            assert(r[a] == s[a]);
        } else if b < s.len() {
            assert(r[b] == s[b]);
        }
    }
    assert forall|t: Target| holds(r, t) <==> (holds(s, t) || t == k.target) by {
        if holds(r, t) {
            let j = choose|j: int| 0 <= j < r.len() && #[trigger] r[j].target == t;
            if j < s.len() {
                assert(r[j] == s[j]);
            }
        }
        if holds(s, t) {
            let j = choose|j: int| 0 <= j < s.len() && #[trigger] s[j].target == t;
            assert(r[j] == s[j]);
        }
    }
}

/// In a well-formed queue a target has exactly one task, in exactly one
/// stage, once the queue knows it, and no task otherwise.
pub proof fn lemma_single_stage(m: QueueModel, t: Target)
    requires
        m.wf(),
    ensures
        m.stage(t) == Stage::Unknown <==> m.occurrences(t) == 0,
        m.stage(t) != Stage::Unknown <==> m.occurrences(t) == 1,
        m.stage(t) == Stage::Pending <==> count_for(m.pending, t) == 1,
        m.stage(t) == Stage::InProgress <==> count_for(m.in_progress, t) == 1,
        m.stage(t) == Stage::Complete <==> count_for(m.complete, t) == 1,
{
    lemma_count_distinct(m.pending, t);
    lemma_count_distinct(m.in_progress, t);
    lemma_count_distinct(m.complete, t);
    assert(m.in_one_stage(t));
}

/// One call on the queue, for stating what holds over sequences of calls.
pub ghost enum QueueOp {
    Enqueue(Target),
    DequeueNext,
    MarkInProgress(Target),
    MarkComplete(Target),
}

/// `n` is a queue that the call `op` can leave behind on `m`.
#[verifier::opaque]
pub open spec fn queue_step(m: QueueModel, op: QueueOp, n: QueueModel) -> bool {
    &&& n.wf()
    &&& match op {
        QueueOp::Enqueue(t) => if m.stage(t) == Stage::Pending || m.stage(t) == Stage::InProgress {
            n == m
        } else {
            m.moved(n, t, Stage::Pending)
        },
        QueueOp::DequeueNext => if m.pending.len() == 0 {
            n == m
        } else {
            m.moved(n, m.pending[0].target, Stage::InProgress)
        },
        QueueOp::MarkInProgress(t) => if m.stage(t) == Stage::Pending {
            m.moved(n, t, Stage::InProgress)
        } else {
            n == m
        },
        QueueOp::MarkComplete(t) => if m.stage(t) == Stage::InProgress {
            m.moved(n, t, Stage::Complete)
        } else {
            n == m
        },
    }
}

/// Some call of `ops` enqueues a task for `t`.
pub open spec fn enqueues(ops: Seq<QueueOp>, t: Target) -> bool {
    exists|k: int| 0 <= k < ops.len() && #[trigger] ops[k] == QueueOp::Enqueue(t)
}

proof fn lemma_sequence_prefix(ms: Seq<QueueModel>, ops: Seq<QueueOp>, t: Target, k: int)
    requires
        ms.len() == ops.len() + 1,
        ms[0].wf(),
        forall|u: Target| #[trigger] ms[0].stage(u) == Stage::Unknown,
        forall|i: int| 0 <= i < ops.len() ==> queue_step(ms[i], #[trigger] ops[i], ms[i + 1]),
        0 <= k < ms.len(),
    ensures
        ms[k].wf(),
        ms[k].stage(t) == Stage::Unknown <==> !enqueues(ops.subrange(0, k), t),
    decreases k,
{
    reveal(queue_step);
    if k > 0 {
        lemma_sequence_prefix(ms, ops, t, k - 1);
        let m = ms[k - 1];
        let n = ms[k];
        let op = ops[k - 1];
        assert(queue_step(m, op, n));
        let pre = ops.subrange(0, k - 1);
        let cur = ops.subrange(0, k);
        assert(cur =~= pre.push(op));
        assert(enqueues(cur, t) <==> (enqueues(pre, t) || op == QueueOp::Enqueue(t))) by {
            if enqueues(pre, t) {
                let j = choose|j: int| 0 <= j < pre.len() && #[trigger] pre[j] == QueueOp::Enqueue(t);
                assert(cur[j] == pre[j]);
            }
            if op == QueueOp::Enqueue(t) {
                assert(cur[k - 1] == op);
            }
            if enqueues(cur, t) {
                let j = choose|j: int| 0 <= j < cur.len() && #[trigger] cur[j] == QueueOp::Enqueue(t);
                if j < k - 1 {
                    assert(pre[j] == cur[j]);
                }
            }
        }
        match op {
            QueueOp::DequeueNext => {
                if m.pending.len() > 0 {
                    assert(m.pending[0].target == m.pending[0].target);
                    assert(holds(m.pending, m.pending[0].target));
                }
            },
            _ => {},
        }
    }
}

/// Over any sequence of calls on a new queue, each target's task stands in
/// exactly one stage once some call has enqueued it, and in none before.
pub proof fn lemma_any_call_sequence(ms: Seq<QueueModel>, ops: Seq<QueueOp>, t: Target, k: int)
    requires
        ms.len() == ops.len() + 1,
        ms[0].wf(),
        forall|u: Target| #[trigger] ms[0].stage(u) == Stage::Unknown,
        forall|i: int| 0 <= i < ops.len() ==> queue_step(ms[i], #[trigger] ops[i], ms[i + 1]),
        0 <= k < ms.len(),
    ensures
        ms[k].wf(),
        ms[k].occurrences(t) == if enqueues(ops.subrange(0, k), t) {
            1nat
        } else {
            0nat
        },
{
    lemma_sequence_prefix(ms, ops, t, k);
    lemma_single_stage(ms[k], t);
}

impl TaskQueue {
    pub fn new() -> (r: TaskQueue)
        ensures
            r@.wf(),
            r@.pending.len() == 0,
            r@.in_progress.len() == 0,
            r@.complete.len() == 0,
            forall|t: Target| #[trigger] r@.stage(t) == Stage::Unknown,
    {
        TaskQueue { pending: Vec::new(), in_progress: Vec::new(), complete: Vec::new() }
    }

    /// The stage in which the task for `t` stands.
    pub fn find(&self, t: Target) -> (r: Stage)
        ensures
            r == self@.stage(t),
    {
        if position(&self.complete, t).is_some() {
            Stage::Complete
        } else if position(&self.in_progress, t).is_some() {
            Stage::InProgress
        } else if position(&self.pending, t).is_some() {
            Stage::Pending
        } else {
            Stage::Unknown
        }
    }

    /// The tasks waiting to be built, oldest first.
    pub fn pending_tasks(&self) -> (r: &Vec<Task>)
        ensures
            r@ == self@.pending,
    {
        &self.pending
    }

    /// The tasks being built.
    pub fn in_progress_tasks(&self) -> (r: &Vec<Task>)
        ensures
            r@ == self@.in_progress,
    {
        &self.in_progress
    }

    /// The finished tasks.
    pub fn complete_tasks(&self) -> (r: &Vec<Task>)
        ensures
            r@ == self@.complete,
    {
        &self.complete
    }

    /// Queues a task at the back of `pending`. A target that is already
    /// waiting or being built is left as it is, and `false` is returned; a
    /// finished task for the same target is superseded by the new one.
    pub fn enqueue(&mut self, task: Task) -> (r: bool)
        requires
            old(self)@.wf(),
        ensures
            final(self)@.wf(),
            r == (old(self)@.stage(task.target) == Stage::Complete || old(self)@.stage(task.target)
                == Stage::Unknown),
            r ==> old(self)@.moved(final(self)@, task.target, Stage::Pending),
            r ==> final(self)@.pending == old(self)@.pending.push(task),
            r ==> final(self)@.in_progress == old(self)@.in_progress,
            r && old(self)@.stage(task.target) == Stage::Unknown ==> final(self)@.complete == old(self)@.complete,
            r && old(self)@.stage(task.target) == Stage::Complete ==> exists|i: int|
                0 <= i < old(self)@.complete.len() && old(self)@.complete[i].target == task.target
                    && final(self)@.complete == old(self)@.complete.remove(i),
            !r ==> final(self)@ == old(self)@,
            queue_step(old(self)@, QueueOp::Enqueue(task.target), final(self)@),
    {
        proof {
            reveal(queue_step);
        }
        let t = task.target;
        proof {
            assert(self@.in_one_stage(t));
        }
        if position(&self.pending, t).is_some() || position(&self.in_progress, t).is_some() {
            return false;
        }
        let ghost prev = self@;
        proof {
            lemma_push(self.pending@, task);
        }
        match position(&self.complete, t) {
            Some(i) => {
                proof {
                    lemma_remove(self.complete@, i as int);
                }
                self.complete.remove(i);
            },
            None => {},
        }
        self.pending.push(task);
        assert forall|u: Target| #[trigger] self@.in_one_stage(u) by {
            assert(prev.in_one_stage(u));
        }
        assert forall|u: Target| u != t implies #[trigger] self@.stage(u) == prev.stage(u) by {}
        true
    }

    /// Takes the task at the head of `pending` and marks it in progress.
    /// Returns `None` at once when nothing is waiting.
    pub fn dequeue_next(&mut self) -> (r: Option<Task>)
        requires
            old(self)@.wf(),
        ensures
            final(self)@.wf(),
            old(self)@.pending.len() == 0 <==> r is None,
            r is None ==> final(self)@ == old(self)@,
            r matches Some(k) ==> {
                &&& k == old(self)@.pending[0]
                &&& final(self)@.pending == old(self)@.pending.subrange(1, old(self)@.pending.len() as int)
                &&& final(self)@.in_progress == old(self)@.in_progress.push(k)
                &&& final(self)@.complete == old(self)@.complete
                &&& old(self)@.moved(final(self)@, k.target, Stage::InProgress)
            },
            queue_step(old(self)@, QueueOp::DequeueNext, final(self)@),
    {
        proof {
            reveal(queue_step);
        }
        if self.pending.len() == 0 {
            return None;
        }
        let ghost prev = self@;
        proof {
            lemma_remove(self.pending@, 0);
            assert(self.pending@[0].target == self.pending@[0].target);
            assert(holds(self.pending@, self.pending@[0].target));
            assert(self@.in_one_stage(self.pending@[0].target));
            lemma_push(self.in_progress@, self.pending@[0]);
        }
        let k = self.pending.remove(0);
        assert(prev.pending.remove(0) =~= prev.pending.subrange(1, prev.pending.len() as int));
        self.in_progress.push(k);
        assert forall|u: Target| #[trigger] self@.in_one_stage(u) by {
            assert(prev.in_one_stage(u));
        }
        assert forall|u: Target| u != k.target implies #[trigger] self@.stage(u) == prev.stage(u) by {}
        Some(k)
    }

    /// Moves the waiting task for `t` into `in_progress`; `false` when `t`
    /// is not waiting.
    pub fn mark_in_progress(&mut self, t: Target) -> (r: bool)
        requires
            old(self)@.wf(),
        ensures
            final(self)@.wf(),
            r == (old(self)@.stage(t) == Stage::Pending),
            r ==> old(self)@.moved(final(self)@, t, Stage::InProgress),
            r ==> final(self)@.complete == old(self)@.complete,
            r ==> exists|i: int|
                0 <= i < old(self)@.pending.len() && old(self)@.pending[i].target == t
                    && final(self)@.pending == old(self)@.pending.remove(i)
                    && final(self)@.in_progress == old(self)@.in_progress.push(old(self)@.pending[i]),
            !r ==> final(self)@ == old(self)@,
            queue_step(old(self)@, QueueOp::MarkInProgress(t), final(self)@),
    {
        proof {
            reveal(queue_step);
        }
        proof {
            assert(self@.in_one_stage(t));
        }
        match position(&self.pending, t) {
            None => false,
            Some(i) => {
                let ghost prev = self@;
                proof {
                    lemma_remove(self.pending@, i as int);
                    lemma_push(self.in_progress@, self.pending@[i as int]);
                }
                let k = self.pending.remove(i);
                self.in_progress.push(k);
                assert forall|u: Target| #[trigger] self@.in_one_stage(u) by {
                    assert(prev.in_one_stage(u));
                }
                assert forall|u: Target| u != t implies #[trigger] self@.stage(u) == prev.stage(u) by {}
                true
            },
        }
    }

    /// Moves the task for `t` from `in_progress` to `complete`; `false` when
    /// `t` is not being built.
    pub fn mark_complete(&mut self, t: Target) -> (r: bool)
        requires
            old(self)@.wf(),
        ensures
            final(self)@.wf(),
            r == (old(self)@.stage(t) == Stage::InProgress),
            r ==> old(self)@.moved(final(self)@, t, Stage::Complete),
            r ==> final(self)@.pending == old(self)@.pending,
            r ==> exists|i: int|
                0 <= i < old(self)@.in_progress.len() && old(self)@.in_progress[i].target == t
                    && final(self)@.in_progress == old(self)@.in_progress.remove(i)
                    && final(self)@.complete == old(self)@.complete.push(old(self)@.in_progress[i]),
            !r ==> final(self)@ == old(self)@,
            queue_step(old(self)@, QueueOp::MarkComplete(t), final(self)@),
    {
        proof {
            reveal(queue_step);
        }
        if position(&self.complete, t).is_some() {
            return false;
        }
        proof {
            assert(self@.in_one_stage(t));
        }
        match position(&self.in_progress, t) {
            None => false,
            Some(i) => {
                let ghost prev = self@;
                proof {
                    lemma_remove(self.in_progress@, i as int);
                    lemma_push(self.complete@, self.in_progress@[i as int]);
                }
                let k = self.in_progress.remove(i);
                self.complete.push(k);
                assert forall|u: Target| #[trigger] self@.in_one_stage(u) by {
                    assert(prev.in_one_stage(u));
                }
                assert forall|u: Target| u != t implies #[trigger] self@.stage(u) == prev.stage(u) by {}
                true
            },
        }
    }
}

} // verus!
