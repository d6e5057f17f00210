use vstd::prelude::*;

use crate::entry::Entry;
use crate::materialize::{FsOp, materialize_plan, snapshot_steps, steps_of};
use crate::queue::{QueueModel, QueueOp, Stage, TaskQueue, queue_step};
use crate::target::{Target, all_targets};

verus! {

/// Number of new upstream commits that must be exceeded before a rebuild.
pub const REBUILD_THRESHOLD: u64 = 10;

#[derive(Clone, Copy, Debug, PartialEq, Eq, Structural)]
pub enum PollPhase {
    /// Asking upstream for the commits since the checkpoint.
    Listing,
    /// Enough change was seen at `polled_at`; fetching the tree.
    Fetching { polled_at: i64 },
    /// An upstream query failed; the poller has ended.
    Stopped,
}

/// What the caller learned from the upstream service.
#[derive(Clone, Copy, Debug, PartialEq, Eq, Structural)]
pub enum PollEvent {
    /// `count` commits were listed by a query issued at time `polled_at`.
    Commits { count: u64, polled_at: i64 },
    QueryFailed,
    TreeFetched,
    FetchFailed,
}

/// What the caller is to do next.
#[derive(Clone, Copy, Debug, PartialEq, Eq, Structural)]
pub enum PollAction {
    /// List the upstream commits whose time is at or after `since`.
    ListCommits { since: i64 },
    /// Fetch a full snapshot of the upstream tree.
    FetchTree,
    /// Materialize the fetched tree for each target and enqueue their tasks.
    Rebuild,
    /// End the polling activity.
    Stop,
}

/// The change poller's state: the checkpoint (a time stamp, in the caller's
/// unit), the threshold and the phase.
#[derive(Clone, Copy, Debug, PartialEq, Eq, Structural)]
pub struct Poller {
    pub checkpoint: i64,
    pub threshold: u64,
    pub phase: PollPhase,
}

/// The action that the poller's phase asks for.
pub open spec fn action_of(p: Poller) -> PollAction {
    match p.phase {
        PollPhase::Listing => PollAction::ListCommits { since: p.checkpoint },
        PollPhase::Fetching { .. } => PollAction::FetchTree,
        PollPhase::Stopped => PollAction::Stop,
    }
}

/// The poller after `ev`, and the action it then asks for. A failure stops
/// it; more than `threshold` commits lead to a fetch; a fetched tree advances
/// the checkpoint to the time of the poll that saw the commits and asks for
/// a rebuild. An event that does not fit the phase changes nothing.
pub open spec fn poll_next(p: Poller, ev: PollEvent) -> (Poller, PollAction) {
    match (p.phase, ev) {
        (PollPhase::Listing, PollEvent::Commits { count, polled_at }) => if count > p.threshold {
            (Poller { phase: PollPhase::Fetching { polled_at }, ..p }, PollAction::FetchTree)
        } else {
            (p, action_of(p))
        },
        (PollPhase::Listing, PollEvent::QueryFailed) => (
            Poller { phase: PollPhase::Stopped, ..p },
            PollAction::Stop,
        ),
        (PollPhase::Fetching { polled_at }, PollEvent::TreeFetched) => (
            Poller { checkpoint: polled_at, phase: PollPhase::Listing, ..p },
            PollAction::Rebuild,
        ),
        (PollPhase::Fetching { .. }, PollEvent::FetchFailed) => (
            Poller { phase: PollPhase::Stopped, ..p },
            PollAction::Stop,
        ),
        _ => (p, action_of(p)),
    }
}

impl Poller {
    /// A poller that counts commits from `start` on, with the default threshold.
    pub fn new(start: i64) -> (r: Poller)
        ensures
            r == (Poller { checkpoint: start, threshold: REBUILD_THRESHOLD, phase: PollPhase::Listing }),
    {
        Poller { checkpoint: start, threshold: REBUILD_THRESHOLD, phase: PollPhase::Listing }
    }

    pub fn with_threshold(start: i64, threshold: u64) -> (r: Poller)
        ensures
            r == (Poller { checkpoint: start, threshold, phase: PollPhase::Listing }),
    {
        Poller { checkpoint: start, threshold, phase: PollPhase::Listing }
    }

    pub fn next_action(&self) -> (r: PollAction)
        ensures
            r == action_of(*self),
    {
        match self.phase {
            PollPhase::Listing => PollAction::ListCommits { since: self.checkpoint },
            PollPhase::Fetching { .. } => PollAction::FetchTree,
            PollPhase::Stopped => PollAction::Stop,
        }
    }

    /// Advances the poller by one event from upstream.
    pub fn step(&mut self, ev: PollEvent) -> (r: PollAction)
        ensures
            (*final(self), r) == poll_next(*old(self), ev),
    {
        match (self.phase, ev) {
            (PollPhase::Listing, PollEvent::Commits { count, polled_at }) => {
                if count > self.threshold {
                    self.phase = PollPhase::Fetching { polled_at };
                    PollAction::FetchTree
                } else {
                    self.next_action()
                }
            },
            (PollPhase::Listing, PollEvent::QueryFailed) => {
                self.phase = PollPhase::Stopped;
                PollAction::Stop
            },
            (PollPhase::Fetching { polled_at }, PollEvent::TreeFetched) => {
                self.checkpoint = polled_at;
                self.phase = PollPhase::Listing;
                PollAction::Rebuild
            },
            (PollPhase::Fetching { .. }, PollEvent::FetchFailed) => {
                self.phase = PollPhase::Stopped;
                PollAction::Stop
            },
            _ => self.next_action(),
        }
    }
}

/// The snapshot steps for one target of a rebuild.
#[derive(Debug)]
pub struct Rebuild {
    pub target: Target,
    pub ops: Vec<FsOp>,
}

/// A rebuild covers a target unless its task is being built: its input
/// must not be wiped under a running build.
pub open spec fn rebuildable(m: crate::queue::QueueModel, t: Target) -> bool {
    m.stage(t) != Stage::InProgress
}

/// The targets that a rebuild covers, in the fixed order of all targets.
pub open spec fn rebuild_targets(m: crate::queue::QueueModel) -> Seq<Target> {
    all_targets().filter(|t: Target| rebuildable(m, t))
}

pub open spec fn rebuild_target_seq(r: Seq<Rebuild>) -> Seq<Target> {
    r.map_values(|b: Rebuild| b.target)
}

/// The poller after a poll that sees `count` commits and then a fetched
/// tree, with the two actions it asks for on the way.
pub open spec fn poll_cycle(p: Poller, count: u64, polled_at: i64) -> (Poller, PollAction, PollAction) {
    let (q, a) = poll_next(p, PollEvent::Commits { count, polled_at });
    let (r, b) = poll_next(q, PollEvent::TreeFetched);
    (r, a, b)
}

/// On a new queue, a poll that sees more than `threshold` commits, then a
/// fetched tree, asks for a rebuild that covers every target; enqueuing the
/// rebuilt targets in that order leaves each of them pending.
pub proof fn lemma_poll_cycle_queues_every_target(
    p: Poller,
    count: u64,
    polled_at: i64,
    ms: Seq<QueueModel>,
)
    requires
        p.phase == PollPhase::Listing,
        count > p.threshold,
        ms.len() == 4,
        ms[0].wf(),
        forall|t: Target| #[trigger] ms[0].stage(t) == Stage::Unknown,
        queue_step(ms[0], QueueOp::Enqueue(rebuild_targets(ms[0])[0]), ms[1]),
        queue_step(ms[1], QueueOp::Enqueue(rebuild_targets(ms[0])[1]), ms[2]),
        queue_step(ms[2], QueueOp::Enqueue(rebuild_targets(ms[0])[2]), ms[3]),
    ensures
        poll_cycle(p, count, polled_at) == (
            Poller { checkpoint: polled_at, phase: PollPhase::Listing, ..p },
            PollAction::FetchTree,
            PollAction::Rebuild,
        ),
        rebuild_targets(ms[0]) == all_targets(),
        forall|t: Target| #[trigger] ms[3].stage(t) == Stage::Pending,
{
    lemma_rebuild_covers_all(ms[0]);
    let r = rebuild_targets(ms[0]);
    assert(r[0] == Target::Alurya);
    assert(r[1] == Target::Gilarabrywn);
    assert(r[2] == Target::Esrahaddon);
    lemma_three_enqueues(ms[0], ms[1], ms[2], ms[3]);
}

proof fn lemma_three_enqueues(m0: QueueModel, m1: QueueModel, m2: QueueModel, m3: QueueModel)
    requires
        forall|t: Target| #[trigger] m0.stage(t) == Stage::Unknown,
        queue_step(m0, QueueOp::Enqueue(Target::Alurya), m1),
        queue_step(m1, QueueOp::Enqueue(Target::Gilarabrywn), m2),
        queue_step(m2, QueueOp::Enqueue(Target::Esrahaddon), m3),
    ensures
        forall|t: Target| #[trigger] m3.stage(t) == Stage::Pending,
{
    assert(m0.stage(Target::Alurya) == Stage::Unknown);
    lemma_enqueue_new(m0, Target::Alurya, m1);
    assert(m1.stage(Target::Gilarabrywn) == m0.stage(Target::Gilarabrywn));
    lemma_enqueue_new(m1, Target::Gilarabrywn, m2);
    assert(m2.stage(Target::Esrahaddon) == m1.stage(Target::Esrahaddon));
    assert(m1.stage(Target::Esrahaddon) == m0.stage(Target::Esrahaddon));
    lemma_enqueue_new(m2, Target::Esrahaddon, m3);
    assert forall|t: Target| #[trigger] m3.stage(t) == Stage::Pending by {
        match t {
            Target::Alurya => {
                assert(m3.stage(t) == m2.stage(t));
                assert(m2.stage(t) == m1.stage(t));
            },
            Target::Gilarabrywn => {
                assert(m3.stage(t) == m2.stage(t));
            },
            Target::Esrahaddon => {},
        }
    }
}

proof fn lemma_rebuild_covers_all(m: QueueModel)
    requires
        forall|t: Target| #[trigger] m.stage(t) == Stage::Unknown,
    ensures
        rebuild_targets(m) == all_targets(),
{
    reveal_with_fuel(Seq::filter, 4);
    assert(rebuildable(m, Target::Alurya));
    assert(rebuildable(m, Target::Gilarabrywn));
    assert(rebuildable(m, Target::Esrahaddon));
    assert(all_targets().drop_last().drop_last().drop_last() =~= Seq::<Target>::empty());
    assert(all_targets().drop_last().drop_last() =~= seq![Target::Alurya]);
    assert(all_targets().drop_last() =~= seq![Target::Alurya, Target::Gilarabrywn]);
    assert(rebuild_targets(m) =~= all_targets());
}

proof fn lemma_enqueue_new(m: QueueModel, t: Target, n: QueueModel)
    requires
        queue_step(m, QueueOp::Enqueue(t), n),
        m.stage(t) == Stage::Unknown || m.stage(t) == Stage::Complete,
    ensures
        n.stage(t) == Stage::Pending,
        forall|u: Target| u != t ==> #[trigger] n.stage(u) == m.stage(u),
{
    reveal(queue_step);
}

/// For every target not being built, the steps that lay out `tree` as its
/// input. The caller performs them, then enqueues the target's task.
pub fn plan_rebuild(q: &TaskQueue, tree: &Vec<Entry>) -> (r: Vec<Rebuild>)
    ensures
        rebuild_target_seq(r@) == rebuild_targets(q@),
        forall|i: int| 0 <= i < r@.len() ==> steps_of(#[trigger] r@[i].ops@) == snapshot_steps(r@[i].target, tree@),
{
    let targets = Target::all();
    let mut r: Vec<Rebuild> = Vec::new();
    let mut i: usize = 0;
    while i < targets.len()
        invariant
            targets@ == all_targets(),
            i <= targets@.len(),
            rebuild_target_seq(r@) == targets@.subrange(0, i as int).filter(|t: Target| rebuildable(q@, t)),
            forall|j: int| 0 <= j < r@.len() ==> steps_of(#[trigger] r@[j].ops@) == snapshot_steps(r@[j].target, tree@),
        decreases targets@.len() - i,
    {
        let t = targets[i];
        let ghost pre = targets@.subrange(0, i as int);
        let ghost next = targets@.subrange(0, i + 1);
        assert(next.drop_last() =~= pre);
        assert(next.last() == t);
        reveal(Seq::filter);
        if q.find(t) != Stage::InProgress {
            let ops = materialize_plan(t, tree);
            let ghost before = r@;
            r.push(Rebuild { target: t, ops });
            assert(rebuild_target_seq(r@) =~= rebuild_target_seq(before).push(t));
        }
        i = i + 1;
    }
    assert(targets@.subrange(0, targets@.len() as int) =~= targets@);
    r
}

} // verus!
