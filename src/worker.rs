use vstd::prelude::*;

use crate::queue::{QueueOp, Stage, Task, TaskQueue, queue_step};
use crate::target::{Target, input_dir_of, target_name};

verus! {

/// One invocation of the build tool.
#[derive(Debug)]
pub struct BuildJob {
    pub task: Task,
    pub args: Vec<String>,
}

/// The build tool's arguments for `t`: the flake option, then the input
/// directory and the target joined by `#`.
pub open spec fn build_args_of(t: Target) -> Seq<Seq<char>> {
    seq!["--flake"@, input_dir_of(t) + seq!['#'] + target_name(t)]
}

pub fn build_args(task: &Task) -> (r: Vec<String>)
    ensures
        r@.map_values(|s: String| s@) == build_args_of(task.target),
{
    proof {
        reveal_strlit("#");
    }
    let flake_ref = String::from_str(task.input_path()).concat("#").concat(task.target.name());
    let ghost fr = flake_ref@;
    assert(fr == input_dir_of(task.target) + seq!['#'] + target_name(task.target));
    let mut r: Vec<String> = Vec::new();
    r.push(String::from_str("--flake"));
    r.push(flake_ref);
    assert(r@[1]@ == fr);
    assert(r@.map_values(|s: String| s@) =~= build_args_of(task.target));
    r
}

/// Takes the next waiting task, if any, marks it in progress and returns
/// the job that builds it. Does not wait: `None` when nothing is waiting.
pub fn next_build(q: &mut TaskQueue) -> (r: Option<BuildJob>)
    requires
        old(q)@.wf(),
    ensures
        final(q)@.wf(),
        old(q)@.pending.len() == 0 <==> r is None,
        r is None ==> final(q)@ == old(q)@,
        r matches Some(j) ==> {
            &&& j.task == old(q)@.pending[0]
            &&& final(q)@.pending == old(q)@.pending.subrange(1, old(q)@.pending.len() as int)
            &&& final(q)@.in_progress == old(q)@.in_progress.push(j.task)
            &&& final(q)@.complete == old(q)@.complete
            &&& old(q)@.moved(final(q)@, j.task.target, Stage::InProgress)
            &&& j.args@.map_values(|s: String| s@) == build_args_of(j.task.target)
        },
{
    match q.dequeue_next() {
        None => None,
        Some(task) => {
            let args = build_args(&task);
            Some(BuildJob { task, args })
        },
    }
}

/// Records that the build tool has returned for `t`: its task is complete,
/// whatever the tool's exit status.
pub fn finish_build(q: &mut TaskQueue, t: Target) -> (r: bool)
    requires
        old(q)@.wf(),
    ensures
        final(q)@.wf(),
        r == (old(q)@.stage(t) == Stage::InProgress),
        r ==> old(q)@.moved(final(q)@, t, Stage::Complete),
        !r ==> final(q)@ == old(q)@,
        queue_step(old(q)@, QueueOp::MarkComplete(t), final(q)@),
{
    q.mark_complete(t)
}

} // verus!
