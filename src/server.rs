use vstd::prelude::*;

use crate::archive::{PackageError, archive_plan, error_text, first_fault, package, packable, zip_bytes};
use crate::entry::Entry;
use crate::queue::{Stage, Task, TaskQueue};
use crate::target::{Target, target_named};

verus! {

pub const STATUS_OK: u16 = 200;

pub const STATUS_NO_CONTENT: u16 = 204;

pub const STATUS_INTERNAL_ERROR: u16 = 500;

/// What the queue says of a requested target.
#[derive(Clone, Copy, Debug, PartialEq, Eq, Structural)]
pub enum Lookup {
    /// Built; its artifact is the task's output directory.
    Ready(Task),
    InProgress,
    Pending,
    /// Not known to the queue, or not a target at all.
    Lost,
}

/// The lookup that the queue model `m` gives for target `t`.
pub open spec fn lookup_of(m: crate::queue::QueueModel, t: Target) -> Lookup {
    match m.stage(t) {
        Stage::Complete => Lookup::Ready(Task { target: t }),
        Stage::InProgress => Lookup::InProgress,
        Stage::Pending => Lookup::Pending,
        Stage::Unknown => Lookup::Lost,
    }
}

/// Classifies the target named `name` by the stage of its task.
pub fn lookup_build(q: &TaskQueue, name: &str) -> (r: Lookup)
    requires
        q@.wf(),
    ensures
        r == match target_named(name@) {
            Some(t) => lookup_of(q@, t),
            None => Lookup::Lost,
        },
{
    match Target::from_name(name) {
        None => Lookup::Lost,
        Some(t) => {
            match q.find(t) {
                Stage::Complete => Lookup::Ready(Task::for_target(t)),
                Stage::InProgress => Lookup::InProgress,
                Stage::Pending => Lookup::Pending,
                Stage::Unknown => Lookup::Lost,
            }
        },
    }
}

/// The status and message of a request that yields no archive.
pub open spec fn refusal(l: Lookup) -> (u16, Seq<char>) {
    match l {
        Lookup::InProgress => (STATUS_NO_CONTENT, "Build In Progress"@),
        Lookup::Pending => (STATUS_NO_CONTENT, "Build Pending"@),
        _ => (STATUS_INTERNAL_ERROR, "Build lost"@),
    }
}

/// Answers a request: for a finished target the archive of `walk` (the walk
/// of its output directory), else the status and message of `refusal`. A
/// walk that cannot be packed gives status 500 with the cause.
pub fn get_build(l: Lookup, walk: &Vec<Entry>) -> (r: Result<Vec<u8>, (u16, String)>)
    ensures
        !(l is Ready) ==> (r matches Err((s, m)) && (s, m@) == refusal(l)),
        l is Ready ==> (r is Ok <==> packable(walk@)),
        l is Ready ==> (r matches Ok(b) ==> b@ == zip_bytes(archive_plan(walk@))),
        l is Ready ==> (r matches Err((s, m)) ==> s == STATUS_INTERNAL_ERROR
            && exists|e: PackageError| first_fault(walk@, e) && m@ == "Failed to write archive: "@ + error_text(e)),
{
    match l {
        Lookup::Ready(_) => match package(walk) {
            Ok(b) => Ok(b),
            Err(e) => {
                let m = String::from_str("Failed to write archive: ").concat(e.describe());
                Err((STATUS_INTERNAL_ERROR, m))
            },
        },
        Lookup::InProgress => Err((STATUS_NO_CONTENT, String::from_str("Build In Progress"))),
        Lookup::Pending => Err((STATUS_NO_CONTENT, String::from_str("Build Pending"))),
        Lookup::Lost => Err((STATUS_INTERNAL_ERROR, String::from_str("Build lost"))),
    }
}

} // verus!
