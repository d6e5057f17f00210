use vstd::prelude::*;

use crate::entry::{Entry, join, trim_slash, trimmed};
use crate::target::{Target, input_dir_of};

verus! {

/// One file-system step of laying out a snapshot.
#[derive(Debug)]
pub enum FsOp {
    /// Remove the directory and everything under it, then create it empty.
    ClearDir { path: String },
    /// Create the directory, with any missing parents.
    CreateDir { path: String },
    /// Write the file, creating missing parent directories.
    WriteFile { path: String, data: Vec<u8> },
}

pub ghost enum FsStep {
    ClearDir(Seq<char>),
    CreateDir(Seq<char>),
    WriteFile(Seq<char>, Seq<u8>),
}

impl View for FsOp {
    type V = FsStep;

    open spec fn view(&self) -> FsStep {
        match self {
            FsOp::ClearDir { path } => FsStep::ClearDir(path@),
            FsOp::CreateDir { path } => FsStep::CreateDir(path@),
            FsOp::WriteFile { path, data } => FsStep::WriteFile(path@, data@),
        }
    }
}

/// Where one tree entry lands under `root`: a file is written with its
/// content at its relative path, a directory is created even if empty.
pub open spec fn step_for(root: Seq<char>, e: Entry) -> FsStep {
    match e {
        Entry::File { path, data } => FsStep::WriteFile(root + seq!['/'] + path@, data@),
        Entry::Dir { path } => FsStep::CreateDir(root + seq!['/'] + trim_slash(path@)),
    }
}

/// The steps that replace target `t`'s input directory with `tree`: clear
/// it first, then lay out every entry in order.
pub open spec fn snapshot_steps(t: Target, tree: Seq<Entry>) -> Seq<FsStep> {
    seq![FsStep::ClearDir(input_dir_of(t))] + tree.map_values(
        |e: Entry| step_for(input_dir_of(t), e),
    )
}

/// What a list of operations does, step by step.
pub open spec fn steps_of(ops: Seq<FsOp>) -> Seq<FsStep> {
    ops.map_values(|op: FsOp| op@)
}

fn copy_bytes(v: &Vec<u8>) -> (r: Vec<u8>)
    ensures
        r@ == v@,
{
    let r = v.clone();
    assert(r@ =~= v@);
    r
}

/// The file-system steps that materialize `tree` as target `t`'s input.
pub fn materialize_plan(t: Target, tree: &Vec<Entry>) -> (r: Vec<FsOp>)
    ensures
        steps_of(r@) == snapshot_steps(t, tree@),
{
    let root = t.input_dir();
    let mut ops: Vec<FsOp> = Vec::new();
    ops.push(FsOp::ClearDir { path: String::from_str(root) });
    let mut i: usize = 0;
    while i < tree.len()
        invariant
            i <= tree@.len(),
            root@ == input_dir_of(t),
            ops@.len() == i + 1,
            ops@[0]@ == FsStep::ClearDir(input_dir_of(t)),
            forall|j: int| 0 <= j < i ==> #[trigger] ops@[j + 1]@ == step_for(root@, tree@[j]),
        decreases tree@.len() - i,
    {
        let op = match &tree[i] {
            Entry::File { path, data } => FsOp::WriteFile {
                path: join(root, path.as_str()),
                data: copy_bytes(data),
            },
            Entry::Dir { path } => {
                let rel = trimmed(path.as_str());
                FsOp::CreateDir { path: join(root, rel.as_str()) }
            },
        };
        ops.push(op);
        i = i + 1;
    }
    let ghost want = snapshot_steps(t, tree@);
    assert forall|j: int| 0 <= j < ops@.len() implies #[trigger] steps_of(ops@)[j] == want[j] by {
        if j > 0 {
            assert(ops@[(j - 1) + 1]@ == step_for(root@, tree@[j - 1]));
        }
    }
    assert(steps_of(ops@) =~= want);
    ops
}

} // verus!
