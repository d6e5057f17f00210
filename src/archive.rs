use vstd::prelude::*;

use crate::entry::{Entry, with_slash, slashed};
use crate::text::str_equal;
use std::io::{Cursor, Write};
use zip::ZipWriter;
use zip::result::ZipError;

verus! {

/// A zip writer over an in-memory buffer, held as one opaque value.
#[verifier::external_body]
pub struct ArchiveWriter {
    inner: ZipWriter<Cursor<Vec<u8>>>,
}

/// zip's error type, carried through unread.
#[verifier::external_type_specification]
#[verifier::external_body]
pub struct ExZipError(ZipError);

/// std's I/O error, carried through unread.
#[verifier::external_type_specification]
#[verifier::external_body]
pub struct ExIoError(std::io::Error);

/// Unix permission bits given to every archive entry.
pub const ENTRY_MODE: u32 = 0o755;

/// zip's code for entries stored as they are.
pub const METHOD_STORED: u16 = 0;

/// zip's code for deflated entries; every file entry is deflated.
pub const METHOD_DEFLATED: u16 = 8;

/// Longest entry name, in characters: its UTF-8 form must fit in 16 bits.
pub const MAX_NAME_CHARS: usize = 16383;

/// Largest file content taken. zip writes entries without the zip64
/// extension, so the deflated size must stay under 4 GiB; deflate may grow
/// content it cannot compress by a few bytes per block, which the margin
/// below 0xFFFF_FFFF covers.
pub const MAX_ENTRY_BYTES: u64 = 0xFF00_0000;

/// An archive entry: its name, whether it is a directory, its compression
/// method code, its permission bits and its content.
pub type EntryModel = (Seq<char>, bool, u16, u32, Seq<u8>);

/// The entries written so far to an in-memory zip writer, in order.
pub uninterp spec fn zip_entries(w: ArchiveWriter) -> Seq<EntryModel>;

/// No call on the writer has failed so far.
pub uninterp spec fn zip_intact(w: ArchiveWriter) -> bool;

/// A file entry is open and takes writes.
pub uninterp spec fn zip_file_open(w: ArchiveWriter) -> bool;

/// The bytes of the zip container that zip writes for `entries`, when no
/// call on the writer has failed.
pub uninterp spec fn zip_bytes(entries: Seq<EntryModel>) -> Seq<u8>;

/// Some entry of `entries` is named `name`.
pub open spec fn has_name(entries: Seq<EntryModel>, name: Seq<char>) -> bool {
    exists|j: int| 0 <= j < entries.len() && #[trigger] entries[j].0 == name
}

/// Every entry's content is within `MAX_ENTRY_BYTES`.
pub open spec fn contents_fit(entries: Seq<EntryModel>) -> bool {
    forall|j: int| 0 <= j < entries.len() ==> (#[trigger] entries[j]).4.len() <= MAX_ENTRY_BYTES
}

/// Relies on `ZipWriter::new`: a writer over an empty buffer starts with no
/// entries and no open file.
#[verifier::external_body]
fn new_writer() -> (r: ArchiveWriter)
    ensures
        zip_entries(r) == Seq::<EntryModel>::empty(),
        zip_intact(r),
        !zip_file_open(r),
{
    ArchiveWriter { inner: ZipWriter::new(Cursor::new(Vec::new())) }
}

/// Relies on `ZipWriter::start_file` (and `CompressionMethod::from_u16` for
/// the method code): the open file, if any, is finished, and a file entry
/// named `name` is appended and opened. It fails on a name already in the
/// archive, or when a finished entry does not fit without zip64; the name's
/// length is bounded because zip stores it in 16 bits and panics beyond.
#[verifier::external_body]
#[allow(deprecated)]
fn start_file(w: &mut ArchiveWriter, name: &str, method: u16, mode: u32) -> (r: Result<(), ZipError>)
    requires
        zip_intact(*old(w)),
        mode <= 0o777,
        method == METHOD_STORED || method == METHOD_DEFLATED,
        name@.len() <= MAX_NAME_CHARS,
    ensures
        !has_name(zip_entries(*old(w)), name@) && contents_fit(zip_entries(*old(w))) ==> r is Ok,
        r is Ok ==> zip_intact(*final(w)) && zip_file_open(*final(w)),
        r is Ok ==> zip_entries(*final(w)) == zip_entries(*old(w)).push(
            (name@, false, method, mode, Seq::<u8>::empty()),
        ),
{
    let options = zip::write::SimpleFileOptions::default()
        .compression_method(zip::CompressionMethod::from_u16(method))
        .unix_permissions(mode);
    w.inner.start_file(name, options)
}

/// Relies on `Write::write_all` of `ZipWriter`: `data` is added to the
/// content of the open file entry. It fails once that content passes
/// 4 GiB, and then drops the entry.
#[verifier::external_body]
fn write_data(w: &mut ArchiveWriter, data: &[u8]) -> (r: Result<(), std::io::Error>)
    requires
        zip_intact(*old(w)),
        zip_file_open(*old(w)),
        zip_entries(*old(w)).len() > 0,
        !zip_entries(*old(w)).last().1,
    ensures
        zip_entries(*old(w)).last().4.len() + data@.len() <= MAX_ENTRY_BYTES ==> r is Ok,
        r is Ok ==> zip_intact(*final(w)) && zip_file_open(*final(w)),
        r is Ok ==> zip_entries(*final(w)) == {
            let e = zip_entries(*old(w));
            let l = e.last();
            e.update(e.len() - 1, (l.0, l.1, l.2, l.3, l.4 + data@))
        },
{
    w.inner.write_all(data)
}

/// Relies on `ZipWriter::add_directory`: the open file, if any, is
/// finished, and a stored directory entry named `name` (which already ends
/// in a separator) is appended. It fails as `start_file` does.
#[verifier::external_body]
fn add_directory(w: &mut ArchiveWriter, name: &str, mode: u32) -> (r: Result<(), ZipError>)
    requires
        zip_intact(*old(w)),
        mode <= 0o777,
        name@.len() > 0,
        name@.last() == '/',
        name@.len() <= MAX_NAME_CHARS,
    ensures
        !has_name(zip_entries(*old(w)), name@) && contents_fit(zip_entries(*old(w))) ==> r is Ok,
        r is Ok ==> zip_intact(*final(w)) && !zip_file_open(*final(w)),
        r is Ok ==> zip_entries(*final(w)) == zip_entries(*old(w)).push(
            (name@, true, METHOD_STORED, mode, Seq::<u8>::empty()),
        ),
{
    let options = zip::write::SimpleFileOptions::default().unix_permissions(mode);
    w.inner.add_directory(name, options)
}

/// Relies on `ZipWriter::finish`: on a writer where no call has failed and
/// every entry fits, it succeeds over an in-memory buffer, and the buffer
/// holds the finished container of the entries written.
#[verifier::external_body]
fn finish(w: ArchiveWriter) -> (r: Result<Vec<u8>, ZipError>)
    requires
        zip_intact(w),
    ensures
        contents_fit(zip_entries(w)) ==> r is Ok,
        r matches Ok(b) ==> b@ == zip_bytes(zip_entries(w)),
{
    w.inner.finish().map(|c| c.into_inner())
}

/// Why a walk cannot be packed; each names the index of the offending node.
#[derive(Clone, Copy, Debug, PartialEq, Eq, Structural)]
pub enum PackageError {
    /// Its archive name is longer than `MAX_NAME_CHARS`.
    NameTooLong(usize),
    /// Its archive name was already given to an earlier node.
    DuplicateName(usize),
    /// Its content is longer than `MAX_ENTRY_BYTES`.
    TooLarge(usize),
}

impl PackageError {
    /// A short description of the cause.
    pub fn describe(&self) -> (r: &'static str)
        ensures
            r@ == error_text(*self),
    {
        match self {
            PackageError::NameTooLong(_) => "entry name too long",
            PackageError::DuplicateName(_) => "duplicate entry name",
            PackageError::TooLarge(_) => "entry too large",
        }
    }
}

pub open spec fn error_text(e: PackageError) -> Seq<char> {
    match e {
        PackageError::NameTooLong(_) => "entry name too long"@,
        PackageError::DuplicateName(_) => "duplicate entry name"@,
        PackageError::TooLarge(_) => "entry too large"@,
    }
}

/// The archive entry that stands for one node of an output tree: files
/// deflated, directories stored under a name ending in a separator.
pub open spec fn entry_model(e: Entry) -> EntryModel {
    match e {
        Entry::File { path, data } => (path@, false, METHOD_DEFLATED, ENTRY_MODE, data@),
        Entry::Dir { path } => (with_slash(path@), true, METHOD_STORED, ENTRY_MODE, Seq::<u8>::empty()),
    }
}

/// The archive entries for a walk of an output tree: every node but the
/// root itself (the node with an empty path), in walk order.
pub open spec fn archive_plan(walk: Seq<Entry>) -> Seq<EntryModel>
    decreases walk.len(),
{
    if walk.len() == 0 {
        Seq::empty()
    } else if walk.last().path_view().len() == 0 {
        archive_plan(walk.drop_last())
    } else {
        archive_plan(walk.drop_last()).push(entry_model(walk.last()))
    }
}

/// No two entries share a name, and each fits zip's limits.
pub open spec fn plan_fits(p: Seq<EntryModel>) -> bool {
    &&& forall|i: int, j: int|
        0 <= i < p.len() && 0 <= j < p.len() && i != j ==> #[trigger] p[i].0 != #[trigger] p[j].0
    &&& forall|i: int|
        0 <= i < p.len() ==> (#[trigger] p[i]).0.len() <= MAX_NAME_CHARS && p[i].4.len()
            <= MAX_ENTRY_BYTES
}

/// The walk can be packed: its archive entries have distinct names and fit.
pub open spec fn packable(walk: Seq<Entry>) -> bool {
    plan_fits(archive_plan(walk))
}

pub open spec fn prefix_of(a: Seq<EntryModel>, b: Seq<EntryModel>) -> bool {
    a.len() <= b.len() && forall|i: int| 0 <= i < a.len() ==> #[trigger] a[i] == b[i]
}

proof fn lemma_plan_prefix(s: Seq<Entry>, k: int)
    requires
        0 <= k <= s.len(),
    ensures
        prefix_of(archive_plan(s.subrange(0, k)), archive_plan(s)),
    decreases s.len(),
{
    if k == s.len() {
        assert(s.subrange(0, k) =~= s);
    } else {
        let d = s.drop_last();
        lemma_plan_prefix(d, k);
        assert(d.subrange(0, k) =~= s.subrange(0, k));
    }
}

/// What is wrong with node `i` of `walk`, checked in this order: its
/// archive name is too long, is already taken by an earlier node, or its
/// content is too large. The root (empty path) is never at fault.
pub open spec fn node_fault(walk: Seq<Entry>, i: int) -> Option<PackageError> {
    let m = entry_model(walk[i]);
    if walk[i].path_view().len() == 0 {
        None
    } else if m.0.len() > MAX_NAME_CHARS {
        Some(PackageError::NameTooLong(i as usize))
    } else if has_name(archive_plan(walk.subrange(0, i)), m.0) {
        Some(PackageError::DuplicateName(i as usize))
    } else if m.4.len() > MAX_ENTRY_BYTES {
        Some(PackageError::TooLarge(i as usize))
    } else {
        None
    }
}

/// `e` is the fault of the first node of `walk` that has one.
pub open spec fn first_fault(walk: Seq<Entry>, e: PackageError) -> bool {
    exists|i: int|
        0 <= i < walk.len() && node_fault(walk, i) == Some(e) && forall|j: int|
            0 <= j < i ==> #[trigger] node_fault(walk, j) is None
}

/// A walk has at most one first fault, so the error of `package` is fixed.
pub proof fn lemma_first_fault_unique(walk: Seq<Entry>, e1: PackageError, e2: PackageError)
    requires
        first_fault(walk, e1),
        first_fault(walk, e2),
    ensures
        e1 == e2,
{
    let i = choose|i: int|
        0 <= i < walk.len() && node_fault(walk, i) == Some(e1) && forall|j: int|
            0 <= j < i ==> #[trigger] node_fault(walk, j) is None;
    let k = choose|k: int|
        0 <= k < walk.len() && node_fault(walk, k) == Some(e2) && forall|j: int|
            0 <= j < k ==> #[trigger] node_fault(walk, j) is None;
    if i < k {
        assert(node_fault(walk, i) is None);
    } else if k < i {
        assert(node_fault(walk, k) is None);
    }
}

fn name_taken(names: &Vec<String>, name: &str) -> (r: bool)
    ensures
        r == exists|j: int| 0 <= j < names@.len() && #[trigger] names@[j]@ == name@,
{
    let mut j: usize = 0;
    while j < names.len()
        invariant
            j <= names@.len(),
            forall|k: int| 0 <= k < j ==> #[trigger] names@[k]@ != name@,
        decreases names@.len() - j,
    {
        if str_equal(names[j].as_str(), name) {
            return true;
        }
        j = j + 1;
    }
    false
}

/// Packs a walked output tree into a zip archive: each file deflated with
/// its content, each directory as a stored entry whose name ends in a
/// separator, all with permission bits `ENTRY_MODE`. Succeeds exactly when
/// the walk is packable; otherwise reports the fault of the first node that
/// has one.
#[verifier::rlimit(50)]
pub fn package(walk: &Vec<Entry>) -> (r: Result<Vec<u8>, PackageError>)
    ensures
        r is Ok <==> packable(walk@),
        r matches Ok(b) ==> b@ == zip_bytes(archive_plan(walk@)),
        r matches Err(e) ==> first_fault(walk@, e),
{
    let mut w = new_writer();
    let mut names: Vec<String> = Vec::new();
    let mut i: usize = 0;
    proof {
        lemma_plan_prefix(walk@, 0);
    }
    while i < walk.len()
        invariant
            i <= walk@.len(),
            zip_entries(w) == archive_plan(walk@.subrange(0, i as int)),
            names@.len() == zip_entries(w).len(),
            forall|j: int| 0 <= j < names@.len() ==> #[trigger] names@[j]@ == zip_entries(w)[j].0,
            plan_fits(zip_entries(w)),
            zip_intact(w),
            forall|j: int| 0 <= j < i ==> #[trigger] node_fault(walk@, j) is None,
        decreases walk@.len() - i,
    {
        let ghost before = walk@.subrange(0, i as int);
        let ghost after = walk@.subrange(0, i + 1);
        assert(after.drop_last() =~= before);
        assert(after.last() == walk@[i as int]);
        proof {
            lemma_plan_prefix(walk@, i + 1);
        }
        let (name, data, is_dir) = match &walk[i] {
            Entry::File { path, data } => (String::from_str(path.as_str()), data.as_slice(), false),
            Entry::Dir { path } => (slashed(path.as_str()), [].as_slice(), true),
        };
        if walk[i].path().unicode_len() > 0 {
            let ghost m = entry_model(walk@[i as int]);
            let ghost p = archive_plan(after);
            assert(p == archive_plan(before).push(m));
            assert(name@ == m.0);
            assert(p[p.len() - 1] == m);
            if name.unicode_len() > MAX_NAME_CHARS {
                proof {
                    assert(node_fault(walk@, i as int) == Some(PackageError::NameTooLong(i)));
                    assert(archive_plan(walk@)[p.len() - 1] == m);
                }
                return Err(PackageError::NameTooLong(i));
            }
            if name_taken(&names, name.as_str()) {
                proof {
                    let j = choose|j: int| 0 <= j < names@.len() && #[trigger] names@[j]@ == name@;
                    assert(zip_entries(w)[j].0 == name@);
                    assert(has_name(archive_plan(before), m.0));
                    assert(node_fault(walk@, i as int) == Some(PackageError::DuplicateName(i)));
                    assert(p[j] == zip_entries(w)[j]);
                    assert(archive_plan(walk@)[j] == p[j]);
                    assert(archive_plan(walk@)[p.len() - 1] == m);
                }
                return Err(PackageError::DuplicateName(i));
            }
            assert(!has_name(zip_entries(w), name@)) by {
                if has_name(zip_entries(w), name@) {
                    let j = choose|j: int| 0 <= j < zip_entries(w).len() && #[trigger] zip_entries(w)[j].0 == name@;
                    assert(names@[j]@ == name@);
                }
            }
            if !is_dir {
                if data.len() as u64 > MAX_ENTRY_BYTES {
                    proof {
                        assert(node_fault(walk@, i as int) == Some(PackageError::TooLarge(i)));
                        assert(archive_plan(walk@)[p.len() - 1] == m);
                    }
                    return Err(PackageError::TooLarge(i));
                }
                if start_file(&mut w, name.as_str(), METHOD_DEFLATED, ENTRY_MODE).is_err() {
                    proof {
                        assert(false);
                    }
                    return Err(PackageError::DuplicateName(i));
                }
                if write_data(&mut w, data).is_err() {
                    proof {
                        assert(false);
                    }
                    return Err(PackageError::TooLarge(i));
                }
            } else {
                if add_directory(&mut w, name.as_str(), ENTRY_MODE).is_err() {
                    proof {
                        assert(false);
                    }
                    return Err(PackageError::DuplicateName(i));
                }
            }
            assert(zip_entries(w) =~= p);
            assert(node_fault(walk@, i as int) is None);
            names.push(name);
            assert forall|a: int, b: int|
                0 <= a < p.len() && 0 <= b < p.len() && a != b implies #[trigger] p[a].0
                != #[trigger] p[b].0 by {
                if a < p.len() - 1 && b < p.len() - 1 {
                    assert(p[a] == archive_plan(before)[a] && p[b] == archive_plan(before)[b]);
                } else if a < p.len() - 1 {
                    assert(p[a] == archive_plan(before)[a]);
                    assert(names@[a]@ == p[a].0);
                } else {
                    assert(p[b] == archive_plan(before)[b]);
                    assert(names@[b]@ == p[b].0);
                }
            }
            assert forall|k: int| 0 <= k < p.len() implies (#[trigger] p[k]).0.len() <= MAX_NAME_CHARS
                && p[k].4.len() <= MAX_ENTRY_BYTES by {
                if k < p.len() - 1 {
                    assert(p[k] == archive_plan(before)[k]);
                }
            }
        }
        i = i + 1;
    }
    assert(walk@.subrange(0, walk@.len() as int) =~= walk@);
    match finish(w) {
        Ok(b) => Ok(b),
        Err(_) => {
            proof {
                assert(false);
            }
            Err(PackageError::TooLarge(0))
        },
    }
}

} // verus!
