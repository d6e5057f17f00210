use std::io::{Cursor, Read};

use flake_builder::archive::{package, PackageError, ENTRY_MODE, MAX_NAME_CHARS};
use flake_builder::entry::{join, slashed, trimmed, Entry};
use flake_builder::materialize::{materialize_plan, FsOp};
use flake_builder::poller::{plan_rebuild, PollAction, PollEvent, PollPhase, Poller, REBUILD_THRESHOLD};
use flake_builder::queue::{contains, position, Stage, Task, TaskQueue};
use flake_builder::server::{get_build, lookup_build, Lookup};
use flake_builder::target::Target;
use flake_builder::worker::{build_args, finish_build, next_build};

const ALL: [Target; 3] = [Target::Alurya, Target::Gilarabrywn, Target::Esrahaddon];

fn file(path: &str, data: &[u8]) -> Entry {
    Entry::File { path: path.to_string(), data: data.to_vec() }
}

fn dir(path: &str) -> Entry {
    Entry::Dir { path: path.to_string() }
}

fn count(list: &[Task], t: Target) -> usize {
    list.iter().filter(|k| k.target == t).count()
}

fn assert_one_stage_each(q: &TaskQueue) {
    for t in ALL {
        let n = count(q.pending_tasks(), t)
            + count(q.in_progress_tasks(), t)
            + count(q.complete_tasks(), t);
        if q.find(t) == Stage::Unknown {
            assert_eq!(n, 0);
        } else {
            assert_eq!(n, 1);
        }
    }
}

fn read_archive(bytes: &[u8]) -> Vec<(String, bool, Vec<u8>)> {
    let mut z = zip::ZipArchive::new(Cursor::new(bytes.to_vec())).unwrap();
    let mut out = Vec::new();
    for i in 0..z.len() {
        let mut f = z.by_index(i).unwrap();
        let mut data = Vec::new();
        f.read_to_end(&mut data).unwrap();
        out.push((f.name().to_string(), f.is_dir(), data));
    }
    out
}

#[test]
fn target_names_round_trip() {
    for t in ALL {
        assert_eq!(Target::from_name(t.name()), Some(t));
    }
    assert_eq!(Target::Alurya.name(), "alurya");
    assert_eq!(Target::Gilarabrywn.input_dir(), "gilarabrywn/in");
    assert_eq!(Target::Esrahaddon.output_dir(), "esrahaddon/out");
    assert_eq!(Target::from_name("nixpkgs"), None);
    assert_eq!(Target::from_name(""), None);
    assert_eq!(Target::all(), ALL.to_vec());
}

#[test]
fn path_helpers() {
    assert_eq!(join("a/in", "b.txt"), "a/in/b.txt");
    assert_eq!(trimmed("c/"), "c");
    assert_eq!(trimmed("c"), "c");
    assert_eq!(slashed("y"), "y/");
    assert_eq!(slashed("y/"), "y/");
}

#[test]
fn contains_finds_by_target() {
    let list = vec![Task::for_target(Target::Esrahaddon), Task::for_target(Target::Alurya)];
    assert_eq!(contains(&list, "alurya"), Some(&list[1]));
    assert_eq!(contains(&list, "gilarabrywn"), None);
    assert_eq!(contains(&list, "alurya/in"), None);
    assert_eq!(contains(&[], "alurya"), None);
    assert_eq!(position(&list, Target::Alurya), Some(1));
}

#[test]
fn queue_moves_a_task_through_its_stages() {
    let mut q = TaskQueue::new();
    assert_eq!(q.find(Target::Alurya), Stage::Unknown);
    assert!(q.enqueue(Task::for_target(Target::Alurya)));
    assert_eq!(q.find(Target::Alurya), Stage::Pending);
    assert_eq!(q.dequeue_next(), Some(Task::for_target(Target::Alurya)));
    assert_eq!(q.find(Target::Alurya), Stage::InProgress);
    assert!(q.mark_complete(Target::Alurya));
    assert_eq!(q.find(Target::Alurya), Stage::Complete);
    assert!(!q.mark_complete(Target::Alurya));
}

#[test]
fn dequeue_on_empty_returns_none() {
    let mut q = TaskQueue::new();
    assert_eq!(q.dequeue_next(), None);
    assert!(q.pending_tasks().is_empty());
    assert!(q.in_progress_tasks().is_empty());
}

#[test]
fn pending_is_first_in_first_out() {
    let mut q = TaskQueue::new();
    q.enqueue(Task::for_target(Target::Esrahaddon));
    q.enqueue(Task::for_target(Target::Alurya));
    q.enqueue(Task::for_target(Target::Gilarabrywn));
    assert_eq!(q.dequeue_next().unwrap().target, Target::Esrahaddon);
    assert_eq!(q.dequeue_next().unwrap().target, Target::Alurya);
    assert_eq!(q.dequeue_next().unwrap().target, Target::Gilarabrywn);
    assert_eq!(q.dequeue_next(), None);
}

#[test]
fn enqueue_refuses_a_waiting_or_running_target() {
    let mut q = TaskQueue::new();
    assert!(q.enqueue(Task::for_target(Target::Alurya)));
    assert!(!q.enqueue(Task::for_target(Target::Alurya)));
    assert_eq!(q.pending_tasks().len(), 1);
    q.dequeue_next();
    assert!(!q.enqueue(Task::for_target(Target::Alurya)));
    assert_eq!(q.find(Target::Alurya), Stage::InProgress);
}

#[test]
fn enqueue_supersedes_a_complete_task() {
    let mut q = TaskQueue::new();
    q.enqueue(Task::for_target(Target::Alurya));
    q.dequeue_next();
    q.mark_complete(Target::Alurya);
    assert!(q.enqueue(Task::for_target(Target::Alurya)));
    assert_eq!(q.find(Target::Alurya), Stage::Pending);
    assert!(q.complete_tasks().is_empty());
}

#[test]
fn mark_in_progress_takes_a_waiting_task_only() {
    let mut q = TaskQueue::new();
    q.enqueue(Task::for_target(Target::Alurya));
    q.enqueue(Task::for_target(Target::Esrahaddon));
    assert!(!q.mark_in_progress(Target::Gilarabrywn));
    assert!(q.mark_in_progress(Target::Esrahaddon));
    assert_eq!(q.find(Target::Esrahaddon), Stage::InProgress);
    assert!(!q.mark_in_progress(Target::Esrahaddon));
    assert_eq!(q.pending_tasks().to_vec(), vec![Task::for_target(Target::Alurya)]);
}

#[test]
fn every_target_stays_in_one_stage() {
    let mut q = TaskQueue::new();
    assert_one_stage_each(&q);
    for t in ALL {
        q.enqueue(Task::for_target(t));
        assert_one_stage_each(&q);
    }
    q.enqueue(Task::for_target(Target::Alurya));
    assert_one_stage_each(&q);
    q.dequeue_next();
    assert_one_stage_each(&q);
    q.mark_in_progress(Target::Esrahaddon);
    assert_one_stage_each(&q);
    q.mark_complete(Target::Alurya);
    assert_one_stage_each(&q);
    q.enqueue(Task::for_target(Target::Alurya));
    assert_one_stage_each(&q);
    q.mark_complete(Target::Esrahaddon);
    q.dequeue_next();
    q.dequeue_next();
    assert_one_stage_each(&q);
    for t in ALL {
        assert_ne!(q.find(t), Stage::Unknown);
    }
}

#[test]
fn materialize_lays_out_files_and_empty_dirs() {
    let tree = vec![dir("a"), file("a/b.txt", b"content of b"), dir("c/")];
    let ops = materialize_plan(Target::Alurya, &tree);
    assert_eq!(ops.len(), 4);
    assert!(matches!(&ops[0], FsOp::ClearDir { path } if path == "alurya/in"));
    assert!(matches!(&ops[1], FsOp::CreateDir { path } if path == "alurya/in/a"));
    assert!(
        matches!(&ops[2], FsOp::WriteFile { path, data } if path == "alurya/in/a/b.txt" && data == b"content of b")
    );
    assert!(matches!(&ops[3], FsOp::CreateDir { path } if path == "alurya/in/c"));
}

#[test]
fn materialize_empty_tree_only_clears() {
    let ops = materialize_plan(Target::Esrahaddon, &Vec::new());
    assert_eq!(ops.len(), 1);
    assert!(matches!(&ops[0], FsOp::ClearDir { path } if path == "esrahaddon/in"));
}

#[test]
fn package_holds_file_and_empty_dir() {
    let walk = vec![dir(""), file("x.txt", b"hi"), dir("y")];
    let bytes = package(&walk).unwrap();
    let entries = read_archive(&bytes);
    assert_eq!(entries.len(), 2);
    assert_eq!(entries[0], ("x.txt".to_string(), false, b"hi".to_vec()));
    assert_eq!(entries[1].0, "y/");
    assert!(entries[1].1);
}

#[test]
fn package_sets_mode_and_compression() {
    let walk = vec![file("run.sh", b"echo hello hello hello hello")];
    let bytes = package(&walk).unwrap();
    let mut z = zip::ZipArchive::new(Cursor::new(bytes)).unwrap();
    let f = z.by_index(0).unwrap();
    assert_eq!(f.unix_mode().unwrap() & 0o777, ENTRY_MODE);
    assert_eq!(f.compression(), zip::CompressionMethod::Deflated);
}

#[test]
fn package_keeps_nested_empty_dirs() {
    let walk = vec![dir(""), dir("a"), dir("a/b"), file("a/f", b"1")];
    let entries = read_archive(&package(&walk).unwrap());
    let names: Vec<&str> = entries.iter().map(|e| e.0.as_str()).collect();
    assert_eq!(names, vec!["a/", "a/b/", "a/f"]);
}

#[test]
fn package_rejects_a_repeated_name() {
    let walk = vec![file("a", b"1"), file("a", b"2")];
    assert_eq!(package(&walk), Err(PackageError::DuplicateName(1)));
    let walk = vec![dir("a"), file("b", b""), dir("a/")];
    assert_eq!(package(&walk), Err(PackageError::DuplicateName(2)));
}

#[test]
fn package_allows_a_file_and_dir_of_one_path() {
    let walk = vec![file("a", b"1"), dir("a")];
    let names: Vec<String> = read_archive(&package(&walk).unwrap()).into_iter().map(|e| e.0).collect();
    assert_eq!(names, vec!["a".to_string(), "a/".to_string()]);
}

#[test]
fn package_rejects_an_overlong_name() {
    let long = "n".repeat(MAX_NAME_CHARS + 1);
    let walk = vec![dir(""), file("ok", b"1"), file(&long, b"2")];
    assert_eq!(package(&walk), Err(PackageError::NameTooLong(2)));
    let longest = "n".repeat(MAX_NAME_CHARS);
    let walk = vec![file(&longest, b"2")];
    assert_eq!(read_archive(&package(&walk).unwrap())[0].0, longest);
}

#[test]
fn package_reports_the_first_fault() {
    let long = "n".repeat(MAX_NAME_CHARS + 1);
    let walk = vec![file("a", b"1"), file("a", b"2"), file(&long, b"3")];
    assert_eq!(package(&walk), Err(PackageError::DuplicateName(1)));
    let walk = vec![file("a", b"1"), file(&long, b"3"), file("a", b"2")];
    assert_eq!(package(&walk), Err(PackageError::NameTooLong(1)));
    let r = get_build(Lookup::Ready(Task::for_target(Target::Alurya)), &walk);
    assert_eq!(r, Err((500, "Failed to write archive: entry name too long".to_string())));
}

#[test]
fn package_stores_directories() {
    let walk = vec![dir("d"), file("f", b"data")];
    let bytes = package(&walk).unwrap();
    let mut z = zip::ZipArchive::new(Cursor::new(bytes)).unwrap();
    assert_eq!(z.by_index(0).unwrap().compression(), zip::CompressionMethod::Stored);
    assert_eq!(z.by_index(1).unwrap().compression(), zip::CompressionMethod::Deflated);
}

#[test]
fn package_error_descriptions() {
    assert_eq!(PackageError::NameTooLong(0).describe(), "entry name too long");
    assert_eq!(PackageError::DuplicateName(0).describe(), "duplicate entry name");
    assert_eq!(PackageError::TooLarge(0).describe(), "entry too large");
}

#[test]
fn get_build_answers_by_stage() {
    let mut q = TaskQueue::new();
    for t in ALL {
        q.enqueue(Task::for_target(t));
    }
    q.dequeue_next();
    q.dequeue_next();
    q.mark_complete(Target::Alurya);
    let walk = vec![dir(""), file("x.txt", b"hi")];

    let pending = lookup_build(&q, "esrahaddon");
    assert_eq!(pending, Lookup::Pending);
    assert_eq!(get_build(pending, &walk), Err((204, "Build Pending".to_string())));

    let running = lookup_build(&q, "gilarabrywn");
    assert_eq!(running, Lookup::InProgress);
    assert_eq!(get_build(running, &walk), Err((204, "Build In Progress".to_string())));

    let done = lookup_build(&q, "alurya");
    assert_eq!(done, Lookup::Ready(Task::for_target(Target::Alurya)));
    assert_eq!(get_build(done, &walk), Ok(package(&walk).unwrap()));
}

#[test]
fn get_build_reports_a_lost_target() {
    let q = TaskQueue::new();
    assert_eq!(lookup_build(&q, "alurya"), Lookup::Lost);
    assert_eq!(lookup_build(&q, "unheard-of"), Lookup::Lost);
    assert_eq!(get_build(Lookup::Lost, &Vec::new()), Err((500, "Build lost".to_string())));
}

#[test]
fn get_build_reports_an_archive_failure() {
    let walk = vec![file("a", b"1"), file("a", b"2")];
    let r = get_build(Lookup::Ready(Task::for_target(Target::Alurya)), &walk);
    assert_eq!(r, Err((500, "Failed to write archive: duplicate entry name".to_string())));
}

#[test]
fn poller_waits_until_threshold_is_exceeded() {
    let mut p = Poller::new(100);
    assert_eq!(p.threshold, REBUILD_THRESHOLD);
    assert_eq!(p.next_action(), PollAction::ListCommits { since: 100 });
    let a = p.step(PollEvent::Commits { count: 10, polled_at: 150 });
    assert_eq!(a, PollAction::ListCommits { since: 100 });
    assert_eq!(p.phase, PollPhase::Listing);
    let a = p.step(PollEvent::Commits { count: 11, polled_at: 200 });
    assert_eq!(a, PollAction::FetchTree);
    assert_eq!(p.checkpoint, 100);
    let a = p.step(PollEvent::TreeFetched);
    assert_eq!(a, PollAction::Rebuild);
    assert_eq!(p.checkpoint, 200);
    assert_eq!(p.next_action(), PollAction::ListCommits { since: 200 });
}

#[test]
fn poller_stops_on_failures() {
    let mut p = Poller::with_threshold(0, 2);
    assert_eq!(p.step(PollEvent::QueryFailed), PollAction::Stop);
    assert_eq!(p.phase, PollPhase::Stopped);
    assert_eq!(p.step(PollEvent::Commits { count: 5, polled_at: 1 }), PollAction::Stop);

    let mut p = Poller::with_threshold(0, 2);
    assert_eq!(p.step(PollEvent::Commits { count: 3, polled_at: 7 }), PollAction::FetchTree);
    assert_eq!(p.step(PollEvent::FetchFailed), PollAction::Stop);
    assert_eq!(p.checkpoint, 0);
}

#[test]
fn poller_ignores_events_out_of_phase() {
    let mut p = Poller::new(5);
    assert_eq!(p.step(PollEvent::TreeFetched), PollAction::ListCommits { since: 5 });
    assert_eq!(p, Poller::new(5));
}

#[test]
fn rebuild_skips_a_target_being_built() {
    let mut q = TaskQueue::new();
    q.enqueue(Task::for_target(Target::Gilarabrywn));
    q.dequeue_next();
    let tree = vec![file("flake.nix", b"{}")];
    let plan = plan_rebuild(&q, &tree);
    let targets: Vec<Target> = plan.iter().map(|r| r.target).collect();
    assert_eq!(targets, vec![Target::Alurya, Target::Esrahaddon]);
    assert!(matches!(&plan[1].ops[1], FsOp::WriteFile { path, .. } if path == "esrahaddon/in/flake.nix"));
}

#[test]
fn build_args_name_input_and_target() {
    let args = build_args(&Task::for_target(Target::Gilarabrywn));
    assert_eq!(args, vec!["--flake".to_string(), "gilarabrywn/in#gilarabrywn".to_string()]);
}

#[test]
fn worker_builds_one_task_at_a_time() {
    let mut q = TaskQueue::new();
    assert!(next_build(&mut q).is_none());
    q.enqueue(Task::for_target(Target::Esrahaddon));
    let job = next_build(&mut q).unwrap();
    assert_eq!(job.task.target, Target::Esrahaddon);
    assert_eq!(job.args[1], "esrahaddon/in#esrahaddon");
    assert_eq!(q.find(Target::Esrahaddon), Stage::InProgress);
    assert!(finish_build(&mut q, Target::Esrahaddon));
    assert!(!finish_build(&mut q, Target::Esrahaddon));
    assert_eq!(q.find(Target::Esrahaddon), Stage::Complete);
}

#[test]
fn poll_build_and_serve_end_to_end() {
    let mut q = TaskQueue::new();
    let mut p = Poller::new(0);
    assert_eq!(p.step(PollEvent::Commits { count: 11, polled_at: 42 }), PollAction::FetchTree);
    let tree = vec![file("flake.nix", b"{ outputs = _: {}; }")];
    assert_eq!(p.step(PollEvent::TreeFetched), PollAction::Rebuild);
    assert_eq!(p.checkpoint, 42);
    let plan = plan_rebuild(&q, &tree);
    assert_eq!(plan.len(), 3);
    for r in &plan {
        assert!(q.enqueue(Task::for_target(r.target)));
    }
    for t in ALL {
        assert_eq!(q.find(t), Stage::Pending);
    }
    while let Some(job) = next_build(&mut q) {
        assert!(finish_build(&mut q, job.task.target));
    }
    for t in ALL {
        // The build tool leaves the snapshot's file in the output directory.
        let walk = vec![dir(""), file("flake.nix", b"{ outputs = _: {}; }")];
        let l = lookup_build(&q, t.name());
        assert_eq!(l, Lookup::Ready(Task::for_target(t)));
        let bytes = get_build(l, &walk).unwrap();
        let entries = read_archive(&bytes);
        assert_eq!(entries.len(), 1);
        assert_eq!(entries[0].0, "flake.nix");
        assert_eq!(entries[0].2, b"{ outputs = _: {}; }".to_vec());
    }
}
