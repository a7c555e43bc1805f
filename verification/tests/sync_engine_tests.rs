//! When local changes are synchronized and remote ones applied.
use omnifuse::backend::{
    plan_refresh, Backend, RefreshPlan, RemoteApplyMode, RemoteChange, RemoteDeferReason,
    RemoteRefresh, RemoteRefreshResult, SyncResult,
};
use omnifuse::config::SyncConfig;
use omnifuse::dirty_index::{DirtyIndex, PathProtection};
use omnifuse::duration::Duration;
use omnifuse::event::Code;
use omnifuse::events::{deliver, deliver_file, LogLevel, NoopEventHandler, VfsEventHandler};
use omnifuse::paths::FsPath;
use omnifuse::sync_engine::{
    after_apply, begin_poll, end_poll, plan_poll, DirtyWorker, FsEvent, Notice, PollPlan, Wakeup,
    WorkerMetrics, WorkerStep,
};
use omnifuse::vfs::VfsNotice;

fn path(text: &str) -> FsPath {
    FsPath::from_text(text)
}

struct NoLogs;

impl Backend for NoLogs {
    fn should_track(&self, path: &FsPath) -> bool {
        !path.display().ends_with(".log")
    }

    fn poll_interval(&self) -> Duration {
        Duration::from_secs(30)
    }

    fn name(&self) -> &'static str {
        "mock"
    }
}

fn worker() -> DirtyWorker {
    DirtyWorker::new(&SyncConfig::default(), 0)
}

fn modified(name: &str) -> Wakeup {
    Wakeup::Event(FsEvent::FileModified(path(name)))
}

fn closed(name: &str) -> Wakeup {
    Wakeup::Event(FsEvent::FileClosed(path(name)))
}

fn begin(worker: &mut DirtyWorker, metrics: &mut WorkerMetrics) -> Option<Vec<FsPath>> {
    let flags = worker.ask_tracked(&NoLogs);
    worker.begin_sync(&flags, metrics)
}

#[test]
fn test_file_modified_batched_by_debounce() {
    let mut w = worker();
    let mut m = WorkerMetrics::default();
    assert_eq!(w.wait_deadline(), None);
    assert_eq!(w.step(modified("a.txt"), 1_000), WorkerStep::Wait);
    assert_eq!(w.wait_deadline(), Some(1_000_001_000));
    assert_eq!(w.step(modified("b.txt"), 2_000), WorkerStep::Wait);
    assert_eq!(w.wait_deadline(), Some(1_000_002_000));
    assert_eq!(w.step(Wakeup::Timeout, 1_000_002_000), WorkerStep::Sync);
    assert_eq!(begin(&mut w, &mut m), Some(vec![path("a.txt"), path("b.txt")]));
    assert_eq!(m.sync_iterations, 1);
}

#[test]
fn test_file_closed_triggers_immediate_sync() {
    let mut w = worker();
    assert_eq!(w.step(closed("file.txt"), 5), WorkerStep::Sync);
}

#[test]
fn test_flush_event_triggers_sync() {
    let mut w = worker();
    assert_eq!(w.step(modified("x.txt"), 5), WorkerStep::Wait);
    assert_eq!(w.step(Wakeup::Event(FsEvent::Flush), 6), WorkerStep::Sync);
}

#[test]
fn flush_without_changes_is_over() {
    let mut w = worker();
    assert_eq!(w.step(Wakeup::Event(FsEvent::Flush), 1), WorkerStep::Wait);
    assert_eq!(w.step(modified("x.txt"), 2), WorkerStep::Wait);
    assert_eq!(w.wait_deadline(), Some(1_000_000_002));
}

#[test]
fn test_shutdown_triggers_final_sync() {
    let mut w = worker();
    w.step(modified("x.txt"), 5);
    assert_eq!(w.step(Wakeup::Event(FsEvent::Shutdown), 6), WorkerStep::FinalSync);
    let mut idle = worker();
    assert_eq!(idle.step(Wakeup::Event(FsEvent::Shutdown), 6), WorkerStep::Stop);
    assert_eq!(worker().step(Wakeup::Closed, 6), WorkerStep::Stop);
}

#[test]
fn offline_and_failed_syncs_keep_the_files() {
    let mut w = worker();
    let mut m = WorkerMetrics::default();
    w.step(modified("a.txt"), 0);
    w.step(modified("a.txt"), 0);
    w.step(closed("b.txt"), 0);
    assert_eq!(begin(&mut w, &mut m).unwrap().len(), 2);
    assert!(w.is_protected(&path("a.txt")));
    let notices = w.finish_sync(Ok(SyncResult::Offline), Duration::from_secs(1), &mut m);
    assert!(matches!(notices[0], Notice::Offline));
    assert_eq!(notices[0].log(), Some((LogLevel::Warn, "remote unavailable".to_string())));
    assert_eq!(w.dirty_count(), 2);

    begin(&mut w, &mut m);
    let notices = w.finish_sync(Err("boom".to_string()), Duration::from_secs(6), &mut m);
    assert!(matches!(&notices[0], Notice::SyncFailed(text) if text == "boom"));
    assert_eq!(notices[0].log(), Some((LogLevel::Error, "sync error: boom".to_string())));
    assert_eq!(w.dirty_count(), 2);
    assert_eq!(m.slow_sync_count, 1);

    begin(&mut w, &mut m);
    let done = SyncResult::Success { synced_files: 2 };
    let notices = w.finish_sync(Ok(done), Duration::from_secs(5), &mut m);
    assert!(matches!(notices[0], Notice::Pushed(2)));
    assert_eq!(w.dirty_count(), 0);
    assert!(!w.is_protected(&path("a.txt")));
    assert_eq!(m.slow_sync_count, 1);
    assert_eq!(m.sync_iterations, 3);
}

#[test]
fn conflicts_are_told() {
    let mut w = worker();
    let mut m = WorkerMetrics::default();
    w.step(closed("a.txt"), 0);
    begin(&mut w, &mut m);
    let result = SyncResult::Conflict { synced_files: 0, conflict_files: vec![path("a.txt")] };
    let notices = w.finish_sync(Ok(result), Duration::from_secs(0), &mut m);
    assert_eq!(notices.len(), 2);
    assert!(matches!(notices[0], Notice::Pushed(0)));
    assert!(matches!(&notices[1], Notice::Conflicts(files) if *files == vec![path("a.txt")]));
    assert_eq!(
        notices[1].log(),
        Some((LogLevel::Warn, "conflicts: [\"a.txt\"]".to_string()))
    );
    assert_eq!(notices[0].log(), None);
}

fn conflict_text(files: Vec<FsPath>) -> String {
    Notice::Conflicts(files).log().map(|(_, text)| text).unwrap_or_default()
}

#[test]
fn conflicts_are_shown_as_paths() {
    let names = ["a.txt", "it's", "say \"hi\"", "back\\slash", "tab\t", "\u{301}x", "é ж 日"];
    let shown: Vec<std::path::PathBuf> = names.iter().map(std::path::PathBuf::from).collect();
    assert_eq!(
        conflict_text(names.iter().map(|name| path(name)).collect()),
        format!("conflicts: {shown:?}")
    );
    assert_eq!(conflict_text(vec![]), "conflicts: []");
    assert_eq!(conflict_text(vec![path("a"), path("b")]), "conflicts: [\"a\", \"b\"]");
}

#[test]
fn broken_names_are_shown_in_hexadecimal() {
    let shown = |bytes: &[u8]| conflict_text(vec![FsPath::from_bytes(bytes.to_vec())]);
    assert_eq!(shown(b"a\xffb"), "conflicts: [\"a\\xFFb\"]");
    assert_eq!(shown(b"\xe2\x82A"), "conflicts: [\"\\xE2\\x82A\"]");
    assert_eq!(shown(b"\xed\xa0\x80"), "conflicts: [\"\\xED\\xA0\\x80\"]");
    let quote = format!("{:?}", std::path::Path::new("it's"));
    assert_eq!(shown(b"it's\x80"), format!("conflicts: [{}\\x80\"]", quote.trim_end_matches('"')));
    assert_eq!(
        shown(b"\xc3\xa9\x09\xf0\x9f\x98\x80\xc0\xaf"),
        "conflicts: [\"é\\t😀\\xC0\\xAF\"]"
    );
}

/// Keeps what it is told, a line each.
#[derive(Default)]
struct Lines(std::cell::RefCell<Vec<String>>);

impl Lines {
    fn add(&self, line: String) {
        self.0.borrow_mut().push(line);
    }
}

impl VfsEventHandler for Lines {
    fn on_log(&self, level: LogLevel, message: &str) {
        self.add(format!("{level:?} {message}"));
    }

    fn on_file_written(&self, path: &FsPath, bytes: usize) {
        self.add(format!("written {} {bytes}", path.display()));
    }

    fn on_file_created(&self, path: &FsPath) {
        self.add(format!("created {}", path.display()));
    }

    fn on_file_deleted(&self, path: &FsPath) {
        self.add(format!("deleted {}", path.display()));
    }

    fn on_file_renamed(&self, old_path: &FsPath, new_path: &FsPath) {
        self.add(format!("renamed {} {}", old_path.display(), new_path.display()));
    }

    fn on_push(&self, items_count: usize) {
        self.add(format!("push {items_count}"));
    }

    fn on_sync(&self, result: &str) {
        self.add(format!("sync {result}"));
    }
}

#[test]
fn handlers_are_told_of_notices() {
    let handler = Lines::default();
    for notice in [
        Notice::Pushed(3),
        Notice::Conflicts(vec![path("a")]),
        Notice::Offline,
        Notice::SyncFailed("x".to_string()),
        Notice::Updated,
        Notice::ApplyFailed("y".to_string()),
        Notice::PollFailed("z".to_string()),
    ] {
        deliver(&notice, &handler);
    }
    for notice in [
        VfsNotice::Created(path("a")),
        VfsNotice::Written(path("a"), 7),
        VfsNotice::Renamed(path("a"), path("b")),
        VfsNotice::Deleted(path("b")),
    ] {
        deliver_file(&notice, &handler);
    }
    assert_eq!(
        *handler.0.borrow(),
        [
            "push 3",
            "Warn conflicts: [\"a\"]",
            "Warn remote unavailable",
            "Error sync error: x",
            "sync updated",
            "Warn error applying remote changes: y",
            "Warn poll failed: z",
            "created a",
            "written a 7",
            "renamed a b",
            "deleted b",
        ]
    );
}

#[test]
fn untracked_files_are_not_synchronized() {
    let mut w = worker();
    let mut m = WorkerMetrics::default();
    w.step(modified("ignored.log"), 0);
    w.step(modified("kept.txt"), 0);
    assert_eq!(begin(&mut w, &mut m), Some(vec![path("kept.txt")]));
    let mut only_logs = worker();
    only_logs.step(closed("ignored.log"), 0);
    assert_eq!(begin(&mut only_logs, &mut m), None);
    assert_eq!(only_logs.dirty_count(), 0);
    assert_eq!(m.sync_iterations, 1);
}

#[test]
fn polls_apply_changes_and_report_errors() {
    let free = DirtyIndex::new();
    assert!(matches!(plan_poll(Ok(vec![]), &free), PollPlan::Quiet));
    let change = RemoteChange::Modified { path: path("a.md"), content: b"x".to_vec() };
    assert!(
        matches!(plan_poll(Ok(vec![change]), &free), PollPlan::Apply(changes) if changes.len() == 1)
    );
    match plan_poll(Err("gone".to_string()), &free) {
        PollPlan::Report(notice) => {
            assert_eq!(notice.log(), Some((LogLevel::Warn, "poll failed: gone".to_string())));
        }
        other => panic!("unexpected {other:?}"),
    }
    assert!(matches!(after_apply(Ok(())), Notice::Updated));
    assert_eq!(
        after_apply(Err("full".to_string())).log(),
        Some((LogLevel::Warn, "error applying remote changes: full".to_string()))
    );
}

#[test]
fn polls_spare_pending_changes() {
    let mut w = worker();
    w.step(modified("docs/a.md"), 0);
    let changes = vec![
        RemoteChange::Deleted { path: path("other.md") },
        RemoteChange::Deleted { path: path("docs/./a.md") },
    ];
    assert!(
        matches!(plan_poll(Ok(changes), &w), PollPlan::Deferred(paths) if paths == vec![path("docs/a.md")])
    );
}

#[test]
fn refreshes_defer_or_apply() {
    let mut index = DirtyIndex::new();
    let changes = vec![
        RemoteChange::Modified { path: path("m"), content: vec![] },
        RemoteChange::Deleted { path: path("d") },
    ];
    let detect =
        RemoteRefresh { protected_paths: &index, mode: RemoteApplyMode::DetectOnly };
    match plan_refresh(&changes, &detect) {
        RefreshPlan::Report(RemoteRefreshResult::Deferred { affected, reason }) => {
            assert_eq!(affected, vec![path("m"), path("d")]);
            assert_eq!(reason, RemoteDeferReason::DetectOnly);
        }
        other => panic!("unexpected {other:?}"),
    }
    let apply = RemoteRefresh { protected_paths: &index, mode: RemoteApplyMode::ApplySafe };
    match plan_refresh(&changes, &apply) {
        RefreshPlan::Apply(RemoteRefreshResult::Applied { changed, deleted }) => {
            assert_eq!(changed, vec![path("m")]);
            assert_eq!(deleted, vec![path("d")]);
        }
        other => panic!("unexpected {other:?}"),
    }
    index.mark_dirty(path("d"));
    let guarded = RemoteRefresh { protected_paths: &index, mode: RemoteApplyMode::ApplySafe };
    match plan_refresh(&changes, &guarded) {
        RefreshPlan::Report(RemoteRefreshResult::Deferred { affected, reason }) => {
            assert_eq!(affected, vec![path("d")]);
            assert_eq!(reason, RemoteDeferReason::ProtectedLocalChange);
        }
        other => panic!("unexpected {other:?}"),
    }
    let none: Vec<RemoteChange> = vec![];
    assert!(matches!(
        plan_refresh(&none, &guarded),
        RefreshPlan::Report(RemoteRefreshResult::Unchanged)
    ));
}

#[test]
fn polls_are_counted() {
    let mut m = WorkerMetrics { poll_iterations: 99, ..WorkerMetrics::default() };
    let iteration = begin_poll(&mut m);
    assert_eq!(iteration, 100);
    let report = end_poll(iteration, Duration { secs: 5, nanos: 1 }, &mut m);
    assert!(report.slow);
    assert!(report.heartbeat);
    assert_eq!(m.slow_poll_count, 1);
    let next = begin_poll(&mut m);
    let report = end_poll(next, Duration::from_secs(5), &mut m);
    assert!(!report.slow);
    assert!(!report.heartbeat);
}

#[test]
fn defaults_of_the_traits() {
    assert_eq!(NoLogs.classify_error("x"), Code::Internal);
    NoopEventHandler.on_push(1);
    NoopEventHandler.on_log(LogLevel::Info, "x");
}
