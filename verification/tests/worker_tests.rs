//! The sync worker in whole runs, with a clock of its own.
use std::cell::RefCell;

use omnifuse::backend::{Backend, SyncResult};
use omnifuse::config::SyncConfig;
use omnifuse::duration::Duration;
use omnifuse::events::{deliver, LogLevel, VfsEventHandler};
use omnifuse::paths::FsPath;
use omnifuse::sync_engine::{DirtyWorker, FsEvent, Wakeup, WorkerMetrics, WorkerStep};

const MILLI: u64 = 1_000_000;

fn path(text: &str) -> FsPath {
    FsPath::from_text(text)
}

fn modified(name: &str) -> Wakeup {
    Wakeup::Event(FsEvent::FileModified(path(name)))
}

fn closed(name: &str) -> Wakeup {
    Wakeup::Event(FsEvent::FileClosed(path(name)))
}

fn flush() -> Wakeup {
    Wakeup::Event(FsEvent::Flush)
}

fn shutdown() -> Wakeup {
    Wakeup::Event(FsEvent::Shutdown)
}

struct Tracking(fn(&str) -> bool);

impl Backend for Tracking {
    fn should_track(&self, path: &FsPath) -> bool {
        (self.0)(&path.display())
    }

    fn poll_interval(&self) -> Duration {
        Duration::from_secs(3600)
    }

    fn name(&self) -> &'static str {
        "mock"
    }
}

/// Keeps the pushes and the log messages that it is given.
#[derive(Default)]
struct Recorder {
    pushes: RefCell<Vec<usize>>,
    logs: RefCell<Vec<LogLevel>>,
}

impl VfsEventHandler for Recorder {
    fn on_push(&self, items_count: usize) {
        self.pushes.borrow_mut().push(items_count);
    }

    fn on_log(&self, level: LogLevel, _message: &str) {
        self.logs.borrow_mut().push(level);
    }
}

/// A worker with a backend that answers as it is told, and what came of it.
struct Run {
    worker: DirtyWorker,
    metrics: WorkerMetrics,
    backend: Tracking,
    result: Result<SyncResult, String>,
    calls: Vec<Vec<FsPath>>,
    handler: Recorder,
    ended: bool,
}

impl Run {
    fn new(debounce_timeout_secs: u64, result: Result<SyncResult, String>) -> Self {
        let config = SyncConfig { debounce_timeout_secs, ..SyncConfig::default() };
        Self {
            worker: DirtyWorker::new(&config, 0),
            metrics: WorkerMetrics::default(),
            backend: Tracking(|_| true),
            result,
            calls: Vec::new(),
            handler: Recorder::default(),
            ended: false,
        }
    }

    fn tracking(mut self, tracks: fn(&str) -> bool) -> Self {
        self.backend = Tracking(tracks);
        self
    }

    fn turn(&mut self, wake: Wakeup, now: u64) {
        let step = self.worker.step(wake, now);
        if step == WorkerStep::Sync || step == WorkerStep::FinalSync {
            let flags = self.worker.ask_tracked(&self.backend);
            if let Some(files) = self.worker.begin_sync(&flags, &mut self.metrics) {
                self.calls.push(files);
                let result = self.result.clone();
                let told =
                    self.worker.finish_sync(result, Duration::from_millis(1), &mut self.metrics);
                told.iter().for_each(|notice| deliver(notice, &self.handler));
            }
        }
        self.ended = step == WorkerStep::FinalSync || step == WorkerStep::Stop;
    }

    /// Lets time pass up to `now`; a deadline on the way is kept.
    fn until(&mut self, now: u64) {
        while let Some(deadline) = self.worker.wait_deadline() {
            if deadline > u128::from(now) {
                break;
            }
            self.turn(Wakeup::Timeout, deadline as u64);
        }
    }

    fn send(&mut self, wake: Wakeup, now: u64) {
        self.until(now);
        self.turn(wake, now);
    }

    fn pushes(&self) -> Vec<usize> {
        self.handler.pushes.borrow().clone()
    }

    fn logs(&self, level: LogLevel) -> usize {
        self.handler.logs.borrow().iter().filter(|l| **l == level).count()
    }

    fn synced(&self, name: &str) -> usize {
        self.calls.iter().filter(|call| call.contains(&path(name))).count()
    }
}

fn success(synced_files: usize) -> Result<SyncResult, String> {
    Ok(SyncResult::Success { synced_files })
}

#[test]
fn test_shutdown_on_empty_dirty_set() {
    let mut run = Run::new(0, success(0));
    run.send(shutdown(), 1);
    assert!(run.ended);
    assert_eq!(run.calls.len(), 0, "sync should not be called without dirty files");
}

#[test]
fn test_multiple_file_modified_deduplicated() {
    let mut run = Run::new(0, success(1));
    for _ in 0..3 {
        run.turn(modified("same.txt"), 1);
    }
    run.turn(closed("trigger.txt"), 1);
    run.send(shutdown(), 2);
    assert!(!run.calls.is_empty());
    for call in &run.calls {
        let same_count = call.iter().filter(|p| **p == path("same.txt")).count();
        assert!(same_count <= 1, "same.txt should not be duplicated: {same_count}");
    }
}

#[test]
fn test_sync_success_calls_on_push() {
    let mut run = Run::new(0, success(3));
    run.send(closed("a.txt"), 1);
    run.send(shutdown(), 2);
    assert!(run.pushes().contains(&3), "on_push(3) expected");
}

#[test]
fn test_sync_conflict_logs_warning() {
    let conflict =
        SyncResult::Conflict { synced_files: 1, conflict_files: vec![path("conflict.txt")] };
    let mut run = Run::new(0, Ok(conflict));
    run.send(closed("a.txt"), 1);
    run.send(shutdown(), 2);
    assert!(run.logs(LogLevel::Warn) >= 1, "Conflict should log Warn");
}

#[test]
fn test_sync_offline_logs_warning() {
    let mut run = Run::new(0, Ok(SyncResult::Offline));
    run.turn(closed("a.txt"), 1);
    run.turn(shutdown(), 2);
    assert!(run.logs(LogLevel::Warn) >= 1, "Offline should log Warn");
}

#[test]
fn test_sync_error_logs_error() {
    let mut run = Run::new(0, Err("connection lost".to_string()));
    run.turn(closed("a.txt"), 1);
    run.turn(shutdown(), 2);
    assert!(run.logs(LogLevel::Error) >= 1, "Backend error should log Error");
}

#[test]
fn test_untracked_files_filtered() {
    let mut run = Run::new(0, success(0)).tracking(|p| !p.contains(".git"));
    run.send(closed(".git/config"), 1);
    run.send(closed("readme.md"), 2);
    run.send(shutdown(), 3);
    assert_eq!(run.synced(".git/config"), 0, ".git/config should not be included in sync");
    assert_eq!(run.calls, vec![vec![path("readme.md")]]);
}

#[test]
fn test_mixed_events_ordering() {
    let mut run = Run::new(0, success(2));
    run.turn(modified("a.txt"), 1);
    run.turn(closed("b.txt"), 1);
    run.send(shutdown(), 2);
    assert!(!run.calls.is_empty(), "mixed events should trigger sync");
}

#[test]
fn test_sync_coalesces_rapid_writes() {
    let mut run = Run::new(1, success(1));
    for i in 0..5 {
        run.send(modified("rapidly_written.txt"), i * 10 * MILLI);
    }
    run.until(100 * MILLI);
    assert_eq!(run.calls.len(), 0, "sync should not trigger before debounce expires");
    run.send(shutdown(), 100 * MILLI);
    assert_eq!(run.calls.len(), 1, "rapid writes should be coalesced into one sync");
    assert_eq!(run.calls[0], vec![path("rapidly_written.txt")]);
}

#[test]
fn test_separate_syncs_after_timeout_gap() {
    let mut run = Run::new(0, success(1));
    run.send(closed("first.txt"), 1);
    run.until(200 * MILLI);
    assert!(!run.calls.is_empty(), "first FileClosed should trigger sync");
    run.send(closed("second.txt"), 200 * MILLI);
    run.until(400 * MILLI);
    run.send(shutdown(), 400 * MILLI);
    assert_eq!(run.calls.len(), 2, "two events with a gap should produce two separate syncs");
}

#[test]
fn test_sync_offline_then_recovery() {
    let mut run = Run::new(0, Ok(SyncResult::Offline));
    run.turn(closed("offline_file.txt"), 1);
    assert!(run.logs(LogLevel::Warn) >= 1, "Offline should log Warn");
    assert_eq!(run.pushes().len(), 0, "Offline should not call on_push");
    run.result = success(1);
    run.turn(closed("recovered_file.txt"), 2);
    run.turn(shutdown(), 3);
    assert!(!run.pushes().is_empty(), "on_push should be called after recovery");
}

#[test]
fn test_debounce_resets_on_new_event() {
    let mut run = Run::new(1, success(1));
    run.send(modified("file.txt"), 0);
    run.send(modified("file.txt"), 500 * MILLI);
    run.until(1000 * MILLI);
    assert_eq!(run.calls.len(), 0, "sync should not trigger — debounce timer was reset");
    run.send(shutdown(), 1000 * MILLI);
    assert_eq!(run.calls.len(), 1, "shutdown should trigger final sync");
}

#[test]
fn test_rapid_close_events_deduplicated() {
    let mut run = Run::new(0, success(1));
    for _ in 0..5 {
        run.turn(closed("same.txt"), 1);
    }
    run.send(shutdown(), 2);
    for call in &run.calls {
        let count = call.iter().filter(|p| **p == path("same.txt")).count();
        assert!(count <= 1, "same.txt should not be duplicated in sync batch: {count}");
    }
}

#[test]
fn test_flush_with_multiple_dirty_files() {
    let mut run = Run::new(3600, success(3));
    run.send(modified("a.txt"), 1);
    run.send(modified("b.txt"), 1);
    run.send(modified("c.txt"), 1);
    run.send(flush(), 50 * MILLI);
    run.send(shutdown(), 60 * MILLI);
    let total_files: usize = run.calls.iter().map(Vec::len).sum();
    assert!(total_files >= 3, "Flush should sync all 3 files: {total_files}");
    assert_eq!(run.calls.len(), 1);
}

#[test]
fn test_sync_error_retains_dirty() {
    let mut run = Run::new(0, Err("temporary failure".to_string()));
    run.turn(closed("retry_me.txt"), 1);
    assert_eq!(run.calls.len(), 1, "first sync should be called");
    assert!(run.logs(LogLevel::Error) >= 1, "sync error should be logged");
    run.result = success(1);
    run.turn(flush(), 2);
    run.turn(shutdown(), 3);
    assert!(run.calls.len() >= 2, "sync should be retried for files in dirty set");
    let again = run.calls.iter().skip(1).any(|batch| batch.contains(&path("retry_me.txt")));
    assert!(again, "retry_me.txt should be re-synced after error");
}

#[test]
fn test_close_event_with_untracked_file() {
    let mut run = Run::new(0, success(0)).tracking(|p| p.ends_with(".txt"));
    run.send(closed("temp.tmp"), 1);
    run.send(shutdown(), 2);
    assert_eq!(run.synced("temp.tmp"), 0, "untracked file temp.tmp should not be included in sync");
    assert_eq!(run.pushes().len(), 0, "on_push should not be called for untracked file");
    assert_eq!(run.calls.len(), 0);
}

#[test]
fn test_debounce_batches_multiple_files() {
    let mut run = Run::new(3600, success(5));
    for i in 0..5 {
        run.send(modified(&format!("batch_{i}.txt")), 1);
    }
    run.until(50 * MILLI);
    assert_eq!(run.calls.len(), 0, "sync should not trigger before debounce expires");
    run.send(shutdown(), 50 * MILLI);
    assert_eq!(run.calls.len(), 1, "there should be exactly one sync call (final on shutdown)");
    assert_eq!(run.calls[0].len(), 5, "sync batch should contain all 5 files");
    for i in 0..5 {
        let expected = path(&format!("batch_{i}.txt"));
        assert!(run.calls[0].contains(&expected), "file batch_{i}.txt should be in sync batch");
    }
}

#[test]
fn test_sync_offline_preserves_dirty() {
    let mut run = Run::new(0, Ok(SyncResult::Offline));
    run.turn(closed("offline_retry.txt"), 1);
    assert_eq!(run.calls.len(), 1, "first sync should be called");
    assert!(run.logs(LogLevel::Warn) >= 1, "Offline should log Warn");
    run.result = success(1);
    run.turn(flush(), 2);
    run.turn(shutdown(), 3);
    assert!(run.calls.len() >= 2, "sync should be retried after Offline");
    let again = run.calls.iter().skip(1).any(|batch| batch.contains(&path("offline_retry.txt")));
    assert!(again, "offline_retry.txt should be re-synced after recovery");
    assert!(!run.pushes().is_empty(), "on_push should be called after successful retry");
}

#[test]
fn test_event_processing_order() {
    let mut run = Run::new(3600, success(3));
    run.send(modified("order_a.txt"), 1);
    run.send(modified("order_b.txt"), 1);
    run.send(closed("order_c.txt"), 1);
    run.send(shutdown(), 2);
    assert!(!run.calls.is_empty(), "FileClosed should trigger sync");
    assert_eq!(run.synced("order_a.txt"), 1);
    assert_eq!(run.synced("order_b.txt"), 1);
    assert_eq!(run.synced("order_c.txt"), 1);
}

#[test]
fn test_write_during_sync_not_lost() {
    let mut run = Run::new(0, success(1));
    run.turn(closed("during_sync_a.txt"), 1);
    run.turn(modified("during_sync_b.txt"), 50 * MILLI);
    run.until(450 * MILLI);
    run.send(closed("during_sync_b.txt"), 450 * MILLI);
    run.send(shutdown(), 460 * MILLI);
    assert!(run.synced("during_sync_a.txt") >= 1, "during_sync_a.txt should be synced");
    assert!(run.synced("during_sync_b.txt") >= 1, "during_sync_b.txt should NOT be lost");
}

#[test]
fn test_shutdown_flushes_dirty_before_exit() {
    let mut run = Run::new(3600, success(5));
    let files: Vec<String> = (0..5).map(|i| format!("shutdown_flush_{i}.txt")).collect();
    for name in &files {
        run.send(modified(name), 1);
    }
    run.until(50 * MILLI);
    assert_eq!(run.calls.len(), 0, "sync should not trigger before shutdown (debounce=3600s)");
    run.send(shutdown(), 50 * MILLI);
    assert_eq!(run.calls.len(), 1, "shutdown should trigger exactly one final sync");
    assert_eq!(run.calls[0].len(), 5, "final sync should contain all 5 files");
    for name in &files {
        assert!(run.calls[0].contains(&path(name)), "file {name} should be in final sync");
    }
    assert!(!run.pushes().is_empty(), "on_push should be called after final sync");
}

#[test]
fn a_flush_without_changes_leaves_the_debounce_alone() {
    let mut run = Run::new(3600, success(1));
    run.send(flush(), 1);
    run.send(modified("a.txt"), 2);
    run.until(1000 * MILLI);
    assert_eq!(run.calls.len(), 0);
    run.until(3600 * 1000 * MILLI + 2);
    assert_eq!(run.calls, vec![vec![path("a.txt")]]);
}

#[test]
fn a_whole_run_hands_over_what_is_tracked() {
    let mut run = Run::new(3600, Err("down".to_string())).tracking(|p| p.ends_with(".txt"));
    run.send(closed("a.txt"), 1);
    run.send(modified("b.log"), 2);
    run.send(modified("c.txt"), 3);
    run.send(flush(), 4);
    run.send(Wakeup::Closed, 5);
    assert!(run.ended);
    assert!(run.calls.iter().all(|call| !call.is_empty()));
    assert!(run.synced("a.txt") >= 1 && run.synced("c.txt") >= 1);
    assert_eq!(run.synced("b.log"), 0);
}
