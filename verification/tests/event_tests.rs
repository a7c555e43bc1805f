//! Events and sessions.
use omnifuse::backend::Backend;
use omnifuse::duration::Duration;
use omnifuse::event::{
    clamp_millis, Action, Code, Error, Kind, Level, NoopSink, RecordSink, Session, Sink, Source,
    VERSION,
};
use omnifuse::json::Value;
use omnifuse::mount_run::{fuse_outcome, MountAction, MountRun};
use omnifuse::paths::FsPath;
use omnifuse::product_events::{file_event, sync_event};
use omnifuse::sync_engine::Notice;
use omnifuse::vfs::VfsNotice;

fn path(text: &str) -> FsPath {
    FsPath::from_text(text)
}

fn session() -> Session {
    Session::new("git", path("/mnt/repo"), path("/tmp/cache"), 0x1f, 0xab, 7)
}

#[test]
fn test_session_generates_mount_id_and_monotonic_operation_ids() {
    let mut session = session();

    assert_eq!(session.backend(), "git");
    assert!(!session.mount_id().is_empty(), "mount_id should not be empty");
    assert_eq!(session.mount_point(), &path("/mnt/repo"));
    assert_eq!(session.local_dir(), &path("/tmp/cache"));

    let sync = session.op(0);
    let poll = session.op(0);
    let sync_event = session.op_event(&sync, Kind::SyncStart, Level::Info, Source::Sync, 1);
    let poll_event = session.op_event(&poll, Kind::RemotePoll, Level::Info, Source::Sync, 2);

    assert!(poll.id() > sync.id(), "operation ids should increase");
    assert_eq!(sync_event.mount_id, session.mount_id());
    assert_eq!(sync_event.op_id, Some(sync.id()));
    assert_eq!(poll_event.seq, sync_event.seq + 1);
}

#[test]
fn session_names_are_hexadecimal() {
    let session = session();
    assert_eq!(session.mount_id(), "m1f-ab-7");
    assert_eq!(session.started_at_ms(), 0x1f);
    let other = Session::new("git", path("/m"), path("/l"), 0x1f, 0xab, 8);
    assert_ne!(session.mount_id(), other.mount_id());
}

#[test]
fn session_events_carry_their_fields() {
    let mut session = session();
    let event = session
        .event(Kind::SyncFail, Level::Error, Source::Git, 42)
        .data(Value::Unsigned(3))
        .error(Error::new("boom", Code::Timeout, Action::Retry));
    assert_eq!(event.version, VERSION);
    assert_eq!(event.seq, 1);
    assert_eq!(event.time, 42);
    assert_eq!(event.op_id, None);
    assert_eq!(event.kind, Kind::SyncFail);
    assert_eq!(event.data.unwrap().as_u64(), Some(3));
    let error = event.error.unwrap();
    assert_eq!(error.message, "boom");
    assert_eq!(error.code, Code::Timeout);
    assert_eq!(error.action, Action::Retry);
}

#[test]
fn operations_tell_their_age() {
    let mut session = session();
    let op = session.op(1_000_000);
    assert_eq!(op.elapsed_ms(1_000_000 + 2_999_999), 2);
    assert_eq!(op.elapsed_ms(0), 0);
    assert_eq!(clamp_millis(5), 5);
    assert_eq!(clamp_millis(u128::MAX), u64::MAX);
}

#[test]
fn names_on_the_wire() {
    assert_eq!(Kind::MountStart.wire_name(), "mount.start");
    assert_eq!(Kind::QueueDrop.wire_name(), "queue.drop");
    assert_eq!(Kind::Conflict.wire_name(), "conflict");
    assert_eq!(Level::Warn.wire_name(), "warn");
    assert_eq!(Source::Vfs.wire_name(), "vfs");
    assert_eq!(Code::BackendCommandFailed.wire_name(), "backend_command_failed");
    assert_eq!(Action::Wait.wire_name(), "wait");
}

#[test]
fn sinks_record_or_ignore() {
    let mut session = session();
    let mut sink = RecordSink::default();
    assert!(sink.snapshot().is_empty());
    sink.emit(session.event(Kind::FileChange, Level::Info, Source::Vfs, 1));
    sink.emit(session.event(Kind::FileFlush, Level::Info, Source::Vfs, 2));
    let kinds: Vec<Kind> = sink.snapshot().iter().map(|e| e.kind).collect();
    assert_eq!(kinds, vec![Kind::FileChange, Kind::FileFlush]);
    NoopSink.emit(session.event(Kind::FileChange, Level::Info, Source::Vfs, 3));
}

#[test]
fn payloads_are_looked_up_by_name() {
    let value = Value::Object(vec![
        ("a".to_string(), Value::Text("x".to_string())),
        ("b".to_string(), Value::Bool(true)),
    ]);
    assert_eq!(value.get("a").and_then(|v| v.as_str()), Some("x"));
    assert!(value.get("b").unwrap().as_str().is_none());
    assert!(value.get("c").is_none());
    assert!(Value::Null.get("a").is_none());
    assert_eq!(Value::Negative(-1).as_u64(), None);
}

#[test]
fn test_sync_engine_emits_sync_deferred_offline_event() {
    let mut session = session();
    let event = sync_event(&mut session, &Notice::Offline, Code::Internal, 5);
    assert_eq!(event.kind, Kind::SyncDefer);
    assert_eq!(event.level, Level::Warn);
    assert_eq!(event.source, Source::Sync);
    let error = event.error.unwrap();
    assert_eq!(error.code, Code::Offline);
    assert_eq!(error.message, "remote unavailable");
}

#[test]
fn test_sync_engine_emits_remote_poll_failed_event() {
    let mut session = session();
    let notice = Notice::PollFailed("network unavailable".to_string());
    let event = sync_event(&mut session, &notice, Code::Timeout, 5);
    assert_eq!(event.kind, Kind::RemoteFail);
    let error = event.error.unwrap();
    assert_eq!(error.code, Code::Timeout);
    assert_eq!(error.message, "poll failed: network unavailable");
}

#[test]
fn sync_notices_become_events() {
    let mut session = session();
    let done = sync_event(&mut session, &Notice::Pushed(3), Code::Internal, 1);
    assert_eq!(done.kind, Kind::SyncDone);
    assert_eq!(done.data.unwrap().get("synced").unwrap().as_u64(), Some(3));
    assert!(done.error.is_none());
    let failed =
        sync_event(&mut session, &Notice::SyncFailed("x".to_string()), Code::FsIo, 2);
    assert_eq!((failed.kind, failed.level, failed.seq), (Kind::SyncFail, Level::Error, 2));
    let updated = sync_event(&mut session, &Notice::Updated, Code::Internal, 3);
    assert_eq!((updated.kind, updated.level), (Kind::RemoteChange, Level::Info));
    let conflict =
        sync_event(&mut session, &Notice::Conflicts(vec![path("a")]), Code::Internal, 4);
    assert_eq!(conflict.kind, Kind::Conflict);
    assert_eq!(conflict.error.unwrap().code, Code::Conflict);
}

#[test]
fn file_notices_become_events() {
    let mut session = session();
    let event = file_event(&mut session, &VfsNotice::Written(path("a.md"), 7), 1);
    assert_eq!((event.kind, event.source), (Kind::FileChange, Source::Vfs));
    let data = event.data.unwrap();
    assert_eq!(data.get("path").unwrap().as_str(), Some("a.md"));
    assert_eq!(data.get("bytes").unwrap().as_u64(), Some(7));
    let event = file_event(&mut session, &VfsNotice::Renamed(path("a"), path("b")), 2);
    assert_eq!(event.kind, Kind::FileRename);
    let data = event.data.unwrap();
    assert_eq!(data.get("oldPath").unwrap().as_str(), Some("a"));
    assert_eq!(data.get("newPath").unwrap().as_str(), Some("b"));
    assert_eq!(
        file_event(&mut session, &VfsNotice::Created(path("c")), 3).kind,
        Kind::FileCreate
    );
    assert_eq!(
        file_event(&mut session, &VfsNotice::Deleted(path("c")), 4).kind,
        Kind::FileDelete
    );
}

struct Strict;

impl Backend for Strict {
    fn should_track(&self, _path: &FsPath) -> bool {
        true
    }

    fn poll_interval(&self) -> Duration {
        Duration::from_secs(1)
    }

    fn name(&self) -> &'static str {
        "git"
    }

    fn classify_error(&self, error: &str) -> Code {
        if error.contains("offline") {
            Code::Offline
        } else {
            Code::Internal
        }
    }
}

#[test]
fn a_mount_runs_its_course() {
    let mut session = session();
    let (mut run, start) = MountRun::begin(&mut session, 10, 0);
    assert_eq!(start.kind, Kind::MountStart);
    let data = start.data.unwrap();
    assert_eq!(data.get("backend").unwrap().as_str(), Some("git"));
    assert_eq!(data.get("mountPoint").unwrap().as_str(), Some("/mnt/repo"));
    assert_eq!(data.get("localDir").unwrap().as_str(), Some("/tmp/cache"));

    assert_eq!(run.action(), MountAction::CheckFuse);
    assert!(run.step(&mut session, &Strict, fuse_outcome(true), 11, 1).is_none());
    assert_eq!(run.action(), MountAction::InitBackend);
    assert!(run.step(&mut session, &Strict, Ok(()), 12, 2).is_none());
    assert_eq!(run.action(), MountAction::Prepare);
    let ready = run.step(&mut session, &Strict, Ok(()), 13, 3).unwrap();
    assert_eq!(ready.kind, Kind::MountReady);
    assert_eq!(ready.seq, 2);
    assert_eq!(run.action(), MountAction::Serve);
    assert!(run.step(&mut session, &Strict, Ok(()), 14, 4).is_none());
    assert_eq!(run.action(), MountAction::StopEngine);
    assert!(run.step(&mut session, &Strict, Ok(()), 15, 5).is_none());
    assert_eq!(run.action(), MountAction::JoinEngine);
    let stop = run.step(&mut session, &Strict, Ok(()), 16, 9_000_000).unwrap();
    assert_eq!(stop.kind, Kind::MountStop);
    assert_eq!(stop.data.unwrap().get("elapsedMs").unwrap().as_u64(), Some(9));
    assert_eq!(run.action(), MountAction::Nothing);
}

#[test]
fn a_failed_mount_tells_why() {
    let mut session = session();
    let (mut run, _) = MountRun::begin(&mut session, 10, 0);
    run.step(&mut session, &Strict, Ok(()), 11, 1);
    let fail = run.step(&mut session, &Strict, Err("remote offline".to_string()), 12, 2).unwrap();
    assert_eq!(fail.kind, Kind::MountFail);
    assert_eq!(fail.level, Level::Error);
    let error = fail.error.unwrap();
    assert_eq!(error.message, "remote offline");
    assert_eq!(error.code, Code::Offline);
    assert_eq!(error.action, Action::Stop);
    assert_eq!(run.action(), MountAction::Nothing);
    assert_eq!(fuse_outcome(false), Err("FUSE/WinFsp is not installed".to_string()));
}
