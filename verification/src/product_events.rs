//! Product events for what happens in the sync engine and the file system.
use vstd::prelude::*;

use crate::event::{Action, Code, Error, Event, Kind, Level, Session, Source};
use crate::events::LogLevel;
use crate::json::Value;
use crate::paths::{utf8_lossy, FsPath};
use crate::sync_engine::{notice_log, Notice};
use crate::vfs::VfsNotice;

verus! {

/// The kind of event that a notice of the sync engine gives rise to.
pub open spec fn sync_kind(notice: Notice) -> Kind {
    match notice {
        Notice::Pushed(_) => Kind::SyncDone,
        Notice::Conflicts(_) => Kind::Conflict,
        Notice::Offline => Kind::SyncDefer,
        Notice::SyncFailed(_) => Kind::SyncFail,
        Notice::Updated => Kind::RemoteChange,
        Notice::ApplyFailed(_) => Kind::RemoteFail,
        Notice::PollFailed(_) => Kind::RemoteFail,
    }
}

/// How severe the event of a notice is: as severe as its log message.
pub open spec fn sync_level(notice: Notice) -> Level {
    match notice_log(notice) {
        None => Level::Info,
        Some((LogLevel::Error, _)) => Level::Error,
        Some(_) => Level::Warn,
    }
}

/// What is to be done about a notice that tells of a problem: what could not be
/// synchronized is tried again without help, a conflict has to be mended.
pub open spec fn sync_action(notice: Notice) -> Action {
    match notice {
        Notice::Conflicts(_) => Action::Fix,
        _ => Action::Wait,
    }
}

/// The code of the problem that a notice tells of.
pub open spec fn sync_code(notice: Notice, classified: Code) -> Code {
    match notice {
        Notice::Conflicts(_) => Code::Conflict,
        Notice::Offline => Code::Offline,
        _ => classified,
    }
}

/// Whether a payload holds one number under a name.
pub open spec fn holds_number(data: Option<Value>, name: Seq<char>, n: nat) -> bool {
    &&& data is Some
    &&& data->0 is Object
    &&& data->0->Object_0@.len() == 1
    &&& data->0->Object_0@[0].0@ == name
    &&& data->0->Object_0@[0].1 matches Value::Unsigned(m) && m == n
}

/// Whether an event is the one for a notice of the sync engine.
pub open spec fn tells_sync(event: Event, notice: Notice, classified: Code) -> bool {
    &&& event.kind == sync_kind(notice)
    &&& event.level == sync_level(notice)
    &&& event.source == Source::Sync
    &&& match notice {
        Notice::Pushed(n) => holds_number(event.data, "synced"@, n as nat),
        _ => event.data is None,
    }
    &&& match notice_log(notice) {
        None => event.error is None,
        Some((_, text)) => {
            &&& event.error is Some
            &&& event.error->0.message@ == text
            &&& event.error->0.code == sync_code(notice, classified)
            &&& event.error->0.action == sync_action(notice)
        },
    }
}

/// Makes the event for a notice of the sync engine. `classified` is the code
/// that the backend gives to its error.
pub fn sync_event(session: &mut Session, notice: &Notice, classified: Code, now_ms: u64) -> (r:
    Event)
    requires
        old(session).events_made() < u64::MAX,
    ensures
        tells_sync(r, *notice, classified),
        r.seq == old(session).events_made() + 1,
        r.time == now_ms,
        r.mount_id@ == old(session).id(),
        r.op_id is None,
        final(session).events_made() == r.seq,
        final(session).ops_started() == old(session).ops_started(),
        final(session).same_session(*old(session)),
{
    let kind: Kind = match notice {
        Notice::Pushed(_) => Kind::SyncDone,
        Notice::Conflicts(_) => Kind::Conflict,
        Notice::Offline => Kind::SyncDefer,
        Notice::SyncFailed(_) => Kind::SyncFail,
        Notice::Updated => Kind::RemoteChange,
        Notice::ApplyFailed(_) => Kind::RemoteFail,
        Notice::PollFailed(_) => Kind::RemoteFail,
    };
    let code: Code = match notice {
        Notice::Conflicts(_) => Code::Conflict,
        Notice::Offline => Code::Offline,
        _ => classified,
    };
    let action: Action = match notice {
        Notice::Conflicts(_) => Action::Fix,
        _ => Action::Wait,
    };
    match notice.log() {
        Some((level, text)) => {
            let severity: Level = match level {
                LogLevel::Error => Level::Error,
                _ => Level::Warn,
            };
            let event = session.event(kind, severity, Source::Sync, now_ms);
            event.error(Error::new(text.as_str(), code, action))
        },
        None => {
            let event = session.event(kind, Level::Info, Source::Sync, now_ms);
            match notice {
                Notice::Pushed(n) => {
                    let mut entries: Vec<(String, Value)> = Vec::new();
                    entries.push(("synced".to_owned(), Value::Unsigned(*n as u64)));
                    event.data(Value::Object(entries))
                },
                _ => event,
            }
        },
    }
}

/// Whether a payload holds a text under a name at a position.
pub open spec fn holds_text(data: Option<Value>, i: int, name: Seq<char>, text: Seq<char>) -> bool {
    &&& data is Some
    &&& data->0 is Object
    &&& 0 <= i < data->0->Object_0@.len()
    &&& data->0->Object_0@[i].0@ == name
    &&& data->0->Object_0@[i].1.chars() == Some(text)
}

/// Whether an event is the one for a notice of the file system.
pub open spec fn tells_file(event: Event, notice: VfsNotice) -> bool {
    &&& event.level == Level::Info
    &&& event.source == Source::Vfs
    &&& event.error is None
    &&& event.data is Some
    &&& event.data->0 is Object
    &&& match notice {
        VfsNotice::Written(path, bytes) => {
            &&& event.kind == Kind::FileChange
            &&& event.data->0->Object_0@.len() == 2
            &&& holds_text(event.data, 0, "path"@, utf8_lossy(path@))
            &&& event.data->0->Object_0@[1].0@ == "bytes"@
            &&& event.data->0->Object_0@[1].1 matches Value::Unsigned(n) && n == bytes
        },
        VfsNotice::Created(path) => {
            &&& event.kind == Kind::FileCreate
            &&& event.data->0->Object_0@.len() == 1
            &&& holds_text(event.data, 0, "path"@, utf8_lossy(path@))
        },
        VfsNotice::Deleted(path) => {
            &&& event.kind == Kind::FileDelete
            &&& event.data->0->Object_0@.len() == 1
            &&& holds_text(event.data, 0, "path"@, utf8_lossy(path@))
        },
        VfsNotice::Renamed(from, to) => {
            &&& event.kind == Kind::FileRename
            &&& event.data->0->Object_0@.len() == 2
            &&& holds_text(event.data, 0, "oldPath"@, utf8_lossy(from@))
            &&& holds_text(event.data, 1, "newPath"@, utf8_lossy(to@))
        },
    }
}

fn path_entry(name: &str, path: &FsPath) -> (r: (String, Value))
    ensures
        r.0@ == name@,
        r.1.chars() == Some(utf8_lossy(path@)),
{
    (name.to_owned(), Value::Text(path.display()))
}

/// Makes the event for a notice of the file system.
pub fn file_event(session: &mut Session, notice: &VfsNotice, now_ms: u64) -> (r: Event)
    requires
        old(session).events_made() < u64::MAX,
    ensures
        tells_file(r, *notice),
        r.seq == old(session).events_made() + 1,
        r.time == now_ms,
        r.mount_id@ == old(session).id(),
        r.op_id is None,
        final(session).events_made() == r.seq,
        final(session).ops_started() == old(session).ops_started(),
        final(session).same_session(*old(session)),
{
    let mut entries: Vec<(String, Value)> = Vec::new();
    let kind: Kind = match notice {
        VfsNotice::Written(path, bytes) => {
            entries.push(path_entry("path", path));
            entries.push(("bytes".to_owned(), Value::Unsigned(*bytes as u64)));
            Kind::FileChange
        },
        VfsNotice::Created(path) => {
            entries.push(path_entry("path", path));
            Kind::FileCreate
        },
        VfsNotice::Deleted(path) => {
            entries.push(path_entry("path", path));
            Kind::FileDelete
        },
        VfsNotice::Renamed(from, to) => {
            entries.push(path_entry("oldPath", from));
            entries.push(path_entry("newPath", to));
            Kind::FileRename
        },
    };
    let event = session.event(kind, Level::Info, Source::Vfs, now_ms);
    event.data(Value::Object(entries))
}

/// A push is told with the number of files, an update without more; what else a
/// sync or a poll comes to is told as a problem with its message and code. All
/// carry the next number of the session.
pub proof fn law_sync_events_tell_what_happened(
    session: &mut Session,
    notice: Notice,
    classified: Code,
    now_ms: u64,
    text: Option<(LogLevel, String)>,
    event: Event,
)
    requires
        call_ensures(sync_event, (session, &notice, classified, now_ms), event),
        call_ensures(Notice::log, (&notice,), text),
    ensures
        event.seq == old(session).events_made() + 1,
        event.mount_id@ == old(session).id(),
        event.time == now_ms,
        event.source is Sync,
        event.op_id is None,
        final(session).events_made() == old(session).events_made() + 1,
        final(session).ops_started() == old(session).ops_started(),
        final(session).id() == old(session).id(),
        final(session).backend_name() == old(session).backend_name(),
        final(session).mount_path() == old(session).mount_path(),
        final(session).local_path() == old(session).local_path(),
        notice is Pushed ==> event.kind is SyncDone,
        notice matches Notice::Pushed(n) ==> (event.data matches Some(Value::Object(entries))
            && entries@.len() == 1 && entries@[0].0@ == "synced"@ && (
        entries@[0].1 matches Value::Unsigned(m) && m == n)),
        notice is Updated ==> event.kind is RemoteChange,
        notice is Pushed || notice is Updated ==> event.level is Info && event.error is None,
        notice is Conflicts ==> event.kind is Conflict && event.error is Some
            && event.error->0.code is Conflict && event.error->0.action is Fix,
        notice is Offline ==> event.kind is SyncDefer && event.error is Some
            && event.error->0.code is Offline && event.error->0.action is Wait,
        notice is SyncFailed ==> event.kind is SyncFail && event.level is Error,
        notice is ApplyFailed || notice is PollFailed ==> event.kind is RemoteFail,
        notice is Conflicts || notice is Offline || notice is ApplyFailed || notice is PollFailed
            ==> event.level is Warn,
        notice is SyncFailed || notice is ApplyFailed || notice is PollFailed
            ==> event.error is Some && event.error->0.code == classified
            && event.error->0.action is Wait,
        text matches Some((_, message)) ==> event.error is Some && event.error->0.message@
            == message@,
{
}

/// A change of a file is told with its path, a write also with the number of
/// bytes, a rename with both paths.
pub proof fn law_file_events_name_the_file(
    session: &mut Session,
    notice: VfsNotice,
    now_ms: u64,
    event: Event,
)
    requires
        call_ensures(file_event, (session, &notice, now_ms), event),
    ensures
        event.seq == old(session).events_made() + 1,
        event.mount_id@ == old(session).id(),
        event.time == now_ms,
        event.source is Vfs,
        event.op_id is None,
        final(session).events_made() == old(session).events_made() + 1,
        final(session).ops_started() == old(session).ops_started(),
        final(session).id() == old(session).id(),
        final(session).backend_name() == old(session).backend_name(),
        final(session).mount_path() == old(session).mount_path(),
        final(session).local_path() == old(session).local_path(),
        event.level is Info,
        event.error is None,
        event.data matches Some(Value::Object(entries)) && match notice {
            VfsNotice::Written(path, bytes) => {
                &&& event.kind is FileChange
                &&& entries@.len() == 2
                &&& entries@[0].0@ == "path"@
                &&& entries@[0].1 matches Value::Text(t) && t@ == utf8_lossy(path@)
                &&& entries@[1].0@ == "bytes"@
                &&& entries@[1].1 matches Value::Unsigned(n) && n == bytes
            },
            VfsNotice::Created(path) => {
                &&& event.kind is FileCreate
                &&& entries@.len() == 1
                &&& entries@[0].0@ == "path"@
                &&& entries@[0].1 matches Value::Text(t) && t@ == utf8_lossy(path@)
            },
            VfsNotice::Deleted(path) => {
                &&& event.kind is FileDelete
                &&& entries@.len() == 1
                &&& entries@[0].0@ == "path"@
                &&& entries@[0].1 matches Value::Text(t) && t@ == utf8_lossy(path@)
            },
            VfsNotice::Renamed(from, to) => {
                &&& event.kind is FileRename
                &&& entries@.len() == 2
                &&& entries@[0].0@ == "oldPath"@
                &&& entries@[0].1 matches Value::Text(t) && t@ == utf8_lossy(from@)
                &&& entries@[1].0@ == "newPath"@
                &&& entries@[1].1 matches Value::Text(t) && t@ == utf8_lossy(to@)
            },
        },
{
}

} // verus!
