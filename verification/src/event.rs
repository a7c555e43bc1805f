//! Events of a mounted file system, as user interfaces and tests see them.
//!
//! The caller reads the clocks: times are handed in.
use vstd::prelude::*;

use crate::json::Value;
use crate::paths::FsPath;
use crate::text::{digit_char, digits, hex, hex_text, lemma_split_at_first};

verus! {

/// Version of the event format.
pub const VERSION: u16 = 1;

/// An event.
#[derive(Debug)]
pub struct Event {
    /// Version of the event format.
    pub version: u16,
    /// Number of the event within its session, from one on.
    pub seq: u64,
    /// Unix time in milliseconds.
    pub time: u64,
    /// Session.
    pub mount_id: String,
    /// Operation, where the event belongs to one.
    pub op_id: Option<u64>,
    /// What happened.
    pub kind: Kind,
    /// How severe it is.
    pub level: Level,
    /// Which part reports it.
    pub source: Source,
    /// Payload.
    pub data: Option<Value>,
    /// Error details.
    pub error: Option<Error>,
}

impl Event {
    /// The event with a payload.
    pub fn data(self, data: Value) -> (r: Event)
        ensures
            r == (Event { data: Some(data), ..self }),
    {
        Event { data: Some(data), ..self }
    }

    /// The event with error details.
    pub fn error(self, error: Error) -> (r: Event)
        ensures
            r == (Event { error: Some(error), ..self }),
    {
        Event { error: Some(error), ..self }
    }
}

/// What happened.
#[derive(Debug, Clone, Copy, PartialEq, Eq, Structural)]
pub enum Kind {
    /// Mounting started.
    MountStart,
    /// The mount can be used.
    MountReady,
    /// The mount stopped.
    MountStop,
    /// The mount failed.
    MountFail,
    /// File changed.
    FileChange,
    /// File flushed.
    FileFlush,
    /// File created.
    FileCreate,
    /// File deleted.
    FileDelete,
    /// File renamed.
    FileRename,
    /// A sync of local changes started.
    SyncStart,
    /// A sync of local changes completed.
    SyncDone,
    /// A sync of local changes was deferred.
    SyncDefer,
    /// A sync of local changes failed.
    SyncFail,
    /// The remote side was polled.
    RemotePoll,
    /// Remote changes were found.
    RemoteChange,
    /// Remote changes were applied.
    RemoteApply,
    /// Remote work was deferred.
    RemoteDefer,
    /// Remote work failed.
    RemoteFail,
    /// Conflict found.
    Conflict,
    /// A queue dropped work.
    QueueDrop,
    /// Authentication failed.
    AuthFail,
}

/// How severe an event is.
#[derive(Debug, Clone, Copy, PartialEq, Eq, Structural)]
pub enum Level {
    /// Information.
    Info,
    /// A problem that can be recovered from.
    Warn,
    /// A failed operation.
    Error,
}

/// Which part reports an event.
#[derive(Debug, Clone, Copy, PartialEq, Eq, Structural)]
pub enum Source {
    /// Mounting.
    Mount,
    /// File system layer.
    Vfs,
    /// Sync engine.
    Sync,
    /// Git backend.
    Git,
    /// Wiki backend.
    Wiki,
    /// FUSE adapter.
    Fuse,
    /// Graphical interface.
    Gui,
}

/// Error code.
#[derive(Debug, Clone, Copy, PartialEq, Eq, Structural)]
pub enum Code {
    /// The backend or the network cannot be reached.
    Offline,
    /// The operation timed out.
    Timeout,
    /// Authentication failed.
    AuthFailed,
    /// Access denied.
    PermissionDenied,
    /// Not found.
    NotFound,
    /// Conflict.
    Conflict,
    /// The remote side limits the rate of requests.
    RateLimited,
    /// Invalid configuration.
    InvalidConfig,
    /// Invalid input.
    InvalidInput,
    /// File system failure.
    FsIo,
    /// A command of the backend failed.
    BackendCommandFailed,
    /// The remote side broke its protocol.
    ProtocolViolation,
    /// Internal error.
    Internal,
}

/// What to do about an error.
#[derive(Debug, Clone, Copy, PartialEq, Eq, Structural)]
pub enum Action {
    /// Try again.
    Retry,
    /// Wait: it is tried again without help.
    Wait,
    /// Mend the configuration, the credentials or the input.
    Fix,
    /// Nothing: the operation cannot go on.
    Stop,
}

/// The name of a kind on the wire.
pub open spec fn kind_name(kind: Kind) -> Seq<char> {
    match kind {
        Kind::MountStart => "mount.start"@,
        Kind::MountReady => "mount.ready"@,
        Kind::MountStop => "mount.stop"@,
        Kind::MountFail => "mount.fail"@,
        Kind::FileChange => "file.change"@,
        Kind::FileFlush => "file.flush"@,
        Kind::FileCreate => "file.create"@,
        Kind::FileDelete => "file.delete"@,
        Kind::FileRename => "file.rename"@,
        Kind::SyncStart => "sync.start"@,
        Kind::SyncDone => "sync.done"@,
        Kind::SyncDefer => "sync.defer"@,
        Kind::SyncFail => "sync.fail"@,
        Kind::RemotePoll => "remote.poll"@,
        Kind::RemoteChange => "remote.change"@,
        Kind::RemoteApply => "remote.apply"@,
        Kind::RemoteDefer => "remote.defer"@,
        Kind::RemoteFail => "remote.fail"@,
        Kind::Conflict => "conflict"@,
        Kind::QueueDrop => "queue.drop"@,
        Kind::AuthFail => "auth.fail"@,
    }
}

/// The name of an error code on the wire.
pub open spec fn code_name(code: Code) -> Seq<char> {
    match code {
        Code::Offline => "offline"@,
        Code::Timeout => "timeout"@,
        Code::AuthFailed => "auth_failed"@,
        Code::PermissionDenied => "permission_denied"@,
        Code::NotFound => "not_found"@,
        Code::Conflict => "conflict"@,
        Code::RateLimited => "rate_limited"@,
        Code::InvalidConfig => "invalid_config"@,
        Code::InvalidInput => "invalid_input"@,
        Code::FsIo => "fs_io"@,
        Code::BackendCommandFailed => "backend_command_failed"@,
        Code::ProtocolViolation => "protocol_violation"@,
        Code::Internal => "internal"@,
    }
}

impl Kind {
    /// The name on the wire.
    pub fn wire_name(self) -> (r: &'static str)
        ensures
            r@ == kind_name(self),
    {
        match self {
            Kind::MountStart => "mount.start",
            Kind::MountReady => "mount.ready",
            Kind::MountStop => "mount.stop",
            Kind::MountFail => "mount.fail",
            Kind::FileChange => "file.change",
            Kind::FileFlush => "file.flush",
            Kind::FileCreate => "file.create",
            Kind::FileDelete => "file.delete",
            Kind::FileRename => "file.rename",
            Kind::SyncStart => "sync.start",
            Kind::SyncDone => "sync.done",
            Kind::SyncDefer => "sync.defer",
            Kind::SyncFail => "sync.fail",
            Kind::RemotePoll => "remote.poll",
            Kind::RemoteChange => "remote.change",
            Kind::RemoteApply => "remote.apply",
            Kind::RemoteDefer => "remote.defer",
            Kind::RemoteFail => "remote.fail",
            Kind::Conflict => "conflict",
            Kind::QueueDrop => "queue.drop",
            Kind::AuthFail => "auth.fail",
        }
    }
}

impl Level {
    /// The name on the wire.
    pub fn wire_name(self) -> (r: &'static str)
        ensures
            r@ == match self {
                Level::Info => "info"@,
                Level::Warn => "warn"@,
                Level::Error => "error"@,
            },
    {
        match self {
            Level::Info => "info",
            Level::Warn => "warn",
            Level::Error => "error",
        }
    }
}

impl Source {
    /// The name on the wire.
    pub fn wire_name(self) -> (r: &'static str)
        ensures
            r@ == match self {
                Source::Mount => "mount"@,
                Source::Vfs => "vfs"@,
                Source::Sync => "sync"@,
                Source::Git => "git"@,
                Source::Wiki => "wiki"@,
                Source::Fuse => "fuse"@,
                Source::Gui => "gui"@,
            },
    {
        match self {
            Source::Mount => "mount",
            Source::Vfs => "vfs",
            Source::Sync => "sync",
            Source::Git => "git",
            Source::Wiki => "wiki",
            Source::Fuse => "fuse",
            Source::Gui => "gui",
        }
    }
}

impl Code {
    /// The name on the wire.
    pub fn wire_name(self) -> (r: &'static str)
        ensures
            r@ == code_name(self),
    {
        match self {
            Code::Offline => "offline",
            Code::Timeout => "timeout",
            Code::AuthFailed => "auth_failed",
            Code::PermissionDenied => "permission_denied",
            Code::NotFound => "not_found",
            Code::Conflict => "conflict",
            Code::RateLimited => "rate_limited",
            Code::InvalidConfig => "invalid_config",
            Code::InvalidInput => "invalid_input",
            Code::FsIo => "fs_io",
            Code::BackendCommandFailed => "backend_command_failed",
            Code::ProtocolViolation => "protocol_violation",
            Code::Internal => "internal",
        }
    }
}

impl Action {
    /// The name on the wire.
    pub fn wire_name(self) -> (r: &'static str)
        ensures
            r@ == match self {
                Action::Retry => "retry"@,
                Action::Wait => "wait"@,
                Action::Fix => "fix"@,
                Action::Stop => "stop"@,
            },
    {
        match self {
            Action::Retry => "retry",
            Action::Wait => "wait",
            Action::Fix => "fix",
            Action::Stop => "stop",
        }
    }
}

/// Error details of an event.
#[derive(Debug, Clone, PartialEq, Eq)]
pub struct Error {
    /// Error code.
    pub code: Code,
    /// Message for people.
    pub message: String,
    /// What to do.
    pub action: Action,
}

impl Error {
    /// Error details.
    pub fn new(message: &str, code: Code, action: Action) -> (r: Error)
        ensures
            r.code == code,
            r.message@ == message@,
            r.action == action,
    {
        Error { code, message: message.to_owned(), action }
    }
}

/// A mount session: what happens between a mount and its end.
#[derive(Debug)]
pub struct Session {
    mount_id: String,
    backend: &'static str,
    mount_point: FsPath,
    local_dir: FsPath,
    started_at_ms: u64,
    event_seq: u64,
    op_seq: u64,
}

/// The name of a session: when it started, in which process, and its number there.
pub open spec fn mount_id_chars(now_ms: nat, pid: nat, seq: nat) -> Seq<char> {
    seq!['m'] + hex(now_ms) + seq!['-'] + hex(pid) + seq!['-'] + hex(seq)
}

impl Session {
    /// The name of the session.
    pub closed spec fn id(&self) -> Seq<char> {
        self.mount_id@
    }

    /// The name of the backend.
    pub closed spec fn backend_name(&self) -> Seq<char> {
        self.backend@
    }

    /// The mount point.
    pub closed spec fn mount_path(&self) -> Seq<u8> {
        self.mount_point@
    }

    /// The local directory.
    pub closed spec fn local_path(&self) -> Seq<u8> {
        self.local_dir@
    }

    /// When the session started.
    pub closed spec fn start(&self) -> u64 {
        self.started_at_ms
    }

    /// How many events the session made.
    pub closed spec fn events_made(&self) -> u64 {
        self.event_seq
    }

    /// How many operations the session started.
    pub closed spec fn ops_started(&self) -> u64 {
        self.op_seq
    }

    /// Whether only the counters differ.
    pub open spec fn same_session(&self, other: Session) -> bool {
        &&& self.id() == other.id()
        &&& self.backend_name() == other.backend_name()
        &&& self.mount_path() == other.mount_path()
        &&& self.local_path() == other.local_path()
        &&& self.start() == other.start()
    }

    /// A session that starts now, in the given process and with the given number.
    pub fn new(
        backend: &'static str,
        mount_point: FsPath,
        local_dir: FsPath,
        now_ms: u64,
        pid: u32,
        seq: u64,
    ) -> (r: Session)
        ensures
            r.id() == mount_id_chars(now_ms as nat, pid as nat, seq as nat),
            r.backend_name() == backend@,
            r.mount_path() == mount_point@,
            r.local_path() == local_dir@,
            r.start() == now_ms,
            r.events_made() == 0,
            r.ops_started() == 0,
    {
        let mut id = String::new();
        id.push('m');
        id.append(hex_text(now_ms).as_str());
        id.push('-');
        id.append(hex_text(pid as u64).as_str());
        id.push('-');
        id.append(hex_text(seq).as_str());
        assert(id@ =~= mount_id_chars(now_ms as nat, pid as nat, seq as nat));
        Session {
            mount_id: id,
            backend,
            mount_point,
            local_dir,
            started_at_ms: now_ms,
            event_seq: 0,
            op_seq: 0,
        }
    }

    /// The name of the session.
    pub fn mount_id(&self) -> (r: &str)
        ensures
            r@ == self.id(),
    {
        self.mount_id.as_str()
    }

    /// The name of the backend.
    pub fn backend(&self) -> (r: &'static str)
        ensures
            r@ == self.backend_name(),
    {
        self.backend
    }

    /// The mount point.
    pub fn mount_point(&self) -> (r: &FsPath)
        ensures
            r@ == self.mount_path(),
    {
        &self.mount_point
    }

    /// The local directory.
    pub fn local_dir(&self) -> (r: &FsPath)
        ensures
            r@ == self.local_path(),
    {
        &self.local_dir
    }

    /// When the session started, in Unix milliseconds.
    pub fn started_at_ms(&self) -> (r: u64)
        ensures
            r == self.start(),
    {
        self.started_at_ms
    }

    /// Starts an operation; `now_ns` is the monotonic clock.
    pub fn op(&mut self, now_ns: u64) -> (r: Op)
        requires
            old(self).ops_started() < u64::MAX,
        ensures
            r.number() == old(self).ops_started() + 1,
            r.begin() == now_ns,
            final(self).ops_started() == r.number(),
            final(self).events_made() == old(self).events_made(),
            final(self).same_session(*old(self)),
    {
        self.op_seq = self.op_seq + 1;
        Op { id: self.op_seq, started_at_ns: now_ns }
    }

    /// Whether an event is the next one of a session.
    pub open spec fn next_event(
        before: Session,
        event: Event,
        op_id: Option<u64>,
        kind: Kind,
        level: Level,
        source: Source,
        now_ms: u64,
    ) -> bool {
        &&& event.version == VERSION
        &&& event.seq == before.events_made() + 1
        &&& event.time == now_ms
        &&& event.mount_id@ == before.id()
        &&& event.op_id == op_id
        &&& event.kind == kind
        &&& event.level == level
        &&& event.source == source
        &&& event.data is None
        &&& event.error is None
    }

    /// Makes an event of the session.
    pub fn event(&mut self, kind: Kind, level: Level, source: Source, now_ms: u64) -> (r: Event)
        requires
            old(self).events_made() < u64::MAX,
        ensures
            Session::next_event(*old(self), r, None, kind, level, source, now_ms),
            final(self).events_made() == r.seq,
            final(self).ops_started() == old(self).ops_started(),
            final(self).same_session(*old(self)),
    {
        self.make_event(None, kind, level, source, now_ms)
    }

    /// Makes an event of an operation of the session.
    pub fn op_event(
        &mut self,
        op: &Op,
        kind: Kind,
        level: Level,
        source: Source,
        now_ms: u64,
    ) -> (r: Event)
        requires
            old(self).events_made() < u64::MAX,
        ensures
            Session::next_event(*old(self), r, Some(op.number()), kind, level, source, now_ms),
            final(self).events_made() == r.seq,
            final(self).ops_started() == old(self).ops_started(),
            final(self).same_session(*old(self)),
    {
        self.make_event(Some(op.id), kind, level, source, now_ms)
    }

    fn make_event(
        &mut self,
        op_id: Option<u64>,
        kind: Kind,
        level: Level,
        source: Source,
        now_ms: u64,
    ) -> (r: Event)
        requires
            old(self).events_made() < u64::MAX,
        ensures
            Session::next_event(*old(self), r, op_id, kind, level, source, now_ms),
            final(self).events_made() == r.seq,
            final(self).ops_started() == old(self).ops_started(),
            final(self).same_session(*old(self)),
    {
        self.event_seq = self.event_seq + 1;
        Event {
            version: VERSION,
            seq: self.event_seq,
            time: now_ms,
            mount_id: self.mount_id.clone(),
            op_id,
            kind,
            level,
            source,
            data: None,
            error: None,
        }
    }
}

/// An operation of a session.
#[derive(Debug, Clone)]
pub struct Op {
    id: u64,
    started_at_ns: u64,
}

impl Op {
    /// The number of the operation within its session.
    pub closed spec fn number(&self) -> u64 {
        self.id
    }

    /// When the operation started, by the monotonic clock.
    pub closed spec fn begin(&self) -> u64 {
        self.started_at_ns
    }

    /// The number of the operation within its session.
    pub fn id(&self) -> (r: u64)
        ensures
            r == self.number(),
    {
        self.id
    }

    /// The milliseconds since the operation started; none if the clock went back.
    pub fn elapsed_ms(&self, now_ns: u64) -> (r: u64)
        ensures
            r == if now_ns >= self.begin() {
                (now_ns - self.begin()) / 1_000_000
            } else {
                0
            },
    {
        if now_ns >= self.started_at_ns {
            (now_ns - self.started_at_ns) / 1_000_000
        } else {
            0
        }
    }
}

/// Unix milliseconds as they stand in events: at most `u64::MAX`.
pub fn clamp_millis(millis: u128) -> (r: u64)
    ensures
        r == if millis <= u64::MAX {
            millis as int
        } else {
            u64::MAX as int
        },
{
    if millis <= u64::MAX as u128 {
        millis as u64
    } else {
        u64::MAX
    }
}

/// Receives events.
pub trait Sink {
    /// Takes an event.
    fn emit(&mut self, event: Event);
}

/// A sink that ignores events.
pub struct NoopSink;

impl Sink for NoopSink {
    fn emit(&mut self, _event: Event) {
    }
}

/// A sink that keeps all events.
#[derive(Debug)]
pub struct RecordSink {
    events: Vec<Event>,
}

impl RecordSink {
    /// The events so far.
    pub closed spec fn recorded(&self) -> Seq<Event> {
        self.events@
    }

    /// A sink without events.
    pub fn new() -> (r: RecordSink)
        ensures
            r.recorded() == Seq::<Event>::empty(),
    {
        RecordSink { events: Vec::new() }
    }

    /// The events so far.
    pub fn snapshot(&self) -> (r: &[Event])
        ensures
            r@ == self.recorded(),
    {
        self.events.as_slice()
    }
}

impl Default for RecordSink {
    fn default() -> (r: RecordSink)
        ensures
            r.recorded() == Seq::<Event>::empty(),
    {
        RecordSink::new()
    }
}

impl Sink for RecordSink {
    fn emit(&mut self, event: Event)
        ensures
            final(self).recorded() == old(self).recorded().push(event),
    {
        self.events.push(event);
    }
}

proof fn lemma_hex_chars(n: nat)
    ensures
        digits(n, 16).len() > 0,
        forall|i: int| 0 <= i < digits(n, 16).len() ==> #[trigger] digits(n, 16)[i] != '-',
    decreases n,
{
    if n >= 16 {
        lemma_hex_chars(n / 16);
    }
}

/// Two numbers with the same digits are equal.
proof fn lemma_hex_injective(a: nat, b: nat)
    requires
        digits(a, 16) == digits(b, 16),
    ensures
        a == b,
    decreases a,
{
    let x = digits(a, 16);
    let y = digits(b, 16);
    assert(x.last() == y.last());
    lemma_hex_chars(a / 16);
    lemma_hex_chars(b / 16);
    if a >= 16 && b >= 16 {
        assert(x.drop_last() =~= digits(a / 16, 16));
        assert(y.drop_last() =~= digits(b / 16, 16));
        lemma_hex_injective(a / 16, b / 16);
        assert(digit_char(a % 16) == digit_char(b % 16));
        assert(a % 16 == b % 16);
    } else if a >= 16 {
        assert(x.len() > 1 && y.len() == 1);
    } else if b >= 16 {
        assert(y.len() > 1 && x.len() == 1);
    } else {
        assert(digit_char(a) == digit_char(b));
    }
}

/// Sessions that differ in their start, their process or their number have
/// different names.
pub proof fn law_mount_ids_differ(
    now1: nat,
    pid1: nat,
    seq1: nat,
    now2: nat,
    pid2: nat,
    seq2: nat,
)
    requires
        mount_id_chars(now1, pid1, seq1) == mount_id_chars(now2, pid2, seq2),
    ensures
        now1 == now2,
        pid1 == pid2,
        seq1 == seq2,
{
    lemma_hex_chars(now1);
    lemma_hex_chars(now2);
    lemma_hex_chars(pid1);
    lemma_hex_chars(pid2);
    let a = seq!['m'] + hex(now1);
    let b = seq!['m'] + hex(now2);
    let x = hex(pid1).push('-') + hex(seq1);
    let y = hex(pid2).push('-') + hex(seq2);
    assert(a.push('-') + x =~= mount_id_chars(now1, pid1, seq1));
    assert(b.push('-') + y =~= mount_id_chars(now2, pid2, seq2));
    lemma_split_at_first(a, b, '-', x, y);
    lemma_split_at_first(hex(pid1), hex(pid2), '-', hex(seq1), hex(seq2));
    assert(hex(now1) =~= a.drop_first());
    assert(hex(now2) =~= b.drop_first());
    lemma_hex_injective(now1, now2);
    lemma_hex_injective(pid1, pid2);
    lemma_hex_injective(seq1, seq2);
}

/// The events of a session are numbered from one on without a gap: the event
/// after another has the next number, and both name the session.
pub proof fn law_events_are_numbered(
    start: Session,
    first: Event,
    between: Session,
    second: Event,
    op1: Option<u64>,
    op2: Option<u64>,
    now1: u64,
    now2: u64,
)
    requires
        Session::next_event(start, first, op1, first.kind, first.level, first.source, now1),
        between.events_made() == first.seq,
        between.same_session(start),
        Session::next_event(between, second, op2, second.kind, second.level, second.source, now2),
    ensures
        second.seq == first.seq + 1,
        start.events_made() == 0 ==> first.seq == 1,
        first.mount_id@ == second.mount_id@,
{
}

/// What each kind of event, level, source, error code and action is called on the
/// wire.
pub proof fn law_wire_names(
    kind: Kind,
    kind_text: &'static str,
    level: Level,
    level_text: &'static str,
    source: Source,
    source_text: &'static str,
    code: Code,
    code_text: &'static str,
    action: Action,
    action_text: &'static str,
)
    requires
        call_ensures(Kind::wire_name, (kind,), kind_text),
        call_ensures(Level::wire_name, (level,), level_text),
        call_ensures(Source::wire_name, (source,), source_text),
        call_ensures(Code::wire_name, (code,), code_text),
        call_ensures(Action::wire_name, (action,), action_text),
    ensures
        kind is MountStart ==> kind_text@ == "mount.start"@,
        kind is MountReady ==> kind_text@ == "mount.ready"@,
        kind is MountStop ==> kind_text@ == "mount.stop"@,
        kind is MountFail ==> kind_text@ == "mount.fail"@,
        kind is FileChange ==> kind_text@ == "file.change"@,
        kind is FileFlush ==> kind_text@ == "file.flush"@,
        kind is FileCreate ==> kind_text@ == "file.create"@,
        kind is FileDelete ==> kind_text@ == "file.delete"@,
        kind is FileRename ==> kind_text@ == "file.rename"@,
        kind is SyncStart ==> kind_text@ == "sync.start"@,
        kind is SyncDone ==> kind_text@ == "sync.done"@,
        kind is SyncDefer ==> kind_text@ == "sync.defer"@,
        kind is SyncFail ==> kind_text@ == "sync.fail"@,
        kind is RemotePoll ==> kind_text@ == "remote.poll"@,
        kind is RemoteChange ==> kind_text@ == "remote.change"@,
        kind is RemoteApply ==> kind_text@ == "remote.apply"@,
        kind is RemoteDefer ==> kind_text@ == "remote.defer"@,
        kind is RemoteFail ==> kind_text@ == "remote.fail"@,
        kind is Conflict ==> kind_text@ == "conflict"@,
        kind is QueueDrop ==> kind_text@ == "queue.drop"@,
        kind is AuthFail ==> kind_text@ == "auth.fail"@,
        level is Info ==> level_text@ == "info"@,
        level is Warn ==> level_text@ == "warn"@,
        level is Error ==> level_text@ == "error"@,
        source is Mount ==> source_text@ == "mount"@,
        source is Vfs ==> source_text@ == "vfs"@,
        source is Sync ==> source_text@ == "sync"@,
        source is Git ==> source_text@ == "git"@,
        source is Wiki ==> source_text@ == "wiki"@,
        source is Fuse ==> source_text@ == "fuse"@,
        source is Gui ==> source_text@ == "gui"@,
        code is Offline ==> code_text@ == "offline"@,
        code is Timeout ==> code_text@ == "timeout"@,
        code is AuthFailed ==> code_text@ == "auth_failed"@,
        code is PermissionDenied ==> code_text@ == "permission_denied"@,
        code is NotFound ==> code_text@ == "not_found"@,
        code is Conflict ==> code_text@ == "conflict"@,
        code is RateLimited ==> code_text@ == "rate_limited"@,
        code is InvalidConfig ==> code_text@ == "invalid_config"@,
        code is InvalidInput ==> code_text@ == "invalid_input"@,
        code is FsIo ==> code_text@ == "fs_io"@,
        code is BackendCommandFailed ==> code_text@ == "backend_command_failed"@,
        code is ProtocolViolation ==> code_text@ == "protocol_violation"@,
        code is Internal ==> code_text@ == "internal"@,
        action is Retry ==> action_text@ == "retry"@,
        action is Wait ==> action_text@ == "wait"@,
        action is Fix ==> action_text@ == "fix"@,
        action is Stop ==> action_text@ == "stop"@,
{
}

/// A session is named by its start, its process and its number, each in base
/// sixteen; it tells what it was made of and begins without events.
pub proof fn law_session_is_named(
    backend: &'static str,
    mount_point: FsPath,
    local_dir: FsPath,
    now_ms: u64,
    pid: u32,
    number: u64,
    session: Session,
    id: &str,
    start: u64,
)
    requires
        call_ensures(Session::new, (backend, mount_point, local_dir, now_ms, pid, number), session),
        call_ensures(Session::mount_id, (&session,), id),
        call_ensures(Session::started_at_ms, (&session,), start),
    ensures
        id@ == seq!['m'] + hex(now_ms as nat) + seq!['-'] + hex(pid as nat) + seq!['-'] + hex(
            number as nat,
        ),
        session.backend_name() == backend@,
        session.mount_path() == mount_point@,
        session.local_path() == local_dir@,
        start == now_ms,
        session.events_made() == 0,
        session.ops_started() == 0,
{
}

/// What a session is asked is what it holds.
pub proof fn law_session_tells_its_parts(
    session: Session,
    id: &str,
    backend: &'static str,
    mount_point: &FsPath,
    local_dir: &FsPath,
)
    requires
        call_ensures(Session::mount_id, (&session,), id),
        call_ensures(Session::backend, (&session,), backend),
        call_ensures(Session::mount_point, (&session,), mount_point),
        call_ensures(Session::local_dir, (&session,), local_dir),
    ensures
        id@ == session.id(),
        backend@ == session.backend_name(),
        mount_point@ == session.mount_path(),
        local_dir@ == session.local_path(),
{
}

/// Every event has the next number of its session and says what it was made of;
/// an event of an operation names the operation.
pub proof fn law_events_say_what_they_are_made_of(
    session: &mut Session,
    later: &mut Session,
    op: &Op,
    kind: Kind,
    level: Level,
    source: Source,
    now_ms: u64,
    event: Event,
    op_event: Event,
)
    requires
        call_ensures(Session::event, (session, kind, level, source, now_ms), event),
        call_ensures(Session::op_event, (later, op, kind, level, source, now_ms), op_event),
    ensures
        event.version == 1,
        event.seq == old(session).events_made() + 1,
        final(session).events_made() == event.seq,
        final(session).id() == old(session).id(),
        final(session).ops_started() == old(session).ops_started(),
        event.time == now_ms,
        event.mount_id@ == old(session).id(),
        event.op_id is None,
        event.kind == kind,
        event.level == level,
        event.source == source,
        event.data is None,
        event.error is None,
        op_event.seq == old(later).events_made() + 1,
        final(later).events_made() == op_event.seq,
        final(later).id() == old(later).id(),
        op_event.time == now_ms,
        op_event.mount_id@ == old(later).id(),
        op_event.op_id == Some(op.number()),
        op_event.kind == kind,
        op_event.level == level,
        op_event.source == source,
{
}

/// A payload or error details are put into an event and change nothing else.
pub proof fn law_events_carry_what_they_are_given(
    event: Event,
    value: Value,
    message: &str,
    code: Code,
    action: Action,
    error: Error,
    with_data: Event,
    with_error: Event,
)
    requires
        call_ensures(Error::new, (message, code, action), error),
        call_ensures(Event::data, (event, value), with_data),
        call_ensures(Event::error, (event, error), with_error),
    ensures
        error.message@ == message@,
        error.code == code,
        error.action == action,
        with_data.data == Some(value),
        with_data.error == event.error,
        with_data.kind == event.kind,
        with_data.seq == event.seq,
        with_data.time == event.time,
        with_data.mount_id == event.mount_id,
        with_data.op_id == event.op_id,
        with_data.level == event.level,
        with_data.source == event.source,
        with_error.error == Some(error),
        with_error.data == event.data,
        with_error.kind == event.kind,
        with_error.seq == event.seq,
        with_error.time == event.time,
        with_error.mount_id == event.mount_id,
        with_error.op_id == event.op_id,
        with_error.level == event.level,
        with_error.source == event.source,
{
}

/// Operations are numbered from one on, and the time since one began is told in
/// whole milliseconds, none if the clock went back.
pub proof fn law_operations_are_timed(
    session: &mut Session,
    now_ns: u64,
    op: Op,
    id: u64,
    later_ns: u64,
    elapsed: u64,
    millis: u128,
    clamped: u64,
)
    requires
        call_ensures(Session::op, (session, now_ns), op),
        call_ensures(Op::id, (&op,), id),
        call_ensures(Op::elapsed_ms, (&op, later_ns), elapsed),
        call_ensures(clamp_millis, (millis,), clamped),
    ensures
        id == old(session).ops_started() + 1,
        final(session).ops_started() == id,
        final(session).events_made() == old(session).events_made(),
        later_ns >= now_ns ==> elapsed * 1_000_000 <= later_ns - now_ns < (elapsed + 1) * 1_000_000,
        later_ns < now_ns ==> elapsed == 0,
        millis <= u64::MAX ==> clamped == millis,
        millis > u64::MAX ==> clamped == u64::MAX,
{
}

/// A recording sink keeps every event, in order.
pub proof fn law_sink_records_every_event(
    fresh: RecordSink,
    sink: &mut RecordSink,
    event: Event,
    snapshot: &[Event],
    asked: RecordSink,
)
    requires
        call_ensures(RecordSink::new, (), fresh),
        call_ensures(RecordSink::emit, (sink, event), ()),
        call_ensures(RecordSink::snapshot, (&asked,), snapshot),
    ensures
        fresh.recorded().len() == 0,
        final(sink).recorded() == old(sink).recorded().push(event),
        snapshot@ == asked.recorded(),
{
}

} // verus!
