//! The course of a mount, from its start to its end.
//!
//! The caller does what [`MountRun::action`] says, hands the outcome to
//! [`MountRun::step`] and passes on the event that it gives.
use vstd::prelude::*;

use crate::backend::Backend;
use crate::event::{Action, Code, Error, Event, Kind, Level, Op, Session, Source};
use crate::json::Value;
use crate::paths::utf8_lossy;

verus! {

/// What has to be done next.
#[derive(Debug, Clone, Copy, PartialEq, Eq, Structural)]
pub enum MountAction {
    /// Check that a FUSE driver is there.
    CheckFuse,
    /// Let the backend prepare the local directory.
    InitBackend,
    /// Start the sync engine and make the mount point.
    Prepare,
    /// Serve the file system until it is unmounted.
    Serve,
    /// Tell the sync engine to stop.
    StopEngine,
    /// Wait for the sync engine.
    JoinEngine,
    /// Nothing: the mount has ended.
    Nothing,
}

/// What follows when an action succeeded.
pub open spec fn next_action(action: MountAction) -> MountAction {
    match action {
        MountAction::CheckFuse => MountAction::InitBackend,
        MountAction::InitBackend => MountAction::Prepare,
        MountAction::Prepare => MountAction::Serve,
        MountAction::Serve => MountAction::StopEngine,
        MountAction::StopEngine => MountAction::JoinEngine,
        MountAction::JoinEngine => MountAction::Nothing,
        MountAction::Nothing => MountAction::Nothing,
    }
}

/// The kind of event that the outcome of an action gives rise to.
pub open spec fn emitted(action: MountAction, succeeded: bool) -> Option<Kind> {
    if !succeeded {
        Some(Kind::MountFail)
    } else {
        match action {
            MountAction::Prepare => Some(Kind::MountReady),
            MountAction::JoinEngine => Some(Kind::MountStop),
            _ => None,
        }
    }
}

/// The course of a mount. Its events are numbered by the session, which the sync
/// engine and the file system of the mount share.
#[derive(Debug)]
pub struct MountRun {
    op: Op,
    action: MountAction,
}

/// Whether a payload has a text under a name at a position.
pub open spec fn has_text(data: Option<Value>, i: int, name: Seq<char>, text: Seq<char>) -> bool {
    &&& data is Some
    &&& data->0 is Object
    &&& 0 <= i < data->0->Object_0@.len()
    &&& data->0->Object_0@[i].0@ == name
    &&& data->0->Object_0@[i].1.chars() == Some(text)
}

/// Whether a payload holds so many values.
pub open spec fn has_len(data: Option<Value>, n: nat) -> bool {
    data is Some && data->0 is Object && data->0->Object_0@.len() == n
}

/// Whether a payload tells how many milliseconds have passed.
pub open spec fn tells_elapsed(data: Option<Value>, elapsed_ms: int) -> bool {
    &&& has_len(data, 1)
    &&& data->0->Object_0@[0].0@ == "elapsedMs"@
    &&& data->0->Object_0@[0].1 matches Value::Unsigned(n) && n == elapsed_ms
}

/// The milliseconds since an operation began; none if the clock went back.
pub open spec fn elapsed(op: Op, now_ns: u64) -> int {
    if now_ns >= op.begin() {
        (now_ns - op.begin()) / 1_000_000
    } else {
        0
    }
}

fn text_entry(name: &str, text: &str) -> (r: (String, Value))
    ensures
        r.0@ == name@,
        r.1.chars() == Some(text@),
{
    (name.to_owned(), Value::Text(text.to_owned()))
}

impl MountRun {
    /// What has to be done next.
    pub closed spec fn upcoming(&self) -> MountAction {
        self.action
    }

    /// The operation that all events belong to.
    pub closed spec fn operation(&self) -> Op {
        self.op
    }

    /// Whether an event is the next one of a session, belongs to the mount and has
    /// the given kind and level.
    pub open spec fn event_of(
        &self,
        session: Session,
        event: Event,
        kind: Kind,
        level: Level,
        now_ms: u64,
    ) -> bool {
        &&& event.version == crate::event::VERSION
        &&& event.seq == session.events_made() + 1
        &&& event.time == now_ms
        &&& event.mount_id@ == session.id()
        &&& event.op_id == Some(self.operation().number())
        &&& event.kind == kind
        &&& event.level == level
        &&& event.source == Source::Mount
    }

    /// Begins a mount: gives the event that it started.
    pub fn begin(session: &mut Session, now_ms: u64, now_ns: u64) -> (r: (MountRun, Event))
        requires
            old(session).ops_started() < u64::MAX,
            old(session).events_made() < u64::MAX,
        ensures
            r.0.upcoming() == MountAction::CheckFuse,
            r.0.operation().number() == old(session).ops_started() + 1,
            r.0.operation().begin() == now_ns,
            final(session).same_session(*old(session)),
            final(session).ops_started() == old(session).ops_started() + 1,
            final(session).events_made() == r.1.seq,
            r.0.event_of(*old(session), r.1, Kind::MountStart, Level::Info, now_ms),
            r.1.error is None,
            has_len(r.1.data, 3),
            has_text(r.1.data, 0, "backend"@, old(session).backend_name()),
            has_text(r.1.data, 1, "mountPoint"@, utf8_lossy(old(session).mount_path())),
            has_text(r.1.data, 2, "localDir"@, utf8_lossy(old(session).local_path())),
    {
        let op = session.op(now_ns);
        let event = session.op_event(&op, Kind::MountStart, Level::Info, Source::Mount, now_ms);
        let mut entries: Vec<(String, Value)> = Vec::new();
        entries.push(text_entry("backend", session.backend()));
        entries.push(text_entry("mountPoint", session.mount_point().display().as_str()));
        entries.push(text_entry("localDir", session.local_dir().display().as_str()));
        let event = event.data(Value::Object(entries));
        (MountRun { op, action: MountAction::CheckFuse }, event)
    }

    /// What has to be done next.
    pub fn action(&self) -> (r: MountAction)
        ensures
            r == self.upcoming(),
    {
        self.action
    }

    /// Takes in the outcome of the action, and gives the event to pass on, where
    /// there is one. An error ends the mount.
    pub fn step<B: Backend>(
        &mut self,
        session: &mut Session,
        backend: &B,
        outcome: Result<(), String>,
        now_ms: u64,
        now_ns: u64,
    ) -> (r: Option<Event>)
        requires
            old(self).upcoming() != MountAction::Nothing,
            old(session).events_made() < u64::MAX,
        ensures
            final(self).operation() == old(self).operation(),
            final(session).same_session(*old(session)),
            final(session).ops_started() == old(session).ops_started(),
            final(self).upcoming() == if outcome is Ok {
                next_action(old(self).upcoming())
            } else {
                MountAction::Nothing
            },
            match emitted(old(self).upcoming(), outcome is Ok) {
                None => {
                    &&& r is None
                    &&& *final(session) == *old(session)
                },
                Some(kind) => {
                    &&& r is Some
                    &&& final(session).events_made() == r->0.seq
                    &&& old(self).event_of(
                        *old(session),
                        r->0,
                        kind,
                        if outcome is Ok {
                            Level::Info
                        } else {
                            Level::Error
                        },
                        now_ms,
                    )
                    &&& kind == Kind::MountReady ==> {
                        &&& r->0.error is None
                        &&& has_len(r->0.data, 2)
                        &&& has_text(
                            r->0.data,
                            0,
                            "backend"@,
                            old(session).backend_name(),
                        )
                        &&& has_text(
                            r->0.data,
                            1,
                            "mountPoint"@,
                            utf8_lossy(old(session).mount_path()),
                        )
                    }
                    &&& kind == Kind::MountStop ==> {
                        &&& r->0.error is None
                        &&& tells_elapsed(r->0.data, elapsed(old(self).operation(), now_ns))
                    }
                    &&& kind == Kind::MountFail ==> {
                        &&& tells_elapsed(r->0.data, elapsed(old(self).operation(), now_ns))
                        &&& tells_failure(*backend, outcome->Err_0@, r->0.error)
                    }
                },
            },
    {
        match outcome {
            Err(message) => {
                self.action = MountAction::Nothing;
                let event = session.op_event(
                    &self.op,
                    Kind::MountFail,
                    Level::Error,
                    Source::Mount,
                    now_ms,
                );
                let text: &str = message.as_str();
                let code: Code = backend.classify_error(text);
                assert(call_ensures(B::classify_error, (backend, text), code));
                let error = Error::new(text, code, Action::Stop);
                Some(event.data(self.elapsed_data(now_ns)).error(error))
            },
            Ok(_) => {
                let done: MountAction = self.action;
                match done {
                    MountAction::CheckFuse => {
                        self.action = MountAction::InitBackend;
                        None
                    },
                    MountAction::InitBackend => {
                        self.action = MountAction::Prepare;
                        None
                    },
                    MountAction::Prepare => {
                        self.action = MountAction::Serve;
                        let event = session.op_event(
                            &self.op,
                            Kind::MountReady,
                            Level::Info,
                            Source::Mount,
                            now_ms,
                        );
                        let mut entries: Vec<(String, Value)> = Vec::new();
                        entries.push(text_entry("backend", session.backend()));
                        entries.push(
                            text_entry(
                                "mountPoint",
                                session.mount_point().display().as_str(),
                            ),
                        );
                        Some(event.data(Value::Object(entries)))
                    },
                    MountAction::Serve => {
                        self.action = MountAction::StopEngine;
                        None
                    },
                    MountAction::StopEngine => {
                        self.action = MountAction::JoinEngine;
                        None
                    },
                    MountAction::JoinEngine => {
                        self.action = MountAction::Nothing;
                        let event = session.op_event(
                            &self.op,
                            Kind::MountStop,
                            Level::Info,
                            Source::Mount,
                            now_ms,
                        );
                        Some(event.data(self.elapsed_data(now_ns)))
                    },
                    MountAction::Nothing => None,
                }
            },
        }
    }

    fn elapsed_data(&self, now_ns: u64) -> (r: Value)
        ensures
            tells_elapsed(Some(r), elapsed(self.operation(), now_ns)),
    {
        let mut entries: Vec<(String, Value)> = Vec::new();
        entries.push(("elapsedMs".to_owned(), Value::Unsigned(self.op.elapsed_ms(now_ns))));
        Value::Object(entries)
    }
}

/// Whether error details tell of a failure with the given message: the code is
/// the backend's, and there is nothing to be done.
pub open spec fn tells_failure<B: Backend>(
    backend: B,
    message: Seq<char>,
    error: Option<Error>,
) -> bool {
    &&& error is Some
    &&& error->0.message@ == message
    &&& error->0.action == Action::Stop
    &&& exists|text: &str|
        text@ == message && #[trigger] call_ensures(
            B::classify_error,
            (&backend, text),
            error->0.code,
        )
}

/// The outcome of the check for a FUSE driver.
pub fn fuse_outcome(available: bool) -> (r: Result<(), String>)
    ensures
        r is Ok <==> available,
        r matches Err(message) ==> message@ == "FUSE/WinFsp is not installed"@,
{
    if available {
        Ok(())
    } else {
        Err("FUSE/WinFsp is not installed".to_owned())
    }
}

/// What has to be done after the outcomes so far.
pub open spec fn action_after(outcomes: Seq<bool>) -> MountAction
    decreases outcomes.len(),
{
    if outcomes.len() == 0 {
        MountAction::CheckFuse
    } else {
        let action = action_after(outcomes.drop_last());
        if action == MountAction::Nothing || !outcomes.last() {
            MountAction::Nothing
        } else {
            next_action(action)
        }
    }
}

/// The kinds of events after the outcomes so far.
pub open spec fn kinds_after(outcomes: Seq<bool>) -> Seq<Kind>
    decreases outcomes.len(),
{
    if outcomes.len() == 0 {
        seq![Kind::MountStart]
    } else {
        let before = kinds_after(outcomes.drop_last());
        let action = action_after(outcomes.drop_last());
        if action == MountAction::Nothing {
            before
        } else {
            match emitted(action, outcomes.last()) {
                Some(kind) => before.push(kind),
                None => before,
            }
        }
    }
}

/// A mount first tells that it started. It tells that it is ready at most once,
/// and only when it can be served; it tells its end, a stop or a failure, exactly
/// when it has ended, and then nothing more.
pub proof fn law_mount_tells_its_course(outcomes: Seq<bool>)
    ensures
        ({
            let kinds = kinds_after(outcomes);
            let action = action_after(outcomes);
            &&& action == MountAction::CheckFuse || action == MountAction::InitBackend || action
                == MountAction::Prepare ==> kinds == seq![Kind::MountStart]
            &&& action == MountAction::Serve || action == MountAction::StopEngine || action
                == MountAction::JoinEngine ==> kinds == seq![Kind::MountStart, Kind::MountReady]
            &&& action == MountAction::Nothing ==> {
                ||| kinds == seq![Kind::MountStart, Kind::MountFail]
                ||| kinds == seq![Kind::MountStart, Kind::MountReady, Kind::MountFail]
                ||| kinds == seq![Kind::MountStart, Kind::MountReady, Kind::MountStop]
            }
        }),
    decreases outcomes.len(),
{
    if outcomes.len() > 0 {
        law_mount_tells_its_course(outcomes.drop_last());
        let kinds = kinds_after(outcomes);
        let before = kinds_after(outcomes.drop_last());
        assert(seq![Kind::MountStart].push(Kind::MountFail) =~= seq![
            Kind::MountStart,
            Kind::MountFail,
        ]);
        assert(seq![Kind::MountStart].push(Kind::MountReady) =~= seq![
            Kind::MountStart,
            Kind::MountReady,
        ]);
        assert(seq![Kind::MountStart, Kind::MountReady].push(Kind::MountFail) =~= seq![
            Kind::MountStart,
            Kind::MountReady,
            Kind::MountFail,
        ]);
        assert(seq![Kind::MountStart, Kind::MountReady].push(Kind::MountStop) =~= seq![
            Kind::MountStart,
            Kind::MountReady,
            Kind::MountStop,
        ]);
    }
}

/// A mount begins with the check for a driver, and tells its start with the
/// backend, the mount point and the local directory.
pub proof fn law_mount_begins(session: &mut Session, now_ms: u64, now_ns: u64, r: (MountRun, Event))
    requires
        call_ensures(MountRun::begin, (session, now_ms, now_ns), r),
    ensures
        r.0.upcoming() is CheckFuse,
        r.1.kind is MountStart,
        r.1.level is Info,
        r.1.seq == old(session).events_made() + 1,
        r.1.mount_id@ == old(session).id(),
        r.1.op_id == Some(r.0.operation().number()),
        r.1.time == now_ms,
        r.1.source is Mount,
        r.1.error is None,
        r.0.operation().begin() == now_ns,
        r.0.operation().number() == old(session).ops_started() + 1,
        final(session).ops_started() == old(session).ops_started() + 1,
        final(session).events_made() == old(session).events_made() + 1,
        r.1.data matches Some(Value::Object(entries)) && {
            &&& entries@.len() == 3
            &&& entries@[0].0@ == "backend"@
            &&& entries@[0].1 matches Value::Text(t) && t@ == old(session).backend_name()
            &&& entries@[1].0@ == "mountPoint"@
            &&& entries@[1].1 matches Value::Text(t) && t@ == utf8_lossy(
                old(session).mount_path(),
            )
            &&& entries@[2].0@ == "localDir"@
            &&& entries@[2].1 matches Value::Text(t) && t@ == utf8_lossy(
                old(session).local_path(),
            )
        },
{
}

/// A mount goes on from the driver to the backend, its preparation, service, the
/// stop of the engine and the wait for it, and then ends; that it is ready is told
/// once it is prepared, that it stopped at the end, and nothing in between.
pub proof fn law_mount_goes_on<B: Backend>(
    run: &mut MountRun,
    session: &mut Session,
    backend: &B,
    now_ms: u64,
    now_ns: u64,
    event: Option<Event>,
)
    requires
        call_ensures(
            MountRun::step::<B>,
            (run, session, backend, Ok::<(), String>(()), now_ms, now_ns),
            event,
        ),
    ensures
        old(run).upcoming() is CheckFuse ==> final(run).upcoming() is InitBackend,
        old(run).upcoming() is InitBackend ==> final(run).upcoming() is Prepare,
        old(run).upcoming() is Prepare ==> final(run).upcoming() is Serve,
        old(run).upcoming() is Serve ==> final(run).upcoming() is StopEngine,
        old(run).upcoming() is StopEngine ==> final(run).upcoming() is JoinEngine,
        old(run).upcoming() is JoinEngine ==> final(run).upcoming() is Nothing,
        event is Some <==> old(run).upcoming() is Prepare || old(run).upcoming() is JoinEngine,
        old(run).upcoming() is Prepare ==> event->0.kind is MountReady,
        old(run).upcoming() is JoinEngine ==> event->0.kind is MountStop,
        old(run).upcoming() is Prepare ==> (event->0.data matches Some(Value::Object(entries))
            && entries@.len() == 2 && entries@[0].0@ == "backend"@ && (
        entries@[0].1 matches Value::Text(t) && t@ == old(session).backend_name())
            && entries@[1].0@ == "mountPoint"@ && (entries@[1].1 matches Value::Text(t) && t@
            == utf8_lossy(old(session).mount_path()))),
        event matches Some(e) ==> e.level is Info && e.error is None && e.seq == old(session).events_made() + 1 && e.mount_id@ == old(session).id() && e.op_id == Some(
            old(run).operation().number(),
        ),
        final(run).operation() == old(run).operation(),
        final(session).events_made() == old(session).events_made() + if event is Some {
            1int
        } else {
            0int
        },
        final(session).ops_started() == old(session).ops_started(),
        final(session).id() == old(session).id(),
        final(session).backend_name() == old(session).backend_name(),
        final(session).mount_path() == old(session).mount_path(),
        final(session).local_path() == old(session).local_path(),
{
}

/// An error at any point ends the mount, and is told with its message and with what
/// the backend makes of that message.
pub proof fn law_errors_end_the_mount<B: Backend>(
    run: &mut MountRun,
    session: &mut Session,
    backend: &B,
    message: String,
    now_ms: u64,
    now_ns: u64,
    event: Option<Event>,
)
    requires
        call_ensures(
            MountRun::step::<B>,
            (run, session, backend, Err::<(), String>(message), now_ms, now_ns),
            event,
        ),
    ensures
        final(run).upcoming() is Nothing,
        event is Some,
        event->0.kind is MountFail,
        event->0.level is Error,
        event->0.error is Some,
        event->0.error->0.message@ == message@,
        event->0.error->0.action is Stop,
        exists|text: &str|
            text@ == message@ && #[trigger] call_ensures(
                B::classify_error,
                (backend, text),
                event->0.error->0.code,
            ),
        event->0.seq == old(session).events_made() + 1,
        event->0.op_id == Some(old(run).operation().number()),
        event->0.time == now_ms,
        event->0.mount_id@ == old(session).id(),
        event->0.source is Mount,
        final(run).operation() == old(run).operation(),
        final(session).events_made() == old(session).events_made() + 1,
        final(session).ops_started() == old(session).ops_started(),
        final(session).id() == old(session).id(),
        final(session).backend_name() == old(session).backend_name(),
        final(session).mount_path() == old(session).mount_path(),
        final(session).local_path() == old(session).local_path(),
{
}

/// The end of a mount is told with the whole milliseconds since it began.
pub proof fn law_end_is_timed<B: Backend>(
    run: &mut MountRun,
    session: &mut Session,
    backend: &B,
    outcome: Result<(), String>,
    now_ms: u64,
    now_ns: u64,
    event: Event,
)
    requires
        call_ensures(
            MountRun::step::<B>,
            (run, session, backend, outcome, now_ms, now_ns),
            Some(event),
        ),
        event.kind is MountStop || event.kind is MountFail,
    ensures
        event.data matches Some(Value::Object(entries)) && {
            &&& entries@.len() == 1
            &&& entries@[0].0@ == "elapsedMs"@
            &&& now_ns >= old(run).operation().begin() ==> (entries@[0].1 matches Value::Unsigned(n)
                && n * 1_000_000 <= now_ns - old(run).operation().begin() < (n + 1) * 1_000_000)
            &&& now_ns < old(run).operation().begin() ==> (entries@[0].1 matches Value::Unsigned(n)
                && n == 0)
        },
{
}

/// Without a driver there is no mount.
pub proof fn law_driver_is_needed(
    available: bool,
    r: Result<(), String>,
    run: MountRun,
    action: MountAction,
)
    requires
        call_ensures(fuse_outcome, (available,), r),
        call_ensures(MountRun::action, (&run,), action),
    ensures
        r is Ok <==> available,
        r matches Err(message) ==> message@ == "FUSE/WinFsp is not installed"@,
        action == run.upcoming(),
{
}

} // verus!
