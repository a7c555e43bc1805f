//! The timing of synchronization.
//!
//! Local changes are collected until they rest for a while, a file is closed or
//! a flush is asked for; then they are handed to the backend in one batch.
//! Remote changes are asked for at intervals. The functions here decide; the
//! caller waits, calls the backend and hands back what came of it.
//!
//! Times are nanoseconds of a monotonic clock, as the caller read them.
use vstd::prelude::*;

use crate::backend::{
    affected_paths, plan_refresh, protected_among, Backend, RefreshPlan, RemoteApplyMode,
    RemoteChange, RemoteRefresh, RemoteRefreshResult, SyncResult,
};
use crate::config::SyncConfig;
use crate::dirty_index::{
    covers_path, distinct_paths, holds_path, lemma_with_path_holds, lemma_with_paths_distinct,
    lemma_with_paths_holds, path_bytes, with_path, with_paths, DirtyIndex, PathProtection,
};
use crate::duration::Duration;
use crate::events::LogLevel;
use crate::paths::{same_path, within, FsPath};
use crate::shown::{bytes_of, show_list, shown_list};
use crate::text::join2;

verus! {

/// What the file system layer tells the sync engine.
#[derive(Debug, Clone)]
pub enum FsEvent {
    /// A file was modified.
    FileModified(FsPath),
    /// A file was closed.
    FileClosed(FsPath),
    /// Synchronize now.
    Flush,
    /// Stop.
    Shutdown,
}

/// Counters for monitoring.
#[derive(Debug, Clone, Copy, PartialEq, Eq, Structural)]
pub struct WorkerMetrics {
    /// Number of polls.
    pub poll_iterations: u64,
    /// Number of syncs.
    pub sync_iterations: u64,
    /// Number of slow polls.
    pub slow_poll_count: u64,
    /// Number of slow syncs.
    pub slow_sync_count: u64,
}

impl Default for WorkerMetrics {
    fn default() -> (r: WorkerMetrics)
        ensures
            r == (WorkerMetrics {
                poll_iterations: 0,
                sync_iterations: 0,
                slow_poll_count: 0,
                slow_sync_count: 0,
            }),
    {
        WorkerMetrics {
            poll_iterations: 0,
            sync_iterations: 0,
            slow_poll_count: 0,
            slow_sync_count: 0,
        }
    }
}

/// What an iteration may take before it counts as slow.
pub const SLOW_ITERATION_SECS: u64 = 5;

/// A sign of life is logged every so many polls.
pub const POLL_HEARTBEAT_INTERVAL: u64 = 100;

/// How long an inactive deadline lies in the future, in nanoseconds.
pub const FAR_FUTURE_NANOS: u128 = 31_536_000_000_000_000;

/// Whether an iteration of this length is slow.
pub open spec fn is_slow(elapsed: Duration) -> bool {
    elapsed.total_nanos() > SLOW_ITERATION_SECS * 1_000_000_000
}

fn slow(elapsed: &Duration) -> (r: bool)
    requires
        elapsed.wf(),
    ensures
        r == is_slow(*elapsed),
{
    elapsed.secs > SLOW_ITERATION_SECS || (elapsed.secs == SLOW_ITERATION_SECS && elapsed.nanos > 0)
}

/// Something to tell the event handler.
#[derive(Debug, Clone)]
pub enum Notice {
    /// So many files were pushed.
    Pushed(usize),
    /// These files have conflicts.
    Conflicts(Vec<FsPath>),
    /// The remote side cannot be reached; the files wait for the next sync.
    Offline,
    /// A sync failed; the files wait for the next one.
    SyncFailed(String),
    /// Remote changes were applied.
    Updated,
    /// Remote changes could not be applied.
    ApplyFailed(String),
    /// The remote side could not be polled.
    PollFailed(String),
}

/// The log message of a notice, where it has one.
pub open spec fn notice_log(notice: Notice) -> Option<(LogLevel, Seq<char>)> {
    match notice {
        Notice::Pushed(_) => None,
        Notice::Conflicts(files) => Some(
            (LogLevel::Warn, "conflicts: "@ + shown_list(bytes_of(files@))),
        ),
        Notice::Offline => Some((LogLevel::Warn, "remote unavailable"@)),
        Notice::SyncFailed(error) => Some((LogLevel::Error, "sync error: "@ + error@)),
        Notice::Updated => None,
        Notice::ApplyFailed(error) => Some(
            (LogLevel::Warn, "error applying remote changes: "@ + error@),
        ),
        Notice::PollFailed(error) => Some((LogLevel::Warn, "poll failed: "@ + error@)),
    }
}

impl Notice {
    /// The log message, where there is one.
    pub fn log(&self) -> (r: Option<(LogLevel, String)>)
        ensures
            match r {
                Some((level, text)) => notice_log(*self) == Some((level, text@)),
                None => notice_log(*self) is None,
            },
    {
        match self {
            Notice::Pushed(_) => None,
            Notice::Conflicts(files) => {
                let shown = show_list(files);
                Some((LogLevel::Warn, join2("conflicts: ", shown.as_str())))
            },
            Notice::Offline => Some((LogLevel::Warn, "remote unavailable".to_owned())),
            Notice::SyncFailed(error) => Some(
                (LogLevel::Error, join2("sync error: ", error.as_str())),
            ),
            Notice::Updated => None,
            Notice::ApplyFailed(error) => Some(
                (LogLevel::Warn, join2("error applying remote changes: ", error.as_str())),
            ),
            Notice::PollFailed(error) => Some(
                (LogLevel::Warn, join2("poll failed: ", error.as_str())),
            ),
        }
    }
}

/// Why a wait for events ended.
#[derive(Debug, Clone)]
pub enum Wakeup {
    /// An event came in.
    Event(FsEvent),
    /// No event can come in any more.
    Closed,
    /// The deadline passed.
    Timeout,
}

/// What to do after a wait for events.
#[derive(Debug, Clone, Copy, PartialEq, Eq, Structural)]
pub enum WorkerStep {
    /// Wait for the next event.
    Wait,
    /// Synchronize, then wait for the next event.
    Sync,
    /// Synchronize for the last time, then stop.
    FinalSync,
    /// Stop.
    Stop,
}

/// The state of the worker that collects local changes.
pub struct WorkerState {
    /// Paths with local changes that wait for a sync.
    pub dirty: Seq<Seq<u8>>,
    /// Paths that a sync is working on.
    pub in_flight: Seq<Seq<u8>>,
    /// When the changes have rested for long enough.
    pub deadline: int,
    /// A deadline that stands for none.
    pub far_future: int,
    /// How long changes have to rest.
    pub debounce: int,
}

impl WorkerState {
    /// The state after a wait ended.
    pub open spec fn stepped(self, wake: Wakeup, now: int) -> WorkerState {
        match wake {
            Wakeup::Event(FsEvent::FileModified(path)) => WorkerState {
                dirty: with_path(self.dirty, path@),
                deadline: now + self.debounce,
                ..self
            },
            Wakeup::Event(FsEvent::FileClosed(path)) => WorkerState {
                dirty: with_path(self.dirty, path@),
                ..self
            },
            Wakeup::Event(FsEvent::Flush) => self,
            Wakeup::Event(FsEvent::Shutdown) => self,
            Wakeup::Closed => self,
            Wakeup::Timeout => WorkerState { deadline: self.far_future, ..self },
        }
    }

    /// Whether a wait that ended so asks for a sync of what waits.
    pub open spec fn asks(wake: Wakeup) -> bool {
        ||| wake matches Wakeup::Event(FsEvent::FileClosed(_))
        ||| wake == Wakeup::Event(FsEvent::Flush)
        ||| wake is Timeout
    }

    /// Whether a wait that ended so is the last one.
    pub open spec fn ends(wake: Wakeup) -> bool {
        wake is Closed || wake == Wakeup::Event(FsEvent::Shutdown)
    }

    /// What follows after a wait ended.
    pub open spec fn step(self, wake: Wakeup, now: int) -> WorkerStep {
        let next = self.stepped(wake, now);
        if WorkerState::ends(wake) {
            if self.dirty.len() > 0 {
                WorkerStep::FinalSync
            } else {
                WorkerStep::Stop
            }
        } else if WorkerState::asks(wake) && next.dirty.len() > 0 {
            WorkerStep::Sync
        } else {
            WorkerStep::Wait
        }
    }

    /// The state when the tracked files were handed to the backend.
    pub open spec fn begun(self, flags: Seq<bool>) -> WorkerState {
        WorkerState {
            dirty: Seq::empty(),
            in_flight: selected(self.dirty, flags),
            ..self
        }
    }

    /// The state when the backend reported the result: what could not be
    /// synchronized waits for the next sync.
    pub open spec fn finished(self, result: Result<SyncResult, String>) -> WorkerState {
        WorkerState {
            dirty: if keeps_files(result) {
                with_paths(self.dirty, self.in_flight)
            } else {
                self.dirty
            },
            in_flight: Seq::empty(),
            ..self
        }
    }

    /// Whether the path has local changes that did not reach the remote side yet.
    pub open spec fn pending(self, path: Seq<u8>) -> bool {
        holds_path(self.dirty, path) || holds_path(self.in_flight, path)
    }
}

/// Whether the files of a batch have to be synchronized again.
pub open spec fn keeps_files(result: Result<SyncResult, String>) -> bool {
    result is Err || result == Ok::<SyncResult, String>(SyncResult::Offline)
}

/// The elements whose flag is set, in order.
pub open spec fn selected(s: Seq<Seq<u8>>, flags: Seq<bool>) -> Seq<Seq<u8>>
    decreases s.len(),
{
    if s.len() == 0 {
        Seq::empty()
    } else {
        let before = selected(s.drop_last(), flags);
        if flags[s.len() - 1] {
            before.push(s.last())
        } else {
            before
        }
    }
}

/// Collects local changes and decides when to synchronize them.
#[derive(Debug)]
pub struct DirtyWorker {
    dirty: DirtyIndex,
    in_flight: DirtyIndex,
    debounce: u128,
    far_future: u128,
    deadline: u128,
}

impl View for DirtyWorker {
    type V = WorkerState;

    closed spec fn view(&self) -> WorkerState {
        WorkerState {
            dirty: self.dirty@,
            in_flight: self.in_flight@,
            deadline: self.deadline as int,
            far_future: self.far_future as int,
            debounce: self.debounce as int,
        }
    }
}

impl DirtyWorker {
    /// No path occurs twice, and the debounce time comes from whole seconds.
    pub open spec fn wf(&self) -> bool {
        &&& distinct_paths(self@.dirty)
        &&& distinct_paths(self@.in_flight)
        &&& 0 <= self@.debounce <= u64::MAX * 1_000_000_000
    }

    /// The paths with local changes themselves.
    pub closed spec fn dirty_items(&self) -> Seq<FsPath> {
        self.dirty.items()
    }

    /// A worker without local changes, started at `now`.
    pub fn new(config: &SyncConfig, now: u64) -> (r: DirtyWorker)
        ensures
            r.wf(),
            r@ == (WorkerState {
                dirty: Seq::empty(),
                in_flight: Seq::empty(),
                deadline: now + FAR_FUTURE_NANOS,
                far_future: now + FAR_FUTURE_NANOS,
                debounce: config.debounce_timeout_secs * 1_000_000_000,
            }),
    {
        let far_future: u128 = now as u128 + FAR_FUTURE_NANOS;
        DirtyWorker {
            dirty: DirtyIndex::new(),
            in_flight: DirtyIndex::new(),
            debounce: config.debounce_timeout().secs as u128 * 1_000_000_000,
            far_future,
            deadline: far_future,
        }
    }

    /// Until when to wait for an event; without local changes there is no limit.
    pub fn wait_deadline(&self) -> (r: Option<u128>)
        ensures
            match r {
                Some(deadline) => self@.dirty.len() > 0 && deadline == self@.deadline,
                None => self@.dirty.len() == 0,
            },
    {
        if self.dirty.is_empty() {
            None
        } else {
            Some(self.deadline)
        }
    }

    /// Takes in why a wait ended, at `now`, and says what to do.
    pub fn step(&mut self, wake: Wakeup, now: u64) -> (r: WorkerStep)
        requires
            old(self).wf(),
        ensures
            final(self).wf(),
            r == old(self)@.step(wake, now as int),
            final(self)@ == old(self)@.stepped(wake, now as int),
    {
        let asks: bool = match wake {
            Wakeup::Event(event) => match event {
                FsEvent::FileModified(path) => {
                    self.dirty.mark_dirty(path);
                    self.deadline = now as u128 + self.debounce;
                    false
                },
                FsEvent::FileClosed(path) => {
                    self.dirty.mark_dirty(path);
                    true
                },
                FsEvent::Flush => true,
                FsEvent::Shutdown => {
                    return self.last_step();
                },
            },
            Wakeup::Closed => {
                return self.last_step();
            },
            Wakeup::Timeout => {
                self.deadline = self.far_future;
                true
            },
        };
        if asks && !self.dirty.is_empty() {
            WorkerStep::Sync
        } else {
            WorkerStep::Wait
        }
    }

    fn last_step(&self) -> (r: WorkerStep)
        ensures
            r == if self@.dirty.len() > 0 {
                WorkerStep::FinalSync
            } else {
                WorkerStep::Stop
            },
    {
        if self.dirty.is_empty() {
            WorkerStep::Stop
        } else {
            WorkerStep::FinalSync
        }
    }

    /// Whether these are answers of the backend about the paths with local
    /// changes, in order.
    pub open spec fn answered_by<B: Backend>(&self, backend: &B, flags: Seq<bool>) -> bool {
        &&& flags.len() == self@.dirty.len()
        &&& forall|i: int|
            0 <= i < flags.len() ==> (#[trigger] self.dirty_items()[i])@ == self@.dirty[i]
                && call_ensures(B::should_track, (backend, &self.dirty_items()[i]), flags[i])
    }

    /// Asks the backend which of the paths with local changes it tracks.
    pub fn ask_tracked<B: Backend>(&self, backend: &B) -> (r: Vec<bool>)
        ensures
            self.answered_by(backend, r@),
    {
        let mut flags: Vec<bool> = Vec::new();
        let mut i: usize = 0;
        while i < self.dirty.len()
            invariant
                i <= self@.dirty.len(),
                flags@.len() == i,
                forall|j: int|
                    0 <= j < i ==> (#[trigger] self.dirty_items()[j])@ == self@.dirty[j]
                        && call_ensures(
                        B::should_track,
                        (backend, &self.dirty_items()[j]),
                        flags@[j],
                    ),
            decreases self@.dirty.len() - i,
        {
            let flag: bool = backend.should_track(self.dirty.path_at(i));
            flags.push(flag);
            i += 1;
        }
        flags
    }

    /// Takes the paths with local changes out for a sync. The tracked ones are
    /// the batch; the others are dropped. Without a batch there is no sync.
    pub fn begin_sync(&mut self, flags: &Vec<bool>, metrics: &mut WorkerMetrics) -> (r: Option<
        Vec<FsPath>,
    >)
        requires
            old(self).wf(),
            flags@.len() == old(self)@.dirty.len(),
            old(metrics).sync_iterations < u64::MAX,
        ensures
            final(self).wf(),
            final(self)@ == old(self)@.begun(flags@),
            match r {
                Some(files) => {
                    &&& path_bytes(files@) == selected(old(self)@.dirty, flags@)
                    &&& distinct_paths(path_bytes(files@))
                    &&& files@.len() > 0
                    &&& *final(metrics) == (WorkerMetrics {
                        sync_iterations: (old(metrics).sync_iterations + 1) as u64,
                        ..*old(metrics)
                    })
                },
                None => {
                    &&& selected(old(self)@.dirty, flags@).len() == 0
                    &&& *final(metrics) == *old(metrics)
                },
            },
    {
        let ghost dirty = self@.dirty;
        let mut batch = DirtyIndex::new();
        let mut i: usize = 0;
        proof {
            assert(dirty.take(0) =~= Seq::<Seq<u8>>::empty());
        }
        while i < self.dirty.len()
            invariant
                i <= dirty.len() == flags@.len(),
                dirty == self@.dirty,
                self.wf(),
                *self == *old(self),
                batch.wf(),
                batch@ == selected(dirty.take(i as int), flags@),
                forall|j: int, k: int|
                    0 <= j < batch@.len() && i <= k < dirty.len() ==> !same_path(
                        #[trigger] batch@[j],
                        #[trigger] dirty[k],
                    ),
            decreases dirty.len() - i,
        {
            proof {
                assert(dirty.take(i + 1).drop_last() =~= dirty.take(i as int));
                assert(!holds_path(batch@, dirty[i as int]));
            }
            let ghost before = batch@;
            if flags[i] {
                batch.mark_dirty(self.dirty.path_at(i).copy());
                assert forall|j: int, k: int|
                    0 <= j < batch@.len() && i < k < dirty.len() implies !same_path(
                    #[trigger] batch@[j],
                    #[trigger] dirty[k],
                ) by {
                    if j < before.len() {
                        assert(batch@[j] == before[j]);
                    }
                }
            }
            i += 1;
        }
        assert(dirty.take(i as int) =~= dirty);
        let files = batch.snapshot();
        assert(path_bytes(files@).len() == files@.len());
        self.dirty = DirtyIndex::new();
        self.in_flight = batch;
        if files.len() == 0 {
            None
        } else {
            metrics.sync_iterations = metrics.sync_iterations + 1;
            Some(files)
        }
    }

    /// Takes in what the backend made of the batch: what could not be
    /// synchronized waits again.
    pub fn finish_sync(
        &mut self,
        result: Result<SyncResult, String>,
        elapsed: Duration,
        metrics: &mut WorkerMetrics,
    ) -> (r: Vec<Notice>)
        requires
            old(self).wf(),
            elapsed.wf(),
        ensures
            final(self).wf(),
            final(self)@ == old(self)@.finished(result),
            r@ == sync_notices(result),
            *final(metrics) == if is_slow(elapsed) {
                WorkerMetrics {
                    slow_sync_count: old(metrics).slow_sync_count.wrapping_add(1),
                    ..*old(metrics)
                }
            } else {
                *old(metrics)
            },
    {
        let mut notices: Vec<Notice> = Vec::new();
        match result {
            Ok(SyncResult::Success { synced_files }) => {
                notices.push(Notice::Pushed(synced_files));
                assert(notices@ =~= seq![Notice::Pushed(synced_files)]);
            },
            Ok(SyncResult::Conflict { synced_files, conflict_files }) => {
                notices.push(Notice::Pushed(synced_files));
                notices.push(Notice::Conflicts(conflict_files));
                assert(notices@ =~= seq![
                    Notice::Pushed(synced_files),
                    Notice::Conflicts(conflict_files),
                ]);
            },
            Ok(SyncResult::Offline) => {
                let files = self.in_flight.snapshot();
                self.dirty.mark_all_dirty(&files);
                notices.push(Notice::Offline);
                assert(notices@ =~= seq![Notice::Offline]);
            },
            Err(error) => {
                let files = self.in_flight.snapshot();
                self.dirty.mark_all_dirty(&files);
                notices.push(Notice::SyncFailed(error));
                assert(notices@ =~= seq![Notice::SyncFailed(error)]);
            },
        }
        self.in_flight = DirtyIndex::new();
        if slow(&elapsed) {
            metrics.slow_sync_count = metrics.slow_sync_count.wrapping_add(1);
        }
        notices
    }

    /// The number of paths with local changes that wait for a sync.
    pub fn dirty_count(&self) -> (r: usize)
        ensures
            r == self@.dirty.len(),
    {
        self.dirty.len()
    }
}

impl PathProtection for DirtyWorker {
    open spec fn protects(&self, path: Seq<u8>) -> bool {
        covers_path(self@.dirty, path) || covers_path(self@.in_flight, path)
    }

    fn is_protected(&self, path: &FsPath) -> (r: bool) {
        self.dirty.is_protected(path) || self.in_flight.is_protected(path)
    }
}

/// The notices for the result of a sync.
pub open spec fn sync_notices(result: Result<SyncResult, String>) -> Seq<Notice> {
    match result {
        Ok(SyncResult::Success { synced_files }) => seq![Notice::Pushed(synced_files)],
        Ok(SyncResult::Conflict { synced_files, conflict_files }) => seq![
            Notice::Pushed(synced_files),
            Notice::Conflicts(conflict_files),
        ],
        Ok(SyncResult::Offline) => seq![Notice::Offline],
        Err(error) => seq![Notice::SyncFailed(error)],
    }
}

/// What to do after a poll of the remote side.
#[derive(Debug)]
pub enum PollPlan {
    /// Nothing: there are no changes.
    Quiet,
    /// Apply these changes, then call [`after_apply`].
    Apply(Vec<RemoteChange>),
    /// Nothing: these paths with local changes are affected.
    Deferred(Vec<FsPath>),
    /// Tell the event handler.
    Report(Notice),
}

/// Counts a poll and gives its number.
pub fn begin_poll(metrics: &mut WorkerMetrics) -> (r: u64)
    requires
        old(metrics).poll_iterations < u64::MAX,
    ensures
        r == old(metrics).poll_iterations + 1,
        *final(metrics) == (WorkerMetrics { poll_iterations: r, ..*old(metrics) }),
{
    metrics.poll_iterations = metrics.poll_iterations + 1;
    metrics.poll_iterations
}

/// Whether this is the plan for the result of a poll.
pub open spec fn poll_planned<P: PathProtection>(
    plan: PollPlan,
    result: Result<Vec<RemoteChange>, String>,
    protection: P,
) -> bool {
    match result {
        Err(error) => plan == PollPlan::Report(Notice::PollFailed(error)),
        Ok(changes) => {
            let protected = protected_among(affected_paths(changes@), protection);
            if changes@.len() == 0 {
                plan is Quiet
            } else if protected.len() > 0 {
                plan matches PollPlan::Deferred(paths) && path_bytes(paths@) == protected
            } else {
                plan == PollPlan::Apply(changes)
            }
        },
    }
}

/// Decides what follows from a poll: changes are applied where none affects a
/// path with local changes.
pub fn plan_poll<P: PathProtection>(
    result: Result<Vec<RemoteChange>, String>,
    protection: &P,
) -> (r: PollPlan)
    ensures
        poll_planned(r, result, *protection),
{
    match result {
        Err(error) => PollPlan::Report(Notice::PollFailed(error)),
        Ok(changes) => {
            let request = RemoteRefresh {
                protected_paths: protection,
                mode: RemoteApplyMode::ApplySafe,
            };
            match plan_refresh(&changes, &request) {
                RefreshPlan::Report(RemoteRefreshResult::Deferred { affected, .. }) => {
                    PollPlan::Deferred(affected)
                },
                RefreshPlan::Report(_) => PollPlan::Quiet,
                RefreshPlan::Apply(_) => PollPlan::Apply(changes),
            }
        },
    }
}

/// What to tell the event handler when remote changes were applied, or were not.
pub fn after_apply(result: Result<(), String>) -> (r: Notice)
    ensures
        r == match result {
            Ok(_) => Notice::Updated,
            Err(error) => Notice::ApplyFailed(error),
        },
{
    match result {
        Ok(_) => Notice::Updated,
        Err(error) => Notice::ApplyFailed(error),
    }
}

/// What to log at the end of a poll.
#[derive(Debug, Clone, Copy, PartialEq, Eq, Structural)]
pub struct PollReport {
    /// The poll was slow.
    pub slow: bool,
    /// It is time for a sign of life.
    pub heartbeat: bool,
}

/// Counts a slow poll and says what to log.
pub fn end_poll(iteration: u64, elapsed: Duration, metrics: &mut WorkerMetrics) -> (r: PollReport)
    requires
        elapsed.wf(),
    ensures
        r.slow == is_slow(elapsed),
        r.heartbeat == (iteration % POLL_HEARTBEAT_INTERVAL == 0),
        *final(metrics) == if is_slow(elapsed) {
            WorkerMetrics {
                slow_poll_count: old(metrics).slow_poll_count.wrapping_add(1),
                ..*old(metrics)
            }
        } else {
            *old(metrics)
        },
{
    let is_late: bool = slow(&elapsed);
    if is_late {
        metrics.slow_poll_count = metrics.slow_poll_count.wrapping_add(1);
    }
    PollReport { slow: is_late, heartbeat: iteration % POLL_HEARTBEAT_INTERVAL == 0 }
}

proof fn lemma_selected_holds(s: Seq<Seq<u8>>, flags: Seq<bool>, i: int)
    requires
        0 <= i < s.len(),
        flags[i],
    ensures
        holds_path(selected(s, flags), s[i]),
    decreases s.len(),
{
    let t = selected(s, flags);
    if i == s.len() - 1 {
        assert(same_path(t[t.len() - 1], s[i]));
    } else {
        let u = selected(s.drop_last(), flags);
        assert(s.drop_last()[i] == s[i]);
        lemma_selected_holds(s.drop_last(), flags, i);
        let j = choose|j: int| 0 <= j < u.len() && same_path(#[trigger] u[j], s[i]);
        assert(t[j] == u[j]);
    }
}

proof fn lemma_selected_from(s: Seq<Seq<u8>>, flags: Seq<bool>, j: int)
    requires
        0 <= j < selected(s, flags).len(),
    ensures
        exists|i: int| 0 <= i < s.len() && flags[i] && s[i] == selected(s, flags)[j],
    decreases s.len(),
{
    let u = selected(s.drop_last(), flags);
    if j < u.len() {
        lemma_selected_from(s.drop_last(), flags, j);
        let i = choose|i: int|
            0 <= i < s.drop_last().len() && flags[i] && s.drop_last()[i] == u[j];
        assert(s[i] == selected(s, flags)[j]);
    } else {
        assert(s[s.len() - 1] == selected(s, flags)[j]);
    }
}

/// A modified or closed file has pending changes from then on, and no event
/// takes pending changes away.
pub proof fn law_events_lose_no_change(state: WorkerState, wake: Wakeup, now: int, path: Seq<u8>)
    ensures
        state.pending(path) ==> state.stepped(wake, now).pending(path),
        wake matches Wakeup::Event(FsEvent::FileModified(p)) ==> state.stepped(wake, now).pending(
            p@,
        ),
        wake matches Wakeup::Event(FsEvent::FileClosed(p)) ==> state.stepped(wake, now).pending(p@),
{
    match wake {
        Wakeup::Event(FsEvent::FileModified(p)) => {
            lemma_with_path_holds(state.dirty, p@, path);
            lemma_with_path_holds(state.dirty, p@, p@);
        },
        Wakeup::Event(FsEvent::FileClosed(p)) => {
            lemma_with_path_holds(state.dirty, p@, path);
            lemma_with_path_holds(state.dirty, p@, p@);
        },
        _ => {},
    }
}

/// A sync that fails, or finds the remote side unreachable, loses no change:
/// every file that was handed to the backend waits again.
pub proof fn law_failed_sync_loses_no_change(
    state: WorkerState,
    flags: Seq<bool>,
    result: Result<SyncResult, String>,
    i: int,
)
    requires
        0 <= i < state.dirty.len(),
        flags.len() == state.dirty.len(),
        flags[i],
        keeps_files(result),
    ensures
        state.begun(flags).pending(state.dirty[i]),
        holds_path(state.begun(flags).finished(result).dirty, state.dirty[i]),
{
    lemma_selected_holds(state.dirty, flags, i);
    lemma_with_paths_holds(Seq::empty(), selected(state.dirty, flags), state.dirty[i]);
}

/// The backend gets the files that have local changes and that it tracks, and
/// no others.
pub proof fn law_batch_is_dirty_and_wanted(state: WorkerState, flags: Seq<bool>, j: int)
    requires
        flags.len() == state.dirty.len(),
        0 <= j < state.begun(flags).in_flight.len(),
    ensures
        exists|i: int|
            0 <= i < state.dirty.len() && flags[i] && state.dirty[i] == state.begun(
                flags,
            ).in_flight[j],
{
    lemma_selected_from(state.dirty, flags, j);
}

/// A sync that succeeds leaves nothing of its batch behind.
pub proof fn law_successful_sync_settles(
    state: WorkerState,
    flags: Seq<bool>,
    result: Result<SyncResult, String>,
)
    requires
        !keeps_files(result),
    ensures
        state.begun(flags).finished(result).dirty.len() == 0,
        state.begun(flags).finished(result).in_flight.len() == 0,
{
}

/// Closing a file synchronizes at once, whatever the deadline is.
pub proof fn law_close_synchronizes_at_once(state: WorkerState, path: FsPath, now: int)
    ensures
        state.step(Wakeup::Event(FsEvent::FileClosed(path)), now) == WorkerStep::Sync,
{
    lemma_with_path_holds(state.dirty, path@, path@);
}

/// Modifying files only moves the deadline: until it passes there is no sync,
/// and when it passes everything that was collected is synchronized.
pub proof fn law_modifications_are_batched(
    state: WorkerState,
    first: FsPath,
    second: FsPath,
    now: int,
    later: int,
)
    ensures
        ({
            let one = state.stepped(Wakeup::Event(FsEvent::FileModified(first)), now);
            let two = one.stepped(Wakeup::Event(FsEvent::FileModified(second)), later);
            &&& state.step(Wakeup::Event(FsEvent::FileModified(first)), now) == WorkerStep::Wait
            &&& one.step(Wakeup::Event(FsEvent::FileModified(second)), later) == WorkerStep::Wait
            &&& one.deadline == now + state.debounce
            &&& two.deadline == later + state.debounce
            &&& two.step(Wakeup::Timeout, two.deadline) == WorkerStep::Sync
            &&& holds_path(two.stepped(Wakeup::Timeout, two.deadline).dirty, first@)
            &&& holds_path(two.stepped(Wakeup::Timeout, two.deadline).dirty, second@)
        }),
{
    let one = with_path(state.dirty, first@);
    lemma_with_path_holds(state.dirty, first@, first@);
    lemma_with_path_holds(one, second@, first@);
    lemma_with_path_holds(one, second@, second@);
}

/// A flush without local changes asks for nothing: a file that is modified after
/// it waits for its deadline as any other.
pub proof fn law_flush_without_changes_is_over(
    state: WorkerState,
    path: FsPath,
    now: int,
    later: int,
)
    requires
        state.dirty.len() == 0,
    ensures
        ({
            let flushed = state.stepped(Wakeup::Event(FsEvent::Flush), now);
            &&& state.step(Wakeup::Event(FsEvent::Flush), now) == WorkerStep::Wait
            &&& flushed == state
            &&& flushed.step(Wakeup::Event(FsEvent::FileModified(path)), later) == WorkerStep::Wait
        }),
{
}

/// Before the worker stops, everything that waits is synchronized.
pub proof fn law_stop_leaves_nothing_waiting(state: WorkerState, wake: Wakeup, now: int)
    ensures
        state.step(wake, now) == WorkerStep::Stop ==> state.stepped(wake, now).dirty.len() == 0,
        WorkerState::ends(wake) && state.dirty.len() > 0 ==> state.step(wake, now)
            == WorkerStep::FinalSync,
{
}

/// One turn of the worker: why the wait ended, when, and what the backend
/// reported, where it was called.
pub struct Turn {
    /// Why the wait ended.
    pub wake: Wakeup,
    /// When it ended.
    pub now: int,
    /// What the backend reported.
    pub result: Result<SyncResult, String>,
}

impl Turn {
    /// The path with local changes that the turn tells of.
    pub open spec fn path(self) -> Option<Seq<u8>> {
        match self.wake {
            Wakeup::Event(FsEvent::FileModified(path)) => Some(path@),
            Wakeup::Event(FsEvent::FileClosed(path)) => Some(path@),
            _ => None,
        }
    }
}

/// The answers of a backend about paths.
pub open spec fn answers(tracks: spec_fn(Seq<u8>) -> bool, paths: Seq<Seq<u8>>) -> Seq<bool> {
    paths.map_values(tracks)
}

impl WorkerState {
    /// The files that a turn hands to the backend; without files it is not called.
    pub open spec fn batch(self, turn: Turn, tracks: spec_fn(Seq<u8>) -> bool) -> Seq<Seq<u8>> {
        let next = self.stepped(turn.wake, turn.now);
        match self.step(turn.wake, turn.now) {
            WorkerStep::Sync | WorkerStep::FinalSync => next.begun(
                answers(tracks, next.dirty),
            ).in_flight,
            _ => Seq::empty(),
        }
    }

    /// The state after a turn.
    pub open spec fn turned(self, turn: Turn, tracks: spec_fn(Seq<u8>) -> bool) -> WorkerState {
        let next = self.stepped(turn.wake, turn.now);
        match self.step(turn.wake, turn.now) {
            WorkerStep::Sync | WorkerStep::FinalSync => {
                let begun = next.begun(answers(tracks, next.dirty));
                if begun.in_flight.len() == 0 {
                    begun
                } else {
                    begun.finished(turn.result)
                }
            },
            _ => next,
        }
    }

    /// The state after turns.
    pub open spec fn after(
        self,
        turns: Seq<Turn>,
        tracks: spec_fn(Seq<u8>) -> bool,
    ) -> WorkerState
        decreases turns.len(),
    {
        if turns.len() == 0 {
            self
        } else {
            self.after(turns.drop_last(), tracks).turned(turns.last(), tracks)
        }
    }

    /// The lists of files that were handed to the backend in turns.
    pub open spec fn batches(
        self,
        turns: Seq<Turn>,
        tracks: spec_fn(Seq<u8>) -> bool,
    ) -> Seq<Seq<Seq<u8>>>
        decreases turns.len(),
    {
        if turns.len() == 0 {
            Seq::empty()
        } else {
            let before = self.batches(turns.drop_last(), tracks);
            let batch = self.after(turns.drop_last(), tracks).batch(turns.last(), tracks);
            if batch.len() == 0 {
                before
            } else {
                before.push(batch)
            }
        }
    }
}

/// Whether turns told that a path has local changes.
pub open spec fn received(turns: Seq<Turn>, path: Seq<u8>) -> bool {
    exists|i: int|
        0 <= i < turns.len() && (#[trigger] turns[i]).path() is Some && same_path(
            turns[i].path()->0,
            path,
        )
}

/// Whether a path is in one of the lists.
pub open spec fn listed(lists: Seq<Seq<Seq<u8>>>, path: Seq<u8>) -> bool {
    exists|i: int| 0 <= i < lists.len() && #[trigger] holds_path(lists[i], path)
}

/// Whether answers about two ways to write one path are the same.
pub open spec fn goes_by_path(tracks: spec_fn(Seq<u8>) -> bool) -> bool {
    forall|a: Seq<u8>, b: Seq<u8>| #[trigger] same_path(a, b) ==> tracks(a) == tracks(b)
}

proof fn lemma_received(turns: Seq<Turn>, path: Seq<u8>)
    requires
        turns.len() > 0,
    ensures
        received(turns, path) <==> received(turns.drop_last(), path) || (turns.last().path() is Some
            && same_path(turns.last().path()->0, path)),
{
    let init = turns.drop_last();
    if received(init, path) {
        let i = choose|i: int|
            0 <= i < init.len() && (#[trigger] init[i]).path() is Some && same_path(
                init[i].path()->0,
                path,
            );
        assert(turns[i].path() is Some);
    }
    if received(turns, path) && !received(init, path) {
        let i = choose|i: int|
            0 <= i < turns.len() && (#[trigger] turns[i]).path() is Some && same_path(
                turns[i].path()->0,
                path,
            );
        if i < init.len() {
            assert(init[i].path() is Some);
        }
    }
    if turns.last().path() is Some && same_path(turns.last().path()->0, path) {
        assert(turns[turns.len() - 1].path() is Some);
    }
}

proof fn lemma_listed_push(lists: Seq<Seq<Seq<u8>>>, list: Seq<Seq<u8>>, path: Seq<u8>)
    ensures
        listed(lists.push(list), path) <==> listed(lists, path) || holds_path(list, path),
{
    let all = lists.push(list);
    if listed(lists, path) {
        let i = choose|i: int| 0 <= i < lists.len() && #[trigger] holds_path(lists[i], path);
        assert(holds_path(all[i], path));
    }
    if holds_path(list, path) {
        assert(holds_path(all[lists.len() as int], path));
    }
    if listed(all, path) {
        let i = choose|i: int| 0 <= i < all.len() && #[trigger] holds_path(all[i], path);
        if i < lists.len() {
            assert(holds_path(lists[i], path));
        }
    }
}

proof fn lemma_selected_distinct(s: Seq<Seq<u8>>, flags: Seq<bool>)
    requires
        distinct_paths(s),
    ensures
        distinct_paths(selected(s, flags)),
    decreases s.len(),
{
    if s.len() > 0 {
        let init = s.drop_last();
        assert(distinct_paths(init)) by {
            assert forall|i: int, j: int| 0 <= i < j < init.len() implies !same_path(
                #[trigger] init[i],
                #[trigger] init[j],
            ) by {
                assert(init[i] == s[i] && init[j] == s[j]);
            }
        }
        lemma_selected_distinct(init, flags);
        let before = selected(init, flags);
        let t = selected(s, flags);
        assert forall|i: int, j: int| 0 <= i < j < t.len() implies !same_path(
            #[trigger] t[i],
            #[trigger] t[j],
        ) by {
            if j < before.len() {
                assert(before[i] == t[i] && before[j] == t[j]);
            } else {
                lemma_selected_from(init, flags, i);
                let k = choose|k: int| 0 <= k < init.len() && flags[k] && init[k] == before[i];
                assert(s[k] == t[i]);
                assert(s[s.len() - 1] == t[j]);
            }
        }
    }
}

/// A path is in a batch exactly where it waits and is tracked.
proof fn lemma_batch_holds(s: Seq<Seq<u8>>, tracks: spec_fn(Seq<u8>) -> bool, path: Seq<u8>)
    requires
        goes_by_path(tracks),
    ensures
        holds_path(selected(s, answers(tracks, s)), path) <==> holds_path(s, path) && tracks(path),
{
    let flags = answers(tracks, s);
    let t = selected(s, flags);
    if holds_path(t, path) {
        let j = choose|j: int| 0 <= j < t.len() && same_path(#[trigger] t[j], path);
        lemma_selected_from(s, flags, j);
        let i = choose|i: int| 0 <= i < s.len() && flags[i] && s[i] == t[j];
        assert(same_path(s[i], path));
    }
    if holds_path(s, path) && tracks(path) {
        let i = choose|i: int| 0 <= i < s.len() && same_path(#[trigger] s[i], path);
        assert(flags[i]);
        lemma_selected_holds(s, flags, i);
        let j = choose|j: int| 0 <= j < t.len() && same_path(#[trigger] t[j], s[i]);
        assert(same_path(t[j], path));
    }
}

proof fn lemma_turns(start: WorkerState, turns: Seq<Turn>, tracks: spec_fn(Seq<u8>) -> bool)
    requires
        start.dirty.len() == 0,
        start.in_flight.len() == 0,
        goes_by_path(tracks),
    ensures
        ({
            let state = start.after(turns, tracks);
            let lists = start.batches(turns, tracks);
            &&& distinct_paths(state.dirty)
            &&& state.in_flight.len() == 0
            &&& forall|path: Seq<u8>| #[trigger]
                received(turns, path) && tracks(path) ==> holds_path(state.dirty, path) || listed(
                    lists,
                    path,
                )
            &&& forall|path: Seq<u8>| #[trigger]
                holds_path(state.dirty, path) ==> received(turns, path)
            &&& forall|path: Seq<u8>| #[trigger]
                listed(lists, path) ==> received(turns, path) && tracks(path)
            &&& forall|i: int|
                0 <= i < lists.len() ==> (#[trigger] lists[i]).len() > 0 && distinct_paths(lists[i])
        }),
    decreases turns.len(),
{
    if turns.len() > 0 {
        let init = turns.drop_last();
        let turn = turns.last();
        lemma_turns(start, init, tracks);
        let before = start.after(init, tracks);
        let old_lists = start.batches(init, tracks);
        let next = before.stepped(turn.wake, turn.now);
        let flags = answers(tracks, next.dirty);
        let batch = before.batch(turn, tracks);
        let state = start.after(turns, tracks);
        let lists = start.batches(turns, tracks);
        assert(distinct_paths(next.dirty));
        lemma_selected_distinct(next.dirty, flags);
        lemma_with_paths_distinct(Seq::empty(), selected(next.dirty, flags));
        assert forall|path: Seq<u8>| #[trigger] holds_path(next.dirty, path) <==> holds_path(
            before.dirty,
            path,
        ) || (turn.path() is Some && same_path(turn.path()->0, path)) by {
            match turn.path() {
                Some(p) => {
                    lemma_with_path_holds(before.dirty, p, path);
                },
                None => {},
            }
        }
        assert forall|path: Seq<u8>|
            {
                &&& #[trigger] received(turns, path) && tracks(path) ==> holds_path(
                    state.dirty,
                    path,
                ) || listed(lists, path)
                &&& holds_path(state.dirty, path) ==> received(turns, path)
                &&& listed(lists, path) ==> received(turns, path) && tracks(path)
            } by {
            lemma_received(turns, path);
            lemma_batch_holds(next.dirty, tracks, path);
            lemma_listed_push(old_lists, batch, path);
            lemma_with_paths_holds(Seq::empty(), selected(next.dirty, flags), path);
            assert(holds_path(next.dirty, path) <==> holds_path(before.dirty, path) || (
            turn.path() is Some && same_path(turn.path()->0, path)));
            assert(received(init, path) && tracks(path) ==> holds_path(before.dirty, path)
                || listed(old_lists, path));
            assert(holds_path(before.dirty, path) ==> received(init, path));
            assert(listed(old_lists, path) ==> received(init, path) && tracks(path));
        }
        assert forall|path: Seq<u8>| #[trigger] holds_path(state.dirty, path) implies received(
            turns,
            path,
        ) by {
            assert(received(turns, path) || !received(turns, path));
        }
        assert forall|path: Seq<u8>| #[trigger] listed(lists, path) implies received(turns, path)
            && tracks(path) by {
            assert(received(turns, path) || !received(turns, path));
        }
        assert forall|i: int| 0 <= i < lists.len() implies (#[trigger] lists[i]).len() > 0
            && distinct_paths(lists[i]) by {
            if i < old_lists.len() {
                assert(lists[i] == old_lists[i]);
            }
        }
    }
}

/// When the worker has ended, the backend got every path with local changes that
/// came in and that it tracks, and no other path, however its syncs went. No list
/// that it got was empty, and none held a path twice.
pub proof fn law_whole_run(
    start: WorkerState,
    turns: Seq<Turn>,
    tracks: spec_fn(Seq<u8>) -> bool,
    path: Seq<u8>,
)
    requires
        start.dirty.len() == 0,
        start.in_flight.len() == 0,
        goes_by_path(tracks),
        turns.len() > 0,
        WorkerState::ends(turns.last().wake),
    ensures
        listed(start.batches(turns, tracks), path) <==> received(turns, path) && tracks(path),
        forall|i: int|
            0 <= i < start.batches(turns, tracks).len() ==> (#[trigger] start.batches(
                turns,
                tracks,
            )[i]).len() > 0 && distinct_paths(start.batches(turns, tracks)[i]),
{
    lemma_turns(start, turns, tracks);
    let init = turns.drop_last();
    lemma_turns(start, init, tracks);
    let before = start.after(init, tracks);
    let batch = before.batch(turns.last(), tracks);
    lemma_received(turns, path);
    lemma_batch_holds(before.dirty, tracks, path);
    lemma_listed_push(start.batches(init, tracks), batch, path);
}

/// A file with pending changes is protected from remote changes, and so is
/// everything below it.
pub proof fn law_pending_is_protected(worker: DirtyWorker, path: Seq<u8>, below: Seq<u8>)
    requires
        worker@.pending(path),
        within(below, path),
    ensures
        worker.protects(path),
        worker.protects(below),
{
    if holds_path(worker@.dirty, path) {
        crate::dirty_index::law_dirty_paths_protect(worker@.dirty, path, below);
    } else {
        crate::dirty_index::law_dirty_paths_protect(worker@.in_flight, path, below);
    }
}

/// A poll applies nothing where a change affects a path with pending changes.
pub proof fn law_poll_spares_pending(
    plan: PollPlan,
    changes: Vec<RemoteChange>,
    worker: DirtyWorker,
    i: int,
)
    requires
        poll_planned(plan, Ok::<Vec<RemoteChange>, String>(changes), worker),
        0 <= i < changes@.len(),
        worker@.pending(changes@[i].path_view()),
    ensures
        plan is Deferred,
{
    let path = changes@[i].path_view();
    crate::paths::lemma_within_is_a_preorder(path, path, path);
    law_pending_is_protected(worker, path, path);
    crate::backend::lemma_protected_among(affected_paths(changes@), worker, i);
}

/// The changes that a poll gives are applied all together and as they came, where
/// none of their paths has local changes.
pub proof fn law_poll_applies_every_change<P: PathProtection>(
    changes: Vec<RemoteChange>,
    protection: P,
    plan: PollPlan,
)
    requires
        call_ensures(plan_poll::<P>, (Ok::<Vec<RemoteChange>, String>(changes), &protection), plan),
        changes@.len() > 0,
        forall|i: int|
            0 <= i < changes@.len() ==> !protection.protects(
                (#[trigger] changes@[i]).path_view(),
            ),
    ensures
        plan matches PollPlan::Apply(applied) && applied@ == changes@,
{
    assert forall|i: int| 0 <= i < affected_paths(changes@).len() implies !protection.protects(
        #[trigger] affected_paths(changes@)[i],
    ) by {
        assert(affected_paths(changes@)[i] == changes@[i].path_view());
    }
    crate::backend::lemma_none_protected(affected_paths(changes@), protection);
}

/// A poll whose changes meet local ones applies nothing and names exactly the
/// paths with local changes; one without changes is quiet; one that failed is
/// told with its error.
pub proof fn law_poll_is_told_as_it_went<P: PathProtection>(
    result: Result<Vec<RemoteChange>, String>,
    protection: P,
    plan: PollPlan,
)
    requires
        call_ensures(plan_poll::<P>, (result, &protection), plan),
    ensures
        match result {
            Err(error) => plan matches PollPlan::Report(Notice::PollFailed(told)) && told@
                == error@,
            Ok(changes) => {
                let held = affected_paths(changes@).filter(|p: Seq<u8>| protection.protects(p));
                if changes@.len() == 0 {
                    plan is Quiet
                } else if held.len() > 0 {
                    plan matches PollPlan::Deferred(paths) && path_bytes(paths@) == held
                } else {
                    plan is Apply
                }
            },
        },
{
    if let Ok(changes) = result {
        crate::backend::lemma_protected_is_filtered(affected_paths(changes@), protection);
    }
}

/// Applied changes are told as an update, a failure with its error.
pub proof fn law_apply_is_told(result: Result<(), String>, r: Notice)
    requires
        call_ensures(after_apply, (result,), r),
    ensures
        result is Ok ==> r is Updated,
        result matches Err(error) ==> (r matches Notice::ApplyFailed(told) && told@
            == error@),
{
}

/// A worker begins without changes and waits for an event without a limit; with
/// changes it waits until they have rested.
pub proof fn law_worker_waits_for_changes(
    config: &SyncConfig,
    now: u64,
    fresh: DirtyWorker,
    worker: DirtyWorker,
    deadline: Option<u128>,
    count: usize,
)
    requires
        call_ensures(DirtyWorker::new, (config, now), fresh),
        call_ensures(DirtyWorker::wait_deadline, (&worker,), deadline),
        call_ensures(DirtyWorker::dirty_count, (&worker,), count),
    ensures
        fresh@.dirty.len() == 0,
        fresh@.in_flight.len() == 0,
        fresh@.debounce == config.debounce_timeout_secs * 1_000_000_000,
        fresh@.deadline == fresh@.far_future,
        fresh@.far_future == now + 365 * 24 * 3600 * 1_000_000_000,
        deadline is None <==> worker@.dirty.len() == 0,
        deadline matches Some(d) ==> d == worker@.deadline,
        count == worker@.dirty.len(),
{
}

/// A modified file waits from then on, and the deadline moves on by the time that
/// changes have to rest; there is no sync yet. What waited still waits.
pub proof fn law_modified_files_wait(
    worker: &mut DirtyWorker,
    file: FsPath,
    now: u64,
    step: WorkerStep,
    path: Seq<u8>,
)
    requires
        call_ensures(
            DirtyWorker::step,
            (worker, Wakeup::Event(FsEvent::FileModified(file)), now),
            step,
        ),
    ensures
        step is Wait,
        holds_path(final(worker)@.dirty, path) <==> holds_path(old(worker)@.dirty, path)
            || same_path(file@, path),
        final(worker)@.deadline == now + old(worker)@.debounce,
        final(worker)@.in_flight == old(worker)@.in_flight,
        final(worker)@.debounce == old(worker)@.debounce,
{
    lemma_with_path_holds(old(worker)@.dirty, file@, path);
}

/// A closed file is synchronized at once, with all that waits.
pub proof fn law_closed_files_are_synchronized(
    worker: &mut DirtyWorker,
    file: FsPath,
    now: u64,
    step: WorkerStep,
    path: Seq<u8>,
)
    requires
        call_ensures(
            DirtyWorker::step,
            (worker, Wakeup::Event(FsEvent::FileClosed(file)), now),
            step,
        ),
    ensures
        step is Sync,
        holds_path(final(worker)@.dirty, path) <==> holds_path(old(worker)@.dirty, path)
            || same_path(file@, path),
        final(worker)@.deadline == old(worker)@.deadline,
        final(worker)@.in_flight == old(worker)@.in_flight,
{
    lemma_with_path_holds(old(worker)@.dirty, file@, path);
    lemma_with_path_holds(old(worker)@.dirty, file@, file@);
}

/// A flush, or the deadline, synchronizes where something waits; the end of
/// events synchronizes for the last time where something waits, and stops
/// anyway. None of them changes what waits.
pub proof fn law_what_waits_is_synchronized(
    worker: &mut DirtyWorker,
    wake: Wakeup,
    now: u64,
    step: WorkerStep,
)
    requires
        call_ensures(DirtyWorker::step, (worker, wake, now), step),
        !(wake matches Wakeup::Event(FsEvent::FileModified(_))),
        !(wake matches Wakeup::Event(FsEvent::FileClosed(_))),
    ensures
        final(worker)@.dirty == old(worker)@.dirty,
        final(worker)@.in_flight == old(worker)@.in_flight,
        wake is Timeout || wake == Wakeup::Event(FsEvent::Flush) ==> step == if old(worker)@.dirty.len() > 0 {
            WorkerStep::Sync
        } else {
            WorkerStep::Wait
        },
        wake is Closed || wake == Wakeup::Event(FsEvent::Shutdown) ==> step == if old(worker)@.dirty.len() > 0 {
            WorkerStep::FinalSync
        } else {
            WorkerStep::Stop
        },
        wake is Timeout ==> final(worker)@.deadline == old(worker)@.far_future,
        !(wake is Timeout) ==> final(worker)@.deadline == old(worker)@.deadline,
{
}

/// The backend is asked about every path with local changes, and what it said of
/// a path is the flag of that path.
pub proof fn law_backend_is_asked_about_every_path<B: Backend>(
    worker: DirtyWorker,
    backend: &B,
    flags: Vec<bool>,
    i: int,
)
    requires
        call_ensures(DirtyWorker::ask_tracked::<B>, (&worker, backend), flags),
        0 <= i < worker@.dirty.len(),
    ensures
        flags@.len() == worker@.dirty.len(),
        exists|asked: FsPath|
            asked@ == worker@.dirty[i] && #[trigger] call_ensures(
                B::should_track,
                (backend, &asked),
                flags@[i],
            ),
{
    let asked = worker.dirty_items()[i];
    assert(asked@ == worker@.dirty[i] && call_ensures(
        B::should_track,
        (backend, &asked),
        flags@[i],
    ));
}

/// A sync hands exactly the paths that wait and are tracked to the backend, each
/// once, and nothing waits meanwhile; without any there is no sync.
pub proof fn law_sync_takes_what_is_tracked(
    worker: &mut DirtyWorker,
    flags: &Vec<bool>,
    metrics: &mut WorkerMetrics,
    r: Option<Vec<FsPath>>,
    i: int,
)
    requires
        call_ensures(DirtyWorker::begin_sync, (worker, flags, metrics), r),
        flags@.len() == old(worker)@.dirty.len(),
        old(metrics).sync_iterations < u64::MAX,
    ensures
        final(worker)@.dirty.len() == 0,
        r is Some <==> exists|k: int| 0 <= k < flags@.len() && #[trigger] flags@[k],
        r matches Some(files) ==> {
            &&& final(worker)@.in_flight == path_bytes(files@)
            &&& distinct_paths(path_bytes(files@))
            &&& 0 <= i < flags@.len() && flags@[i] ==> holds_path(
                path_bytes(files@),
                old(worker)@.dirty[i],
            )
            &&& 0 <= i < files@.len() ==> exists|k: int|
                0 <= k < flags@.len() && #[trigger] flags@[k] && old(worker)@.dirty[k]
                    == files@[i]@
            &&& final(metrics).sync_iterations == old(metrics).sync_iterations + 1
        },
        r is None ==> *final(metrics) == *old(metrics),
        final(metrics).poll_iterations == old(metrics).poll_iterations,
        final(metrics).slow_poll_count == old(metrics).slow_poll_count,
        final(metrics).slow_sync_count == old(metrics).slow_sync_count,
{
    let dirty = old(worker)@.dirty;
    let t = selected(dirty, flags@);
    if exists|k: int| 0 <= k < flags@.len() && #[trigger] flags@[k] {
        let k = choose|k: int| 0 <= k < flags@.len() && #[trigger] flags@[k];
        lemma_selected_holds(dirty, flags@, k);
    }
    if let Some(files) = r {
        assert(path_bytes(files@).len() == files@.len());
        lemma_selected_from(dirty, flags@, 0);
        let k = choose|k: int| 0 <= k < dirty.len() && flags@[k] && dirty[k] == t[0];
        assert(flags@[k]);
        if 0 <= i < flags@.len() && flags@[i] {
            lemma_selected_holds(dirty, flags@, i);
        }
        if 0 <= i < files@.len() {
            lemma_selected_from(dirty, flags@, i);
            let j = choose|j: int| 0 <= j < dirty.len() && flags@[j] && dirty[j] == t[i];
            assert(path_bytes(files@)[i] == files@[i]@);
            assert(flags@[j]);
        }
    }
}

/// A sync that failed or found the remote side unreachable puts every file of its
/// batch back; any other settles the batch. What came in meanwhile waits on.
pub proof fn law_failed_batch_waits_again(
    worker: &mut DirtyWorker,
    result: Result<SyncResult, String>,
    elapsed: Duration,
    metrics: &mut WorkerMetrics,
    notices: Vec<Notice>,
    path: Seq<u8>,
)
    requires
        call_ensures(DirtyWorker::finish_sync, (worker, result, elapsed, metrics), notices),
    ensures
        final(worker)@.in_flight.len() == 0,
        result is Err || result == Ok::<SyncResult, String>(SyncResult::Offline) ==> (holds_path(
            final(worker)@.dirty,
            path,
        ) <==> holds_path(old(worker)@.dirty, path) || holds_path(old(worker)@.in_flight, path)),
        result is Ok && result->Ok_0 != SyncResult::Offline ==> final(worker)@.dirty == old(worker)@.dirty,
        elapsed.secs * 1_000_000_000 + elapsed.nanos > 5_000_000_000 ==> final(metrics).slow_sync_count == old(metrics).slow_sync_count.wrapping_add(1),
        elapsed.secs * 1_000_000_000 + elapsed.nanos <= 5_000_000_000 ==> *final(metrics) == *old(metrics),
        final(metrics).sync_iterations == old(metrics).sync_iterations,
        final(metrics).poll_iterations == old(metrics).poll_iterations,
        final(metrics).slow_poll_count == old(metrics).slow_poll_count,
{
    lemma_with_paths_holds(old(worker)@.dirty, old(worker)@.in_flight, path);
}

/// What came of a sync is told: the number of pushed files, then the conflicts
/// where there are any; that the remote side is away; or the error.
pub proof fn law_sync_is_told_as_it_went(
    worker: &mut DirtyWorker,
    result: Result<SyncResult, String>,
    elapsed: Duration,
    metrics: &mut WorkerMetrics,
    notices: Vec<Notice>,
)
    requires
        call_ensures(DirtyWorker::finish_sync, (worker, result, elapsed, metrics), notices),
    ensures
        result matches Ok(SyncResult::Success { synced_files }) ==> notices@.len() == 1
            && notices@[0] == Notice::Pushed(synced_files),
        result matches Ok(SyncResult::Conflict { synced_files, conflict_files }) ==> notices@.len()
            == 2 && notices@[0] == Notice::Pushed(synced_files) && (
        notices@[1] matches Notice::Conflicts(told) && told@ == conflict_files@),
        result matches Ok(SyncResult::Offline) ==> notices@.len() == 1 && notices@[0] is Offline,
        result matches Err(error) ==> notices@.len() == 1 && (
        notices@[0] matches Notice::SyncFailed(told) && told@ == error@),
{
}

/// The log message of a notice says what happened; pushes and updates have none.
pub proof fn law_log_says_what_happened(notice: Notice, r: Option<(LogLevel, String)>)
    requires
        call_ensures(Notice::log, (&notice,), r),
    ensures
        notice is Pushed || notice is Updated ==> r is None,
        notice is Offline ==> (r matches Some((level, text)) && level == LogLevel::Warn && text@
            == "remote unavailable"@),
        notice matches Notice::SyncFailed(error) ==> (r matches Some((level, text)) && level
            == LogLevel::Error && text@ == "sync error: "@ + error@),
        notice matches Notice::ApplyFailed(error) ==> (r matches Some((level, text)) && level
            == LogLevel::Warn && text@ == "error applying remote changes: "@ + error@),
        notice matches Notice::PollFailed(error) ==> (r matches Some((level, text)) && level
            == LogLevel::Warn && text@ == "poll failed: "@ + error@),
        notice matches Notice::Conflicts(files) ==> (r matches Some((level, text)) && level
            == LogLevel::Warn && text@ == "conflicts: "@ + shown_list(bytes_of(files@))),
{
}

/// Polls are counted one by one, and a poll is slow where it took more than five
/// seconds; every hundredth gives a sign of life.
pub proof fn law_polls_are_counted(
    metrics: &mut WorkerMetrics,
    number: u64,
    later: &mut WorkerMetrics,
    iteration: u64,
    elapsed: Duration,
    report: PollReport,
)
    requires
        call_ensures(begin_poll, (metrics,), number),
        call_ensures(end_poll, (iteration, elapsed, later), report),
    ensures
        number == old(metrics).poll_iterations + 1,
        final(metrics).poll_iterations == number,
        final(metrics).sync_iterations == old(metrics).sync_iterations,
        final(metrics).slow_poll_count == old(metrics).slow_poll_count,
        final(metrics).slow_sync_count == old(metrics).slow_sync_count,
        report.slow <==> elapsed.secs * 1_000_000_000 + elapsed.nanos > 5_000_000_000,
        report.heartbeat <==> iteration % 100 == 0,
        report.slow ==> final(later).slow_poll_count == old(later).slow_poll_count.wrapping_add(1),
        !report.slow ==> *final(later) == *old(later),
        final(later).poll_iterations == old(later).poll_iterations,
        final(later).sync_iterations == old(later).sync_iterations,
        final(later).slow_sync_count == old(later).slow_sync_count,
{
}

/// A path is protected while it, or a path above it, waits for a sync or is with
/// the backend.
pub proof fn law_worker_protects_what_is_pending(worker: DirtyWorker, path: &FsPath, r: bool)
    requires
        call_ensures(<DirtyWorker as PathProtection>::is_protected, (&worker, path), r),
    ensures
        r <==> (exists|i: int| 0 <= i < worker@.dirty.len() && within(path@, #[trigger] worker@.dirty[i]))
            || (exists|i: int|
            0 <= i < worker@.in_flight.len() && within(path@, #[trigger] worker@.in_flight[i])),
{
}

} // verus!
