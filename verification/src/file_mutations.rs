//! The way of file changes into the sync engine.
use tokio::sync::mpsc::Sender;
use vstd::prelude::*;

use crate::paths::FsPath;
use crate::sync_engine::FsEvent;

verus! {

/// `Sender` of `tokio::sync::mpsc`: one end of a queue.
#[verifier::external_type_specification]
#[verifier::external_body]
#[verifier::reject_recursive_types(T)]
pub struct ExSender<T>(tokio::sync::mpsc::Sender<T>);

/// `Sender::try_send`: puts the event into the queue without waiting, and says
/// whether the queue took it. That depends on what other threads put in and
/// take out, so nothing is stated of the result.
#[verifier::external_body]
fn offer(tx: &Sender<FsEvent>, event: FsEvent) -> (r: bool) {
    tx.try_send(event).is_ok()
}

/// Hands file changes to the sync engine without waiting.
pub struct DirtySink {
    tx: Sender<FsEvent>,
}

/// Result of handing a file change over.
#[derive(Debug, Clone, Copy, PartialEq, Eq, Structural)]
pub enum DirtySendResult {
    /// The queue took the event.
    Sent,
    /// The event was dropped, because the queue could not take it.
    Dropped,
}

impl DirtySendResult {
    /// The result for an event that the queue took or did not take.
    pub fn from_accepted(accepted: bool) -> (r: DirtySendResult)
        ensures
            r == if accepted {
                DirtySendResult::Sent
            } else {
                DirtySendResult::Dropped
            },
    {
        if accepted {
            DirtySendResult::Sent
        } else {
            DirtySendResult::Dropped
        }
    }
}

impl DirtySink {
    /// Whether the queue may answer so when it is offered the event.
    pub closed spec fn answers(&self, event: FsEvent, accepted: bool) -> bool {
        call_ensures(offer, (&self.tx, event), accepted)
    }

    /// Whether the result is that of offering the event to the queue.
    pub open spec fn sends(&self, event: FsEvent, r: DirtySendResult) -> bool {
        self.answers(event, r == DirtySendResult::Sent)
    }

    /// The end of the queue.
    pub closed spec fn queue(&self) -> Sender<FsEvent> {
        self.tx
    }

    /// A sink for one end of a queue.
    pub fn new(tx: Sender<FsEvent>) -> (r: DirtySink)
        ensures
            r.queue() == tx,
    {
        DirtySink { tx }
    }

    /// Tells that a file was modified.
    pub fn mark_modified(&self, path: FsPath) -> (r: DirtySendResult)
        ensures
            self.sends(FsEvent::FileModified(path), r),
    {
        self.send(FsEvent::FileModified(path))
    }

    /// Tells that a file was closed.
    pub fn mark_closed(&self, path: FsPath) -> (r: DirtySendResult)
        ensures
            self.sends(FsEvent::FileClosed(path), r),
    {
        self.send(FsEvent::FileClosed(path))
    }

    fn send(&self, event: FsEvent) -> (r: DirtySendResult)
        ensures
            self.sends(event, r),
    {
        let accepted: bool = offer(&self.tx, event);
        DirtySendResult::from_accepted(accepted)
    }
}

/// A change of a file is handed over as what it is: a modification or a close of
/// that file; it counts as sent exactly where the queue took it.
pub proof fn law_changes_are_handed_over(
    sink: DirtySink,
    path: FsPath,
    modified: DirtySendResult,
    finished: DirtySendResult,
    accepted: bool,
    r: DirtySendResult,
)
    requires
        call_ensures(DirtySink::mark_modified, (&sink, path), modified),
        call_ensures(DirtySink::mark_closed, (&sink, path), finished),
        call_ensures(DirtySendResult::from_accepted, (accepted,), r),
    ensures
        sink.answers(FsEvent::FileModified(path), modified is Sent),
        sink.answers(FsEvent::FileClosed(path), finished is Sent),
        r is Sent <==> accepted,
{
}

/// A sink hands over to the queue that it was made for: sinks of one queue get the
/// same answers.
pub proof fn law_sink_keeps_its_queue(
    tx: Sender<FsEvent>,
    sink: DirtySink,
    other: DirtySink,
    event: FsEvent,
    accepted: bool,
)
    requires
        call_ensures(DirtySink::new, (tx,), sink),
        call_ensures(DirtySink::new, (tx,), other),
    ensures
        sink.queue() == tx,
        sink.answers(event, accepted) <==> other.answers(event, accepted),
{
}

} // verus!
