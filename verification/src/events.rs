//! Notifications for a user interface.
use vstd::prelude::*;

use crate::paths::FsPath;
use crate::sync_engine::{notice_log, Notice};
use crate::vfs::VfsNotice;

verus! {

/// Log level.
#[derive(Debug, Clone, Copy, PartialEq, Eq, Structural)]
pub enum LogLevel {
    /// Debug information.
    Debug,
    /// Informational message.
    Info,
    /// Warning.
    Warn,
    /// Error.
    Error,
}

/// Receives what happens in a mounted file system. Each method does nothing
/// unless an implementor overrides it.
#[allow(unused_variables)]
pub trait VfsEventHandler {
    /// File system mounted.
    fn on_mounted(&self, source: &str, mount_point: &FsPath) {
    }

    /// File system unmounted.
    fn on_unmounted(&self) {
    }

    /// An error occurred.
    fn on_error(&self, message: &str) {
    }

    /// Log message.
    fn on_log(&self, level: LogLevel, message: &str) {
    }

    /// File written.
    fn on_file_written(&self, path: &FsPath, bytes: usize) {
    }

    /// File marked as dirty.
    fn on_file_dirty(&self, path: &FsPath) {
    }

    /// File created.
    fn on_file_created(&self, path: &FsPath) {
    }

    /// File deleted.
    fn on_file_deleted(&self, path: &FsPath) {
    }

    /// File renamed.
    fn on_file_renamed(&self, old_path: &FsPath, new_path: &FsPath) {
    }

    /// Commit performed.
    fn on_commit(&self, hash: &str, files_count: usize, message: &str) {
    }

    /// Push performed.
    fn on_push(&self, items_count: usize) {
    }

    /// Push rejected.
    fn on_push_rejected(&self) {
    }

    /// Synchronization completed.
    fn on_sync(&self, result: &str) {
    }
}

/// A handler that ignores everything.
pub struct NoopEventHandler;

impl VfsEventHandler for NoopEventHandler {

}

/// Whether a handler was given a log message.
pub open spec fn was_logged<H: VfsEventHandler>(
    handler: &H,
    level: LogLevel,
    message: Seq<char>,
) -> bool {
    exists|text: &str|
        text@ == message && #[trigger] call_ensures(H::on_log, (handler, level, text), ())
}

/// Whether a handler was given the result of a synchronization.
pub open spec fn was_synced<H: VfsEventHandler>(handler: &H, result: Seq<char>) -> bool {
    exists|text: &str| text@ == result && #[trigger] call_ensures(H::on_sync, (handler, text), ())
}

/// Hands a notice of the sync engine to a handler: a push with its number of
/// files, applied remote changes as `updated`, everything else as its log message.
pub fn deliver<H: VfsEventHandler>(notice: &Notice, handler: &H)
    ensures
        *notice matches Notice::Pushed(count) ==> call_ensures(H::on_push, (handler, count), ()),
        *notice is Updated ==> was_synced(handler, "updated"@),
        notice_log(*notice) matches Some((level, message)) ==> was_logged(handler, level, message),
{
    match notice {
        Notice::Pushed(count) => handler.on_push(*count),
        Notice::Updated => handler.on_sync("updated"),
        _ => {
            if let Some((level, message)) = notice.log() {
                handler.on_log(level, message.as_str());
            }
        },
    }
}

/// Hands a notice of the file system to a handler.
pub fn deliver_file<H: VfsEventHandler>(notice: &VfsNotice, handler: &H)
    ensures
        match *notice {
            VfsNotice::Written(path, bytes) => call_ensures(
                H::on_file_written,
                (handler, &path, bytes),
                (),
            ),
            VfsNotice::Created(path) => call_ensures(H::on_file_created, (handler, &path), ()),
            VfsNotice::Deleted(path) => call_ensures(H::on_file_deleted, (handler, &path), ()),
            VfsNotice::Renamed(old_path, new_path) => call_ensures(
                H::on_file_renamed,
                (handler, &old_path, &new_path),
                (),
            ),
        },
{
    match notice {
        VfsNotice::Written(path, bytes) => handler.on_file_written(path, *bytes),
        VfsNotice::Created(path) => handler.on_file_created(path),
        VfsNotice::Deleted(path) => handler.on_file_deleted(path),
        VfsNotice::Renamed(old_path, new_path) => handler.on_file_renamed(old_path, new_path),
    }
}

/// A handler is told of a push with its number of files, of applied remote changes
/// as `updated`, and of all else with the level and text of the log message.
pub proof fn law_notices_reach_the_handler<H: VfsEventHandler>(
    notice: Notice,
    handler: H,
    logged: Option<(LogLevel, String)>,
)
    requires
        call_ensures(deliver::<H>, (&notice, &handler), ()),
        call_ensures(Notice::log, (&notice,), logged),
    ensures
        notice matches Notice::Pushed(count) ==> call_ensures(H::on_push, (&handler, count), ()),
        notice is Updated ==> exists|text: &str|
            text@ == "updated"@ && #[trigger] call_ensures(H::on_sync, (&handler, text), ()),
        logged matches Some((level, message)) ==> exists|text: &str|
            text@ == message@ && #[trigger] call_ensures(H::on_log, (&handler, level, text), ()),
{
}

/// A handler is told of changes of files by their paths: of a write with the
/// number of bytes, of a rename with the old path first.
pub proof fn law_file_notices_reach_the_handler<H: VfsEventHandler>(notice: VfsNotice, handler: H)
    requires
        call_ensures(deliver_file::<H>, (&notice, &handler), ()),
    ensures
        notice matches VfsNotice::Written(path, bytes) ==> call_ensures(
            H::on_file_written,
            (&handler, &path, bytes),
            (),
        ),
        notice matches VfsNotice::Created(path) ==> call_ensures(
            H::on_file_created,
            (&handler, &path),
            (),
        ),
        notice matches VfsNotice::Deleted(path) ==> call_ensures(
            H::on_file_deleted,
            (&handler, &path),
            (),
        ),
        notice matches VfsNotice::Renamed(from, to) ==> call_ensures(
            H::on_file_renamed,
            (&handler, &from, &to),
            (),
        ),
{
}

} // verus!
