//! Paths with local changes, and paths in general.
use omnifuse::dirty_index::{DirtyIndex, PathProtection};
use omnifuse::file_mutations::{DirtySendResult, DirtySink};
use omnifuse::paths::FsPath;
use omnifuse::sync_engine::FsEvent;

fn path(text: &str) -> FsPath {
    FsPath::from_text(text)
}

#[test]
fn dirty_index_tracks_and_untracks_paths() {
    let mut index = DirtyIndex::default();
    let file = path("docs/page.md");

    index.mark_dirty(file.copy());
    assert!(index.is_protected(&file));

    index.mark_clean(&file);
    assert!(!index.is_protected(&file));
}

#[test]
fn dirty_index_protects_descendants_when_directory_is_dirty() {
    let mut index = DirtyIndex::default();
    index.mark_dirty(path("docs"));

    assert!(index.is_protected(&path("docs/page.md")));
}

#[test]
fn dirty_index_goes_by_components() {
    let mut index = DirtyIndex::default();
    index.mark_dirty(path("docs"));
    index.mark_dirty(path("docs/"));
    assert_eq!(index.snapshot(), vec![path("docs")]);
    assert!(!index.is_protected(&path("docs2/page.md")));
    assert!(!index.is_protected(&path("/docs/page.md")));
    assert!(PathProtection::is_protected(index.as_path_protection(), &path("docs/a/b")));
    index.mark_dirty(path("a"));
    index.mark_clean(&path("./docs"));
    assert_eq!(index.len(), 2);
    index.mark_clean(&path("docs/."));
    assert_eq!(index.snapshot(), vec![path("a")]);
}

#[test]
fn dirty_sink_sends_modified_and_closed_events() {
    let (tx, mut rx) = tokio::sync::mpsc::channel(8);
    let sink = DirtySink::new(tx);

    assert_eq!(sink.mark_modified(path("a.md")), DirtySendResult::Sent);
    assert_eq!(sink.mark_closed(path("a.md")), DirtySendResult::Sent);

    assert!(matches!(rx.try_recv(), Ok(FsEvent::FileModified(p)) if p == path("a.md")));
    assert!(matches!(rx.try_recv(), Ok(FsEvent::FileClosed(p)) if p == path("a.md")));
}

#[test]
fn dirty_sink_reports_full_queue_without_panic() {
    let (tx, _rx) = tokio::sync::mpsc::channel(1);
    let sink = DirtySink::new(tx);

    sink.mark_modified(path("a.md"));
    let result = sink.mark_modified(path("b.md"));

    assert!(matches!(result, DirtySendResult::Dropped));
}

#[test]
fn paths_are_compared_by_components() {
    assert_eq!(path("/a//b/./c/"), path("/a/b/c"));
    assert_ne!(path("a"), path("/a"));
    assert_ne!(path("./a"), path("a"));
    assert_ne!(path("a/.."), path("."));
    assert_eq!(path("/."), path("/"));
    assert_eq!(path("/a//b/./c/").normalized(), b"/a/b/c");
    assert_eq!(path("").normalized(), b"");
    assert_eq!(path("./a/./b").normalized(), b"./a/b");
    assert!(path("/a/b").starts_with(&path("/a")));
    assert!(!path("/ab").starts_with(&path("/a")));
    assert!(path("x").starts_with(&path("")));
}

#[test]
fn paths_are_joined_and_taken_apart() {
    assert_eq!(path("/a").join(&path("b")).as_bytes(), b"/a/b");
    assert_eq!(path("/a/").join(&path("b")).as_bytes(), b"/a/b");
    assert_eq!(path("").join(&path("b")).as_bytes(), b"b");
    assert_eq!(path("/a").join(&path("/b")).as_bytes(), b"/b");
    assert_eq!(path("/a").join(&path("")).as_bytes(), b"/a/");
    assert_eq!(path("/a/b").file_name(), Some(b"b".to_vec()));
    assert_eq!(path("/a/..").file_name(), None);
    assert_eq!(path("/").file_name(), None);
    assert_eq!(path("/a/b").parent(), Some(path("/a")));
    assert_eq!(path("/a").parent(), Some(path("/")));
    assert_eq!(path("a").parent(), Some(path("")));
    assert!(path("/").parent().is_none());
    assert!(path("").parent().is_none());
    assert_eq!(FsPath::from_bytes(vec![0x61, 0xff]).display(), "a\u{fffd}");
    assert_eq!(path("h\u{e9}").display(), "h\u{e9}");
}
