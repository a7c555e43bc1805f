//! Operations of the mounted file system.
use omnifuse::backend::Backend;
use omnifuse::buffer::{FileBufferManager, LoadStep};
use omnifuse::config::BufferConfig;
use omnifuse::duration::Duration;
use omnifuse::paths::FsPath;
use omnifuse::sync_engine::FsEvent;
use omnifuse::vfs::{
    attribute_value, file_type, lookup_error, metadata_to_attr, statfs, FileHandle, FileMeta,
    FileType, FsError, OmniFuseVfs, RawDirEntry, RawStatFs, VfsNotice,
};

fn path(text: &str) -> FsPath {
    FsPath::from_text(text)
}

struct NoLogs;

impl Backend for NoLogs {
    fn should_track(&self, path: &FsPath) -> bool {
        !path.display().ends_with(".log")
    }

    fn poll_interval(&self) -> Duration {
        Duration::from_secs(30)
    }

    fn name(&self) -> &'static str {
        "mock"
    }
}

fn vfs() -> OmniFuseVfs<NoLogs> {
    OmniFuseVfs::new(path("/work"), NoLogs)
}

fn buffers() -> FileBufferManager {
    FileBufferManager::new(BufferConfig::default())
}

fn meta() -> FileMeta {
    FileMeta {
        is_dir: false,
        is_symlink: false,
        len: 0,
        accessed: None,
        modified: None,
        created: None,
        mode: 0,
        nlink: 1,
        uid: 0,
        gid: 0,
    }
}

#[test]
fn attributes_come_from_the_disk() {
    let file = FileMeta {
        len: 513,
        mode: 0o100_644,
        modified: Some(7),
        nlink: 0x1_0000_0002,
        uid: 10,
        gid: 20,
        ..meta()
    };
    let attr = metadata_to_attr(&file, 99);
    assert_eq!(attr.kind, FileType::RegularFile);
    assert_eq!((attr.size, attr.blocks), (513, 2));
    assert_eq!(attr.perm, 0o644);
    assert_eq!((attr.atime, attr.mtime, attr.ctime, attr.crtime), (99, 7, 7, 99));
    assert_eq!((attr.nlink, attr.uid, attr.gid), (2, 10, 20));
    assert_eq!((attr.rdev, attr.flags), (0, 0));
    let dir = FileMeta { is_dir: true, len: u64::MAX, ..meta() };
    assert_eq!(metadata_to_attr(&dir, 0).kind, FileType::Directory);
    assert_eq!(metadata_to_attr(&dir, 0).blocks, 36_028_797_018_963_968);
    assert_eq!(file_type(false, true), FileType::Symlink);
}

#[test]
fn create_write_read_cycle() {
    let fs = vfs();
    let mut b = buffers();
    let file = path("new.txt");
    let effects = fs.create(&mut b, &file, 1);
    assert!(matches!(&effects.events[0], FsEvent::FileModified(p) if *p == file));
    assert!(matches!(&effects.notices[0], VfsNotice::Created(p) if *p == file));
    let (written, effects) = fs.write(&mut b, &file, 0, b"hello world", 2).expect("buffer");
    assert_eq!(written, 11);
    assert_eq!(effects.events.len(), 1);
    assert!(matches!(&effects.notices[0], VfsNotice::Written(p, 11) if *p == file));
    assert_eq!(fs.read(&b, &file, 0, 100), Some(b"hello world".to_vec()));
    assert_eq!(fs.read(&b, &file, 6, 5), Some(b"world".to_vec()));
    assert_eq!(fs.read(&b, &path("other"), 0, 1), None);
    assert!(fs.write(&mut b, &path("other"), 0, b"x", 3).is_none());
}

#[test]
fn write_beyond_the_end_extends() {
    let fs = vfs();
    let mut b = buffers();
    let file = path("small.txt");
    assert_eq!(fs.load(&mut b, &file, Some(1)), LoadStep::Load);
    fs.loaded(&mut b, &file, b"abc".to_vec(), 1);
    fs.write(&mut b, &file, 10, b"xyz", 2).expect("buffer");
    let data = fs.read(&b, &file, 0, 100).expect("data");
    assert_eq!(data.len(), 13);
    assert_eq!(&data[10..13], b"xyz");
}

#[test]
fn truncate_then_write_shorter() {
    let fs = vfs();
    let mut b = buffers();
    let file = path("trunc2.txt");
    fs.loaded(&mut b, &file, b"old long content".to_vec(), 1);
    fs.setattr_size(&mut b, &file, 0, 2);
    let effects = fs.setattr_done(&file, true);
    assert_eq!(effects.events.len(), 1);
    assert!(fs.setattr_done(&file, false).events.is_empty());
    fs.write(&mut b, &file, 0, b"x\n", 3).expect("buffer");
    assert_eq!(fs.read(&b, &file, 0, 100), Some(b"x\n".to_vec()));
}

#[test]
fn flush_and_release() {
    let fs = vfs();
    let mut b = buffers();
    let file = path("flush.txt");
    fs.loaded(&mut b, &file, Vec::new(), 1);
    assert!(fs.flush(&b, &file).is_none());
    fs.write(&mut b, &file, 0, b"persisted", 2).expect("buffer");
    assert_eq!(fs.flush(&b, &file), Some(b"persisted".to_vec()));
    fs.flushed(&mut b, &file);
    assert!(fs.flush(&b, &file).is_none());
    let effects = fs.release(&file);
    assert!(matches!(&effects.events[0], FsEvent::FileClosed(p) if *p == file));
}

#[test]
fn unlink_and_rename_forget_buffers() {
    let fs = vfs();
    let mut b = buffers();
    fs.loaded(&mut b, &path("a"), b"1".to_vec(), 1);
    fs.unlink(&mut b, &path("a"));
    assert!(fs.read(&b, &path("a"), 0, 1).is_none());
    let effects = fs.unlinked(&path("a"));
    assert!(matches!(&effects.notices[0], VfsNotice::Deleted(p) if *p == path("a")));

    fs.loaded(&mut b, &path("b"), b"2".to_vec(), 1);
    let effects = fs.rename(&mut b, &path("b"), &path("c"));
    assert!(fs.read(&b, &path("b"), 0, 1).is_none());
    assert!(matches!(&effects.events[0], FsEvent::FileModified(p) if *p == path("b")));
    assert!(matches!(&effects.events[1], FsEvent::FileModified(p) if *p == path("c")));
    assert!(matches!(&effects.notices[0], VfsNotice::Renamed(a, b)
        if *a == path("b") && *b == path("c")));
    let effects = fs.symlink(&path("l"));
    assert!(matches!(&effects.events[0], FsEvent::FileModified(p) if *p == path("l")));
    assert!(effects.notices.is_empty());
}

fn entry(name: &str, kind: FileType) -> RawDirEntry {
    RawDirEntry { name: path(name), kind }
}

#[test]
fn readdir_hides_reserved_and_untracked_names() {
    let fs = vfs();
    let entries = vec![
        entry(".git", FileType::Directory),
        entry("a.txt", FileType::RegularFile),
        entry("ignored.log", FileType::RegularFile),
        entry(".vfs", FileType::Directory),
        entry("subdir", FileType::Directory),
    ];
    let shown = fs.readdir(&path(""), &entries);
    let names: Vec<&str> = shown.iter().map(|e| e.name.as_str()).collect();
    assert_eq!(names, vec!["a.txt", "subdir"]);
    assert_eq!(shown[1].kind, FileType::Directory);
    assert!(fs.is_hidden(&path("deep"), &path(".git")));
    assert!(!fs.is_hidden(&path("deep"), &path(".gitignore")));
}

#[test]
fn handles_and_places() {
    let mut fs = vfs();
    assert_eq!(fs.alloc_fh(), FileHandle(1));
    assert_eq!(fs.alloc_fh(), FileHandle(2));
    assert_eq!(fs.full_path(&path("a/b")), path("/work/a/b"));
}

#[test]
fn errors_and_values() {
    assert!(matches!(lookup_error(true, "x".to_string()), FsError::NotFound));
    assert!(matches!(lookup_error(false, "x".to_string()), FsError::Io(m) if m == "x"));
    assert!(matches!(attribute_value(None), Err(FsError::NotFound)));
    assert!(matches!(attribute_value(Some(vec![1])), Ok(v) if v == vec![1]));
    let stats = statfs(&RawStatFs {
        blocks: 1,
        blocks_free: 2,
        blocks_available: 3,
        files: 4,
        files_free: 5,
        fragment_size: 0x1_0000_1000,
        name_max: 255,
    });
    assert_eq!((stats.bsize, stats.namelen), (4096, 255));
    assert_eq!((stats.blocks, stats.bfree, stats.bavail), (1, 2, 3));
}

#[test]
fn loading_follows_the_disk() {
    let fs = vfs();
    let mut b = buffers();
    let file = path("f");
    fs.loaded(&mut b, &file, b"old".to_vec(), 5);
    assert_eq!(fs.load(&mut b, &file, Some(5)), LoadStep::Cached);
    assert_eq!(fs.load(&mut b, &file, Some(6)), LoadStep::Reload(6));
    fs.loaded(&mut b, &file, b"new".to_vec(), 6);
    assert_eq!(fs.read(&b, &file, 0, 10), Some(b"new".to_vec()));
}
