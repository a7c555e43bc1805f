//! The mounted file system.
//!
//! Files lie in a local directory; their contents pass through buffers. The
//! functions here say what an operation does to the buffers, what it tells the
//! sync engine and the event handler, and what it answers. The caller works on
//! the disk, in the order that each function names.
use vstd::prelude::*;

use crate::backend::Backend;
use crate::buffer::{
    key_of, load_step, read_bytes, touched, BufferState, FileBufferManager, LoadStep,
};
use crate::paths::{joined, lossy_text, normal, utf8_lossy, FsPath};
use crate::sync_engine::FsEvent;
use crate::text::same_bytes;

verus! {

/// The kind of a file.
#[derive(Debug, Clone, Copy, PartialEq, Eq, Structural)]
pub enum FileType {
    /// Regular file.
    RegularFile,
    /// Directory.
    Directory,
    /// Symbolic link.
    Symlink,
}

/// An open file.
#[derive(Debug, Clone, Copy, PartialEq, Eq, Structural)]
pub struct FileHandle(pub u64);

/// What the disk says of a file. Times are nanoseconds since the Unix epoch.
#[derive(Debug, Clone, Copy)]
pub struct FileMeta {
    /// It is a directory.
    pub is_dir: bool,
    /// It is a symbolic link.
    pub is_symlink: bool,
    /// Size in bytes.
    pub len: u64,
    /// Last access, where it is known.
    pub accessed: Option<i128>,
    /// Last modification, where it is known.
    pub modified: Option<i128>,
    /// Creation, where it is known.
    pub created: Option<i128>,
    /// Mode bits.
    pub mode: u32,
    /// Number of links.
    pub nlink: u64,
    /// Owner.
    pub uid: u32,
    /// Group.
    pub gid: u32,
}

/// What the file system says of a file.
#[derive(Debug, Clone, Copy, PartialEq, Eq, Structural)]
pub struct FileAttr {
    /// Size in bytes.
    pub size: u64,
    /// Number of blocks of 512 bytes.
    pub blocks: u64,
    /// Last access.
    pub atime: i128,
    /// Last modification.
    pub mtime: i128,
    /// Last change.
    pub ctime: i128,
    /// Creation.
    pub crtime: i128,
    /// Kind.
    pub kind: FileType,
    /// Permission bits.
    pub perm: u16,
    /// Number of links.
    pub nlink: u32,
    /// Owner.
    pub uid: u32,
    /// Group.
    pub gid: u32,
    /// Device.
    pub rdev: u32,
    /// Flags.
    pub flags: u32,
}

/// An entry of a directory on disk.
#[derive(Debug)]
pub struct RawDirEntry {
    /// Name.
    pub name: FsPath,
    /// Kind.
    pub kind: FileType,
}

/// An entry of a directory.
#[derive(Debug)]
pub struct DirEntry {
    /// Name.
    pub name: String,
    /// Kind.
    pub kind: FileType,
}

/// Why an operation failed.
#[derive(Debug)]
pub enum FsError {
    /// There is no such file.
    NotFound,
    /// The disk reported an error.
    Io(String),
    /// Another error.
    Other(String),
}

/// What the disk says of itself.
#[derive(Debug, Clone, Copy)]
pub struct RawStatFs {
    /// Blocks.
    pub blocks: u64,
    /// Free blocks.
    pub blocks_free: u64,
    /// Blocks free for users.
    pub blocks_available: u64,
    /// File nodes.
    pub files: u64,
    /// Free file nodes.
    pub files_free: u64,
    /// Size of a block.
    pub fragment_size: u64,
    /// Longest name.
    pub name_max: u64,
}

/// What the file system says of itself.
#[derive(Debug, Clone, Copy, PartialEq, Eq, Structural)]
pub struct StatFs {
    /// Blocks.
    pub blocks: u64,
    /// Free blocks.
    pub bfree: u64,
    /// Blocks free for users.
    pub bavail: u64,
    /// File nodes.
    pub files: u64,
    /// Free file nodes.
    pub ffree: u64,
    /// Size of a block.
    pub bsize: u32,
    /// Longest name.
    pub namelen: u32,
}

/// Something to tell the event handler.
#[derive(Debug)]
pub enum VfsNotice {
    /// So many bytes were written to a file.
    Written(FsPath, usize),
    /// A file was created.
    Created(FsPath),
    /// A file was deleted.
    Deleted(FsPath),
    /// A file was renamed.
    Renamed(FsPath, FsPath),
}

/// What an operation tells the sync engine and the event handler, in order.
#[derive(Debug)]
pub struct Effects {
    /// For the sync engine.
    pub events: Vec<FsEvent>,
    /// For the event handler.
    pub notices: Vec<VfsNotice>,
}

/// Whether an event says that the file was modified.
pub open spec fn is_modified(event: FsEvent, path: Seq<u8>) -> bool {
    event matches FsEvent::FileModified(p) && p@ == path
}

/// Whether an operation tells only that one file was modified.
pub open spec fn only_modified(effects: Effects, path: Seq<u8>) -> bool {
    &&& effects.events@.len() == 1
    &&& is_modified(effects.events@[0], path)
}

fn modified(path: &FsPath) -> (r: Effects)
    ensures
        only_modified(r, path@),
        r.notices@.len() == 0,
{
    let mut events: Vec<FsEvent> = Vec::new();
    events.push(FsEvent::FileModified(path.copy()));
    Effects { events, notices: Vec::new() }
}

/// The low 32 bits of a number.
pub open spec fn low_bits(n: u64) -> int {
    n as int % 0x1_0000_0000
}

fn low_u32(n: u64) -> (r: u32)
    ensures
        r == low_bits(n),
{
    (n % 0x1_0000_0000) as u32
}

/// A time that the disk knows, or now.
pub open spec fn known_or(time: Option<i128>, now: i128) -> i128 {
    match time {
        Some(t) => t,
        None => now,
    }
}

fn time_or(time: Option<i128>, now: i128) -> (r: i128)
    ensures
        r == known_or(time, now),
{
    match time {
        Some(t) => t,
        None => now,
    }
}

/// The kind of a file, by what the disk says of it.
pub open spec fn kind_of(is_dir: bool, is_symlink: bool) -> FileType {
    if is_dir {
        FileType::Directory
    } else if is_symlink {
        FileType::Symlink
    } else {
        FileType::RegularFile
    }
}

/// The kind of a file, by what the disk says of it.
pub fn file_type(is_dir: bool, is_symlink: bool) -> (r: FileType)
    ensures
        r == kind_of(is_dir, is_symlink),
{
    if is_dir {
        FileType::Directory
    } else if is_symlink {
        FileType::Symlink
    } else {
        FileType::RegularFile
    }
}

/// What the file system says of a file, given what the disk says of it. Times
/// that the disk does not know are now.
pub fn metadata_to_attr(meta: &FileMeta, now: i128) -> (r: FileAttr)
    ensures
        r.size == meta.len,
        r.blocks == (meta.len + 511) / 512,
        r.atime == known_or(meta.accessed, now),
        r.mtime == known_or(meta.modified, now),
        r.ctime == known_or(meta.modified, now),
        r.crtime == known_or(meta.created, now),
        r.kind == kind_of(meta.is_dir, meta.is_symlink),
        r.perm == meta.mode % 4096,
        r.nlink == low_bits(meta.nlink),
        r.uid == meta.uid,
        r.gid == meta.gid,
        r.rdev == 0,
        r.flags == 0,
{
    let whole: u64 = meta.len / 512;
    let blocks: u64 = if meta.len % 512 == 0 {
        whole
    } else {
        whole + 1
    };
    FileAttr {
        size: meta.len,
        blocks,
        atime: time_or(meta.accessed, now),
        mtime: time_or(meta.modified, now),
        ctime: time_or(meta.modified, now),
        crtime: time_or(meta.created, now),
        kind: file_type(meta.is_dir, meta.is_symlink),
        perm: (meta.mode % 4096) as u16,
        nlink: low_u32(meta.nlink),
        uid: meta.uid,
        gid: meta.gid,
        rdev: 0,
        flags: 0,
    }
}

/// The error of a lookup, given the error of the disk and whether it means that
/// the file is not there.
pub fn lookup_error(not_found: bool, message: String) -> (r: FsError)
    ensures
        r == if not_found {
            FsError::NotFound
        } else {
            FsError::Io(message)
        },
{
    if not_found {
        FsError::NotFound
    } else {
        FsError::Io(message)
    }
}

/// The value of an extended attribute, where the file has it.
pub fn attribute_value(value: Option<Vec<u8>>) -> (r: Result<Vec<u8>, FsError>)
    ensures
        r == match value {
            Some(bytes) => Ok::<Vec<u8>, FsError>(bytes),
            None => Err::<Vec<u8>, FsError>(FsError::NotFound),
        },
{
    match value {
        Some(bytes) => Ok(bytes),
        None => Err(FsError::NotFound),
    }
}

/// What the file system says of itself, given what the disk says.
pub fn statfs(raw: &RawStatFs) -> (r: StatFs)
    ensures
        r.blocks == raw.blocks,
        r.bfree == raw.blocks_free,
        r.bavail == raw.blocks_available,
        r.files == raw.files,
        r.ffree == raw.files_free,
        r.bsize == low_bits(raw.fragment_size),
        r.namelen == low_bits(raw.name_max),
{
    StatFs {
        blocks: raw.blocks,
        bfree: raw.blocks_free,
        bavail: raw.blocks_available,
        files: raw.files,
        ffree: raw.files_free,
        bsize: low_u32(raw.fragment_size),
        namelen: low_u32(raw.name_max),
    }
}

/// Whether a name is never shown.
pub open spec fn is_reserved(name: Seq<u8>) -> bool {
    name == vstd::utf8::encode_utf8(".git"@) || name == vstd::utf8::encode_utf8(".vfs"@)
}

/// A file system over a local directory. Its buffers may be shared with other
/// mounts, so each operation on contents gets them from the caller.
pub struct OmniFuseVfs<B> {
    local_dir: FsPath,
    backend: B,
    next_fh: u64,
}

/// The entries whose flag is not set.
pub open spec fn shown_entries(entries: Seq<RawDirEntry>, hidden: Seq<bool>) -> Seq<RawDirEntry>
    decreases entries.len(),
{
    if entries.len() == 0 {
        Seq::empty()
    } else {
        let before = shown_entries(entries.drop_last(), hidden);
        if hidden[entries.len() - 1] {
            before
        } else {
            before.push(entries.last())
        }
    }
}

/// Whether entries are shown under their names.
pub open spec fn shows(shown: Seq<DirEntry>, entries: Seq<RawDirEntry>) -> bool {
    &&& shown.len() == entries.len()
    &&& forall|i: int|
        0 <= i < shown.len() ==> (#[trigger] shown[i]).name@ == utf8_lossy(entries[i].name@)
            && shown[i].kind == entries[i].kind
}

impl<B: Backend> OmniFuseVfs<B> {
    /// The local directory.
    pub closed spec fn directory(&self) -> Seq<u8> {
        self.local_dir@
    }

    /// The backend.
    pub closed spec fn storage(&self) -> B {
        self.backend
    }

    /// The number of the next file handle.
    pub closed spec fn next_handle(&self) -> u64 {
        self.next_fh
    }

    /// Where a file of the file system lies on disk.
    pub open spec fn place(&self, path: Seq<u8>) -> Seq<u8> {
        joined(self.directory(), path)
    }

    /// The key of a file's buffer.
    pub open spec fn key(&self, path: Seq<u8>) -> Seq<u8> {
        key_of(self.place(path))
    }

    /// A file system over a directory.
    pub fn new(local_dir: FsPath, backend: B) -> (r: OmniFuseVfs<B>)
        ensures
            r.directory() == local_dir@,
            r.storage() == backend,
            r.next_handle() == 1,
    {
        OmniFuseVfs { local_dir, backend, next_fh: 1 }
    }

    /// Where a file of the file system lies on disk.
    pub fn full_path(&self, path: &FsPath) -> (r: FsPath)
        ensures
            r@ == self.place(path@),
    {
        self.local_dir.join(path)
    }

    /// Whether a name in a directory may be hidden, or not, as the backend answers.
    pub open spec fn hides_name(&self, path: Seq<u8>, name: Seq<u8>, hidden: bool) -> bool {
        &&& is_reserved(name) ==> hidden
        &&& !is_reserved(name) ==> exists|full: FsPath, kept: bool|
            full@ == joined(path, name) && #[trigger] call_ensures(
                B::should_track,
                (&self.storage(), &full),
                kept,
            ) && hidden == !kept
    }

    /// Whether an entry of a directory is not shown: `.git` and `.vfs` never
    /// are, others where the backend does not track them.
    pub fn is_hidden(&self, path: &FsPath, name: &FsPath) -> (r: bool)
        ensures
            self.hides_name(path@, name@, r),
    {
        if same_bytes(name.as_bytes(), ".git".as_bytes()) || same_bytes(
            name.as_bytes(),
            ".vfs".as_bytes(),
        ) {
            return true;
        }
        let full = path.join(name);
        let kept: bool = self.backend.should_track(&full);
        assert(call_ensures(B::should_track, (&self.storage(), &full), kept));
        !kept
    }

    /// Gives out a file handle.
    pub fn alloc_fh(&mut self) -> (r: FileHandle)
        ensures
            r == FileHandle(old(self).next_handle()),
            final(self).next_handle() == old(self).next_handle().wrapping_add(1),
            final(self).directory() == old(self).directory(),
            final(self).storage() == old(self).storage(),
    {
        let fh: u64 = self.next_fh;
        self.next_fh = self.next_fh.wrapping_add(1);
        FileHandle(fh)
    }

    /// Cuts the buffer of a file, where there is one, before the file on disk is
    /// cut to the same size.
    pub fn setattr_size(
        &self,
        buffers: &mut FileBufferManager,
        path: &FsPath,
        new_size: u64,
        now: i128,
    )
        requires
            old(buffers).wf(),
        ensures
            final(buffers).wf(),
            final(buffers).changed_from(
                *old(buffers),
                self.key(path@),
                old(buffers).buffers()[self.key(path@)].truncate(new_size, now as int),
            ),
    {
        let full = self.full_path(path);
        let found: bool = buffers.truncate(&full, new_size, now);
    }

    /// What changing the attributes of a file tells, given whether its size was
    /// changed on disk.
    pub fn setattr_done(&self, path: &FsPath, resized: bool) -> (r: Effects)
        ensures
            resized ==> only_modified(r, path@),
            !resized ==> r.events@.len() == 0,
            r.notices@.len() == 0,
    {
        if resized {
            modified(path)
        } else {
            Effects { events: Vec::new(), notices: Vec::new() }
        }
    }

    /// Decides whether the content of a file has to be read from disk before an
    /// operation, given when the file there was last modified, where that is
    /// known.
    pub fn load(
        &self,
        buffers: &mut FileBufferManager,
        path: &FsPath,
        disk_mtime: Option<i128>,
    ) -> (r: LoadStep)
        requires
            old(buffers).wf(),
        ensures
            final(buffers).wf(),
            final(buffers).settings() == old(buffers).settings(),
            r == load_step(old(buffers).buffers(), self.key(path@), disk_mtime),
            match r {
                LoadStep::Cached => {
                    &&& final(buffers).buffers() == old(buffers).buffers()
                    &&& final(buffers).order() == touched(old(buffers).order(), self.key(path@))
                    &&& final(buffers).usage() == old(buffers).usage()
                },
                LoadStep::Reload(_) => final(buffers).removed_from(
                    *old(buffers),
                    self.key(path@),
                ),
                LoadStep::Load => *final(buffers) == *old(buffers),
            },
    {
        let full = self.full_path(path);
        buffers.get_or_load(&full, disk_mtime)
    }

    /// Takes in the content of a file that was read from disk.
    pub fn loaded(
        &self,
        buffers: &mut FileBufferManager,
        path: &FsPath,
        content: Vec<u8>,
        mtime: i128,
    )
        requires
            old(buffers).wf(),
            old(buffers).has_limit(),
        ensures
            final(buffers).wf(),
            final(buffers).caches(*old(buffers), self.place(path@), content@, mtime as int),
    {
        let full = self.full_path(path);
        buffers.cache_with_mtime(&full, content, mtime);
    }

    /// Takes in that an empty file was created on disk.
    pub fn create(&self, buffers: &mut FileBufferManager, path: &FsPath, now: i128) -> (r: Effects)
        requires
            old(buffers).wf(),
            old(buffers).has_limit(),
        ensures
            final(buffers).wf(),
            final(buffers).caches(
                *old(buffers),
                self.place(path@),
                Seq::<u8>::empty(),
                now as int,
            ),
            only_modified(r, path@),
            r.notices@.len() == 1,
            r.notices@[0] matches VfsNotice::Created(p) && p@ == path@,
    {
        let full = self.full_path(path);
        let empty: Vec<u8> = Vec::new();
        assert(empty@ =~= Seq::<u8>::empty());
        buffers.cache(&full, empty, now);
        let mut effects = modified(path);
        effects.notices.push(VfsNotice::Created(path.copy()));
        effects
    }

    /// Reads from the buffer of a file, where there is one.
    pub fn read(
        &self,
        buffers: &FileBufferManager,
        path: &FsPath,
        offset: u64,
        size: u32,
    ) -> (r: Option<Vec<u8>>)
        requires
            offset + size <= usize::MAX,
        ensures
            match r {
                Some(bytes) => {
                    &&& buffers.buffers().contains_key(self.key(path@))
                    &&& bytes@ == read_bytes(
                        buffers.buffers()[self.key(path@)].content,
                        offset as int,
                        size as int,
                    )
                },
                None => !buffers.buffers().contains_key(self.key(path@)),
            },
    {
        let full = self.full_path(path);
        match buffers.probe(&full, offset, size) {
            Some(probe) => Some(probe.bytes),
            None => None,
        }
    }

    /// Writes to the buffer of a file, where there is one, and answers how many
    /// bytes were written.
    pub fn write(
        &self,
        buffers: &mut FileBufferManager,
        path: &FsPath,
        offset: u64,
        data: &[u8],
        now: i128,
    ) -> (r: Option<(u32, Effects)>)
        requires
            old(buffers).wf(),
            offset + data@.len() <= usize::MAX,
        ensures
            final(buffers).wf(),
            final(buffers).changed_from(
                *old(buffers),
                self.key(path@),
                old(buffers).buffers()[self.key(path@)].write(offset as int, data@, now as int),
            ),
            match r {
                Some((written, effects)) => {
                    &&& old(buffers).buffers().contains_key(self.key(path@))
                    &&& written == data@.len() as int % 0x1_0000_0000
                    &&& only_modified(effects, path@)
                    &&& effects.notices@.len() == 1
                    &&& effects.notices@[0] matches VfsNotice::Written(p, n) && p@ == path@ && n
                        == data@.len()
                },
                None => !old(buffers).buffers().contains_key(self.key(path@)),
            },
    {
        let full = self.full_path(path);
        match buffers.write(&full, offset, data, now) {
            None => None,
            Some(written) => {
                let mut effects = modified(path);
                effects.notices.push(VfsNotice::Written(path.copy(), written));
                Some((low_u32(written as u64), effects))
            },
        }
    }

    /// The content of a file that has to be written to disk, where there is
    /// some. Once it is there, [`OmniFuseVfs::flushed`] has to be called.
    pub fn flush(&self, buffers: &FileBufferManager, path: &FsPath) -> (r: Option<Vec<u8>>)
        ensures
            match r {
                Some(content) => {
                    &&& buffers.buffers().contains_key(self.key(path@))
                    &&& buffers.buffers()[self.key(path@)].dirty
                    &&& content@ == buffers.buffers()[self.key(path@)].content
                },
                None => !(buffers.buffers().contains_key(self.key(path@))
                    && buffers.buffers()[self.key(path@)].dirty),
            },
    {
        let full = self.full_path(path);
        buffers.flush(&full)
    }

    /// Takes in that the content of a file reached the disk.
    pub fn flushed(&self, buffers: &mut FileBufferManager, path: &FsPath)
        requires
            old(buffers).wf(),
        ensures
            final(buffers).wf(),
            final(buffers).changed_from(
                *old(buffers),
                self.key(path@),
                old(buffers).buffers()[self.key(path@)].clean(),
            ),
    {
        let full = self.full_path(path);
        buffers.mark_clean(&full);
    }

    /// What closing a file tells, once it was flushed.
    pub fn release(&self, path: &FsPath) -> (r: Effects)
        ensures
            r.events@.len() == 1,
            r.events@[0] matches FsEvent::FileClosed(p) && p@ == path@,
            r.notices@.len() == 0,
    {
        let mut events: Vec<FsEvent> = Vec::new();
        events.push(FsEvent::FileClosed(path.copy()));
        Effects { events, notices: Vec::new() }
    }

    /// Whether entries are shown as the backend answers about them.
    pub open spec fn lists(
        &self,
        path: Seq<u8>,
        entries: Seq<RawDirEntry>,
        shown: Seq<DirEntry>,
    ) -> bool {
        exists|hidden: Seq<bool>|
            {
                &&& hidden.len() == entries.len()
                &&& self.hides(path, entries, hidden)
                &&& shows(shown, #[trigger] shown_entries(entries, hidden))
            }
    }

    /// The entries of a directory that are shown, in the order of the disk.
    pub fn readdir(&self, path: &FsPath, entries: &Vec<RawDirEntry>) -> (r: Vec<DirEntry>)
        ensures
            self.lists(path@, entries@, r@),
    {
        let mut out: Vec<DirEntry> = Vec::new();
        let ghost mut hidden: Seq<bool> = Seq::empty();
        let mut i: usize = 0;
        assert(entries@.take(0) =~= Seq::<RawDirEntry>::empty());
        while i < entries.len()
            invariant
                i <= entries@.len(),
                hidden.len() == i,
                self.hides(path@, entries@, hidden),
                shows(out@, shown_entries(entries@.take(i as int), hidden)),
            decreases entries@.len() - i,
        {
            let ghost before = hidden;
            let ghost shown_before = shown_entries(entries@.take(i as int), hidden);
            let entry = &entries[i];
            let hide: bool = self.is_hidden(path, &entry.name);
            proof {
                hidden = hidden.push(hide);
                assert(entries@.take(i + 1).drop_last() =~= entries@.take(i as int));
                lemma_shown_prefix(entries@.take(i as int), before, hidden);
                assert forall|k: int| 0 <= k < hidden.len() implies #[trigger] self.hides_entry(
                    path@,
                    entries@[k],
                    hidden[k],
                ) by {
                    if k < i {
                        assert(self.hides_entry(path@, entries@[k], before[k]));
                    }
                }
            }
            if !hide {
                let ghost list = out@;
                out.push(
                    DirEntry { name: lossy_text(entry.name.as_bytes()), kind: entry.kind },
                );
                assert(shows(out@, shown_before.push(*entry))) by {
                    assert forall|k: int| 0 <= k < out@.len() implies (#[trigger] out@[k]).name@
                        == utf8_lossy(shown_before.push(*entry)[k].name@) && out@[k].kind
                        == shown_before.push(*entry)[k].kind by {
                        if k < list.len() {
                            assert(out@[k] == list[k]);
                        }
                    }
                }
            }
            i += 1;
        }
        assert(entries@.take(i as int) =~= entries@);
        out
    }

    /// Whether an entry may be hidden, or not, as the backend answers.
    pub open spec fn hides_entry(&self, path: Seq<u8>, entry: RawDirEntry, hidden: bool) -> bool {
        self.hides_name(path, entry.name@, hidden)
    }

    /// Whether flags say which entries are hidden, from the first on.
    pub open spec fn hides(&self, path: Seq<u8>, entries: Seq<RawDirEntry>, hidden: Seq<bool>) -> bool {
        forall|k: int|
            0 <= k < hidden.len() ==> #[trigger] self.hides_entry(path, entries[k], hidden[k])
    }

    /// Drops the buffer of a file before it is deleted on disk.
    pub fn unlink(&self, buffers: &mut FileBufferManager, path: &FsPath)
        requires
            old(buffers).wf(),
        ensures
            final(buffers).wf(),
            final(buffers).removed_from(*old(buffers), self.key(path@)),
    {
        let full = self.full_path(path);
        buffers.remove(&full);
    }

    /// What deleting a file tells, once it is gone.
    pub fn unlinked(&self, path: &FsPath) -> (r: Effects)
        ensures
            only_modified(r, path@),
            r.notices@.len() == 1,
            r.notices@[0] matches VfsNotice::Deleted(p) && p@ == path@,
    {
        let mut effects = modified(path);
        effects.notices.push(VfsNotice::Deleted(path.copy()));
        effects
    }

    /// Takes in that a file was renamed on disk: the buffer under the old name is
    /// dropped, and both names count as modified.
    pub fn rename(&self, buffers: &mut FileBufferManager, from: &FsPath, to: &FsPath) -> (r: Effects)
        requires
            old(buffers).wf(),
        ensures
            final(buffers).wf(),
            final(buffers).removed_from(*old(buffers), self.key(from@)),
            r.events@.len() == 2,
            is_modified(r.events@[0], from@),
            is_modified(r.events@[1], to@),
            r.notices@.len() == 1,
            r.notices@[0] matches VfsNotice::Renamed(a, b) && a@ == from@ && b@ == to@,
    {
        let full_from = self.full_path(from);
        buffers.remove(&full_from);
        let mut effects = modified(from);
        effects.events.push(FsEvent::FileModified(to.copy()));
        effects.notices.push(VfsNotice::Renamed(from.copy(), to.copy()));
        effects
    }

    /// What making a symbolic link tells, once it is there.
    pub fn symlink(&self, link: &FsPath) -> (r: Effects)
        ensures
            only_modified(r, link@),
            r.notices@.len() == 0,
    {
        modified(link)
    }
}

proof fn lemma_shown_prefix(entries: Seq<RawDirEntry>, a: Seq<bool>, b: Seq<bool>)
    requires
        entries.len() <= a.len() <= b.len(),
        forall|i: int| 0 <= i < a.len() ==> a[i] == b[i],
    ensures
        shown_entries(entries, a) == shown_entries(entries, b),
    decreases entries.len(),
{
    if entries.len() > 0 {
        lemma_shown_prefix(entries.drop_last(), a, b);
    }
}

/// What was written to a file through the file system is read back from it: any
/// part of the data gives that part.
pub proof fn law_read_back<B: Backend>(
    vfs: OmniFuseVfs<B>,
    before: FileBufferManager,
    after: FileBufferManager,
    path: Seq<u8>,
    offset: int,
    data: Seq<u8>,
    now: int,
    skip: int,
    size: int,
)
    requires
        before.buffers().contains_key(vfs.key(path)),
        after.changed_from(
            before,
            vfs.key(path),
            before.buffers()[vfs.key(path)].write(offset, data, now),
        ),
        0 <= offset,
        0 <= skip,
        0 <= size,
        skip + size <= data.len(),
    ensures
        after.buffers().contains_key(vfs.key(path)),
        read_bytes(after.buffers()[vfs.key(path)].content, offset + skip, size) == data.subrange(
            skip,
            skip + size,
        ),
{
    crate::buffer::law_read_after_write(
        before.buffers()[vfs.key(path)],
        offset,
        data,
        now,
        skip,
        size,
    );
}

/// An operation on one file leaves the content of every other file as it was.
pub proof fn law_other_files_stay<B: Backend>(
    vfs: OmniFuseVfs<B>,
    before: FileBufferManager,
    after: FileBufferManager,
    path: Seq<u8>,
    buffer: BufferState,
    other: Seq<u8>,
)
    requires
        after.changed_from(before, vfs.key(path), buffer),
        vfs.key(other) != vfs.key(path),
    ensures
        after.buffers().contains_key(vfs.key(other)) == before.buffers().contains_key(
            vfs.key(other),
        ),
        before.buffers().contains_key(vfs.key(other)) ==> after.buffers()[vfs.key(other)]
            == before.buffers()[vfs.key(other)],
{
}

/// Every file of the file system lies below the local directory.
pub proof fn law_files_stay_in_the_directory<B: Backend>(vfs: OmniFuseVfs<B>, path: Seq<u8>)
    requires
        !crate::paths::absolute(path),
    ensures
        crate::paths::within(vfs.place(path), vfs.directory()),
{
    crate::paths::lemma_joined_is_within(vfs.directory(), path);
}

/// A write makes the file dirty, so that closing it writes the new content to
/// disk, and afterwards there is nothing left to write.
pub proof fn law_written_is_flushed_once(buffer: BufferState, offset: int, data: Seq<u8>, now: int)
    ensures
        buffer.write(offset, data, now).dirty,
        !buffer.write(offset, data, now).clean().dirty,
        buffer.write(offset, data, now).clean().content == buffer.write(
            offset,
            data,
            now,
        ).content,
{
}

/// A file system is the one over its directory and backend, and a file of it lies
/// at its path in that directory.
pub proof fn law_files_lie_at_their_path<B: Backend>(
    local_dir: FsPath,
    backend: B,
    vfs: OmniFuseVfs<B>,
    path: &FsPath,
    full: FsPath,
)
    requires
        call_ensures(OmniFuseVfs::<B>::new, (local_dir, backend), vfs),
        call_ensures(OmniFuseVfs::<B>::full_path, (&vfs, path), full),
    ensures
        full@ == joined(local_dir@, path@),
        vfs.storage() == backend,
        vfs.directory() == local_dir@,
{
}

/// File handles are given out one after the other.
pub proof fn law_handles_differ<B: Backend>(
    vfs: &mut OmniFuseVfs<B>,
    first: FileHandle,
    next: &mut OmniFuseVfs<B>,
    second: FileHandle,
)
    requires
        call_ensures(OmniFuseVfs::<B>::alloc_fh, (vfs,), first),
        *old(next) == *final(vfs),
        call_ensures(OmniFuseVfs::<B>::alloc_fh, (next,), second),
    ensures
        first.0 < u64::MAX ==> second.0 == first.0 + 1,
        first != second,
        final(vfs).directory() == old(vfs).directory(),
{
}

/// The first file handle of a file system is one.
pub proof fn law_handles_begin_at_one<B: Backend>(
    local_dir: FsPath,
    backend: B,
    vfs: &mut OmniFuseVfs<B>,
    first: FileHandle,
)
    requires
        call_ensures(OmniFuseVfs::<B>::new, (local_dir, backend), *old(vfs)),
        call_ensures(OmniFuseVfs::<B>::alloc_fh, (vfs,), first),
    ensures
        first.0 == 1,
{
}

/// A read gives the bytes of the file's buffer from their places, as many as were
/// asked for and there are; without a buffer it gives nothing.
pub proof fn law_reads_come_from_the_buffer<B: Backend>(
    vfs: OmniFuseVfs<B>,
    buffers: &FileBufferManager,
    path: &FsPath,
    offset: u64,
    size: u32,
    r: Option<Vec<u8>>,
)
    requires
        call_ensures(OmniFuseVfs::<B>::read, (&vfs, buffers, path, offset, size), r),
    ensures
        ({
            let key = normal(joined(vfs.directory(), path@));
            let content = buffers.buffers()[key].content;
            &&& r is Some <==> buffers.buffers().contains_key(key)
            &&& r matches Some(bytes) ==> {
                &&& offset >= content.len() ==> bytes@.len() == 0
                &&& offset < content.len() ==> bytes@.len() == if size < content.len() - offset {
                    size as int
                } else {
                    content.len() - offset
                }
                &&& forall|i: int|
                    0 <= i < bytes@.len() ==> #[trigger] bytes@[i] == content[offset + i]
            }
        }),
{
}

/// A write goes into the file's buffer, which becomes dirty; the sync engine is
/// told that the file was modified, and the handler how many bytes were written.
/// Without a buffer nothing happens. No other file changes.
pub proof fn law_writes_go_into_the_buffer<B: Backend>(
    vfs: OmniFuseVfs<B>,
    buffers: &mut FileBufferManager,
    path: &FsPath,
    offset: u64,
    data: &[u8],
    now: i128,
    r: Option<(u32, Effects)>,
    other: Seq<u8>,
)
    requires
        call_ensures(OmniFuseVfs::<B>::write, (&vfs, buffers, path, offset, data, now), r),
    ensures
        ({
            let key = normal(joined(vfs.directory(), path@));
            let before = old(buffers).buffers();
            let after = final(buffers).buffers();
            &&& r is Some <==> before.contains_key(key)
            &&& r is None ==> after == before
            &&& r matches Some((written, effects)) ==> {
                &&& data@.len() <= u32::MAX ==> written == data@.len()
                &&& after.contains_key(key)
                &&& after[key].dirty
                &&& after[key].mtime == now
                &&& after[key].path == before[key].path
                &&& after[key].content.len() == if offset + data@.len()
                    > before[key].content.len() {
                    (offset + data@.len()) as nat
                } else {
                    before[key].content.len()
                }
                &&& forall|i: int|
                    0 <= i < data@.len() ==> after[key].content[offset + i] == #[trigger] data@[i]
                &&& forall|i: int|
                    0 <= i < before[key].content.len() && !(offset <= i < offset + data@.len())
                        ==> #[trigger] after[key].content[i] == before[key].content[i]
                &&& forall|i: int|
                    before[key].content.len() <= i < offset ==> #[trigger] after[key].content[i]
                        == 0
                &&& effects.events@.len() == 1
                &&& effects.events@[0] matches FsEvent::FileModified(p) && p@ == path@
                &&& effects.notices@.len() == 1
                &&& effects.notices@[0] matches VfsNotice::Written(p, n) && p@ == path@ && n
                    == data@.len()
            }
            &&& other != key ==> (after.contains_key(other) <==> before.contains_key(other))
                && after[other] == before[other]
        }),
{
}

/// What was written through the file system is read through it.
pub proof fn law_written_through_is_read_through<B: Backend>(
    vfs: OmniFuseVfs<B>,
    buffers: &mut FileBufferManager,
    path: &FsPath,
    offset: u64,
    data: &[u8],
    now: i128,
    written: (u32, Effects),
    after: &FileBufferManager,
    size: u32,
    r: Option<Vec<u8>>,
)
    requires
        call_ensures(
            OmniFuseVfs::<B>::write,
            (&vfs, buffers, path, offset, data, now),
            Some(written),
        ),
        *after == *final(buffers),
        size == data@.len(),
        call_ensures(OmniFuseVfs::<B>::read, (&vfs, after, path, offset, size), r),
    ensures
        r matches Some(bytes) && bytes@ == data@,
{
    assert(r->0@ =~= data@);
}

/// Cutting a file cuts its buffer to the first bytes, and no other.
pub proof fn law_cuts_keep_the_beginning<B: Backend>(
    vfs: OmniFuseVfs<B>,
    buffers: &mut FileBufferManager,
    path: &FsPath,
    size: u64,
    now: i128,
    other: Seq<u8>,
    resized: bool,
    told: Effects,
)
    requires
        call_ensures(OmniFuseVfs::<B>::setattr_size, (&vfs, buffers, path, size, now), ()),
        call_ensures(OmniFuseVfs::<B>::setattr_done, (&vfs, path, resized), told),
    ensures
        ({
            let key = normal(joined(vfs.directory(), path@));
            let before = old(buffers).buffers();
            let after = final(buffers).buffers();
            &&& before.contains_key(key) ==> {
                &&& after.contains_key(key)
                &&& after[key].content.len() == if size < before[key].content.len() {
                    size as nat
                } else {
                    before[key].content.len()
                }
                &&& forall|i: int|
                    0 <= i < after[key].content.len() ==> #[trigger] after[key].content[i]
                        == before[key].content[i]
                &&& after[key].dirty
            }
            &&& !before.contains_key(key) ==> after == before
            &&& other != key ==> (after.contains_key(other) <==> before.contains_key(other))
                && after[other] == before[other]
            &&& resized ==> told.events@.len() == 1 && (
            told.events@[0] matches FsEvent::FileModified(p) && p@ == path@)
            &&& !resized ==> told.events@.len() == 0
            &&& told.notices@.len() == 0
        }),
{
}

/// A file is read from disk exactly where it has no buffer, or a clean one that
/// is older than the file; what was read is then found in its buffer.
pub proof fn law_loads_go_by_time<B: Backend>(
    vfs: OmniFuseVfs<B>,
    buffers: &mut FileBufferManager,
    path: &FsPath,
    disk_mtime: Option<i128>,
    step: LoadStep,
    later: &mut FileBufferManager,
    content: Vec<u8>,
    mtime: i128,
)
    requires
        call_ensures(OmniFuseVfs::<B>::load, (&vfs, buffers, path, disk_mtime), step),
        call_ensures(OmniFuseVfs::<B>::loaded, (&vfs, later, path, content, mtime), ()),
    ensures
        ({
            let key = normal(joined(vfs.directory(), path@));
            let before = old(buffers).buffers();
            &&& step is Load <==> !before.contains_key(key)
            &&& step is Reload <==> before.contains_key(key) && !before[key].dirty
                && disk_mtime is Some && disk_mtime->0 > before[key].mtime
            &&& step matches LoadStep::Reload(t) ==> disk_mtime == Some(t)
            &&& final(later).buffers().contains_key(key)
            &&& final(later).buffers()[key].content == content@
            &&& final(later).buffers()[key].mtime == mtime
            &&& !final(later).buffers()[key].dirty
        }),
{
}

/// A created file is empty and clean in its buffer; the sync engine is told that
/// it was modified, the handler that it was created.
pub proof fn law_created_files_are_empty<B: Backend>(
    vfs: OmniFuseVfs<B>,
    buffers: &mut FileBufferManager,
    path: &FsPath,
    now: i128,
    effects: Effects,
)
    requires
        call_ensures(OmniFuseVfs::<B>::create, (&vfs, buffers, path, now), effects),
    ensures
        ({
            let key = normal(joined(vfs.directory(), path@));
            &&& final(buffers).buffers().contains_key(key)
            &&& final(buffers).buffers()[key].content.len() == 0
            &&& !final(buffers).buffers()[key].dirty
            &&& effects.events@.len() == 1
            &&& effects.events@[0] matches FsEvent::FileModified(p) && p@ == path@
            &&& effects.notices@.len() == 1
            &&& effects.notices@[0] matches VfsNotice::Created(p) && p@ == path@
        }),
{
}

/// Closing a file writes what waits and tells the sync engine; a file that was
/// written to disk has nothing left to write and keeps its content.
pub proof fn law_closing_writes_what_waits<B: Backend>(
    vfs: OmniFuseVfs<B>,
    buffers: &FileBufferManager,
    path: &FsPath,
    content: Option<Vec<u8>>,
    later: &mut FileBufferManager,
    effects: Effects,
)
    requires
        call_ensures(OmniFuseVfs::<B>::flush, (&vfs, buffers, path), content),
        call_ensures(OmniFuseVfs::<B>::flushed, (&vfs, later, path), ()),
        call_ensures(OmniFuseVfs::<B>::release, (&vfs, path), effects),
    ensures
        ({
            let key = normal(joined(vfs.directory(), path@));
            &&& content is Some <==> buffers.buffers().contains_key(key)
                && buffers.buffers()[key].dirty
            &&& content matches Some(bytes) ==> bytes@ == buffers.buffers()[key].content
            &&& old(later).buffers().contains_key(key) ==> final(later).buffers().contains_key(key)
                && !final(later).buffers()[key].dirty && final(later).buffers()[key].content == old(later).buffers()[key].content
            &&& effects.events@.len() == 1
            &&& effects.events@[0] matches FsEvent::FileClosed(p) && p@ == path@
            &&& effects.notices@.len() == 0
        }),
{
}

/// A deleted file has no buffer any more, and is told as modified and deleted.
/// No other file changes.
pub proof fn law_deleted_files_are_gone<B: Backend>(
    vfs: OmniFuseVfs<B>,
    buffers: &mut FileBufferManager,
    path: &FsPath,
    effects: Effects,
    other: Seq<u8>,
)
    requires
        call_ensures(OmniFuseVfs::<B>::unlink, (&vfs, buffers, path), ()),
        call_ensures(OmniFuseVfs::<B>::unlinked, (&vfs, path), effects),
    ensures
        ({
            let key = normal(joined(vfs.directory(), path@));
            &&& !final(buffers).buffers().contains_key(key)
            &&& other != key ==> (final(buffers).buffers().contains_key(other) <==> old(buffers).buffers().contains_key(other)) && final(buffers).buffers()[other] == old(buffers).buffers()[other]
            &&& effects.events@.len() == 1
            &&& effects.events@[0] matches FsEvent::FileModified(p) && p@ == path@
            &&& effects.notices@.len() == 1
            &&& effects.notices@[0] matches VfsNotice::Deleted(p) && p@ == path@
        }),
{
}

/// A renamed file has no buffer under its old name any more; both names are told
/// as modified, the old one first, and the rename with both names.
pub proof fn law_renamed_files_are_told<B: Backend>(
    vfs: OmniFuseVfs<B>,
    buffers: &mut FileBufferManager,
    from: &FsPath,
    to: &FsPath,
    effects: Effects,
    other: Seq<u8>,
)
    requires
        call_ensures(OmniFuseVfs::<B>::rename, (&vfs, buffers, from, to), effects),
    ensures
        ({
            let key = normal(joined(vfs.directory(), from@));
            &&& !final(buffers).buffers().contains_key(key)
            &&& other != key ==> (final(buffers).buffers().contains_key(other) <==> old(buffers).buffers().contains_key(other)) && final(buffers).buffers()[other] == old(buffers).buffers()[other]
            &&& effects.events@.len() == 2
            &&& effects.events@[0] matches FsEvent::FileModified(p) && p@ == from@
            &&& effects.events@[1] matches FsEvent::FileModified(p) && p@ == to@
            &&& effects.notices@.len() == 1
            &&& effects.notices@[0] matches VfsNotice::Renamed(a, b) && a@ == from@ && b@ == to@
        }),
{
}

/// A symbolic link is told as modified.
pub proof fn law_links_are_told<B: Backend>(vfs: OmniFuseVfs<B>, link: &FsPath, effects: Effects)
    requires
        call_ensures(OmniFuseVfs::<B>::symlink, (&vfs, link), effects),
    ensures
        effects.events@.len() == 1,
        effects.events@[0] matches FsEvent::FileModified(p) && p@ == link@,
        effects.notices@.len() == 0,
{
}

proof fn lemma_shown_are_filtered(
    entries: Seq<RawDirEntry>,
    hidden: Seq<bool>,
    kept: spec_fn(RawDirEntry) -> bool,
)
    requires
        hidden.len() >= entries.len(),
        forall|k: int| 0 <= k < entries.len() ==> hidden[k] == !kept(#[trigger] entries[k]),
    ensures
        shown_entries(entries, hidden) == entries.filter(kept),
    decreases entries.len(),
{
    reveal(Seq::filter);
    if entries.len() > 0 {
        let init = entries.drop_last();
        assert forall|k: int| 0 <= k < init.len() implies hidden[k] == !kept(
            #[trigger] init[k],
        ) by {
            assert(init[k] == entries[k]);
        }
        lemma_shown_are_filtered(init, hidden, kept);
        assert(entries[entries.len() - 1] == entries.last());
    }
}

/// A directory shows exactly the entries that the backend tracks, but for `.git`
/// and `.vfs`, in the order of the disk, with their names and kinds.
pub proof fn law_directories_show_what_is_tracked<B: Backend>(
    vfs: OmniFuseVfs<B>,
    path: &FsPath,
    entries: &Vec<RawDirEntry>,
    tracks: spec_fn(Seq<u8>) -> bool,
    r: Vec<DirEntry>,
)
    requires
        call_ensures(OmniFuseVfs::<B>::readdir, (&vfs, path, entries), r),
        forall|full: FsPath, kept: bool| #[trigger]
            call_ensures(B::should_track, (&vfs.storage(), &full), kept) ==> kept == tracks(full@),
    ensures
        ({
            let shown = entries@.filter(
                |e: RawDirEntry|
                    e.name@ != vstd::utf8::encode_utf8(".git"@) && e.name@
                        != vstd::utf8::encode_utf8(".vfs"@) && tracks(joined(path@, e.name@)),
            );
            &&& r@.len() == shown.len()
            &&& forall|i: int|
                0 <= i < r@.len() ==> (#[trigger] r@[i]).name@ == utf8_lossy(shown[i].name@)
                    && r@[i].kind == shown[i].kind
        }),
{
    let kept = |e: RawDirEntry|
        e.name@ != vstd::utf8::encode_utf8(".git"@) && e.name@ != vstd::utf8::encode_utf8(".vfs"@)
            && tracks(joined(path@, e.name@));
    let hidden = choose|hidden: Seq<bool>|
        {
            &&& hidden.len() == entries@.len()
            &&& vfs.hides(path@, entries@, hidden)
            &&& shows(r@, #[trigger] shown_entries(entries@, hidden))
        };
    assert forall|k: int| 0 <= k < entries@.len() implies hidden[k] == !kept(
        #[trigger] entries@[k],
    ) by {
        assert(vfs.hides_entry(path@, entries@[k], hidden[k]));
    }
    lemma_shown_are_filtered(entries@, hidden, kept);
}

/// What the disk says of a file is what the file system says of it: its size in
/// bytes and in blocks that hold them, its times or now, its kind, permissions,
/// links and owner.
pub proof fn law_attributes_are_those_of_the_disk(meta: FileMeta, now: i128, r: FileAttr)
    requires
        call_ensures(metadata_to_attr, (&meta, now), r),
    ensures
        r.size == meta.len,
        (r.blocks - 1) * 512 < meta.len <= r.blocks * 512,
        r.atime == if meta.accessed is Some {
            meta.accessed->0
        } else {
            now
        },
        r.mtime == if meta.modified is Some {
            meta.modified->0
        } else {
            now
        },
        r.ctime == r.mtime,
        r.crtime == if meta.created is Some {
            meta.created->0
        } else {
            now
        },
        r.kind == FileType::Directory <==> meta.is_dir,
        r.kind == FileType::Symlink <==> !meta.is_dir && meta.is_symlink,
        r.perm == meta.mode % 4096,
        meta.nlink <= u32::MAX ==> r.nlink == meta.nlink,
        r.uid == meta.uid,
        r.gid == meta.gid,
        r.rdev == 0,
        r.flags == 0,
{
}

/// What the disk says of itself is what the file system says of itself.
pub proof fn law_statfs_is_that_of_the_disk(raw: RawStatFs, r: StatFs)
    requires
        call_ensures(statfs, (&raw,), r),
    ensures
        r.blocks == raw.blocks,
        r.bfree == raw.blocks_free,
        r.bavail == raw.blocks_available,
        r.files == raw.files,
        r.ffree == raw.files_free,
        raw.fragment_size <= u32::MAX ==> r.bsize == raw.fragment_size,
        raw.name_max <= u32::MAX ==> r.namelen == raw.name_max,
{
}

/// A file or an attribute that is not there is told as such, any other error with
/// its message, and a value as it is.
pub proof fn law_missing_things_are_told(
    not_found: bool,
    message: String,
    error: FsError,
    value: Option<Vec<u8>>,
    r: Result<Vec<u8>, FsError>,
    is_dir: bool,
    is_symlink: bool,
    kind: FileType,
)
    requires
        call_ensures(lookup_error, (not_found, message), error),
        call_ensures(attribute_value, (value,), r),
        call_ensures(file_type, (is_dir, is_symlink), kind),
    ensures
        not_found <==> error is NotFound,
        !not_found ==> (error matches FsError::Io(told) && told@ == message@),
        value matches Some(bytes) ==> (r matches Ok(given) && given@ == bytes@),
        value is None ==> (r matches Err(e) && e is NotFound),
        is_dir ==> kind == FileType::Directory,
        !is_dir && is_symlink ==> kind == FileType::Symlink,
        !is_dir && !is_symlink ==> kind == FileType::RegularFile,
{
}

/// `.git` and `.vfs` are always hidden; any other name is hidden exactly where the
/// backend does not track it in its directory.
pub proof fn law_untracked_names_are_hidden<B: Backend>(
    vfs: OmniFuseVfs<B>,
    path: &FsPath,
    name: &FsPath,
    tracks: spec_fn(Seq<u8>) -> bool,
    r: bool,
)
    requires
        call_ensures(OmniFuseVfs::<B>::is_hidden, (&vfs, path, name), r),
        forall|full: FsPath, kept: bool| #[trigger]
            call_ensures(B::should_track, (&vfs.storage(), &full), kept) ==> kept == tracks(full@),
    ensures
        name@ == vstd::utf8::encode_utf8(".git"@) || name@ == vstd::utf8::encode_utf8(".vfs"@)
            ==> r,
        name@ != vstd::utf8::encode_utf8(".git"@) && name@ != vstd::utf8::encode_utf8(".vfs"@)
            ==> r == !tracks(joined(path@, name@)),
{
}

} // verus!
