//! File contents in memory, with eviction of what was not used lately.
//!
//! A buffer holds the content of one file. The manager keeps buffers by path,
//! remembers in which order they were used and how much memory they take.
//! A buffer that waits to be written to disk (a dirty one) is never evicted.
//!
//! Times are nanoseconds since the Unix epoch, as the caller read them.
use std::collections::hash_map::RandomState;
use std::collections::VecDeque;

use dashmap::DashMap;
use vstd::prelude::*;

use crate::config::BufferConfig;
use crate::paths::{normal, FsPath};
use crate::text::{copy_bytes, same_bytes};

verus! {

/// What a buffer holds.
pub struct BufferState {
    /// The path of the file.
    pub path: Seq<u8>,
    /// The content of the file.
    pub content: Seq<u8>,
    /// Whether the content waits to be written to disk.
    pub dirty: bool,
    /// When the content was last modified.
    pub mtime: int,
}

/// The bytes from `offset` on, at most `size` of them.
pub open spec fn read_bytes(content: Seq<u8>, offset: int, size: int) -> Seq<u8> {
    if offset >= content.len() {
        Seq::empty()
    } else if offset + size <= content.len() {
        content.subrange(offset, offset + size)
    } else {
        content.subrange(offset, content.len() as int)
    }
}

/// The content with `data` put at `offset`; a gap before it is filled with zeros.
pub open spec fn written_bytes(content: Seq<u8>, offset: int, data: Seq<u8>) -> Seq<u8> {
    let end = offset + data.len();
    let len = if end > content.len() {
        end
    } else {
        content.len() as int
    };
    Seq::new(
        len as nat,
        |i: int|
            if offset <= i < end {
                data[i - offset]
            } else if i < content.len() {
                content[i]
            } else {
                0u8
            },
    )
}

/// The first `size` bytes, or all where there are fewer.
pub open spec fn truncated_bytes(content: Seq<u8>, size: int) -> Seq<u8> {
    if size <= content.len() {
        content.subrange(0, size)
    } else {
        content
    }
}

impl BufferState {
    /// The size of the content in bytes.
    pub open spec fn size(self) -> nat {
        self.content.len()
    }

    /// The state after `data` was written at `offset`.
    pub open spec fn write(self, offset: int, data: Seq<u8>, now: int) -> BufferState {
        let content = written_bytes(self.content, offset, data);
        BufferState { content, dirty: true, mtime: now, ..self }
    }

    /// The state after the whole content was replaced.
    pub open spec fn set_content(self, data: Seq<u8>, now: int) -> BufferState {
        BufferState { content: data, dirty: true, mtime: now, ..self }
    }

    /// The state after the content was cut to `size`.
    pub open spec fn truncate(self, size: u64, now: int) -> BufferState {
        BufferState {
            content: truncated_bytes(self.content, size as int),
            dirty: true,
            mtime: now,
            ..self
        }
    }

    /// The state after the content reached the disk.
    pub open spec fn clean(self) -> BufferState {
        BufferState { dirty: false, ..self }
    }
}

/// What a look at a buffer shows.
#[derive(Debug)]
pub struct Probe {
    /// Whether the content waits to be written to disk.
    pub dirty: bool,
    /// When the content was last modified.
    pub mtime: i128,
    /// The size of the content.
    pub size: u64,
    /// The part of the content that was asked for.
    pub bytes: Vec<u8>,
}

impl Probe {
    /// Whether this is what a look at the given buffer shows.
    pub open spec fn tells(self, buffer: BufferState, offset: int, size: int) -> bool {
        &&& self.dirty == buffer.dirty
        &&& self.mtime == buffer.mtime
        &&& self.size == buffer.size()
        &&& self.bytes@ == read_bytes(buffer.content, offset, size)
    }
}

/// The content of one file in memory.
#[derive(Debug)]
pub struct FileBuffer {
    path: FsPath,
    content: Vec<u8>,
    dirty: bool,
    mtime: i128,
}

impl View for FileBuffer {
    type V = BufferState;

    closed spec fn view(&self) -> BufferState {
        BufferState {
            path: self.path@,
            content: self.content@,
            dirty: self.dirty,
            mtime: self.mtime as int,
        }
    }
}

impl FileBuffer {
    /// A clean buffer for a file, last modified now.
    pub fn new(path: FsPath, content: Vec<u8>, now: i128) -> (r: FileBuffer)
        ensures
            r@ == fresh(path@, content@, now as int),
    {
        FileBuffer::with_mtime(path, content, now)
    }

    /// A clean buffer for a file that was last modified at `mtime`.
    pub fn with_mtime(path: FsPath, content: Vec<u8>, mtime: i128) -> (r: FileBuffer)
        ensures
            r@ == fresh(path@, content@, mtime as int),
    {
        FileBuffer { path, content, dirty: false, mtime }
    }

    /// A copy of the buffer.
    pub fn copy(&self) -> (r: FileBuffer)
        ensures
            r@ == self@,
    {
        FileBuffer {
            path: self.path.copy(),
            content: copy_bytes(self.content.as_slice()),
            dirty: self.dirty,
            mtime: self.mtime,
        }
    }

    /// The path of the file.
    pub fn path(&self) -> (r: &FsPath)
        ensures
            r@ == self@.path,
    {
        &self.path
    }

    /// Reads a part of the content.
    pub fn read(&self, offset: u64, size: u32) -> (r: Vec<u8>)
        requires
            offset + size <= usize::MAX,
        ensures
            r@ == read_bytes(self@.content, offset as int, size as int),
    {
        let start: usize = offset as usize;
        let len: usize = self.content.len();
        if start >= len {
            return Vec::new();
        }
        let wanted: usize = start + size as usize;
        let end: usize = if wanted <= len {
            wanted
        } else {
            len
        };
        copy_bytes(vstd::slice::slice_subrange(self.content.as_slice(), start, end))
    }

    /// The flags of the buffer together with a part of its content.
    pub fn probe(&self, offset: u64, size: u32) -> (r: Probe)
        requires
            offset + size <= usize::MAX,
        ensures
            r.tells(self@, offset as int, size as int),
    {
        Probe {
            dirty: self.dirty,
            mtime: self.mtime,
            size: self.size(),
            bytes: self.read(offset, size),
        }
    }

    /// Writes into the content, which grows where needed. The buffer becomes dirty.
    pub fn write(&mut self, offset: u64, data: &[u8], now: i128) -> (r: usize)
        requires
            offset + data@.len() <= usize::MAX,
        ensures
            final(self)@ == old(self)@.write(offset as int, data@, now as int),
            r == data@.len(),
    {
        let start: usize = offset as usize;
        let end: usize = start + data.len();
        let ghost before = self.content@;
        if end > self.content.len() {
            self.content.resize(end, 0);
            assert forall|i: int| 0 <= i < before.len() implies self.content@[i] == before[i] by {
                assert(self.content@.subrange(0, before.len() as int)[i] == before[i]);
            }
            assert forall|i: int| before.len() <= i < end implies self.content@[i] == 0 by {
                assert(cloned::<u8>(0u8, self.content@[i]));
            }
        }
        let ghost grown = self.content@;
        let mut i: usize = 0;
        while i < data.len()
            invariant
                i <= data@.len(),
                start + data@.len() <= self.content@.len() <= usize::MAX,
                self.content@.len() == grown.len(),
                forall|j: int| 0 <= j < i ==> self.content@[start + j] == data@[j],
                forall|j: int|
                    0 <= j < grown.len() && !(start <= j < start + i) ==> self.content@[j]
                        == grown[j],
                self.path == old(self).path,
            decreases data@.len() - i,
        {
            self.content.set(start + i, data[i]);
            i += 1;
        }
        proof {
            let goal = written_bytes(before, offset as int, data@);
            assert forall|j: int| 0 <= j < self.content@.len() implies self.content@[j]
                == goal[j] by {
                if start <= j < end {
                    assert(self.content@[start + (j - start)] == data@[j - start]);
                    assert(goal[j] == data@[j - start]);
                } else {
                    assert(self.content@[j] == grown[j]);
                }
            }
            assert(self.content@ =~= goal);
        }
        self.dirty = true;
        self.mtime = now;
        data.len()
    }

    /// The whole content.
    pub fn content(&self) -> (r: Vec<u8>)
        ensures
            r@ == self@.content,
    {
        copy_bytes(self.content.as_slice())
    }

    /// Replaces the whole content. The buffer becomes dirty.
    pub fn set_content(&mut self, data: Vec<u8>, now: i128)
        ensures
            final(self)@ == old(self)@.set_content(data@, now as int),
    {
        self.content = data;
        self.dirty = true;
        self.mtime = now;
    }

    /// Cuts the content to the given size; a shorter one stays as it is. The
    /// buffer becomes dirty.
    pub fn truncate(&mut self, new_size: u64, now: i128)
        ensures
            final(self)@ == old(self)@.truncate(new_size, now as int),
    {
        if new_size <= self.content.len() as u64 {
            self.content.truncate(new_size as usize);
        }
        self.dirty = true;
        self.mtime = now;
    }

    /// Whether the content waits to be written to disk.
    pub fn is_dirty(&self) -> (r: bool)
        ensures
            r == self@.dirty,
    {
        self.dirty
    }

    /// Records that the content reached the disk.
    pub fn mark_clean(&mut self)
        ensures
            final(self)@ == old(self)@.clean(),
    {
        self.dirty = false;
    }

    /// The size of the content in bytes.
    pub fn size(&self) -> (r: u64)
        ensures
            r == self@.size(),
            r == self@.content.len(),
    {
        self.content.len() as u64
    }

    /// When the content was last modified.
    pub fn mtime(&self) -> (r: i128)
        ensures
            r == self@.mtime,
    {
        self.mtime
    }
}

/// The state of a buffer that was just made.
pub open spec fn fresh(path: Seq<u8>, content: Seq<u8>, mtime: int) -> BufferState {
    BufferState { path, content, dirty: false, mtime }
}

/// What is written is read back: every byte range that lies within the written
/// data gives that part of the data.
pub proof fn law_read_after_write(
    buffer: BufferState,
    offset: int,
    data: Seq<u8>,
    now: int,
    skip: int,
    size: int,
)
    requires
        0 <= offset,
        0 <= skip,
        0 <= size,
        skip + size <= data.len(),
    ensures
        read_bytes(buffer.write(offset, data, now).content, offset + skip, size) == data.subrange(
            skip,
            skip + size,
        ),
{
    let content = written_bytes(buffer.content, offset, data);
    assert(read_bytes(content, offset + skip, size) =~= data.subrange(skip, skip + size));
}

/// A write changes no byte outside the range that it covers.
pub proof fn law_write_keeps_the_rest(
    buffer: BufferState,
    offset: int,
    data: Seq<u8>,
    now: int,
    i: int,
)
    requires
        0 <= offset,
        0 <= i < buffer.content.len(),
        !(offset <= i < offset + data.len()),
    ensures
        i < buffer.write(offset, data, now).content.len(),
        buffer.write(offset, data, now).content[i] == buffer.content[i],
{
}

/// Cutting a file to a size and writing new data at its start leaves that data
/// and nothing of the old content behind it.
pub proof fn law_truncate_then_write(buffer: BufferState, data: Seq<u8>, now: int)
    ensures
        buffer.truncate(0, now).write(0, data, now).content == data,
{
    assert(buffer.truncate(0, now).write(0, data, now).content =~= data);
}

/// `DashMap` of the crate `dashmap`.
#[verifier::external_type_specification]
#[verifier::external_body]
#[verifier::reject_recursive_types(K)]
#[verifier::reject_recursive_types(V)]
#[verifier::reject_recursive_types(S)]
pub struct ExDashMap<K, V, S>(dashmap::DashMap<K, V, S>);

/// The buffers that a map holds, by key.
pub uninterp spec fn held_buffers(
    map: DashMap<Vec<u8>, FileBuffer, RandomState>,
) -> Map<Seq<u8>, BufferState>;

/// No buffers.
pub open spec fn no_buffers() -> Map<Seq<u8>, BufferState> {
    Map::empty()
}

/// `DashMap::new`: the map is empty.
#[verifier::external_body]
fn new_map() -> (r: DashMap<Vec<u8>, FileBuffer, RandomState>)
    ensures
        held_buffers(r) == no_buffers(),
{
    DashMap::new()
}

/// `DashMap::get`: a copy of the buffer under the key, where there is one.
#[verifier::external_body]
fn map_get(map: &DashMap<Vec<u8>, FileBuffer, RandomState>, key: &Vec<u8>) -> (r: Option<
    FileBuffer,
>)
    ensures
        match r {
            Some(buffer) => held_buffers(*map).contains_key(key@) && buffer@ == held_buffers(
                *map,
            )[key@],
            None => !held_buffers(*map).contains_key(key@),
        },
{
    map.get(key).map(|entry| entry.value().copy())
}

/// `DashMap::view`: what [`FileBuffer::probe`] says of the buffer under the key.
#[verifier::external_body]
fn map_probe(
    map: &DashMap<Vec<u8>, FileBuffer, RandomState>,
    key: &Vec<u8>,
    offset: u64,
    size: u32,
) -> (r: Option<Probe>)
    requires
        offset + size <= usize::MAX,
    ensures
        match r {
            Some(probe) => held_buffers(*map).contains_key(key@) && probe.tells(
                held_buffers(*map)[key@],
                offset as int,
                size as int,
            ),
            None => !held_buffers(*map).contains_key(key@),
        },
{
    map.view(key, |_, buffer| buffer.probe(offset, size))
}

/// `DashMap::insert`: the buffer stands under the key, in place of an earlier
/// one, which is returned. The map is borrowed for writing, so nothing else
/// changes it meanwhile.
#[verifier::external_body]
fn map_insert(
    map: &mut DashMap<Vec<u8>, FileBuffer, RandomState>,
    key: Vec<u8>,
    buffer: FileBuffer,
) -> (r: Option<FileBuffer>)
    ensures
        held_buffers(*final(map)) == held_buffers(*old(map)).insert(key@, buffer@),
        match r {
            Some(earlier) => held_buffers(*old(map)).contains_key(key@) && earlier@
                == held_buffers(*old(map))[key@],
            None => !held_buffers(*old(map)).contains_key(key@),
        },
{
    map.insert(key, buffer)
}

/// `DashMap::remove`: the entry under the key leaves, and its buffer is returned.
#[verifier::external_body]
fn map_remove(map: &mut DashMap<Vec<u8>, FileBuffer, RandomState>, key: &Vec<u8>) -> (r: Option<
    FileBuffer,
>)
    ensures
        held_buffers(*final(map)) == held_buffers(*old(map)).remove(key@),
        match r {
            Some(buffer) => held_buffers(*old(map)).contains_key(key@) && buffer@ == held_buffers(
                *old(map),
            )[key@],
            None => !held_buffers(*old(map)).contains_key(key@),
        },
{
    map.remove(key).map(|entry| entry.1)
}

/// `DashMap::len`: the number of entries.
#[verifier::external_body]
fn map_len(map: &DashMap<Vec<u8>, FileBuffer, RandomState>) -> (r: usize)
    ensures
        r == held_buffers(*map).dom().len(),
{
    map.len()
}

/// `DashMap::clear`: no entry is left.
#[verifier::external_body]
fn map_clear(map: &mut DashMap<Vec<u8>, FileBuffer, RandomState>)
    ensures
        held_buffers(*final(map)) == no_buffers(),
{
    map.clear()
}

/// `DashMap::iter`: every entry comes once, in an order that is left open.
#[verifier::external_body]
fn map_entries(map: &DashMap<Vec<u8>, FileBuffer, RandomState>) -> (r: Vec<(Vec<u8>, FileBuffer)>)
    ensures
        lists_all(r@, held_buffers(*map)),
{
    map.iter().map(|entry| (copy_bytes(entry.key()), entry.value().copy())).collect()
}

/// Whether a list holds each entry of a map once.
pub open spec fn lists_all(
    list: Seq<(Vec<u8>, FileBuffer)>,
    map: Map<Seq<u8>, BufferState>,
) -> bool {
    &&& forall|i: int|
        0 <= i < list.len() ==> map.contains_key(#[trigger] list[i].0@) && list[i].1@
            == map[list[i].0@]
    &&& forall|i: int, j: int|
        0 <= i < list.len() && 0 <= j < list.len() && list[i].0@ == list[j].0@ ==> i == j
    &&& forall|key: Seq<u8>|
        map.contains_key(key) ==> exists|i: int| 0 <= i < list.len() && list[i].0@ == key
}

/// The key under which a path is kept: equal for two ways to write one path.
pub open spec fn key_of(path: Seq<u8>) -> Seq<u8> {
    normal(path)
}

/// Whether `extra` bytes can be added within the limit.
pub open spec fn fits(usage: int, extra: int, limit: int) -> bool {
    usage + extra <= limit
}

/// The sizes of the buffers under the given keys, added up.
pub open spec fn total_size(buffers: Map<Seq<u8>, BufferState>, keys: Seq<Seq<u8>>) -> nat
    decreases keys.len(),
{
    if keys.len() == 0 {
        0
    } else {
        total_size(buffers, keys.drop_last()) + buffers[keys.last()].size()
    }
}

/// Whether buffers are kept well: each stands under the key of its path, the
/// order holds every key once and no other, and the memory in use is the sum of
/// the sizes.
pub open spec fn kept_well(
    buffers: Map<Seq<u8>, BufferState>,
    order: Seq<Seq<u8>>,
    usage: int,
) -> bool {
    &&& order.no_duplicates()
    &&& forall|key: Seq<u8>| #[trigger] buffers.contains_key(key) <==> order.contains(key)
    &&& forall|key: Seq<u8>| #[trigger]
        buffers.contains_key(key) ==> key_of(buffers[key].path) == key && buffers[key].size()
            <= u64::MAX
    &&& usage == total_size(buffers, order)
}

/// Whether a buffer is held under the key and may leave.
pub open spec fn evictable(buffers: Map<Seq<u8>, BufferState>, key: Seq<u8>) -> bool {
    buffers.contains_key(key) && !buffers[key].dirty
}

/// The buffers that are left when the first `k` keys of the order were visited:
/// those that are dirty, and those whose key was not visited.
pub open spec fn buffers_after(
    buffers: Map<Seq<u8>, BufferState>,
    order: Seq<Seq<u8>>,
    k: int,
) -> Map<Seq<u8>, BufferState> {
    Map::new(
        |key: Seq<u8>|
            buffers.contains_key(key) && (buffers[key].dirty || !order.take(k).contains(key)),
        |key: Seq<u8>| buffers[key],
    )
}

/// The keys of dirty buffers among the first `k` keys of the order.
pub open spec fn spared(
    buffers: Map<Seq<u8>, BufferState>,
    order: Seq<Seq<u8>>,
    k: int,
) -> Seq<Seq<u8>>
    decreases k,
{
    if k <= 0 {
        Seq::empty()
    } else if buffers.contains_key(order[k - 1]) && buffers[order[k - 1]].dirty {
        spared(buffers, order, k - 1).push(order[k - 1])
    } else {
        spared(buffers, order, k - 1)
    }
}

/// The memory in use when the first `k` keys of the order were visited.
pub open spec fn usage_after(
    buffers: Map<Seq<u8>, BufferState>,
    order: Seq<Seq<u8>>,
    usage: int,
    k: int,
) -> int
    decreases k,
{
    if k <= 0 {
        usage
    } else if evictable(buffers, order[k - 1]) {
        usage_after(buffers, order, usage, k - 1) - buffers[order[k - 1]].size()
    } else {
        usage_after(buffers, order, usage, k - 1)
    }
}

/// Whether eviction stops after `k` visits: room was found there and not
/// before, or every key was visited.
pub open spec fn eviction_stops(
    buffers: Map<Seq<u8>, BufferState>,
    order: Seq<Seq<u8>>,
    usage: int,
    extra: int,
    limit: int,
    k: int,
) -> bool {
    &&& 0 <= k <= order.len()
    &&& k == order.len() || fits(usage_after(buffers, order, usage, k), extra, limit)
    &&& forall|j: int|
        0 <= j < k ==> !fits(#[trigger] usage_after(buffers, order, usage, j), extra, limit)
}

/// The order after a key was used: its place is given up for the last.
pub open spec fn touched(order: Seq<Seq<u8>>, key: Seq<u8>) -> Seq<Seq<u8>> {
    order.remove_value(key).push(key)
}

/// What has to happen before the content of a file can be used.
#[derive(Debug, Clone, Copy, PartialEq, Eq, Structural)]
pub enum LoadStep {
    /// The buffer in memory is good.
    Cached,
    /// The file changed on disk: read it and cache it with this time.
    Reload(i128),
    /// There is no buffer: read the file and cache it.
    Load,
}

/// Buffers by path, with eviction of what was not used lately.
pub struct FileBufferManager {
    buffers: DashMap<Vec<u8>, FileBuffer, RandomState>,
    lru_order: VecDeque<Vec<u8>>,
    memory_usage: u128,
    config: BufferConfig,
}

impl FileBufferManager {
    /// The buffers by key.
    pub closed spec fn buffers(&self) -> Map<Seq<u8>, BufferState> {
        held_buffers(self.buffers)
    }

    /// The keys from the one that was not used for longest to the latest.
    pub closed spec fn order(&self) -> Seq<Seq<u8>> {
        keys_of(self.lru_order@)
    }

    /// The memory in use.
    pub closed spec fn usage(&self) -> int {
        self.memory_usage as int
    }

    /// The settings.
    pub closed spec fn settings(&self) -> BufferConfig {
        self.config
    }

    /// The buffers are kept well.
    pub open spec fn wf(&self) -> bool {
        kept_well(self.buffers(), self.order(), self.usage())
    }

    /// Whether the memory limit can be told in bytes, where there is one.
    pub open spec fn has_limit(&self) -> bool {
        self.settings().lru_eviction_enabled ==> self.settings().memory_limit() <= usize::MAX
    }

    /// Whether `extra` bytes can be added without any buffer leaving.
    pub open spec fn has_room(&self, extra: int) -> bool {
        self.settings().lru_eviction_enabled ==> fits(
            self.usage(),
            extra,
            self.settings().memory_limit(),
        )
    }

    /// A manager without buffers.
    pub fn new(config: BufferConfig) -> (r: FileBufferManager)
        ensures
            r.buffers() == no_buffers(),
            r.order() == Seq::<Seq<u8>>::empty(),
            r.usage() == 0,
            r.settings() == config,
            r.wf(),
    {
        let r = FileBufferManager {
            buffers: new_map(),
            lru_order: VecDeque::new(),
            memory_usage: 0,
            config,
        };
        assert(r.order() =~= Seq::<Seq<u8>>::empty());
        r
    }

    /// A copy of the buffer of a file, where there is one.
    pub fn get(&self, path: &FsPath) -> (r: Option<FileBuffer>)
        ensures
            match r {
                Some(buffer) => self.buffers().contains_key(key_of(path@)) && buffer@
                    == self.buffers()[key_of(path@)],
                None => !self.buffers().contains_key(key_of(path@)),
            },
    {
        let key = path.normalized();
        map_get(&self.buffers, &key)
    }

    /// The flags of the buffer of a file with a part of its content, where there is one.
    pub fn probe(&self, path: &FsPath, offset: u64, size: u32) -> (r: Option<Probe>)
        requires
            offset + size <= usize::MAX,
        ensures
            match r {
                Some(probe) => self.buffers().contains_key(key_of(path@)) && probe.tells(
                    self.buffers()[key_of(path@)],
                    offset as int,
                    size as int,
                ),
                None => !self.buffers().contains_key(key_of(path@)),
            },
    {
        let key = path.normalized();
        map_probe(&self.buffers, &key, offset, size)
    }

    /// Visits buffers from the one that was not used for longest, and drops the
    /// clean ones, until there is room for `additional_size` bytes or every
    /// buffer was visited. Dirty buffers move to the end of the order.
    fn maybe_evict(&mut self, additional_size: usize)
        requires
            old(self).wf(),
            old(self).settings().memory_limit() <= usize::MAX,
        ensures
            final(self).wf(),
            final(self).settings() == old(self).settings(),
            exists|k: int|
                eviction_stops(
                    old(self).buffers(),
                    old(self).order(),
                    old(self).usage(),
                    additional_size as int,
                    old(self).settings().memory_limit(),
                    k,
                ) && final(self).evicted_from(*old(self), k),
    {
        let limit: usize = self.config.max_memory_bytes();
        let total: usize = self.lru_order.len();
        let ghost start = *old(self);
        let ghost order = self.order();
        let ghost buffers = self.buffers();
        let mut k: usize = 0;
        proof {
            assert(order.skip(0) + spared(buffers, order, 0) =~= order);
            assert(buffers_after(buffers, order, 0) =~= buffers);
            lemma_usage_bound(buffers, order, self.usage());
        }
        while k < total && self.memory_usage + additional_size as u128 > limit as u128
            invariant
                k <= total == order.len(),
                order == start.order(),
                buffers == start.buffers(),
                start.wf(),
                self.wf(),
                self.evicted_from(start, k as int),
                self.config == start.config,
                self.memory_usage <= u64::MAX * u64::MAX,
                limit == start.settings().memory_limit(),
                forall|j: int|
                    0 <= j < k ==> !fits(
                        #[trigger] usage_after(buffers, order, start.usage(), j),
                        additional_size as int,
                        limit as int,
                    ),
            decreases total - k,
        {
            let ghost here = *self;
            let ghost key = order[k as int];
            proof {
                assert(here.order()[0] == key);
                lemma_first_leaves(here.order());
                assert(order.skip(k as int).drop_first() =~= order.skip(k + 1));
                assert(here.order().drop_first() =~= order.skip(k + 1) + spared(
                    buffers,
                    order,
                    k as int,
                ));
                assert(order.take(k + 1) =~= order.take(k as int).push(key));
                lemma_push_contains(order.take(k as int), key);
                assert(here.buffers().contains_key(key));
                assert(!order.take(k as int).contains(key));
            }
            if let Some(oldest) = self.lru_order.pop_front() {
                assert(oldest@ == key);
                assert(keys_of(self.lru_order@) =~= here.order().drop_first());
                if let Some(seen) = map_probe(&self.buffers, &oldest, 0, 0) {
                    if seen.dirty {
                        self.lru_order.push_back(oldest);
                        assert(self.order() =~= touched(here.order(), key));
                        proof {
                            lemma_kept_touched(here.buffers(), here.order(), here.usage(), key);
                        }
                    } else {
                        let gone = map_remove(&mut self.buffers, &oldest);
                        proof {
                            lemma_kept_removed(here.buffers(), here.order(), here.usage(), key);
                        }
                        self.memory_usage = self.memory_usage - seen.size as u128;
                    }
                }
            }
            assert(buffers_after(buffers, order, k + 1) =~= self.buffers());
            assert(self.order() =~= order.skip(k + 1) + spared(buffers, order, k + 1));
            k += 1;
        }
        assert(eviction_stops(
            buffers,
            order,
            start.usage(),
            additional_size as int,
            limit as int,
            k as int,
        ));
    }

    /// Whether this is the manager after eviction visited the first `k` keys
    /// and then a file was cached, in place of an earlier buffer of its path.
    pub open spec fn cached_after(
        &self,
        before: FileBufferManager,
        k: int,
        path: Seq<u8>,
        content: Seq<u8>,
        mtime: int,
    ) -> bool {
        let key = key_of(path);
        let room = buffers_after(before.buffers(), before.order(), k);
        let order = before.order().skip(k) + spared(before.buffers(), before.order(), k);
        let usage = usage_after(before.buffers(), before.order(), before.usage(), k);
        &&& self.buffers() == room.insert(key, fresh(path, content, mtime))
        &&& self.order() == touched(order, key)
        &&& self.usage() == usage - held_size(room, key) + content.len()
        &&& self.settings() == before.settings()
    }

    /// Caches a file that was modified now. See [`FileBufferManager::cache_with_mtime`].
    pub fn cache(&mut self, path: &FsPath, content: Vec<u8>, now: i128)
        requires
            old(self).wf(),
            old(self).has_limit(),
        ensures
            final(self).wf(),
            final(self).caches(*old(self), path@, content@, now as int),
            final(self).buffers().contains_key(key_of(path@)),
            final(self).buffers()[key_of(path@)] == fresh(path@, content@, now as int),
            old(self).has_room(content@.len() as int) ==> final(self).usage() == old(self).usage()
                - held_size(old(self).buffers(), key_of(path@)) + content@.len(),
    {
        self.cache_with_mtime(path, content, now);
    }

    /// Whether this is the manager after room was made for a file and it was cached.
    pub open spec fn caches(
        &self,
        before: FileBufferManager,
        path: Seq<u8>,
        content: Seq<u8>,
        mtime: int,
    ) -> bool {
        exists|k: int| #[trigger]
            self.cached_after(before, k, path, content, mtime) && if before.settings().lru_eviction_enabled {
                eviction_stops(
                    before.buffers(),
                    before.order(),
                    before.usage(),
                    content.len() as int,
                    before.settings().memory_limit(),
                    k,
                )
            } else {
                k == 0
            }
    }

    /// Caches a file that was modified at `mtime`. Where eviction is on, room is
    /// made first.
    pub fn cache_with_mtime(&mut self, path: &FsPath, content: Vec<u8>, mtime: i128)
        requires
            old(self).wf(),
            old(self).has_limit(),
        ensures
            final(self).wf(),
            final(self).caches(*old(self), path@, content@, mtime as int),
            final(self).buffers().contains_key(key_of(path@)),
            final(self).buffers()[key_of(path@)] == fresh(path@, content@, mtime as int),
            old(self).has_room(content@.len() as int) ==> final(self).usage() == old(self).usage()
                - held_size(old(self).buffers(), key_of(path@)) + content@.len(),
    {
        let size: usize = content.len();
        let ghost mut k: int = 0;
        if self.config.lru_eviction_enabled {
            self.maybe_evict(size);
            proof {
                k = choose|k: int|
                    eviction_stops(
                        old(self).buffers(),
                        old(self).order(),
                        old(self).usage(),
                        size as int,
                        old(self).settings().memory_limit(),
                        k,
                    ) && self.evicted_from(*old(self), k);
            }
        } else {
            assert(self.order().skip(0) + spared(self.buffers(), self.order(), 0) =~= self.order());
            assert(buffers_after(self.buffers(), self.order(), 0) =~= self.buffers());
        }
        let ghost room = *self;
        let ghost new = fresh(path@, content@, mtime as int);
        let key = path.normalized();
        let ghost k_view = key@;
        let buffer = FileBuffer::with_mtime(path.copy(), content, mtime);
        let earlier = map_insert(&mut self.buffers, copy_bytes(key.as_slice()), buffer);
        let replaced: u64 = match &earlier {
            Some(old_buffer) => old_buffer.size(),
            None => 0,
        };
        self.forget(&key);
        self.lru_order.push_back(key);
        let count: usize = self.lru_order.len();
        proof {
            assert(self.order() =~= touched(room.order(), k_view));
            lemma_kept_cached(room.buffers(), room.order(), room.usage(), k_view, new);
            let usage = room.usage() - held_size(room.buffers(), k_view) + size;
            assert(self.buffers() =~= room.buffers().insert(k_view, new));
            lemma_usage_bound(self.buffers(), self.order(), usage);
            lemma_held_size(room.buffers(), room.order(), k_view);
        }
        self.memory_usage = self.memory_usage - replaced as u128 + size as u128;
        proof {
            assert(self.cached_after(*old(self), k, path@, content@, mtime as int));
            if old(self).has_room(content@.len() as int) {
                law_memory_is_counted_once(*self, *old(self), path@, content@, mtime as int);
            }
        }
    }

    /// The buffer of a file counts as used just now.
    fn touch(&mut self, key: Vec<u8>)
        requires
            old(self).wf(),
            old(self).buffers().contains_key(key@),
        ensures
            final(self).wf(),
            final(self).buffers() == old(self).buffers(),
            final(self).order() == touched(old(self).order(), key@),
            final(self).usage() == old(self).usage(),
            final(self).settings() == old(self).settings(),
    {
        let ghost k = key@;
        self.forget(&key);
        self.lru_order.push_back(key);
        assert(self.order() =~= touched(old(self).order(), k));
        proof {
            lemma_kept_touched(old(self).buffers(), old(self).order(), old(self).usage(), k);
        }
    }

    /// Takes a key out of the order.
    fn forget(&mut self, key: &Vec<u8>)
        ensures
            final(self).buffers() == old(self).buffers(),
            final(self).order() == old(self).order().remove_value(key@),
            final(self).usage() == old(self).usage(),
            final(self).settings() == old(self).settings(),
    {
        let ghost order = self.order();
        let mut i: usize = 0;
        proof {
            order.index_of_first_ensures(key@);
        }
        while i < self.lru_order.len()
            invariant
                i <= self.lru_order@.len() == order.len(),
                order == self.order(),
                *self == *old(self),
                forall|j: int| 0 <= j < i ==> order[j] != key@,
                order == old(self).order(),
            decreases self.lru_order@.len() - i,
        {
            assert(order[i as int] == self.lru_order@[i as int]@);
            if same_bytes(self.lru_order[i].as_slice(), key.as_slice()) {
                proof {
                    order.index_of_first_ensures(key@);
                    assert(order.contains(key@));
                    assert(order.index_of_first(key@) == Some(i as int));
                }
                let gone = self.lru_order.remove(i);
                assert(self.order() =~= order.remove(i as int));
                return;
            }
            i += 1;
        }
    }

    /// Decides what has to happen before the content of a file can be used,
    /// given when the file on disk was last modified, where that is known. A
    /// dirty buffer is good; a clean one is good unless the file on disk is
    /// newer, in which case it is dropped.
    pub fn get_or_load(&mut self, path: &FsPath, disk_mtime: Option<i128>) -> (r: LoadStep)
        requires
            old(self).wf(),
        ensures
            final(self).wf(),
            final(self).settings() == old(self).settings(),
            r == load_step(old(self).buffers(), key_of(path@), disk_mtime),
            match r {
                LoadStep::Cached => {
                    &&& final(self).buffers() == old(self).buffers()
                    &&& final(self).order() == touched(old(self).order(), key_of(path@))
                    &&& final(self).usage() == old(self).usage()
                },
                LoadStep::Reload(_) => final(self).removed_from(*old(self), key_of(path@)),
                LoadStep::Load => *final(self) == *old(self),
            },
    {
        let key = path.normalized();
        match map_probe(&self.buffers, &key, 0, 0) {
            None => LoadStep::Load,
            Some(seen) => {
                if !seen.dirty {
                    if let Some(disk) = disk_mtime {
                        if disk > seen.mtime {
                            self.remove(path);
                            return LoadStep::Reload(disk);
                        }
                    }
                }
                self.touch(key);
                LoadStep::Cached
            },
        }
    }

    /// Whether this is the manager after the buffer under a key was removed,
    /// where there was one.
    pub open spec fn removed_from(&self, before: FileBufferManager, key: Seq<u8>) -> bool {
        if before.buffers().contains_key(key) {
            &&& self.buffers() == before.buffers().remove(key)
            &&& self.order() == before.order().remove_value(key)
            &&& self.usage() == before.usage() - before.buffers()[key].size()
            &&& self.settings() == before.settings()
        } else {
            &&& self.buffers() == before.buffers()
            &&& self.order() == before.order()
            &&& self.usage() == before.usage()
            &&& self.settings() == before.settings()
        }
    }

    /// Removes the buffer of a file.
    pub fn remove(&mut self, path: &FsPath)
        requires
            old(self).wf(),
        ensures
            final(self).wf(),
            final(self).removed_from(*old(self), key_of(path@)),
    {
        let key = path.normalized();
        match map_remove(&mut self.buffers, &key) {
            None => {
                assert(self.buffers() =~= old(self).buffers());
            },
            Some(buffer) => {
                self.forget(&key);
                proof {
                    lemma_kept_removed(
                        old(self).buffers(),
                        old(self).order(),
                        old(self).usage(),
                        key@,
                    );
                }
                self.memory_usage = self.memory_usage - buffer.size() as u128;
            },
        }
    }

    /// Whether a list holds each dirty buffer once, and no other.
    pub open spec fn dirty_ones_are(&self, list: Seq<FileBuffer>) -> bool {
        &&& forall|i: int|
            0 <= i < list.len() ==> {
                let key = key_of(#[trigger] list[i]@.path);
                &&& self.buffers().contains_key(key)
                &&& self.buffers()[key] == list[i]@
                &&& list[i]@.dirty
            }
        &&& forall|i: int, j: int|
            0 <= i < j < list.len() ==> key_of(#[trigger] list[i]@.path) != key_of(
                #[trigger] list[j]@.path,
            )
        &&& forall|key: Seq<u8>| #[trigger]
            self.buffers().contains_key(key) && self.buffers()[key].dirty ==> exists|i: int|
                0 <= i < list.len() && #[trigger] list[i]@ == self.buffers()[key]
    }

    /// Copies of the dirty buffers, in an order that is left open.
    pub fn dirty_buffers(&self) -> (r: Vec<FileBuffer>)
        requires
            self.wf(),
        ensures
            self.dirty_ones_are(r@),
    {
        let mut entries = map_entries(&self.buffers);
        let ghost all = entries@;
        let mut out: Vec<FileBuffer> = Vec::new();
        let ghost mut from: Seq<int> = Seq::empty();
        proof {
            assert(entries@ =~= all.skip(0));
        }
        let mut n: usize = entries.len();
        while n > 0
            invariant
                n == entries@.len(),
                entries@ == all.take(n as int),
                n <= all.len(),
                lists_all(all, self.buffers()),
                self.wf(),
                from.len() == out@.len(),
                forall|i: int|
                    0 <= i < out@.len() ==> n <= #[trigger] from[i] < all.len() && out@[i]@
                        == all[from[i]].1@ && out@[i]@.dirty,
                forall|i: int, j: int| 0 <= i < j < from.len() ==> from[i] > from[j],
                forall|m: int|
                    n <= m < all.len() && #[trigger] all[m].1@.dirty ==> exists|i: int|
                        0 <= i < out@.len() && #[trigger] out@[i]@ == all[m].1@,
            decreases n,
        {
            let ghost before = out@;
            let (key, buffer) = entries.pop().unwrap();
            n -= 1;
            assert(all[n as int] == (key, buffer));
            assert(entries@ =~= all.take(n as int));
            if buffer.is_dirty() {
                out.push(buffer);
                proof {
                    from = from.push(n as int);
                }
            }
            assert forall|m: int| n <= m < all.len() && #[trigger] all[m].1@.dirty implies exists|
                i: int,
            |
                0 <= i < out@.len() && #[trigger] out@[i]@ == all[m].1@ by {
                if m > n {
                    let i = choose|i: int| 0 <= i < before.len() && #[trigger] before[i]@
                        == all[m].1@;
                    assert(out@[i]@ == all[m].1@);
                } else {
                    assert(out@[out@.len() - 1]@ == all[m].1@);
                }
            }
        }
        proof {
            assert forall|i: int| 0 <= i < out@.len() implies {
                let key = key_of(#[trigger] out@[i]@.path);
                &&& self.buffers().contains_key(key)
                &&& self.buffers()[key] == out@[i]@
                &&& out@[i]@.dirty
            } by {
                assert(self.buffers().contains_key(all[from[i]].0@));
            }
            assert forall|i: int, j: int| 0 <= i < j < out@.len() implies key_of(
                #[trigger] out@[i]@.path,
            ) != key_of(#[trigger] out@[j]@.path) by {
                assert(self.buffers().contains_key(all[from[i]].0@));
                assert(self.buffers().contains_key(all[from[j]].0@));
                assert(from[i] > from[j]);
            }
            assert forall|key: Seq<u8>| #[trigger]
                self.buffers().contains_key(key) && self.buffers()[key].dirty implies exists|i: int|
                0 <= i < out@.len() && #[trigger] out@[i]@ == self.buffers()[key] by {
                let m = choose|m: int| 0 <= m < all.len() && #[trigger] all[m].0@ == key;
                assert(all[m].1@ == self.buffers()[key]);
            }
        }
        out
    }

    /// The content to write to disk for a file: that of its buffer, where there
    /// is one and it is dirty.
    pub fn flush(&self, path: &FsPath) -> (r: Option<Vec<u8>>)
        ensures
            match r {
                Some(content) => {
                    let key = key_of(path@);
                    &&& self.buffers().contains_key(key)
                    &&& self.buffers()[key].dirty
                    &&& content@ == self.buffers()[key].content
                },
                None => !(self.buffers().contains_key(key_of(path@))
                    && self.buffers()[key_of(path@)].dirty),
            },
    {
        let key = path.normalized();
        match map_probe(&self.buffers, &key, 0, 0) {
            None => None,
            Some(seen) => {
                if seen.dirty {
                    match map_get(&self.buffers, &key) {
                        Some(buffer) => Some(buffer.content()),
                        None => None,
                    }
                } else {
                    None
                }
            },
        }
    }

    /// Whether this is the manager after the buffer under a key became `buffer`,
    /// where there was one. The memory in use changes by the difference of the
    /// sizes.
    pub open spec fn changed_from(
        &self,
        before: FileBufferManager,
        key: Seq<u8>,
        buffer: BufferState,
    ) -> bool {
        &&& self.buffers() == if before.buffers().contains_key(key) {
            before.buffers().insert(key, buffer)
        } else {
            before.buffers()
        }
        &&& self.order() == before.order()
        &&& self.usage() == if before.buffers().contains_key(key) {
            before.usage() - before.buffers()[key].size() + buffer.size()
        } else {
            before.usage()
        }
        &&& self.settings() == before.settings()
    }

    /// Records that the content of a file reached the disk.
    pub fn mark_clean(&mut self, path: &FsPath)
        requires
            old(self).wf(),
        ensures
            final(self).wf(),
            final(self).changed_from(
                *old(self),
                key_of(path@),
                old(self).buffers()[key_of(path@)].clean(),
            ),
    {
        let key = path.normalized();
        match map_remove(&mut self.buffers, &key) {
            None => {
                assert(self.buffers() =~= old(self).buffers());
            },
            Some(mut buffer) => {
                let size: u64 = buffer.size();
                buffer.mark_clean();
                self.put_back(key, buffer, size, Ghost(*old(self)));
            },
        }
    }

    /// Writes into the buffer of a file, where there is one.
    pub fn write(&mut self, path: &FsPath, offset: u64, data: &[u8], now: i128) -> (r: Option<
        usize,
    >)
        requires
            old(self).wf(),
            offset + data@.len() <= usize::MAX,
        ensures
            final(self).wf(),
            final(self).changed_from(
                *old(self),
                key_of(path@),
                old(self).buffers()[key_of(path@)].write(offset as int, data@, now as int),
            ),
            r == if old(self).buffers().contains_key(key_of(path@)) {
                Some(data@.len() as usize)
            } else {
                None
            },
    {
        let key = path.normalized();
        match map_remove(&mut self.buffers, &key) {
            None => {
                assert(self.buffers() =~= old(self).buffers());
                None
            },
            Some(mut buffer) => {
                let size: u64 = buffer.size();
                let written: usize = buffer.write(offset, data, now);
                self.put_back(key, buffer, size, Ghost(*old(self)));
                Some(written)
            },
        }
    }

    /// Replaces the content of the buffer of a file, where there is one.
    pub fn set_content(&mut self, path: &FsPath, data: Vec<u8>, now: i128) -> (r: bool)
        requires
            old(self).wf(),
        ensures
            final(self).wf(),
            final(self).changed_from(
                *old(self),
                key_of(path@),
                old(self).buffers()[key_of(path@)].set_content(data@, now as int),
            ),
            r == old(self).buffers().contains_key(key_of(path@)),
    {
        let key = path.normalized();
        match map_remove(&mut self.buffers, &key) {
            None => {
                assert(self.buffers() =~= old(self).buffers());
                false
            },
            Some(mut buffer) => {
                let size: u64 = buffer.size();
                buffer.set_content(data, now);
                self.put_back(key, buffer, size, Ghost(*old(self)));
                true
            },
        }
    }

    /// Cuts the buffer of a file to a size, where there is one.
    pub fn truncate(&mut self, path: &FsPath, new_size: u64, now: i128) -> (r: bool)
        requires
            old(self).wf(),
        ensures
            final(self).wf(),
            final(self).changed_from(
                *old(self),
                key_of(path@),
                old(self).buffers()[key_of(path@)].truncate(new_size, now as int),
            ),
            r == old(self).buffers().contains_key(key_of(path@)),
    {
        let key = path.normalized();
        match map_remove(&mut self.buffers, &key) {
            None => {
                assert(self.buffers() =~= old(self).buffers());
                false
            },
            Some(mut buffer) => {
                let size: u64 = buffer.size();
                buffer.truncate(new_size, now);
                self.put_back(key, buffer, size, Ghost(*old(self)));
                true
            },
        }
    }

    /// Puts a buffer back under the key from which it was taken, when it had the
    /// given size.
    fn put_back(
        &mut self,
        key: Vec<u8>,
        buffer: FileBuffer,
        size: u64,
        Ghost(before): Ghost<FileBufferManager>,
    )
        requires
            before.wf(),
            before.buffers().contains_key(key@),
            buffer@.path == before.buffers()[key@].path,
            size == before.buffers()[key@].size(),
            old(self).buffers() == before.buffers().remove(key@),
            old(self).order() == before.order(),
            old(self).usage() == before.usage(),
            old(self).settings() == before.settings(),
        ensures
            final(self).wf(),
            final(self).changed_from(before, key@, buffer@),
    {
        let count: usize = self.lru_order.len();
        let new_size: u64 = buffer.size();
        let ghost k = key@;
        let earlier = map_insert(&mut self.buffers, key, buffer);
        proof {
            assert(self.buffers() =~= before.buffers().insert(k, buffer@));
            lemma_kept_changed(before.buffers(), before.order(), before.usage(), k, buffer@);
            let usage = before.usage() - size + new_size;
            lemma_usage_bound(self.buffers(), self.order(), usage);
            lemma_held_size(before.buffers(), before.order(), k);
        }
        self.memory_usage = self.memory_usage - size as u128 + new_size as u128;
    }

    /// The memory in use in bytes, or the largest number that can be told.
    pub fn memory_usage(&self) -> (r: usize)
        ensures
            r == if self.usage() <= usize::MAX {
                self.usage()
            } else {
                usize::MAX as int
            },
    {
        if self.memory_usage <= usize::MAX as u128 {
            self.memory_usage as usize
        } else {
            usize::MAX
        }
    }

    /// The number of buffers.
    pub fn buffer_count(&self) -> (r: usize)
        ensures
            r == self.buffers().dom().len(),
    {
        map_len(&self.buffers)
    }

    /// Whether a list holds path and content of each dirty buffer once, and no
    /// other.
    pub open spec fn waiting_are(&self, list: Seq<(FsPath, Vec<u8>)>) -> bool {
        &&& forall|i: int|
            0 <= i < list.len() ==> {
                let key = key_of(#[trigger] list[i].0@);
                &&& self.buffers().contains_key(key)
                &&& self.buffers()[key].dirty
                &&& self.buffers()[key].path == list[i].0@
                &&& self.buffers()[key].content == list[i].1@
            }
        &&& forall|i: int, j: int|
            0 <= i < j < list.len() ==> key_of(#[trigger] list[i].0@) != key_of(
                #[trigger] list[j].0@,
            )
        &&& forall|key: Seq<u8>| #[trigger]
            self.buffers().contains_key(key) && self.buffers()[key].dirty ==> exists|i: int|
                0 <= i < list.len() && key_of(#[trigger] list[i].0@) == key
    }

    /// Path and content of each dirty buffer, in an order that is left open: what
    /// has to be written to disk before the buffers can be dropped. Once one is
    /// there, [`FileBufferManager::mark_clean`] has to be called.
    pub fn flush_all(&self) -> (r: Vec<(FsPath, Vec<u8>)>)
        requires
            self.wf(),
        ensures
            self.waiting_are(r@),
    {
        let dirty = self.dirty_buffers();
        let mut out: Vec<(FsPath, Vec<u8>)> = Vec::new();
        let mut i: usize = 0;
        while i < dirty.len()
            invariant
                i <= dirty@.len(),
                out@.len() == i,
                forall|j: int|
                    0 <= j < i ==> (#[trigger] out@[j]).0@ == dirty@[j]@.path && out@[j].1@
                        == dirty@[j]@.content,
            decreases dirty@.len() - i,
        {
            out.push((dirty[i].path().copy(), dirty[i].content()));
            i += 1;
        }
        proof {
            assert forall|key: Seq<u8>| #[trigger]
                self.buffers().contains_key(key) && self.buffers()[key].dirty implies exists|i: int|
                0 <= i < out@.len() && key_of(#[trigger] out@[i].0@) == key by {
                let j = choose|j: int| 0 <= j < dirty@.len() && #[trigger] dirty@[j]@
                    == self.buffers()[key];
                assert(out@[j].0@ == dirty@[j]@.path);
            }
        }
        out
    }

    /// Drops all buffers. The dirty ones have to be on disk before, see
    /// [`FileBufferManager::flush_all`].
    pub fn clear(&mut self)
        requires
            forall|key: Seq<u8>| #[trigger]
                old(self).buffers().contains_key(key) ==> !old(self).buffers()[key].dirty,
        ensures
            final(self).wf(),
            final(self).buffers() == no_buffers(),
            final(self).order() == Seq::<Seq<u8>>::empty(),
            final(self).usage() == 0,
            final(self).settings() == old(self).settings(),
    {
        map_clear(&mut self.buffers);
        self.memory_usage = 0;
        self.lru_order.clear();
        assert(self.order() =~= Seq::<Seq<u8>>::empty());
    }

    /// Whether this is the manager after eviction visited the first `k` keys.
    pub open spec fn evicted_from(&self, before: FileBufferManager, k: int) -> bool {
        &&& self.buffers() == buffers_after(before.buffers(), before.order(), k)
        &&& self.order() == before.order().skip(k) + spared(before.buffers(), before.order(), k)
        &&& self.usage() == usage_after(before.buffers(), before.order(), before.usage(), k)
    }
}

/// The bytes of each key in a queue.
pub closed spec fn keys_of(queue: Seq<Vec<u8>>) -> Seq<Seq<u8>> {
    queue.map_values(|key: Vec<u8>| key@)
}

proof fn lemma_push_contains(s: Seq<Seq<u8>>, x: Seq<u8>)
    ensures
        forall|y: Seq<u8>| #[trigger] s.push(x).contains(y) <==> s.contains(y) || y == x,
{
    assert forall|y: Seq<u8>| #[trigger] s.push(x).contains(y) <==> s.contains(y) || y == x by {
        if s.contains(y) {
            let i = choose|i: int| 0 <= i < s.len() && s[i] == y;
            assert(s.push(x)[i] == y);
        }
        if y == x {
            assert(s.push(x)[s.len() as int] == y);
        }
    }
}

/// The memory that the buffer under a key takes, where there is one.
pub open spec fn held_size(buffers: Map<Seq<u8>, BufferState>, key: Seq<u8>) -> nat {
    if buffers.contains_key(key) {
        buffers[key].size()
    } else {
        0
    }
}

/// Taking a key out of an order that holds nothing twice takes out this key and
/// no other.
proof fn lemma_order_without(order: Seq<Seq<u8>>, key: Seq<u8>)
    requires
        order.no_duplicates(),
    ensures
        order.remove_value(key).no_duplicates(),
        !order.remove_value(key).contains(key),
        forall|y: Seq<u8>|
            y != key ==> (#[trigger] order.remove_value(key).contains(y) <==> order.contains(y)),
{
    order.index_of_first_ensures(key);
    let rest = order.remove_value(key);
    match order.index_of_first(key) {
        None => {},
        Some(p) => {
            assert forall|i: int| 0 <= i < rest.len() implies #[trigger] rest[i] == order[if i < p {
                i
            } else {
                i + 1
            }] by {}
            assert forall|y: Seq<u8>| y != key && order.contains(y) implies rest.contains(y) by {
                let i = choose|i: int| 0 <= i < order.len() && order[i] == y;
                assert(rest[if i < p {
                    i
                } else {
                    i - 1
                }] == y);
            }
        },
    }
}

proof fn lemma_total_without(buffers: Map<Seq<u8>, BufferState>, order: Seq<Seq<u8>>, i: int)
    requires
        0 <= i < order.len(),
    ensures
        total_size(buffers, order) == total_size(buffers, order.remove(i))
            + buffers[order[i]].size(),
    decreases order.len(),
{
    if i == order.len() - 1 {
        assert(order.remove(i) =~= order.drop_last());
    } else {
        lemma_total_without(buffers, order.drop_last(), i);
        assert(order.remove(i).drop_last() =~= order.drop_last().remove(i));
    }
}

proof fn lemma_total_same(
    a: Map<Seq<u8>, BufferState>,
    b: Map<Seq<u8>, BufferState>,
    order: Seq<Seq<u8>>,
)
    requires
        forall|key: Seq<u8>| #[trigger] order.contains(key) ==> a[key] == b[key],
    ensures
        total_size(a, order) == total_size(b, order),
    decreases order.len(),
{
    if order.len() > 0 {
        assert(order.contains(order.last()));
        assert forall|key: Seq<u8>| #[trigger] order.drop_last().contains(key) implies a[key]
            == b[key] by {
            let i = choose|i: int| 0 <= i < order.drop_last().len() && order.drop_last()[i] == key;
            assert(order[i] == key);
            assert(order.contains(key));
        }
        lemma_total_same(a, b, order.drop_last());
    }
}

proof fn lemma_total_bound(buffers: Map<Seq<u8>, BufferState>, order: Seq<Seq<u8>>)
    requires
        forall|key: Seq<u8>| #[trigger] order.contains(key) ==> buffers[key].size() <= u64::MAX,
    ensures
        total_size(buffers, order) <= order.len() * u64::MAX,
    decreases order.len(),
{
    if order.len() > 0 {
        let rest = order.drop_last();
        assert(order.contains(order.last()));
        assert forall|key: Seq<u8>| #[trigger] rest.contains(key) implies buffers[key].size()
            <= u64::MAX by {
            let i = choose|i: int| 0 <= i < rest.len() && rest[i] == key;
            assert(order[i] == key);
            assert(order.contains(key));
        }
        lemma_total_bound(buffers, rest);
        assert(rest.len() * u64::MAX + u64::MAX == order.len() * u64::MAX) by (nonlinear_arith)
            requires
                rest.len() + 1 == order.len(),
        ;
    }
}

/// The memory in use can be told as a number.
proof fn lemma_usage_bound(
    buffers: Map<Seq<u8>, BufferState>,
    order: Seq<Seq<u8>>,
    usage: int,
)
    requires
        kept_well(buffers, order, usage),
        order.len() <= usize::MAX,
    ensures
        0 <= usage <= u64::MAX * u64::MAX,
{
    assert forall|key: Seq<u8>| #[trigger] order.contains(key) implies buffers[key].size()
        <= u64::MAX by {
        assert(buffers.contains_key(key));
    }
    lemma_total_bound(buffers, order);
    assert(order.len() * u64::MAX <= u64::MAX * u64::MAX) by (nonlinear_arith)
        requires
            order.len() <= u64::MAX,
    ;
}

/// The memory of one buffer is part of the memory in use.
proof fn lemma_held_size(buffers: Map<Seq<u8>, BufferState>, order: Seq<Seq<u8>>, key: Seq<u8>)
    requires
        forall|key: Seq<u8>| #[trigger] buffers.contains_key(key) <==> order.contains(key),
    ensures
        held_size(buffers, key) <= total_size(buffers, order),
{
    if buffers.contains_key(key) {
        let i = choose|i: int| 0 <= i < order.len() && order[i] == key;
        lemma_total_without(buffers, order, i);
    }
}

/// The first key of an order is taken out by taking out the first element.
proof fn lemma_first_leaves(order: Seq<Seq<u8>>)
    requires
        order.len() > 0,
    ensures
        order.remove_value(order[0]) == order.drop_first(),
{
    order.index_of_first_ensures(order[0]);
    assert(order.contains(order[0]));
    assert(order.remove_value(order[0]) =~= order.drop_first());
}

proof fn lemma_kept_removed(
    buffers: Map<Seq<u8>, BufferState>,
    order: Seq<Seq<u8>>,
    usage: int,
    key: Seq<u8>,
)
    requires
        kept_well(buffers, order, usage),
    ensures
        kept_well(
            buffers.remove(key),
            order.remove_value(key),
            usage - held_size(buffers, key),
        ),
        held_size(buffers, key) <= usage,
{
    let rest = order.remove_value(key);
    lemma_order_without(order, key);
    lemma_held_size(buffers, order, key);
    order.index_of_first_ensures(key);
    if buffers.contains_key(key) {
        lemma_total_without(buffers, order, order.index_of_first(key)->0);
    }
    assert forall|k: Seq<u8>| #[trigger] rest.contains(k) implies buffers[k] == buffers.remove(
        key,
    )[k] by {
        assert(k != key);
        assert(buffers.contains_key(k));
    }
    lemma_total_same(buffers, buffers.remove(key), rest);
    assert forall|k: Seq<u8>| #[trigger] buffers.remove(key).contains_key(k) <==> rest.contains(
        k,
    ) by {
        assert(buffers.contains_key(k) <==> order.contains(k));
    }
}

proof fn lemma_kept_put(
    buffers: Map<Seq<u8>, BufferState>,
    order: Seq<Seq<u8>>,
    usage: int,
    key: Seq<u8>,
    buffer: BufferState,
)
    requires
        kept_well(buffers, order, usage),
        !buffers.contains_key(key),
        key_of(buffer.path) == key,
        buffer.size() <= u64::MAX,
    ensures
        kept_well(buffers.insert(key, buffer), order.push(key), usage + buffer.size()),
{
    let after = buffers.insert(key, buffer);
    lemma_push_contains(order, key);
    assert(order.push(key).drop_last() =~= order);
    assert forall|k: Seq<u8>| #[trigger] order.contains(k) implies buffers[k] == after[k] by {
        assert(buffers.contains_key(k));
    }
    lemma_total_same(buffers, after, order);
    assert forall|k: Seq<u8>| #[trigger] after.contains_key(k) <==> order.push(key).contains(
        k,
    ) by {
        assert(buffers.contains_key(k) <==> order.contains(k));
    }
    assert forall|k: Seq<u8>| #[trigger] after.contains_key(k) implies key_of(after[k].path) == k
        && after[k].size() <= u64::MAX by {
        if k != key {
            assert(buffers.contains_key(k));
        }
    }
}

proof fn lemma_kept_cached(
    buffers: Map<Seq<u8>, BufferState>,
    order: Seq<Seq<u8>>,
    usage: int,
    key: Seq<u8>,
    buffer: BufferState,
)
    requires
        kept_well(buffers, order, usage),
        key_of(buffer.path) == key,
        buffer.size() <= u64::MAX,
    ensures
        kept_well(
            buffers.insert(key, buffer),
            touched(order, key),
            usage - held_size(buffers, key) + buffer.size(),
        ),
{
    lemma_kept_removed(buffers, order, usage, key);
    lemma_kept_put(
        buffers.remove(key),
        order.remove_value(key),
        usage - held_size(buffers, key),
        key,
        buffer,
    );
    assert(buffers.remove(key).insert(key, buffer) =~= buffers.insert(key, buffer));
}

proof fn lemma_kept_touched(
    buffers: Map<Seq<u8>, BufferState>,
    order: Seq<Seq<u8>>,
    usage: int,
    key: Seq<u8>,
)
    requires
        kept_well(buffers, order, usage),
        buffers.contains_key(key),
    ensures
        kept_well(buffers, touched(order, key), usage),
{
    lemma_kept_cached(buffers, order, usage, key, buffers[key]);
    assert(buffers.insert(key, buffers[key]) =~= buffers);
}

proof fn lemma_kept_changed(
    buffers: Map<Seq<u8>, BufferState>,
    order: Seq<Seq<u8>>,
    usage: int,
    key: Seq<u8>,
    buffer: BufferState,
)
    requires
        kept_well(buffers, order, usage),
        buffers.contains_key(key),
        key_of(buffer.path) == key,
        buffer.size() <= u64::MAX,
    ensures
        kept_well(
            buffers.insert(key, buffer),
            order,
            usage - buffers[key].size() + buffer.size(),
        ),
{
    let after = buffers.insert(key, buffer);
    let rest = order.remove_value(key);
    lemma_order_without(order, key);
    order.index_of_first_ensures(key);
    let i = order.index_of_first(key)->0;
    lemma_total_without(buffers, order, i);
    lemma_total_without(after, order, i);
    assert forall|k: Seq<u8>| #[trigger] rest.contains(k) implies buffers[k] == after[k] by {
        assert(k != key);
    }
    lemma_total_same(buffers, after, rest);
    assert forall|k: Seq<u8>| #[trigger] after.contains_key(k) <==> order.contains(k) by {
        assert(buffers.contains_key(k) <==> order.contains(k));
    }
    assert forall|k: Seq<u8>| #[trigger] after.contains_key(k) implies key_of(after[k].path) == k
        && after[k].size() <= u64::MAX by {
        assert(buffers.contains_key(k));
    }
}

/// What [`FileBufferManager::get_or_load`] decides.
pub open spec fn load_step(
    buffers: Map<Seq<u8>, BufferState>,
    key: Seq<u8>,
    disk_mtime: Option<i128>,
) -> LoadStep {
    if !buffers.contains_key(key) {
        LoadStep::Load
    } else if !buffers[key].dirty && disk_mtime is Some && disk_mtime->0 > buffers[key].mtime {
        LoadStep::Reload(disk_mtime->0)
    } else {
        LoadStep::Cached
    }
}

/// Caching a file loses no dirty content of another file.
pub proof fn law_caching_spares_dirty(
    after: FileBufferManager,
    before: FileBufferManager,
    path: Seq<u8>,
    content: Seq<u8>,
    mtime: int,
    key: Seq<u8>,
)
    requires
        after.caches(before, path, content, mtime),
        before.buffers().contains_key(key),
        before.buffers()[key].dirty,
        key != key_of(path),
    ensures
        after.buffers().contains_key(key),
        after.buffers()[key] == before.buffers()[key],
{
}

/// A file that was cached is found with the content that was cached, and is the
/// last one to leave.
pub proof fn law_cached_is_found(
    after: FileBufferManager,
    before: FileBufferManager,
    path: Seq<u8>,
    content: Seq<u8>,
    mtime: int,
)
    requires
        after.caches(before, path, content, mtime),
    ensures
        after.buffers().contains_key(key_of(path)),
        after.buffers()[key_of(path)] == fresh(path, content, mtime),
        after.order().len() > 0,
        after.order().last() == key_of(path),
{
}

/// Where eviction ends without room, every buffer that is left is dirty.
pub proof fn law_over_limit_only_dirty_is_left(
    before: FileBufferManager,
    extra: int,
    k: int,
    key: Seq<u8>,
)
    requires
        before.wf(),
        eviction_stops(
            before.buffers(),
            before.order(),
            before.usage(),
            extra,
            before.settings().memory_limit(),
            k,
        ),
        !fits(
            usage_after(before.buffers(), before.order(), before.usage(), k),
            extra,
            before.settings().memory_limit(),
        ),
        buffers_after(before.buffers(), before.order(), k).contains_key(key),
    ensures
        before.buffers()[key].dirty,
{
    assert(before.buffers().contains_key(key));
    assert(before.order().take(k) =~= before.order());
}

/// Eviction goes by last use: where a buffer leaves, every clean buffer that
/// stands before it in the order leaves too.
pub proof fn law_eviction_goes_by_last_use(before: FileBufferManager, k: int, i: int, j: int)
    requires
        before.wf(),
        0 <= k <= before.order().len(),
        0 <= i <= j < before.order().len(),
        evictable(before.buffers(), before.order()[i]),
        evictable(before.buffers(), before.order()[j]),
        !buffers_after(before.buffers(), before.order(), k).contains_key(before.order()[j]),
    ensures
        !buffers_after(before.buffers(), before.order(), k).contains_key(before.order()[i]),
{
    let order = before.order();
    let seen = order.take(k);
    let m = choose|m: int| 0 <= m < seen.len() && seen[m] == order[j];
    assert(order[m] == order[j]);
    assert(j == m);
    assert(seen[i] == order[i]);
}

/// Where there is room, the memory in use grows by the size of a file that is
/// cached, less that of the buffer in whose place it comes.
pub proof fn law_memory_is_counted_once(
    after: FileBufferManager,
    before: FileBufferManager,
    path: Seq<u8>,
    content: Seq<u8>,
    mtime: int,
)
    requires
        before.wf(),
        before.has_room(content.len() as int),
        after.caches(before, path, content, mtime),
    ensures
        after.usage() == before.usage() - held_size(before.buffers(), key_of(path))
            + content.len(),
{
    assert(buffers_after(before.buffers(), before.order(), 0) =~= before.buffers());
    assert(usage_after(before.buffers(), before.order(), before.usage(), 0) == before.usage());
}

/// What waits to be written is never read again from disk in its place.
pub proof fn law_dirty_is_not_reloaded(
    buffers: Map<Seq<u8>, BufferState>,
    key: Seq<u8>,
    disk_mtime: Option<i128>,
)
    requires
        buffers.contains_key(key),
        buffers[key].dirty,
    ensures
        load_step(buffers, key, disk_mtime) == LoadStep::Cached,
{
}

/// A read gives as many bytes as were asked for and there are, each from its
/// place in the content, also where the request goes beyond the end.
pub proof fn law_read_gives_what_is_there(buffer: FileBuffer, offset: u64, size: u32, r: Vec<u8>)
    requires
        call_ensures(FileBuffer::read, (&buffer, offset, size), r),
    ensures
        offset >= buffer@.content.len() ==> r@.len() == 0,
        offset < buffer@.content.len() ==> r@.len() == if size < buffer@.content.len() - offset {
            size as int
        } else {
            buffer@.content.len() - offset
        },
        forall|i: int| 0 <= i < r@.len() ==> #[trigger] r@[i] == buffer@.content[offset + i],
{
}

proof fn lemma_pieces_make_content(content: Seq<u8>, offset: int, size: int, pieces: Seq<Seq<u8>>)
    requires
        0 <= offset,
        size > 0,
        offset + pieces.len() * size >= content.len(),
        forall|k: int|
            0 <= k < pieces.len() ==> (#[trigger] pieces[k]) == read_bytes(
                content,
                offset + k * size,
                size,
            ),
    ensures
        pieces.flatten() == if offset < content.len() {
            content.subrange(offset, content.len() as int)
        } else {
            Seq::empty()
        },
    decreases pieces.len(),
{
    if pieces.len() > 0 {
        let rest = pieces.drop_first();
        assert(pieces.len() * size == size + rest.len() * size) by (nonlinear_arith)
            requires
                pieces.len() == rest.len() + 1,
        ;
        assert forall|k: int| 0 <= k < rest.len() implies (#[trigger] rest[k]) == read_bytes(
            content,
            (offset + size) + k * size,
            size,
        ) by {
            assert(rest[k] == pieces[k + 1]);
            assert((k + 1) * size == size + k * size) by (nonlinear_arith);
        }
        lemma_pieces_make_content(content, offset + size, size, rest);
        assert(pieces[0] == read_bytes(content, offset + 0 * size, size));
        assert(0 * size == 0) by (nonlinear_arith);
        assert(pieces.flatten() == pieces.first() + rest.flatten());
        if offset < content.len() {
            assert(pieces.flatten() =~= content.subrange(offset, content.len() as int));
        } else {
            assert(pieces.flatten() =~= Seq::<u8>::empty());
        }
    }
}

/// Consecutive reads of one chunk size, as many as it takes, put together give
/// the whole content.
pub proof fn law_chunks_give_the_content(buffer: FileBuffer, size: u32, chunks: Seq<Vec<u8>>)
    requires
        size > 0,
        buffer@.content.len() <= chunks.len() * size <= u64::MAX,
        forall|k: int|
            0 <= k < chunks.len() ==> call_ensures(
                FileBuffer::read,
                (&buffer, (k * size) as u64, size),
                #[trigger] chunks[k],
            ),
    ensures
        chunks.map_values(|c: Vec<u8>| c@).flatten() == buffer@.content,
{
    let pieces = chunks.map_values(|c: Vec<u8>| c@);
    assert forall|k: int| 0 <= k < pieces.len() implies (#[trigger] pieces[k]) == read_bytes(
        buffer@.content,
        0 + k * size,
        size as int,
    ) by {
        assert(0 <= k * size <= chunks.len() * size) by (nonlinear_arith)
            requires
                0 <= k <= chunks.len(),
        ;
        assert(pieces[k] == chunks[k]@);
    }
    lemma_pieces_make_content(buffer@.content, 0, size as int, pieces);
    assert(pieces.flatten() =~= buffer@.content);
}

/// A new buffer holds what it was given, is clean and stands for its file.
pub proof fn law_new_buffer_holds_its_content(
    path: FsPath,
    content: Vec<u8>,
    mtime: i128,
    now_made: FileBuffer,
    made: FileBuffer,
    copied: FileBuffer,
)
    requires
        call_ensures(FileBuffer::new, (path, content, mtime), now_made),
        call_ensures(FileBuffer::with_mtime, (path, content, mtime), made),
        call_ensures(FileBuffer::copy, (&made,), copied),
    ensures
        made@.path == path@,
        made@.content == content@,
        !made@.dirty,
        made@.mtime == mtime,
        now_made@ == made@,
        copied@ == made@,
{
}

/// What is asked of a buffer is what it holds.
pub proof fn law_buffer_tells_its_state(
    buffer: FileBuffer,
    content: Vec<u8>,
    size: u64,
    dirty: bool,
    mtime: i128,
    path: &FsPath,
)
    requires
        call_ensures(FileBuffer::content, (&buffer,), content),
        call_ensures(FileBuffer::size, (&buffer,), size),
        call_ensures(FileBuffer::is_dirty, (&buffer,), dirty),
        call_ensures(FileBuffer::mtime, (&buffer,), mtime),
        call_ensures(FileBuffer::path, (&buffer,), path),
    ensures
        content@ == buffer@.content,
        size == buffer@.content.len(),
        dirty == buffer@.dirty,
        mtime == buffer@.mtime,
        path@ == buffer@.path,
{
}

/// A look at a buffer shows its flags and the bytes that a read gives.
pub proof fn law_probe_is_a_read(
    buffer: FileBuffer,
    offset: u64,
    size: u32,
    probe: Probe,
    bytes: Vec<u8>,
)
    requires
        call_ensures(FileBuffer::probe, (&buffer, offset, size), probe),
        call_ensures(FileBuffer::read, (&buffer, offset, size), bytes),
    ensures
        probe.bytes@ == bytes@,
        probe.size == buffer@.content.len(),
        probe.dirty == buffer@.dirty,
        probe.mtime == buffer@.mtime,
{
}

/// A write puts every byte of the data at its place, fills a gap before it with
/// zeros, keeps every other byte, and makes the buffer dirty. It gives the number
/// of bytes written.
pub proof fn law_write_puts_every_byte(
    buffer: &mut FileBuffer,
    offset: u64,
    data: &[u8],
    now: i128,
    written: usize,
)
    requires
        call_ensures(FileBuffer::write, (buffer, offset, data, now), written),
    ensures
        written == data@.len(),
        final(buffer)@.path == old(buffer)@.path,
        final(buffer)@.dirty,
        final(buffer)@.mtime == now,
        final(buffer)@.content.len() == if offset + data@.len() > old(buffer)@.content.len() {
            (offset + data@.len()) as nat
        } else {
            old(buffer)@.content.len()
        },
        forall|i: int|
            0 <= i < data@.len() ==> final(buffer)@.content[offset + i] == #[trigger] data@[i],
        forall|i: int|
            0 <= i < old(buffer)@.content.len() && !(offset <= i < offset + data@.len())
                ==> #[trigger] final(buffer)@.content[i] == old(buffer)@.content[i],
        forall|i: int|
            old(buffer)@.content.len() <= i < offset ==> #[trigger] final(buffer)@.content[i] == 0,
{
}

/// What was written is read back, from any place within it.
pub proof fn law_written_is_read_back(
    buffer: &mut FileBuffer,
    offset: u64,
    data: &[u8],
    now: i128,
    written: usize,
    after: FileBuffer,
    skip: u64,
    size: u32,
    r: Vec<u8>,
)
    requires
        call_ensures(FileBuffer::write, (buffer, offset, data, now), written),
        after@ == final(buffer)@,
        skip + size <= data@.len(),
        offset + skip <= u64::MAX,
        call_ensures(FileBuffer::read, (&after, (offset + skip) as u64, size), r),
    ensures
        r@ == data@.subrange(skip as int, skip + size),
{
    assert(r@ =~= data@.subrange(skip as int, skip + size));
}

/// Replacing the content leaves exactly the new one, dirty.
pub proof fn law_set_content_replaces_all(buffer: &mut FileBuffer, data: Vec<u8>, now: i128)
    requires
        call_ensures(FileBuffer::set_content, (buffer, data, now), ()),
    ensures
        final(buffer)@.content == data@,
        final(buffer)@.dirty,
        final(buffer)@.mtime == now,
        final(buffer)@.path == old(buffer)@.path,
{
}

/// Cutting a file leaves its first bytes, as many as were asked for and there
/// are, and makes the buffer dirty.
pub proof fn law_truncate_keeps_the_beginning(buffer: &mut FileBuffer, size: u64, now: i128)
    requires
        call_ensures(FileBuffer::truncate, (buffer, size, now), ()),
    ensures
        final(buffer)@.content.len() == if size < old(buffer)@.content.len() {
            size as nat
        } else {
            old(buffer)@.content.len()
        },
        forall|i: int|
            0 <= i < final(buffer)@.content.len() ==> #[trigger] final(buffer)@.content[i] == old(buffer)@.content[i],
        final(buffer)@.dirty,
        final(buffer)@.mtime == now,
        final(buffer)@.path == old(buffer)@.path,
{
}

/// A buffer that reached the disk is clean, and nothing else of it changes.
pub proof fn law_clean_keeps_the_content(buffer: &mut FileBuffer)
    requires
        call_ensures(FileBuffer::mark_clean, (buffer,), ()),
    ensures
        !final(buffer)@.dirty,
        final(buffer)@.content == old(buffer)@.content,
        final(buffer)@.mtime == old(buffer)@.mtime,
        final(buffer)@.path == old(buffer)@.path,
{
}

/// The manager gives the buffer of a path exactly where it holds one under the
/// path's key, and as it holds it; a look shows the same.
pub proof fn law_manager_finds_what_it_holds(
    manager: FileBufferManager,
    path: &FsPath,
    found: Option<FileBuffer>,
    offset: u64,
    size: u32,
    seen: Option<Probe>,
)
    requires
        call_ensures(FileBufferManager::get, (&manager, path), found),
        call_ensures(FileBufferManager::probe, (&manager, path, offset, size), seen),
    ensures
        found is Some <==> manager.buffers().contains_key(normal(path@)),
        found matches Some(buffer) ==> buffer@ == manager.buffers()[normal(path@)],
        seen is Some <==> found is Some,
        found is Some ==> seen->0.size == found->0@.content.len() && seen->0.dirty
            == found->0@.dirty && seen->0.mtime == found->0@.mtime,
        found is Some && offset < found->0@.content.len() ==> seen->0.bytes@.len() == if size
            < found->0@.content.len() - offset {
            size as int
        } else {
            found->0@.content.len() - offset
        },
        found is Some && offset >= found->0@.content.len() ==> seen->0.bytes@.len() == 0,
        found is Some ==> forall|i: int|
            0 <= i < seen->0.bytes@.len() ==> #[trigger] seen->0.bytes@[i]
                == found->0@.content[offset + i],
{
}

/// A file that was cached is found with exactly its content, clean and with its
/// time. No dirty buffer of another file changes or leaves; a clean one may leave
/// but never changes.
pub proof fn law_cache_holds_and_spares(
    manager: &mut FileBufferManager,
    path: &FsPath,
    content: Vec<u8>,
    mtime: i128,
    key: Seq<u8>,
)
    requires
        call_ensures(FileBufferManager::cache_with_mtime, (manager, path, content, mtime), ()),
        old(manager).wf(),
    ensures
        final(manager).buffers().contains_key(normal(path@)),
        final(manager).buffers()[normal(path@)].content == content@,
        final(manager).buffers()[normal(path@)].path == path@,
        final(manager).buffers()[normal(path@)].mtime == mtime,
        !final(manager).buffers()[normal(path@)].dirty,
        key != normal(path@) && old(manager).buffers().contains_key(key) && old(manager).buffers()[key].dirty ==> final(manager).buffers().contains_key(key),
        key != normal(path@) && final(manager).buffers().contains_key(key) ==> old(manager).buffers().contains_key(key) && final(manager).buffers()[key] == old(manager).buffers()[key],
        final(manager).settings() == old(manager).settings(),
        final(manager).order().last() == normal(path@),
{
}

/// No buffer leaves where eviction is off or there is room, and a clean one stays
/// only where the limit is kept.
pub proof fn law_eviction_only_where_needed(
    manager: &mut FileBufferManager,
    path: &FsPath,
    content: Vec<u8>,
    mtime: i128,
    key: Seq<u8>,
)
    requires
        call_ensures(FileBufferManager::cache_with_mtime, (manager, path, content, mtime), ()),
        old(manager).wf(),
        old(manager).buffers().contains_key(key),
        key != normal(path@),
    ensures
        !old(manager).settings().lru_eviction_enabled || old(manager).usage() + content@.len()
            <= old(manager).settings().memory_limit() ==> final(manager).buffers().contains_key(
            key,
        ),
        old(manager).settings().lru_eviction_enabled && final(manager).buffers().contains_key(key)
            && !old(manager).buffers()[key].dirty ==> final(manager).usage() <= old(manager).settings().memory_limit(),
{
    let before = *old(manager);
    let after = *final(manager);
    let k = choose|k: int| #[trigger]
        after.cached_after(before, k, path@, content@, mtime as int) && if before.settings().lru_eviction_enabled {
            eviction_stops(
                before.buffers(),
                before.order(),
                before.usage(),
                content@.len() as int,
                before.settings().memory_limit(),
                k,
            )
        } else {
            k == 0
        };
    if before.settings().lru_eviction_enabled {
        assert(usage_after(before.buffers(), before.order(), before.usage(), 0) == before.usage());
        if !before.buffers()[key].dirty && after.buffers().contains_key(key) {
            if k == before.order().len() {
                assert(before.order().take(k) =~= before.order());
            }
        }
    }
}

/// Caching a file with the present time is caching it with that time.
pub proof fn law_cache_is_cache_with_mtime(
    manager: &mut FileBufferManager,
    path: &FsPath,
    content: Vec<u8>,
    now: i128,
)
    requires
        call_ensures(FileBufferManager::cache, (manager, path, content, now), ()),
    ensures
        final(manager).buffers().contains_key(normal(path@)),
        final(manager).buffers()[normal(path@)].content == content@,
        final(manager).buffers()[normal(path@)].path == path@,
        final(manager).buffers()[normal(path@)].mtime == now,
        !final(manager).buffers()[normal(path@)].dirty,
        final(manager).caches(*old(manager), path@, content@, now as int),
{
}

/// A buffer in memory is used unless it is clean and the file on disk is newer;
/// then it leaves and the file is read again with its time. Without a buffer the
/// file is read. No other buffer changes.
pub proof fn law_load_goes_by_time(
    manager: &mut FileBufferManager,
    path: &FsPath,
    disk_mtime: Option<i128>,
    step: LoadStep,
    key: Seq<u8>,
)
    requires
        call_ensures(FileBufferManager::get_or_load, (manager, path, disk_mtime), step),
    ensures
        step is Load <==> !old(manager).buffers().contains_key(normal(path@)),
        step is Reload <==> {
            &&& old(manager).buffers().contains_key(normal(path@))
            &&& !old(manager).buffers()[normal(path@)].dirty
            &&& disk_mtime is Some
            &&& disk_mtime->0 > old(manager).buffers()[normal(path@)].mtime
        },
        step matches LoadStep::Reload(mtime) ==> disk_mtime == Some(mtime) && !final(manager).buffers().contains_key(normal(path@)),
        !(step is Reload) ==> final(manager).buffers() == old(manager).buffers(),
        step is Cached ==> final(manager).order() == old(manager).order().remove_value(
            normal(path@),
        ).push(normal(path@)),
        step is Reload ==> final(manager).order() == old(manager).order().remove_value(
            normal(path@),
        ),
        step is Load ==> final(manager).order() == old(manager).order(),
        key != normal(path@) ==> (final(manager).buffers().contains_key(key) <==> old(manager).buffers().contains_key(key)) && final(manager).buffers()[key] == old(manager).buffers()[key],
{
}

/// A file that is removed is not held any more, all others are as before.
pub proof fn law_remove_takes_one(manager: &mut FileBufferManager, path: &FsPath, key: Seq<u8>)
    requires
        call_ensures(FileBufferManager::remove, (manager, path), ()),
    ensures
        final(manager).buffers().contains_key(key) <==> old(manager).buffers().contains_key(key)
            && key != normal(path@),
        final(manager).buffers().contains_key(key) ==> final(manager).buffers()[key] == old(manager).buffers()[key],
        old(manager).buffers().contains_key(normal(path@)) ==> final(manager).usage() == old(manager).usage() - old(manager).buffers()[normal(path@)].content.len() && final(manager).order()
            == old(manager).order().remove_value(normal(path@)),
{
}

/// A write through the manager is a write into the buffer of the file, and
/// touches no other; without a buffer nothing happens.
pub proof fn law_manager_writes_into_the_buffer(
    manager: &mut FileBufferManager,
    path: &FsPath,
    offset: u64,
    data: &[u8],
    now: i128,
    r: Option<usize>,
    buffer: &mut FileBuffer,
    written: usize,
)
    requires
        call_ensures(FileBufferManager::write, (manager, path, offset, data, now), r),
        call_ensures(FileBuffer::write, (buffer, offset, data, now), written),
        old(manager).buffers().contains_key(normal(path@)) ==> old(buffer)@ == old(manager).buffers()[normal(path@)],
    ensures
        old(manager).buffers().contains_key(normal(path@)) ==> r == Some(written) && final(manager).buffers() == old(manager).buffers().insert(normal(path@), final(buffer)@),
        !old(manager).buffers().contains_key(normal(path@)) ==> r is None && final(manager).buffers() == old(manager).buffers(),
        final(manager).order() == old(manager).order(),
{
}

/// Replacing a content through the manager replaces that of the file's buffer,
/// and touches no other; without a buffer nothing happens.
pub proof fn law_manager_replaces_in_the_buffer(
    manager: &mut FileBufferManager,
    path: &FsPath,
    data: Vec<u8>,
    now: i128,
    r: bool,
)
    requires
        call_ensures(FileBufferManager::set_content, (manager, path, data, now), r),
    ensures
        r == old(manager).buffers().contains_key(normal(path@)),
        !r ==> final(manager).buffers() == old(manager).buffers(),
        r ==> final(manager).buffers() == old(manager).buffers().insert(
            normal(path@),
            BufferState {
                path: old(manager).buffers()[normal(path@)].path,
                content: data@,
                dirty: true,
                mtime: now as int,
            },
        ),
{
}

/// Cutting a file through the manager cuts its buffer, and touches no other;
/// without a buffer nothing happens.
pub proof fn law_manager_cuts_the_buffer(
    manager: &mut FileBufferManager,
    path: &FsPath,
    size: u64,
    now: i128,
    r: bool,
    buffer: &mut FileBuffer,
)
    requires
        call_ensures(FileBufferManager::truncate, (manager, path, size, now), r),
        call_ensures(FileBuffer::truncate, (buffer, size, now), ()),
        old(manager).buffers().contains_key(normal(path@)) ==> old(buffer)@ == old(manager).buffers()[normal(path@)],
    ensures
        r == old(manager).buffers().contains_key(normal(path@)),
        !r ==> final(manager).buffers() == old(manager).buffers(),
        r ==> final(manager).buffers() == old(manager).buffers().insert(
            normal(path@),
            final(buffer)@,
        ),
{
}

/// A file that reached the disk is clean with its content, all others are as
/// before.
pub proof fn law_manager_marks_one_clean(
    manager: &mut FileBufferManager,
    path: &FsPath,
    key: Seq<u8>,
)
    requires
        call_ensures(FileBufferManager::mark_clean, (manager, path), ()),
        old(manager).buffers().contains_key(key),
    ensures
        final(manager).buffers().contains_key(key),
        final(manager).buffers()[key].content == old(manager).buffers()[key].content,
        final(manager).buffers()[key].path == old(manager).buffers()[key].path,
        final(manager).buffers()[key].mtime == old(manager).buffers()[key].mtime,
        final(manager).buffers()[key].dirty == (old(manager).buffers()[key].dirty && key != normal(
            path@,
        )),
{
}

/// A flush gives the content of a file exactly where it waits to be written.
pub proof fn law_flush_gives_what_waits(
    manager: FileBufferManager,
    path: &FsPath,
    r: Option<Vec<u8>>,
)
    requires
        call_ensures(FileBufferManager::flush, (&manager, path), r),
    ensures
        r is Some <==> manager.buffers().contains_key(normal(path@))
            && manager.buffers()[normal(path@)].dirty,
        r matches Some(content) ==> content@ == manager.buffers()[normal(path@)].content,
{
}

/// Flushing everything gives every file that waits to be written, with its whole
/// content, once.
pub proof fn law_flush_all_misses_nothing(
    manager: FileBufferManager,
    r: Vec<(FsPath, Vec<u8>)>,
    dirty: Vec<FileBuffer>,
    key: Seq<u8>,
)
    requires
        call_ensures(FileBufferManager::flush_all, (&manager,), r),
        call_ensures(FileBufferManager::dirty_buffers, (&manager,), dirty),
        manager.buffers().contains_key(key),
        manager.buffers()[key].dirty,
    ensures
        exists|i: int|
            0 <= i < r@.len() && normal((#[trigger] r@[i]).0@) == key && r@[i].1@
                == manager.buffers()[key].content,
        exists|i: int| 0 <= i < dirty@.len() && (#[trigger] dirty@[i])@ == manager.buffers()[key],
        forall|i: int, j: int|
            0 <= i < j < r@.len() ==> normal((#[trigger] r@[i]).0@) != normal(
                (#[trigger] r@[j]).0@,
            ),
        forall|i: int, j: int|
            0 <= i < j < dirty@.len() ==> normal((#[trigger] dirty@[i])@.path) != normal(
                (#[trigger] dirty@[j])@.path,
            ),
        forall|i: int| 0 <= i < dirty@.len() ==> (#[trigger] dirty@[i])@.dirty,
{
    assert forall|i: int, j: int| 0 <= i < j < dirty@.len() implies normal(
        (#[trigger] dirty@[i])@.path,
    ) != normal((#[trigger] dirty@[j])@.path) by {
        assert(key_of(dirty@[i]@.path) != key_of(dirty@[j]@.path));
    }
    assert forall|i: int| 0 <= i < dirty@.len() implies (#[trigger] dirty@[i])@.dirty by {
        assert(manager.buffers().contains_key(key_of(dirty@[i]@.path)));
    }
    assert(manager.buffers().contains_key(key) && manager.buffers()[key].dirty);
    let i = choose|i: int| 0 <= i < r@.len() && key_of(#[trigger] r@[i].0@) == key;
    assert(normal(r@[i].0@) == key && r@[i].1@ == manager.buffers()[key].content);
    let j = choose|j: int| 0 <= j < dirty@.len() && #[trigger] dirty@[j]@ == manager.buffers()[key];
    assert(dirty@[j]@ == manager.buffers()[key]);
    assert forall|i: int, j: int| 0 <= i < j < r@.len() implies normal((#[trigger] r@[i]).0@)
        != normal((#[trigger] r@[j]).0@) by {
        assert(key_of(r@[i].0@) != key_of(r@[j].0@));
    }
}

/// What is given to be written to disk waits there: nothing clean is written.
pub proof fn law_only_dirty_is_flushed(
    manager: FileBufferManager,
    r: Vec<(FsPath, Vec<u8>)>,
    i: int,
)
    requires
        call_ensures(FileBufferManager::flush_all, (&manager,), r),
        0 <= i < r@.len(),
    ensures
        manager.buffers().contains_key(normal(r@[i].0@)),
        manager.buffers()[normal(r@[i].0@)].dirty,
        manager.buffers()[normal(r@[i].0@)].content == r@[i].1@,
{
    assert(manager.buffers().contains_key(key_of(r@[i].0@)));
}

/// The memory in use is told, and it is never less than the size of a buffer.
pub proof fn law_memory_covers_every_buffer(
    manager: FileBufferManager,
    usage: usize,
    key: Seq<u8>,
)
    requires
        manager.wf(),
        manager.usage() <= usize::MAX,
        call_ensures(FileBufferManager::memory_usage, (&manager,), usage),
        manager.buffers().contains_key(key),
    ensures
        usage == manager.usage(),
        usage >= manager.buffers()[key].content.len(),
{
    lemma_held_size(manager.buffers(), manager.order(), key);
}

/// Where there is room for a file, caching it keeps the order of all others and
/// puts it last.
pub proof fn law_order_is_kept(
    manager: &mut FileBufferManager,
    path: &FsPath,
    content: Vec<u8>,
    mtime: i128,
)
    requires
        call_ensures(FileBufferManager::cache_with_mtime, (manager, path, content, mtime), ()),
        old(manager).wf(),
        !old(manager).settings().lru_eviction_enabled || old(manager).usage() + content@.len()
            <= old(manager).settings().memory_limit(),
    ensures
        final(manager).order() == old(manager).order().remove_value(normal(path@)).push(
            normal(path@),
        ),
{
    let before = *old(manager);
    let after = *final(manager);
    let k = choose|k: int| #[trigger]
        after.cached_after(before, k, path@, content@, mtime as int) && if before.settings().lru_eviction_enabled {
            eviction_stops(
                before.buffers(),
                before.order(),
                before.usage(),
                content@.len() as int,
                before.settings().memory_limit(),
                k,
            )
        } else {
            k == 0
        };
    assert(usage_after(before.buffers(), before.order(), before.usage(), 0) == before.usage());
    if k > 0 {
        assert(!fits(
            usage_after(before.buffers(), before.order(), before.usage(), 0),
            content@.len() as int,
            before.settings().memory_limit(),
        ));
    }
    assert(before.order().skip(0) + spared(before.buffers(), before.order(), 0)
        =~= before.order());
}

/// Visiting one more key frees the size of its buffer where that is clean, and
/// nothing where it is dirty.
pub proof fn law_eviction_frees_clean_buffers(
    buffers: Map<Seq<u8>, BufferState>,
    order: Seq<Seq<u8>>,
    usage: int,
    k: int,
)
    requires
        0 <= k < order.len(),
        buffers.contains_key(order[k]),
    ensures
        usage_after(buffers, order, usage, 0) == usage,
        !buffers[order[k]].dirty ==> usage_after(buffers, order, usage, k + 1) == usage_after(
            buffers,
            order,
            usage,
            k,
        ) - buffers[order[k]].content.len(),
        buffers[order[k]].dirty ==> usage_after(buffers, order, usage, k + 1) == usage_after(
            buffers,
            order,
            usage,
            k,
        ),
{
}

/// A buffer leaves only where there was not enough room without it: with every
/// buffer before it visited the limit was still exceeded.
pub proof fn law_no_buffer_leaves_in_vain(
    manager: &mut FileBufferManager,
    path: &FsPath,
    content: Vec<u8>,
    mtime: i128,
    i: int,
)
    requires
        call_ensures(FileBufferManager::cache_with_mtime, (manager, path, content, mtime), ()),
        old(manager).wf(),
        0 <= i < old(manager).order().len(),
        old(manager).order()[i] != normal(path@),
        !final(manager).buffers().contains_key(old(manager).order()[i]),
    ensures
        old(manager).settings().lru_eviction_enabled,
        !old(manager).buffers()[old(manager).order()[i]].dirty,
        usage_after(
            old(manager).buffers(),
            old(manager).order(),
            old(manager).usage(),
            i,
        ) + content@.len() > old(manager).settings().memory_limit(),
{
    let before = *old(manager);
    let after = *final(manager);
    let order = before.order();
    let k = choose|k: int| #[trigger]
        after.cached_after(before, k, path@, content@, mtime as int) && if before.settings().lru_eviction_enabled {
            eviction_stops(
                before.buffers(),
                order,
                before.usage(),
                content@.len() as int,
                before.settings().memory_limit(),
                k,
            )
        } else {
            k == 0
        };
    assert(order.contains(order[i]));
    assert(before.buffers().contains_key(order[i]));
    let seen = order.take(k);
    assert(seen.contains(order[i]));
    let m = choose|m: int| 0 <= m < seen.len() && seen[m] == order[i];
    assert(order[m] == order[i]);
    assert(m == i);
    assert(!fits(
        usage_after(before.buffers(), order, before.usage(), i),
        content@.len() as int,
        before.settings().memory_limit(),
    ));
}

/// A manager begins empty with its settings, tells how many buffers it holds, and
/// holds none once it is cleared.
pub proof fn law_manager_begins_and_ends_empty(
    config: BufferConfig,
    fresh_one: FileBufferManager,
    manager: FileBufferManager,
    count: usize,
    cleared: &mut FileBufferManager,
    key: Seq<u8>,
)
    requires
        call_ensures(FileBufferManager::new, (config,), fresh_one),
        call_ensures(FileBufferManager::buffer_count, (&manager,), count),
        call_ensures(FileBufferManager::clear, (cleared,), ()),
    ensures
        !fresh_one.buffers().contains_key(key),
        fresh_one.usage() == 0,
        fresh_one.settings() == config,
        count == manager.buffers().dom().len(),
        !final(cleared).buffers().contains_key(key),
        final(cleared).usage() == 0,
        final(cleared).settings() == old(cleared).settings(),
{
}

} // verus!
