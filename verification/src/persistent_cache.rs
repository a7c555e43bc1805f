//! The rules of the cache on disk: names, budget, eviction.
//!
//! The cache keeps immutable blobs by instance, path and version:
//!
//! ```text
//! v1/
//!   <instance>/
//!     <first two digits of sha256(path)>/
//!       <sha256(path)>/
//!         <sha256(version)>
//! ```
//!
//! A new version lands under a new name. The caller reads and writes the disk.
use sha2::{Digest, Sha256};
use vstd::prelude::*;
use vstd::utf8::encode_utf8;

use crate::paths::{joined, joined_text, FsPath};
use crate::text::{
    bytes_contain, copy_bytes, decimal, decimal_text, digit_char, hex_padded, hex_padded_text,
    lemma_encode_concat, lemma_encode_injective, lemma_split_at_last, occurs, occurs_at, parse_u64,
    parsed_u64, same, same_bytes, slice_text, to_chars, trim, trimmed,
};

verus! {

/// The version of the layout on disk. Another version is wiped.
pub const SCHEMA_VERSION: &'static str = "v1";

/// The file that holds the version of the layout.
pub const SCHEMA_MARKER_FILE: &'static str = ".omnifuse-cache-version";

/// What stands in the name of every file that is still being written.
pub const TEMPORARY_MARK: &'static str = ".tmp.";

/// The budget where none is given: one gibibyte.
pub const DEFAULT_MAX_BYTES: u64 = 1_073_741_824;

/// Eviction is due every so many puts.
pub const EVICTION_PUT_INTERVAL: u64 = 64;

/// The byte between the parts of what an instance hash is made from.
pub const UNIT_SEPARATOR: u8 = 0x1f;

/// The SHA-256 digest of bytes.
pub uninterp spec fn sha256(bytes: Seq<u8>) -> Seq<u8>;

/// `Sha256::digest` of the crate `sha2`: the digest is named; it has 32 bytes.
#[verifier::external_body]
fn digest(bytes: &[u8]) -> (r: Vec<u8>)
    ensures
        r@ == sha256(bytes@),
        r@.len() == 32,
{
    Sha256::digest(bytes).to_vec()
}

/// Bytes written as two lower-case hexadecimal digits each.
pub open spec fn hex_of_bytes(bytes: Seq<u8>) -> Seq<char>
    decreases bytes.len(),
{
    if bytes.len() == 0 {
        Seq::empty()
    } else {
        hex_of_bytes(bytes.drop_last()).push(digit_char((bytes.last() / 16) as nat)).push(
            digit_char((bytes.last() % 16) as nat),
        )
    }
}

fn nibble(n: u8) -> (c: char)
    requires
        n < 16,
    ensures
        c == digit_char(n as nat),
{
    if n < 10 {
        (48u8 + n) as char
    } else {
        (87u8 + n) as char
    }
}

fn hex_bytes(bytes: &[u8]) -> (r: String)
    ensures
        r@ == hex_of_bytes(bytes@),
{
    let mut out = String::new();
    let mut i: usize = 0;
    assert(bytes@.take(0) =~= Seq::<u8>::empty());
    while i < bytes.len()
        invariant
            i <= bytes@.len(),
            out@ == hex_of_bytes(bytes@.take(i as int)),
        decreases bytes@.len() - i,
    {
        assert(bytes@.take(i + 1).drop_last() =~= bytes@.take(i as int));
        out.push(nibble(bytes[i] / 16));
        out.push(nibble(bytes[i] % 16));
        i += 1;
    }
    assert(bytes@.take(i as int) =~= bytes@);
    out
}

/// The name of a digest.
pub open spec fn hash_name(bytes: Seq<u8>) -> Seq<char> {
    hex_of_bytes(sha256(bytes))
}

/// The digest of bytes, in hexadecimal digits.
fn hex_sha256(input: &[u8]) -> (r: String)
    ensures
        r@ == hash_name(input@),
        r@.len() == 64,
{
    let bytes = digest(input);
    proof {
        lemma_hex_of_bytes_len(bytes@);
    }
    hex_bytes(bytes.as_slice())
}

/// The parts of an instance with separators between them.
pub open spec fn joined_parts(parts: Seq<Seq<char>>) -> Seq<u8>
    decreases parts.len(),
{
    if parts.len() == 0 {
        Seq::empty()
    } else if parts.len() == 1 {
        encode_utf8(parts[0])
    } else {
        joined_parts(parts.drop_last()).push(UNIT_SEPARATOR) + encode_utf8(parts.last())
    }
}

/// The characters of each text of a list.
pub open spec fn texts(parts: Seq<&str>) -> Seq<Seq<char>> {
    parts.map_values(|part: &str| part@)
}

/// A stable hash of the normalized parameters of a mount.
#[derive(Debug, Clone, PartialEq, Eq, Hash)]
pub struct InstanceHash(String);

impl InstanceHash {
    /// The hexadecimal digits.
    pub closed spec fn name(&self) -> Seq<char> {
        self.0@
    }

    /// The hash of an ordered list of parts.
    pub fn from_parts(parts: &[&str]) -> (r: InstanceHash)
        ensures
            r.name() == hash_name(joined_parts(texts(parts@))),
            r.name().len() == 64,
    {
        let mut all: Vec<u8> = Vec::new();
        let ghost views = texts(parts@);
        let mut i: usize = 0;
        assert(views.take(0) =~= Seq::<Seq<char>>::empty());
        while i < parts.len()
            invariant
                i <= parts@.len() == views.len(),
                views == texts(parts@),
                all@ == joined_parts(views.take(i as int)),
            decreases parts@.len() - i,
        {
            let ghost now = views.take(i + 1);
            assert(now.drop_last() =~= views.take(i as int));
            if i > 0 {
                all.push(UNIT_SEPARATOR);
            }
            let mut bytes = copy_bytes(parts[i].as_bytes());
            all.append(&mut bytes);
            assert(now.last() == parts@[i as int]@);
            assert(all@ =~= joined_parts(now));
            i += 1;
        }
        assert(views.take(i as int) =~= views);
        InstanceHash(hex_sha256(all.as_slice()))
    }

    /// The hexadecimal digits.
    pub fn as_str(&self) -> (r: &str)
        ensures
            r@ == self.name(),
    {
        self.0.as_str()
    }
}

/// Names one immutable blob.
#[derive(Debug, Clone, Copy)]
pub struct CacheKey<'a> {
    /// Namespace of the instance.
    pub instance: &'a InstanceHash,
    /// Path, as the backend understands it.
    pub path: &'a str,
    /// Version, as the backend understands it.
    pub version: &'a str,
}

/// A cache that outlives the process.
pub trait PersistentCache {
    /// The bytes of a blob, where it is in the cache.
    fn get(&self, key: CacheKey<'_>) -> Option<Vec<u8>>;

    /// Puts a blob into the cache.
    fn put(&mut self, key: CacheKey<'_>, bytes: &[u8]) -> Result<(), String>;
}

/// Settings of the cache.
#[derive(Debug, Clone)]
pub struct FilesystemCacheConfig {
    /// The most bytes that the cache may occupy.
    pub max_bytes: u64,
}

impl Default for FilesystemCacheConfig {
    fn default() -> (r: FilesystemCacheConfig)
        ensures
            r.max_bytes == DEFAULT_MAX_BYTES,
    {
        FilesystemCacheConfig { max_bytes: DEFAULT_MAX_BYTES }
    }
}

impl FilesystemCacheConfig {
    /// The settings for the value of `OMNIFUSE_CACHE_MAX_BYTES`, where it is set.
    /// A value that is no positive number leaves the default.
    pub fn from_env(raw: Option<&str>) -> (r: FilesystemCacheConfig)
        ensures
            r.max_bytes == match raw {
                Some(text) => match parsed_u64(text@) {
                    Some(bytes) if bytes > 0 => bytes,
                    _ => DEFAULT_MAX_BYTES,
                },
                None => DEFAULT_MAX_BYTES,
            },
    {
        match raw {
            Some(text) => match parse_u64(text) {
                Some(bytes) => {
                    if bytes > 0 {
                        FilesystemCacheConfig { max_bytes: bytes }
                    } else {
                        FilesystemCacheConfig::default()
                    }
                },
                None => FilesystemCacheConfig::default(),
            },
            None => FilesystemCacheConfig::default(),
        }
    }
}

/// Where the blob with the given names lies below a root.
pub open spec fn blob_place(
    root: Seq<u8>,
    instance: Seq<char>,
    path_hash: Seq<char>,
    version_hash: Seq<char>,
) -> Seq<u8> {
    joined_text(
        joined_text(joined_text(joined_text(root, instance), path_hash.take(2)), path_hash),
        version_hash,
    )
}

/// The state of a cache on disk.
#[derive(Debug)]
pub struct FilesystemCache {
    root: FsPath,
    config: FilesystemCacheConfig,
    put_counter: u64,
    eviction_in_flight: bool,
}

impl FilesystemCache {
    /// The directory of the current layout.
    pub closed spec fn root_path(&self) -> Seq<u8> {
        self.root@
    }

    /// The budget.
    pub closed spec fn budget(&self) -> u64 {
        self.config.max_bytes
    }

    /// How many puts were counted.
    pub closed spec fn puts(&self) -> u64 {
        self.put_counter
    }

    /// Whether an eviction runs.
    pub closed spec fn evicting(&self) -> bool {
        self.eviction_in_flight
    }

    /// A cache below the given directory.
    pub fn open(base: &FsPath, config: FilesystemCacheConfig) -> (r: FilesystemCache)
        ensures
            r.root_path() == joined_text(base@, SCHEMA_VERSION@),
            r.budget() == config.max_bytes,
            r.puts() == 0,
            !r.evicting(),
    {
        FilesystemCache {
            root: base.join_text(SCHEMA_VERSION),
            config,
            put_counter: 0,
            eviction_in_flight: false,
        }
    }

    /// The directory of the current layout.
    pub fn root(&self) -> (r: &FsPath)
        ensures
            r@ == self.root_path(),
    {
        &self.root
    }

    /// The budget.
    pub fn max_bytes(&self) -> (r: u64)
        ensures
            r == self.budget(),
    {
        self.config.max_bytes
    }

    /// Where the blob of a key lies.
    pub fn blob_path(&self, key: CacheKey<'_>) -> (r: FsPath)
        ensures
            r@ == blob_place(
                self.root_path(),
                key.instance.name(),
                hash_name(encode_utf8(key.path@)),
                hash_name(encode_utf8(key.version@)),
            ),
    {
        let path_hash = hex_sha256(key.path.as_bytes());
        let version_hash = hex_sha256(key.version.as_bytes());
        let chars = to_chars(path_hash.as_str());
        let head = slice_text(chars.as_slice(), 0, 2);
        assert(head@ =~= path_hash@.take(2));
        self.root.join_text(key.instance.as_str()).join_text(head.as_str()).join_text(
            path_hash.as_str(),
        ).join_text(version_hash.as_str())
    }

    /// Counts a put and says whether eviction is due.
    pub fn count_put(&mut self) -> (r: bool)
        ensures
            final(self).puts() == old(self).puts().wrapping_add(1),
            r == (final(self).puts() % EVICTION_PUT_INTERVAL == 0),
            final(self).evicting() == old(self).evicting(),
            final(self).root_path() == old(self).root_path(),
            final(self).budget() == old(self).budget(),
    {
        self.put_counter = self.put_counter.wrapping_add(1);
        self.put_counter % EVICTION_PUT_INTERVAL == 0
    }

    /// Begins an eviction, unless one runs.
    pub fn begin_eviction(&mut self) -> (r: bool)
        ensures
            r == !old(self).evicting(),
            final(self).evicting(),
            final(self).puts() == old(self).puts(),
            final(self).root_path() == old(self).root_path(),
            final(self).budget() == old(self).budget(),
    {
        let idle: bool = !self.eviction_in_flight;
        self.eviction_in_flight = true;
        idle
    }

    /// Ends an eviction.
    pub fn end_eviction(&mut self)
        ensures
            !final(self).evicting(),
            final(self).puts() == old(self).puts(),
            final(self).root_path() == old(self).root_path(),
            final(self).budget() == old(self).budget(),
    {
        self.eviction_in_flight = false;
    }

    /// Plans an eviction of the blobs that were found, where they exceed the budget.
    pub fn evict_to_budget(&self, scan: BlobScan) -> (r: Option<EvictionRun>)
        ensures
            match r {
                Some(run) => {
                    &&& scan.total() > self.budget()
                    &&& run.wf()
                    &&& run.blobs() == scan.blobs()
                    &&& run.position() == 0
                    &&& run.over() == scan.total() - self.budget()
                },
                None => scan.total() <= self.budget(),
            },
    {
        if scan.total <= self.config.max_bytes {
            return None;
        }
        let over: u64 = scan.total - self.config.max_bytes;
        let order = eviction_order(&scan.entries, 0, scan.entries.len());
        Some(EvictionRun { files: scan.entries, order, next: 0, over })
    }
}

/// What to do about the layout found on disk.
#[derive(Debug, Clone, Copy, PartialEq, Eq, Structural)]
pub enum SchemaAction {
    /// It is the current one.
    Keep,
    /// Wipe the directory and write the marker.
    Rebuild,
}

/// Decides what to do about the layout on disk, given what the marker file
/// holds, where there is one.
pub fn ensure_schema(marker: Option<&str>) -> (r: SchemaAction)
    ensures
        r == SchemaAction::Keep <==> marker is Some && trimmed(marker->0@) == SCHEMA_VERSION@,
{
    match marker {
        Some(text) => {
            if same(trim(text).as_str(), SCHEMA_VERSION) {
                SchemaAction::Keep
            } else {
                SchemaAction::Rebuild
            }
        },
        None => SchemaAction::Rebuild,
    }
}

/// Whether an entry of the cache directory stays when the directory is wiped:
/// only the marker file does.
pub fn survives_reset(name: &[u8]) -> (r: bool)
    ensures
        r == (name@ == encode_utf8(SCHEMA_MARKER_FILE@)),
{
    same_bytes(name, SCHEMA_MARKER_FILE.as_bytes())
}

/// The name under which a blob is written before it gets its own.
pub open spec fn temporary_chars(name: Seq<char>, pid: nat, nanos: nat) -> Seq<char> {
    name + TEMPORARY_MARK@ + decimal(pid) + seq!['.'] + hex_padded(nanos, 8)
}

/// The name under which a blob is written before it gets its own: distinct for
/// each process and moment.
pub fn temporary_name(name: Option<&str>, pid: u32, nanos: u32) -> (r: String)
    ensures
        r@ == temporary_chars(
            match name {
                Some(text) => text@,
                None => "blob"@,
            },
            pid as nat,
            nanos as nat,
        ),
{
    let stem: &str = match name {
        Some(text) => text,
        None => "blob",
    };
    let mut out = stem.to_owned();
    out.append(TEMPORARY_MARK);
    out.append(decimal_text(pid as u64).as_str());
    out.push('.');
    out.append(hex_padded_text(nanos as u64, 8).as_str());
    assert(out@ =~= temporary_chars(stem@, pid as nat, nanos as nat));
    out
}

/// How to put a blob on disk.
#[derive(Debug)]
pub enum PutPlan {
    /// It is there: mark it as used.
    Touch,
    /// Write it under this name in its directory, then rename it.
    Write(String),
}

/// Decides how to put a blob on disk: one that is there stays as it is.
pub fn plan_put(exists: bool, name: Option<&str>, pid: u32, nanos: u32) -> (r: PutPlan)
    ensures
        exists ==> r is Touch,
        !exists ==> (r matches PutPlan::Write(text) && text@ == temporary_chars(
            match name {
                Some(stem) => stem@,
                None => "blob"@,
            },
            pid as nat,
            nanos as nat,
        )),
{
    if exists {
        PutPlan::Touch
    } else {
        PutPlan::Write(temporary_name(name, pid, nanos))
    }
}

/// The files of a directory, by name, after a plan to put a blob under a name was
/// carried out: the bytes are written under the temporary name, which then
/// becomes the name of the blob.
pub open spec fn files_after_put(
    files: Map<Seq<char>, Seq<u8>>,
    name: Seq<char>,
    plan: PutPlan,
    bytes: Seq<u8>,
) -> Map<Seq<char>, Seq<u8>> {
    match plan {
        PutPlan::Touch => files,
        PutPlan::Write(temporary) => files.insert(temporary@, bytes).remove(temporary@).insert(
            name,
            bytes,
        ),
    }
}

/// Whether a plan is the one to put a blob under a name among the files of its
/// directory.
pub open spec fn put_planned(
    plan: PutPlan,
    files: Map<Seq<char>, Seq<u8>>,
    name: Seq<char>,
    pid: u32,
    nanos: u32,
) -> bool {
    if files.contains_key(name) {
        plan is Touch
    } else {
        plan matches PutPlan::Write(text) && text@ == temporary_chars(
            name,
            pid as nat,
            nanos as nat,
        )
    }
}

/// A blob never changes once it is written: after the first put the file holds
/// its bytes and no temporary file is left, and a second put, whatever its bytes,
/// leaves everything as it is.
pub proof fn law_blobs_keep_their_content(
    files: Map<Seq<char>, Seq<u8>>,
    name: Seq<char>,
    first: PutPlan,
    second: PutPlan,
    a: Seq<u8>,
    b: Seq<u8>,
    pid: u32,
    nanos: u32,
    later_pid: u32,
    later_nanos: u32,
)
    requires
        !files.contains_key(name),
        put_planned(first, files, name, pid, nanos),
        put_planned(
            second,
            files_after_put(files, name, first, a),
            name,
            later_pid,
            later_nanos,
        ),
    ensures
        ({
            let after = files_after_put(files, name, first, a);
            &&& after.contains_key(name)
            &&& after[name] == a
            &&& !after.contains_key(temporary_chars(name, pid as nat, nanos as nat))
            &&& files_after_put(after, name, second, b) == after
        }),
{
    reveal_strlit(".tmp.");
    assert(temporary_chars(name, pid as nat, nanos as nat).len() > name.len());
}

/// What a look for a blob on disk came to.
#[derive(Debug)]
pub enum BlobRead {
    /// It is there: mark it as used.
    Hit(Vec<u8>),
    /// It is not there.
    Miss,
    /// It could not be read.
    Failed(String),
}

/// Tells what a look for a blob came to, given its content or the error and
/// whether that means that it is not there.
pub fn blob_read(result: Result<Vec<u8>, String>, not_found: bool) -> (r: BlobRead)
    ensures
        r == match result {
            Ok(bytes) => BlobRead::Hit(bytes),
            Err(message) => if not_found {
                BlobRead::Miss
            } else {
                BlobRead::Failed(message)
            },
        },
{
    match result {
        Ok(bytes) => BlobRead::Hit(bytes),
        Err(message) => {
            if not_found {
                BlobRead::Miss
            } else {
                BlobRead::Failed(message)
            }
        },
    }
}

/// What the cache answers: a blob that could not be read counts as missing.
pub fn cache_answer(read: BlobRead) -> (r: Option<Vec<u8>>)
    ensures
        r == match read {
            BlobRead::Hit(bytes) => Some(bytes),
            _ => None,
        },
{
    match read {
        BlobRead::Hit(bytes) => Some(bytes),
        _ => None,
    }
}

/// A blob found on disk.
#[derive(Debug)]
pub struct BlobEntry {
    /// Where it lies.
    pub path: FsPath,
    /// When it was last used, in nanoseconds since the Unix epoch.
    pub mtime: i128,
    /// Its size in bytes.
    pub size: u64,
}

/// What an entry of a directory is.
#[derive(Debug, Clone, Copy, PartialEq, Eq, Structural)]
pub enum EntryKind {
    /// Directory.
    Directory,
    /// Regular file.
    File,
    /// Anything else.
    Other,
}

/// What a walk over the cache directory found.
#[derive(Debug)]
pub struct BlobScan {
    entries: Vec<BlobEntry>,
    total: u64,
}

/// Whether a file is a blob: neither the marker nor still being written.
pub open spec fn is_blob_name(name: Seq<u8>) -> bool {
    name != encode_utf8(SCHEMA_MARKER_FILE@) && !occurs(name, encode_utf8(TEMPORARY_MARK@))
}

/// The sum of the sizes of the first `k` blobs.
pub open spec fn sum_sizes(blobs: Seq<BlobEntry>, k: int) -> int
    decreases k,
{
    if k <= 0 {
        0
    } else {
        sum_sizes(blobs, k - 1) + blobs[k - 1].size
    }
}

/// The least of a sum and the largest number.
pub open spec fn saturated(sum: int) -> int {
    if sum <= u64::MAX {
        sum
    } else {
        u64::MAX as int
    }
}

impl BlobScan {
    /// The blobs, in the order in which they were found.
    pub closed spec fn blobs(&self) -> Seq<BlobEntry> {
        self.entries@
    }

    /// The sum of their sizes.
    pub closed spec fn total(&self) -> u64 {
        self.total
    }

    /// The total is the sum of the sizes, as far as it can be told.
    pub open spec fn wf(&self) -> bool {
        self.total() == saturated(sum_sizes(self.blobs(), self.blobs().len() as int))
    }

    /// A walk that found nothing yet.
    pub fn new() -> (r: BlobScan)
        ensures
            r.blobs() == Seq::<BlobEntry>::empty(),
            r.total() == 0,
            r.wf(),
    {
        BlobScan { entries: Vec::new(), total: 0 }
    }

    /// Takes in an entry that the walk came upon, and says whether the walk has
    /// to go down into it. A regular file comes with what the disk says of it,
    /// where that could be read.
    pub fn visit(&mut self, kind: EntryKind, name: &[u8], entry: Option<BlobEntry>) -> (r: bool)
        requires
            old(self).wf(),
        ensures
            final(self).wf(),
            r == (kind == EntryKind::Directory),
            final(self).blobs() == if kind == EntryKind::File && is_blob_name(name@)
                && entry is Some {
                old(self).blobs().push(entry->0)
            } else {
                old(self).blobs()
            },
    {
        match kind {
            EntryKind::Directory => true,
            EntryKind::Other => false,
            EntryKind::File => {
                if let Some(found) = entry {
                    if !same_bytes(name, SCHEMA_MARKER_FILE.as_bytes()) && !bytes_contain(
                        name,
                        TEMPORARY_MARK.as_bytes(),
                    ) {
                        let ghost before = self.entries@;
                        self.total = self.total.saturating_add(found.size);
                        self.entries.push(found);
                        proof {
                            lemma_sum_sizes_prefix(before, self.entries@, before.len() as int);
                            lemma_sum_sizes_nonneg(before, before.len() as int);
                        }
                    }
                }
                false
            },
        }
    }
}

/// Whether blob `a` leaves before blob `b`: it was used earlier, or at the same
/// time and was found earlier.
pub open spec fn leaves_before(blobs: Seq<BlobEntry>, a: int, b: int) -> bool {
    blobs[a].mtime < blobs[b].mtime || (blobs[a].mtime == blobs[b].mtime && a < b)
}

/// Whether a list orders the blobs from `lo` up to `hi`: each occurs once, and
/// those that leave earlier stand earlier.
pub open spec fn orders(blobs: Seq<BlobEntry>, order: Seq<usize>, lo: int, hi: int) -> bool {
    &&& order.len() == hi - lo
    &&& forall|i: int| 0 <= i < order.len() ==> lo <= #[trigger] order[i] < hi
    &&& forall|i: int, j: int|
        0 <= i < j < order.len() ==> leaves_before(blobs, #[trigger] order[i] as int, #[trigger] order[j] as int)
}

fn older(files: &Vec<BlobEntry>, a: usize, b: usize) -> (r: bool)
    requires
        a < files@.len(),
        b < files@.len(),
    ensures
        r == leaves_before(files@, a as int, b as int),
{
    files[a].mtime < files[b].mtime || (files[a].mtime == files[b].mtime && a < b)
}

/// Orders blobs by their last use.
fn eviction_order(files: &Vec<BlobEntry>, lo: usize, hi: usize) -> (r: Vec<usize>)
    requires
        lo <= hi <= files@.len(),
    ensures
        orders(files@, r@, lo as int, hi as int),
    decreases hi - lo,
{
    if hi - lo == 0 {
        return Vec::new();
    }
    if hi - lo == 1 {
        let mut one: Vec<usize> = Vec::new();
        one.push(lo);
        return one;
    }
    let mid: usize = lo + (hi - lo) / 2;
    let left = eviction_order(files, lo, mid);
    let right = eviction_order(files, mid, hi);
    let mut out: Vec<usize> = Vec::new();
    let mut i: usize = 0;
    let mut j: usize = 0;
    while i < left.len() || j < right.len()
        invariant
            lo < mid < hi <= files@.len(),
            orders(files@, left@, lo as int, mid as int),
            orders(files@, right@, mid as int, hi as int),
            i <= left@.len(),
            j <= right@.len(),
            out@.len() == i + j,
            forall|k: int| 0 <= k < out@.len() ==> lo <= #[trigger] out@[k] < hi,
            forall|k: int, m: int|
                0 <= k < m < out@.len() ==> leaves_before(
                    files@,
                    #[trigger] out@[k] as int,
                    #[trigger] out@[m] as int,
                ),
            forall|k: int, m: int|
                0 <= k < out@.len() && i <= m < left@.len() ==> leaves_before(
                    files@,
                    #[trigger] out@[k] as int,
                    #[trigger] left@[m] as int,
                ),
            forall|k: int, m: int|
                0 <= k < out@.len() && j <= m < right@.len() ==> leaves_before(
                    files@,
                    #[trigger] out@[k] as int,
                    #[trigger] right@[m] as int,
                ),
        decreases left@.len() - i + (right@.len() - j),
    {
        let ghost before = out@;
        if j >= right.len() || (i < left.len() && older(files, left[i], right[j])) {
            let x: usize = left[i];
            out.push(x);
            i += 1;
            assert forall|m: int| j <= m < right@.len() implies leaves_before(
                files@,
                x as int,
                #[trigger] right@[m] as int,
            ) by {
                if m > j {
                    assert(leaves_before(files@, right@[j as int] as int, right@[m] as int));
                }
            }
        } else {
            let x: usize = right[j];
            out.push(x);
            j += 1;
            assert forall|m: int| i <= m < left@.len() implies leaves_before(
                files@,
                x as int,
                #[trigger] left@[m] as int,
            ) by {
                assert(leaves_before(files@, x as int, left@[i as int] as int));
                if m > i {
                    assert(leaves_before(files@, left@[i as int] as int, left@[m] as int));
                }
            }
        }
    }
    out
}

/// An eviction that removes blobs, the one not used for longest first.
#[derive(Debug)]
pub struct EvictionRun {
    files: Vec<BlobEntry>,
    order: Vec<usize>,
    next: usize,
    over: u64,
}

impl EvictionRun {
    /// The blobs that were found.
    pub closed spec fn blobs(&self) -> Seq<BlobEntry> {
        self.files@
    }

    /// The order in which they leave.
    pub closed spec fn schedule(&self) -> Seq<usize> {
        self.order@
    }

    /// How many were visited.
    pub closed spec fn position(&self) -> int {
        self.next as int
    }

    /// How many bytes are still over the budget.
    pub closed spec fn over(&self) -> u64 {
        self.over
    }

    /// The schedule orders the blobs.
    pub open spec fn wf(&self) -> bool {
        &&& orders(self.blobs(), self.schedule(), 0, self.blobs().len() as int)
        &&& 0 <= self.position() <= self.blobs().len()
    }

    /// Whether another blob has to leave.
    pub open spec fn goes_on(&self) -> bool {
        self.over() > 0 && self.position() < self.blobs().len()
    }

    /// The blob whose turn it is.
    pub open spec fn victim(&self) -> BlobEntry {
        self.blobs()[self.schedule()[self.position()] as int]
    }

    /// The blob to remove next, where another one has to leave.
    pub fn next_victim(&self) -> (r: Option<&BlobEntry>)
        requires
            self.wf(),
        ensures
            match r {
                Some(entry) => self.goes_on() && *entry == self.victim(),
                None => !self.goes_on(),
            },
    {
        if self.over == 0 || self.next >= self.files.len() {
            None
        } else {
            Some(&self.files[self.order[self.next]])
        }
    }

    /// Takes in whether the blob could be removed.
    pub fn report(&mut self, removed: bool)
        requires
            old(self).wf(),
            old(self).goes_on(),
        ensures
            final(self).wf(),
            final(self).blobs() == old(self).blobs(),
            final(self).schedule() == old(self).schedule(),
            final(self).position() == old(self).position() + 1,
            final(self).over() == if removed {
                old(self).over().saturating_sub(old(self).victim().size)
            } else {
                old(self).over()
            },
    {
        let count: usize = self.files.len();
        if removed {
            let size: u64 = self.files[self.order[self.next]].size;
            self.over = self.over.saturating_sub(size);
        }
        self.next = self.next + 1;
    }
}

proof fn lemma_hex_of_bytes_len(bytes: Seq<u8>)
    ensures
        hex_of_bytes(bytes).len() == 2 * bytes.len(),
    decreases bytes.len(),
{
    if bytes.len() > 0 {
        lemma_hex_of_bytes_len(bytes.drop_last());
    }
}

proof fn lemma_sum_sizes_prefix(a: Seq<BlobEntry>, b: Seq<BlobEntry>, k: int)
    requires
        k <= a.len() <= b.len(),
        forall|i: int| 0 <= i < a.len() ==> a[i] == b[i],
    ensures
        sum_sizes(a, k) == sum_sizes(b, k),
    decreases k,
{
    if k > 0 {
        lemma_sum_sizes_prefix(a, b, k - 1);
    }
}

proof fn lemma_sum_sizes_nonneg(a: Seq<BlobEntry>, k: int)
    ensures
        sum_sizes(a, k) >= 0,
    decreases k,
{
    if k > 0 {
        lemma_sum_sizes_nonneg(a, k - 1);
    }
}

/// The separator as a character.
spec fn separator_char() -> char {
    '\u{1f}'
}

/// The parts of an instance with separators between them, as characters.
spec fn joined_chars(parts: Seq<Seq<char>>) -> Seq<char>
    decreases parts.len(),
{
    if parts.len() == 0 {
        Seq::empty()
    } else if parts.len() == 1 {
        parts[0]
    } else {
        joined_chars(parts.drop_last()).push(separator_char()) + parts.last()
    }
}

proof fn lemma_joined_chars(parts: Seq<Seq<char>>)
    ensures
        joined_parts(parts) == encode_utf8(joined_chars(parts)),
    decreases parts.len(),
{
    if parts.len() == 0 {
        assert(joined_parts(parts) =~= encode_utf8(joined_chars(parts)));
    } else if parts.len() > 1 {
        let head = joined_chars(parts.drop_last());
        let sep = seq![separator_char()];
        lemma_joined_chars(parts.drop_last());
        lemma_encode_concat(head, sep);
        lemma_encode_concat(head + sep, parts.last());
        vstd::utf8::is_ascii_chars_encode_utf8(sep);
        assert(encode_utf8(sep) =~= seq![UNIT_SEPARATOR]);
        assert(head.push(separator_char()) =~= head + sep);
        assert(joined_parts(parts) =~= encode_utf8(joined_chars(parts)));
    }
}

proof fn lemma_joined_chars_split(p: Seq<Seq<char>>, q: Seq<Seq<char>>)
    requires
        p.len() > 0,
        q.len() > 0,
        forall|i: int| 0 <= i < p.len() ==> !(#[trigger] p[i]).contains(separator_char()),
        forall|i: int| 0 <= i < q.len() ==> !(#[trigger] q[i]).contains(separator_char()),
        joined_chars(p) == joined_chars(q),
    ensures
        p == q,
    decreases p.len(),
{
    if p.len() == 1 && q.len() == 1 {
        assert(p =~= q);
    } else if p.len() == 1 {
        let head = joined_chars(q.drop_last());
        assert(joined_chars(q)[head.len() as int] == separator_char());
        assert(p[0].contains(separator_char()));
    } else if q.len() == 1 {
        let head = joined_chars(p.drop_last());
        assert(joined_chars(p)[head.len() as int] == separator_char());
        assert(q[0].contains(separator_char()));
    } else {
        let a = joined_chars(p.drop_last());
        let b = joined_chars(q.drop_last());
        assert(!p[p.len() - 1].contains(separator_char()));
        assert(!q[q.len() - 1].contains(separator_char()));
        lemma_split_at_last(a, b, separator_char(), p.last(), q.last());
        assert forall|i: int| 0 <= i < p.drop_last().len() implies !(
        #[trigger] p.drop_last()[i]).contains(separator_char()) by {
            assert(p.drop_last()[i] == p[i]);
        }
        assert forall|i: int| 0 <= i < q.drop_last().len() implies !(
        #[trigger] q.drop_last()[i]).contains(separator_char()) by {
            assert(q.drop_last()[i] == q[i]);
        }
        lemma_joined_chars_split(p.drop_last(), q.drop_last());
        assert(p =~= p.drop_last().push(p.last()));
        assert(q =~= q.drop_last().push(q.last()));
    }
}

/// Different lists of parts give different input to the hash, as long as no
/// part holds the separator: parts do not run into each other.
pub proof fn law_parts_do_not_run_together(p: Seq<Seq<char>>, q: Seq<Seq<char>>)
    requires
        p.len() > 0,
        q.len() > 0,
        forall|i: int| 0 <= i < p.len() ==> !(#[trigger] p[i]).contains('\u{1f}'),
        forall|i: int| 0 <= i < q.len() ==> !(#[trigger] q[i]).contains('\u{1f}'),
        joined_parts(p) == joined_parts(q),
    ensures
        p == q,
{
    lemma_joined_chars(p);
    lemma_joined_chars(q);
    lemma_encode_injective(joined_chars(p), joined_chars(q));
    lemma_joined_chars_split(p, q);
}

proof fn lemma_hex_of_bytes_chars(bytes: Seq<u8>)
    ensures
        hex_of_bytes(bytes).len() == 2 * bytes.len(),
        vstd::utf8::is_ascii_chars(hex_of_bytes(bytes)),
        forall|i: int| 0 <= i < hex_of_bytes(bytes).len() ==> #[trigger] hex_of_bytes(bytes)[i] != '/',
    decreases bytes.len(),
{
    if bytes.len() > 0 {
        lemma_hex_of_bytes_chars(bytes.drop_last());
    }
}

proof fn lemma_hex_of_bytes_injective(a: Seq<u8>, b: Seq<u8>)
    requires
        hex_of_bytes(a) == hex_of_bytes(b),
    ensures
        a == b,
    decreases a.len(),
{
    lemma_hex_of_bytes_len(a);
    lemma_hex_of_bytes_len(b);
    if a.len() > 0 {
        let x = hex_of_bytes(a);
        let y = hex_of_bytes(b);
        let n = x.len();
        lemma_hex_of_bytes_len(a.drop_last());
        lemma_hex_of_bytes_len(b.drop_last());
        assert(hex_of_bytes(a.drop_last()) =~= x.take(n - 2));
        assert(hex_of_bytes(b.drop_last()) =~= y.take(n - 2));
        lemma_hex_of_bytes_injective(a.drop_last(), b.drop_last());
        assert(x[n - 1] == y[n - 1] && x[n - 2] == y[n - 2]);
        assert(a.last() / 16 == b.last() / 16);
        assert(a.last() % 16 == b.last() % 16);
        assert(a.last() == b.last());
        assert(a =~= a.drop_last().push(a.last()));
        assert(b =~= b.drop_last().push(b.last()));
    } else {
        assert(a =~= b);
    }
}

/// The bytes of a name made of hexadecimal digits.
proof fn lemma_digit_name(name: Seq<char>)
    requires
        name.len() > 0,
        vstd::utf8::is_ascii_chars(name),
        forall|i: int| 0 <= i < name.len() ==> #[trigger] name[i] != '/',
    ensures
        encode_utf8(name).len() == name.len(),
        !crate::paths::absolute(encode_utf8(name)),
        encode_utf8(name).last() != crate::paths::SEPARATOR,
{
    vstd::utf8::is_ascii_chars_encode_utf8(name);
    let bytes = encode_utf8(name);
    assert(bytes[0] == name[0] as u8);
    assert(bytes[bytes.len() - 1] == name[name.len() - 1] as u8);
}

proof fn lemma_joined_tail(s: Seq<u8>, t: Seq<u8>, e: Seq<u8>, f: Seq<u8>)
    requires
        !crate::paths::absolute(e),
        !crate::paths::absolute(f),
        e.len() == f.len(),
        s.len() > 0 && s.last() != crate::paths::SEPARATOR,
        t.len() > 0 && t.last() != crate::paths::SEPARATOR,
        joined(s, e) == joined(t, f),
    ensures
        s == t,
        e == f,
{
    let x = joined(s, e);
    let y = joined(t, f);
    assert(x.len() == s.len() + 1 + e.len());
    assert(y.len() == t.len() + 1 + f.len());
    assert forall|i: int| 0 <= i < s.len() implies s[i] == t[i] by {
        assert(x[i] == s[i]);
        assert(y[i] == t[i]);
    }
    assert(s =~= t);
    assert forall|i: int| 0 <= i < e.len() implies e[i] == f[i] by {
        assert(x[s.len() + 1 + i] == e[i]);
        assert(y[s.len() + 1 + i] == f[i]);
    }
    assert(e =~= f);
}

proof fn lemma_joined_same_root(root: Seq<u8>, e: Seq<u8>, f: Seq<u8>)
    requires
        !crate::paths::absolute(e),
        !crate::paths::absolute(f),
        e.len() == f.len(),
        joined(root, e) == joined(root, f),
    ensures
        e == f,
{
    let x = joined(root, e);
    let y = joined(root, f);
    let n = x.len() - e.len();
    assert forall|i: int| 0 <= i < e.len() implies e[i] == f[i] by {
        assert(x[n + i] == e[i]);
        assert(y[n + i] == f[i]);
    }
    assert(e =~= f);
}

/// Blobs whose instance, path or version have different digests lie in
/// different places: versions of one object live side by side.
pub proof fn law_blobs_do_not_collide(
    root: Seq<u8>,
    instance1: Seq<u8>,
    path1: Seq<u8>,
    version1: Seq<u8>,
    instance2: Seq<u8>,
    path2: Seq<u8>,
    version2: Seq<u8>,
)
    requires
        instance1.len() == 32 && path1.len() == 32 && version1.len() == 32,
        instance2.len() == 32 && path2.len() == 32 && version2.len() == 32,
        blob_place(root, hex_of_bytes(instance1), hex_of_bytes(path1), hex_of_bytes(version1))
            == blob_place(
            root,
            hex_of_bytes(instance2),
            hex_of_bytes(path2),
            hex_of_bytes(version2),
        ),
    ensures
        instance1 == instance2,
        path1 == path2,
        version1 == version2,
{
    let (i1, p1, v1) = (hex_of_bytes(instance1), hex_of_bytes(path1), hex_of_bytes(version1));
    let (i2, p2, v2) = (hex_of_bytes(instance2), hex_of_bytes(path2), hex_of_bytes(version2));
    lemma_hex_of_bytes_chars(instance1);
    lemma_hex_of_bytes_chars(path1);
    lemma_hex_of_bytes_chars(version1);
    lemma_hex_of_bytes_chars(instance2);
    lemma_hex_of_bytes_chars(path2);
    lemma_hex_of_bytes_chars(version2);
    lemma_digit_name(i1);
    lemma_digit_name(p1);
    lemma_digit_name(v1);
    lemma_digit_name(i2);
    lemma_digit_name(p2);
    lemma_digit_name(v2);
    lemma_digit_name(p1.take(2));
    lemma_digit_name(p2.take(2));
    let a1 = joined_text(root, i1);
    let a2 = joined_text(root, i2);
    let b1 = joined_text(a1, p1.take(2));
    let b2 = joined_text(a2, p2.take(2));
    let c1 = joined_text(b1, p1);
    let c2 = joined_text(b2, p2);
    lemma_joined_tail(c1, c2, encode_utf8(v1), encode_utf8(v2));
    lemma_joined_tail(b1, b2, encode_utf8(p1), encode_utf8(p2));
    lemma_joined_tail(a1, a2, encode_utf8(p1.take(2)), encode_utf8(p2.take(2)));
    lemma_joined_same_root(root, encode_utf8(i1), encode_utf8(i2));
    lemma_encode_injective(i1, i2);
    lemma_encode_injective(p1, p2);
    lemma_encode_injective(v1, v2);
    lemma_hex_of_bytes_injective(instance1, instance2);
    lemma_hex_of_bytes_injective(path1, path2);
    lemma_hex_of_bytes_injective(version1, version2);
}

/// A file that is still being written is never taken for a blob.
pub proof fn law_temporary_files_are_no_blobs(name: Seq<char>, pid: nat, nanos: nat)
    ensures
        !is_blob_name(encode_utf8(temporary_chars(name, pid, nanos))),
{
    let mark = TEMPORARY_MARK@;
    let rest = decimal(pid) + seq!['.'] + hex_padded(nanos, 8);
    assert(temporary_chars(name, pid, nanos) =~= name + mark + rest);
    lemma_encode_concat(name, mark);
    lemma_encode_concat(name + mark, rest);
    let bytes = encode_utf8(name + mark + rest);
    let at = encode_utf8(name).len() as int;
    assert(bytes.subrange(at, at + encode_utf8(mark).len()) =~= encode_utf8(mark));
    assert(occurs_at(bytes, encode_utf8(mark), at));
}

/// The sizes of the first `k` blobs that leave, added up.
pub open spec fn freed(blobs: Seq<BlobEntry>, schedule: Seq<usize>, k: int) -> int
    decreases k,
{
    if k <= 0 {
        0
    } else {
        freed(blobs, schedule, k - 1) + blobs[schedule[k - 1] as int].size
    }
}

/// How many bytes are over the budget when the first `k` blobs were removed.
pub open spec fn over_after(blobs: Seq<BlobEntry>, schedule: Seq<usize>, over: u64, k: int) -> u64
    decreases k,
{
    if k <= 0 {
        over
    } else {
        over_after(blobs, schedule, over, k - 1).saturating_sub(
            blobs[schedule[k - 1] as int].size,
        )
    }
}

proof fn lemma_over_after(blobs: Seq<BlobEntry>, schedule: Seq<usize>, over: u64, k: int)
    requires
        0 <= k,
    ensures
        over_after(blobs, schedule, over, k) >= over - freed(blobs, schedule, k),
        freed(blobs, schedule, k) >= 0,
    decreases k,
{
    if k > 0 {
        lemma_over_after(blobs, schedule, over, k - 1);
    }
}

proof fn lemma_freed_without(blobs: Seq<BlobEntry>, schedule: Seq<usize>, p: int, k: int)
    requires
        0 <= p < k <= schedule.len(),
    ensures
        freed(blobs, schedule, k) == freed(blobs, schedule.remove(p), k - 1)
            + blobs[schedule[p] as int].size,
    decreases k,
{
    let rest = schedule.remove(p);
    if k - 1 == p {
        lemma_freed_same(blobs, schedule, rest, p);
    } else {
        lemma_freed_without(blobs, schedule, p, k - 1);
        assert(rest[k - 2] == schedule[k - 1]);
    }
}

proof fn lemma_freed_same(blobs: Seq<BlobEntry>, a: Seq<usize>, b: Seq<usize>, k: int)
    requires
        0 <= k <= a.len(),
        k <= b.len(),
        forall|i: int| 0 <= i < k ==> a[i] == b[i],
    ensures
        freed(blobs, a, k) == freed(blobs, b, k),
    decreases k,
{
    if k > 0 {
        lemma_freed_same(blobs, a, b, k - 1);
    }
}

/// A list of `n` different numbers below `n` holds the largest of them.
proof fn lemma_holds_largest(list: Seq<usize>, n: int)
    requires
        list.len() == n,
        n > 0,
        forall|i: int| 0 <= i < list.len() ==> 0 <= #[trigger] list[i] < n,
        forall|i: int, j: int| 0 <= i < j < list.len() ==> #[trigger] list[i] != #[trigger] list[j],
    ensures
        exists|p: int| 0 <= p < list.len() && list[p] == n - 1,
{
    if forall|p: int| 0 <= p < list.len() ==> list[p] != n - 1 {
        let ints = list.map_values(|x: usize| x as int);
        assert(ints.no_duplicates()) by {
            assert forall|i: int, j: int|
                0 <= i < ints.len() && 0 <= j < ints.len() && i != j implies ints[i] != ints[j] by {
                if i < j {
                    assert(list[i] != list[j]);
                } else {
                    assert(list[j] != list[i]);
                }
            }
        }
        ints.unique_seq_to_set();
        let range = vstd::set_lib::set_int_range(0, n - 1);
        vstd::set_lib::lemma_int_range(0, n - 1);
        assert(ints.to_set().subset_of(range)) by {
            assert forall|x: int| ints.to_set().contains(x) implies range.contains(x) by {
                let i = choose|i: int| 0 <= i < ints.len() && ints[i] == x;
                assert(list[i] < n);
                assert(list[i] != n - 1);
            }
        }
        vstd::set_lib::lemma_len_subset(ints.to_set(), range);
        assert(false);
    }
}

proof fn lemma_freed_all(blobs: Seq<BlobEntry>, schedule: Seq<usize>, n: int)
    requires
        0 <= n <= blobs.len(),
        schedule.len() == n,
        forall|i: int| 0 <= i < schedule.len() ==> 0 <= #[trigger] schedule[i] < n,
        forall|i: int, j: int|
            0 <= i < j < schedule.len() ==> #[trigger] schedule[i] != #[trigger] schedule[j],
    ensures
        freed(blobs, schedule, n) == sum_sizes(blobs, n),
    decreases n,
{
    if n > 0 {
        lemma_holds_largest(schedule, n);
        let p = choose|p: int| 0 <= p < schedule.len() && schedule[p] == n - 1;
        let rest = schedule.remove(p);
        assert forall|i: int| 0 <= i < rest.len() implies 0 <= #[trigger] rest[i] < n - 1 by {
            let k = if i < p {
                i
            } else {
                i + 1
            };
            assert(rest[i] == schedule[k]);
            if k < p {
                assert(schedule[k] != schedule[p]);
            } else {
                assert(schedule[p] != schedule[k]);
            }
        }
        assert forall|i: int, j: int| 0 <= i < j < rest.len() implies #[trigger] rest[i]
            != #[trigger] rest[j] by {
            let a = if i < p {
                i
            } else {
                i + 1
            };
            let b = if j < p {
                j
            } else {
                j + 1
            };
            assert(schedule[a] != schedule[b]);
        }
        lemma_freed_without(blobs, schedule, p, n);
        lemma_freed_all(blobs, rest, n - 1);
    }
}

/// Where every removal succeeds, an eviction that ends leaves no more than the
/// budget: it ends when nothing is over, or when no blob is left.
pub proof fn law_eviction_meets_budget(
    blobs: Seq<BlobEntry>,
    schedule: Seq<usize>,
    budget: u64,
    k: int,
)
    requires
        orders(blobs, schedule, 0, blobs.len() as int),
        budget < sum_sizes(blobs, blobs.len() as int) <= u64::MAX,
        0 <= k <= blobs.len(),
        over_after(
            blobs,
            schedule,
            (sum_sizes(blobs, blobs.len() as int) - budget) as u64,
            k,
        ) == 0 || k == blobs.len(),
    ensures
        sum_sizes(blobs, blobs.len() as int) - freed(blobs, schedule, k) <= budget,
{
    let total = sum_sizes(blobs, blobs.len() as int);
    lemma_over_after(blobs, schedule, (total - budget) as u64, k);
    if k == blobs.len() {
        assert forall|i: int, j: int| 0 <= i < j < schedule.len() implies #[trigger] schedule[i]
            != #[trigger] schedule[j] by {
            assert(leaves_before(blobs, schedule[i] as int, schedule[j] as int));
        }
        lemma_freed_all(blobs, schedule, k);
    }
}

/// The blob that was not used for longest leaves first: each one that leaves
/// was used no later than every one that stays.
pub proof fn law_eviction_goes_by_age(
    blobs: Seq<BlobEntry>,
    schedule: Seq<usize>,
    k: int,
    i: int,
    j: int,
)
    requires
        orders(blobs, schedule, 0, blobs.len() as int),
        0 <= i < k <= j < blobs.len(),
    ensures
        blobs[schedule[i] as int].mtime <= blobs[schedule[j] as int].mtime,
{
    assert(leaves_before(blobs, schedule[i] as int, schedule[j] as int));
}

/// The same parts give the same hash, whoever makes it.
pub proof fn law_instance_hash_is_stable(
    a: InstanceHash,
    b: InstanceHash,
    p: Seq<Seq<char>>,
    q: Seq<Seq<char>>,
)
    requires
        a.name() == hash_name(joined_parts(p)),
        b.name() == hash_name(joined_parts(q)),
        p == q,
    ensures
        a.name() == b.name(),
{
}

/// An instance hash is the digest of its parts, with a separator before every part
/// but the first, in hexadecimal digits; and it is told as it is.
pub proof fn law_instance_hash_is_the_digest(
    parts: &[&str],
    more: &[&str],
    part: &str,
    r: InstanceHash,
    longer: InstanceHash,
    shown: &str,
)
    requires
        parts@.len() > 0,
        more@ == parts@.push(part),
        call_ensures(InstanceHash::from_parts, (parts,), r),
        call_ensures(InstanceHash::from_parts, (more,), longer),
        call_ensures(InstanceHash::as_str, (&r,), shown),
    ensures
        shown@ == r.name(),
        r.name().len() == 64,
        parts@.len() == 1 ==> r.name() == hex_of_bytes(sha256(encode_utf8(parts@[0]@))),
        longer.name() == hex_of_bytes(
            sha256(joined_parts(texts(parts@)) + seq![0x1fu8] + encode_utf8(part@)),
        ),
{
    assert(texts(more@).drop_last() =~= texts(parts@));
    assert(joined_parts(texts(parts@)).push(0x1fu8) + encode_utf8(part@) =~= joined_parts(
        texts(parts@),
    ) + seq![0x1fu8] + encode_utf8(part@));
}

/// Two hexadecimal digits of a name stand for each byte, high part first.
pub proof fn law_digits_stand_for_bytes(bytes: Seq<u8>, i: int)
    requires
        0 <= i < bytes.len(),
    ensures
        hex_of_bytes(bytes).len() == 2 * bytes.len(),
        hex_of_bytes(bytes)[2 * i] == digit_char((bytes[i] / 16) as nat),
        hex_of_bytes(bytes)[2 * i + 1] == digit_char((bytes[i] % 16) as nat),
    decreases bytes.len(),
{
    lemma_hex_of_bytes_len(bytes);
    lemma_hex_of_bytes_len(bytes.drop_last());
    if i < bytes.len() - 1 {
        law_digits_stand_for_bytes(bytes.drop_last(), i);
    }
}

/// The budget of the cache is the positive number that is set, else one gibibyte.
pub proof fn law_budget_is_what_is_set(
    raw: Option<&str>,
    r: FilesystemCacheConfig,
    usual: FilesystemCacheConfig,
)
    requires
        call_ensures(FilesystemCacheConfig::from_env, (raw,), r),
        call_ensures(FilesystemCacheConfig::default, (), usual),
    ensures
        usual.max_bytes == 1024 * 1024 * 1024,
        raw is None ==> r.max_bytes == usual.max_bytes,
        raw matches Some(text) ==> {
            &&& parsed_u64(text@) is None || parsed_u64(text@) == Some(0u64) ==> r.max_bytes
                == usual.max_bytes
            &&& parsed_u64(text@) is Some && parsed_u64(text@)->0 > 0 ==> Some(r.max_bytes)
                == parsed_u64(text@)
        },
{
}

/// A cache lies in the directory of the current layout below the one it is opened
/// in, with the budget that it is given.
pub proof fn law_cache_is_opened(
    base: &FsPath,
    config: FilesystemCacheConfig,
    cache: FilesystemCache,
    root: &FsPath,
    budget: u64,
)
    requires
        call_ensures(FilesystemCache::open, (base, config), cache),
        call_ensures(FilesystemCache::root, (&cache,), root),
        call_ensures(FilesystemCache::max_bytes, (&cache,), budget),
    ensures
        root@ == joined_text(base@, "v1"@),
        budget == config.max_bytes,
        cache.puts() == 0,
        !cache.evicting(),
{
}

/// A blob lies below the root in the directory of its instance, by the digest of
/// its path, whose first two digits make a directory of their own, and by the
/// digest of its version.
pub proof fn law_blobs_lie_by_digest(cache: FilesystemCache, key: CacheKey<'_>, r: FsPath)
    requires
        call_ensures(FilesystemCache::blob_path, (&cache, key), r),
    ensures
        ({
            let path_hash = hex_of_bytes(sha256(encode_utf8(key.path@)));
            let version_hash = hex_of_bytes(sha256(encode_utf8(key.version@)));
            let dir = joined_text(cache.root_path(), key.instance.name());
            r@ == joined_text(
                joined_text(joined_text(dir, path_hash.take(2)), path_hash),
                version_hash,
            )
        }),
{
}

/// Every sixty-fourth put calls for an eviction, and only one eviction runs at a
/// time.
pub proof fn law_evictions_are_due(
    cache: &mut FilesystemCache,
    due: bool,
    idle: &mut FilesystemCache,
    begun: bool,
    running: &mut FilesystemCache,
)
    requires
        call_ensures(FilesystemCache::count_put, (cache,), due),
        call_ensures(FilesystemCache::begin_eviction, (idle,), begun),
        call_ensures(FilesystemCache::end_eviction, (running,), ()),
    ensures
        old(cache).puts() < u64::MAX ==> final(cache).puts() == old(cache).puts() + 1,
        due <==> final(cache).puts() % 64 == 0,
        final(cache).budget() == old(cache).budget(),
        final(cache).root_path() == old(cache).root_path(),
        begun <==> !old(idle).evicting(),
        final(idle).evicting(),
        !final(running).evicting(),
{
}

/// Blobs are evicted exactly where they exceed the budget, all of them are
/// considered, and what has to go is what exceeds it.
pub proof fn law_eviction_frees_the_excess(
    cache: FilesystemCache,
    scan: BlobScan,
    r: Option<EvictionRun>,
)
    requires
        call_ensures(FilesystemCache::evict_to_budget, (&cache, scan), r),
    ensures
        r is Some <==> scan.total() > cache.budget(),
        r matches Some(run) ==> {
            &&& run.blobs() == scan.blobs()
            &&& run.over() + cache.budget() == scan.total()
            &&& run.position() == 0
            &&& run.schedule().len() == scan.blobs().len()
        },
{
}

/// The blob that leaves next is one that was not visited, and every other one that
/// was not visited was used at the same time or later. There is one as long as
/// the budget is exceeded and blobs are left.
pub proof fn law_oldest_leaves_first(run: EvictionRun, r: Option<&BlobEntry>, k: int)
    requires
        run.wf(),
        call_ensures(EvictionRun::next_victim, (&run,), r),
    ensures
        r is Some <==> run.over() > 0 && run.position() < run.blobs().len(),
        r matches Some(entry) ==> *entry == run.blobs()[run.schedule()[run.position()] as int],
        r is Some && run.position() <= k < run.schedule().len() ==> r->0.mtime
            <= run.blobs()[run.schedule()[k] as int].mtime,
{
    if r is Some && run.position() < k < run.schedule().len() {
        assert(leaves_before(
            run.blobs(),
            run.schedule()[run.position()] as int,
            run.schedule()[k] as int,
        ));
    }
}

/// A blob that was removed counts with its size, one that could not be removed
/// with nothing; either way the next one has its turn.
pub proof fn law_removals_are_counted(run: &mut EvictionRun, removed: bool)
    requires
        call_ensures(EvictionRun::report, (run, removed), ()),
        old(run).goes_on(),
    ensures
        final(run).blobs() == old(run).blobs(),
        final(run).schedule() == old(run).schedule(),
        final(run).position() == old(run).position() + 1,
        !removed ==> final(run).over() == old(run).over(),
        removed ==> final(run).over() == if old(run).over() > old(run).victim().size {
            old(run).over() - old(run).victim().size
        } else {
            0
        },
{
}

/// The layout on disk is kept exactly where its marker says the current version,
/// white space around it aside; a wipe spares only the marker.
pub proof fn law_other_layouts_are_wiped(
    marker: Option<&str>,
    action: SchemaAction,
    name: &[u8],
    stays: bool,
)
    requires
        call_ensures(ensure_schema, (marker,), action),
        call_ensures(survives_reset, (name,), stays),
    ensures
        action is Keep <==> marker is Some && trimmed(marker->0@) == "v1"@,
        stays <==> name@ == encode_utf8(".omnifuse-cache-version"@),
{
}

/// A blob that is there is left as it is; one that is not is written under a name
/// that begins with its own and tells the process and the moment.
pub proof fn law_puts_write_once(
    present: bool,
    name: Option<&str>,
    pid: u32,
    nanos: u32,
    plan: PutPlan,
    temporary: String,
)
    requires
        call_ensures(plan_put, (present, name, pid, nanos), plan),
        call_ensures(temporary_name, (name, pid, nanos), temporary),
    ensures
        plan is Touch <==> present,
        plan matches PutPlan::Write(text) ==> text@ == temporary@,
        name matches Some(stem) ==> temporary@ == stem@ + ".tmp."@ + decimal(pid as nat)
            + seq!['.'] + hex_padded(nanos as nat, 8),
        name is None ==> temporary@ == "blob"@ + ".tmp."@ + decimal(pid as nat) + seq!['.']
            + hex_padded(nanos as nat, 8),
{
}

/// A blob that was read is what the cache answers, byte for byte; one that is
/// missing or could not be read is no answer, and the error is kept.
pub proof fn law_cache_answers_what_was_read(
    result: Result<Vec<u8>, String>,
    not_found: bool,
    read: BlobRead,
    answer: Option<Vec<u8>>,
)
    requires
        call_ensures(blob_read, (result, not_found), read),
        call_ensures(cache_answer, (read,), answer),
    ensures
        result matches Ok(bytes) ==> (answer matches Some(given) && given@ == bytes@),
        result is Err ==> answer is None,
        result is Err && not_found ==> read is Miss,
        result is Err && !not_found ==> (read matches BlobRead::Failed(told) && told@
            == result->Err_0@),
{
}

/// A walk goes down into directories and takes in every file whose size is known,
/// but for the marker and what is still being written; their sizes add up.
pub proof fn law_walk_takes_in_blobs(
    empty: BlobScan,
    scan: &mut BlobScan,
    kind: EntryKind,
    name: &[u8],
    entry: Option<BlobEntry>,
    down: bool,
)
    requires
        call_ensures(BlobScan::new, (), empty),
        call_ensures(BlobScan::visit, (scan, kind, name, entry), down),
        old(scan).wf(),
    ensures
        empty.blobs().len() == 0,
        empty.total() == 0,
        down <==> kind is Directory,
        ({
            let taken = kind is File && entry is Some && name@ != encode_utf8(".omnifuse-cache-version"@)
                && !occurs(name@, encode_utf8(".tmp."@));
            &&& !taken ==> final(scan).blobs() == old(scan).blobs() && final(scan).total() == old(scan).total()
            &&& taken ==> final(scan).blobs() == old(scan).blobs().push(entry->0)
            &&& taken && old(scan).total() + entry->0.size <= u64::MAX ==> final(scan).total()
                == old(scan).total() + entry->0.size
            &&& taken && old(scan).total() + entry->0.size > u64::MAX ==> final(scan).total()
                == u64::MAX
        }),
{
    let before = old(scan).blobs();
    if kind is File && entry is Some && is_blob_name(name@) {
        let after = before.push(entry->0);
        lemma_sum_sizes_prefix(before, after, before.len() as int);
        lemma_sum_sizes_nonneg(before, before.len() as int);
    }
}

} // verus!
