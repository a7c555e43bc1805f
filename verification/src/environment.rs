//! What mount preparation has to know of the process it runs in.
use vstd::prelude::*;

use crate::paths::{components, has_name, joined, joined_text, rendered, root_dir, utf8_lossy, same_path, FsPath};
use crate::text::join2;

verus! {

/// What mount preparation asks of its environment. Errors are messages.
pub trait MountEnvironment {
    /// The user's home directory.
    fn home_dir(&self) -> Result<FsPath, String>;

    /// The directory below which caches lie.
    fn cache_base_dir(&self) -> Result<FsPath, String>;

    /// The canonical form of a mount point, whose last component may be missing
    /// on disk.
    fn canonicalize_mount_point(&self, mount_point: &FsPath) -> Result<FsPath, String>;
}

/// Where user directories lie.
#[derive(Debug, Clone, Copy, PartialEq, Eq, Structural)]
pub enum Platform {
    /// Linux.
    Linux,
    /// macOS.
    MacOs,
    /// Windows.
    Windows,
    /// Any other.
    Other,
}

/// What the file system said about the canonical form of a path.
#[derive(Debug)]
pub struct CanonicalPath {
    /// The path that was asked for.
    pub path: FsPath,
    /// Its canonical form, or the error.
    pub answer: Result<FsPath, String>,
}

/// The process environment, as it was read by the caller.
#[derive(Debug)]
pub struct StdMountEnvironment {
    /// The platform.
    pub platform: Platform,
    /// `HOME`, where it is set.
    pub home: Option<FsPath>,
    /// `XDG_CACHE_HOME`, where it is set.
    pub xdg_cache_home: Option<FsPath>,
    /// Canonical forms that were asked for.
    pub canonical: Vec<CanonicalPath>,
}

/// The bytes of a path result, or the characters of its message.
pub open spec fn path_result(r: Result<FsPath, String>) -> Result<Seq<u8>, Seq<char>> {
    match r {
        Ok(path) => Ok(path@),
        Err(message) => Err(message@),
    }
}

/// The home directory for a value of `HOME`.
pub open spec fn home_of(home: Option<FsPath>) -> Result<Seq<u8>, Seq<char>> {
    match home {
        Some(path) if path@.len() > 0 => Ok(path@),
        _ => Err("HOME is not set"@),
    }
}

/// The cache directory for the values of `HOME` and `XDG_CACHE_HOME`.
pub open spec fn cache_base_of(
    platform: Platform,
    home: Option<FsPath>,
    xdg_cache_home: Option<FsPath>,
) -> Result<Seq<u8>, Seq<char>> {
    if platform != Platform::MacOs && xdg_cache_home is Some {
        Ok(xdg_cache_home->0@)
    } else {
        match home_of(home) {
            Ok(path) => Ok(
                joined_text(
                    path,
                    if platform == Platform::MacOs {
                        "Library/Caches"@
                    } else {
                        ".cache"@
                    },
                ),
            ),
            Err(message) => Err(message),
        }
    }
}

/// The answer for a path, from `from` on; a path that was not asked for has none.
pub open spec fn answer_from(table: Seq<CanonicalPath>, path: Seq<u8>, from: int) -> Result<
    Seq<u8>,
    Seq<char>,
>
    decreases table.len() - from,
{
    if from < 0 || from >= table.len() {
        Err("not looked up"@)
    } else if same_path(table[from].path@, path) {
        path_result(table[from].answer)
    } else {
        answer_from(table, path, from + 1)
    }
}

/// The directory that holds a mount point; for the root and the empty path it
/// is the current directory.
pub open spec fn holder_of(path: Seq<u8>) -> Seq<u8> {
    let c = components(path);
    if c.len() == 0 || c.last() == root_dir() {
        vstd::utf8::encode_utf8("."@)
    } else {
        rendered(c.drop_last())
    }
}

/// The name of a mount point in the directory that holds it.
pub open spec fn name_of(path: Seq<u8>) -> Seq<u8> {
    let c = components(path);
    if has_name(c) {
        c.last()
    } else {
        Seq::empty()
    }
}

/// The canonical form of a mount point: its own, or that of its directory with
/// its name.
pub open spec fn canonical_of(table: Seq<CanonicalPath>, path: Seq<u8>) -> Result<
    Seq<u8>,
    Seq<char>,
> {
    match answer_from(table, path, 0) {
        Ok(p) => Ok(p),
        Err(error) => match answer_from(table, holder_of(path), 0) {
            Ok(parent) => Ok(joined(parent, name_of(path))),
            Err(parent_error) => Err(
                "canonicalizing "@ + utf8_lossy(path) + ": "@ + error + "; parent: "@
                    + parent_error,
            ),
        },
    }
}

/// The directory that holds a mount point.
pub fn mount_point_holder(mount_point: &FsPath) -> (r: FsPath)
    ensures
        r@ == holder_of(mount_point@),
{
    match mount_point.parent() {
        Some(parent) => parent,
        None => FsPath::from_text("."),
    }
}

impl StdMountEnvironment {
    fn lookup(&self, path: &FsPath) -> (r: Result<FsPath, String>)
        ensures
            path_result(r) == answer_from(self.canonical@, path@, 0),
    {
        let mut i: usize = 0;
        while i < self.canonical.len()
            invariant
                i <= self.canonical@.len(),
                answer_from(self.canonical@, path@, 0) == answer_from(
                    self.canonical@,
                    path@,
                    i as int,
                ),
            decreases self.canonical@.len() - i,
        {
            if self.canonical[i].path.same(path) {
                return match &self.canonical[i].answer {
                    Ok(found) => Ok(found.copy()),
                    Err(message) => Err(message.clone()),
                };
            }
            i += 1;
        }
        Err("not looked up".to_owned())
    }
}

impl MountEnvironment for StdMountEnvironment {
    fn home_dir(&self) -> (r: Result<FsPath, String>)
        ensures
            path_result(r) == home_of(self.home),
    {
        match &self.home {
            Some(path) => {
                if path.as_bytes().len() > 0 {
                    Ok(path.copy())
                } else {
                    Err("HOME is not set".to_owned())
                }
            },
            None => Err("HOME is not set".to_owned()),
        }
    }

    fn cache_base_dir(&self) -> (r: Result<FsPath, String>)
        ensures
            path_result(r) == cache_base_of(self.platform, self.home, self.xdg_cache_home),
    {
        match self.platform {
            Platform::MacOs => match self.home_dir() {
                Ok(home) => Ok(home.join_text("Library/Caches")),
                Err(message) => Err(message),
            },
            _ => match &self.xdg_cache_home {
                Some(path) => Ok(path.copy()),
                None => match self.home_dir() {
                    Ok(home) => Ok(home.join_text(".cache")),
                    Err(message) => Err(message),
                },
            },
        }
    }

    fn canonicalize_mount_point(&self, mount_point: &FsPath) -> (r: Result<FsPath, String>)
        ensures
            path_result(r) == canonical_of(self.canonical@, mount_point@),
    {
        match self.lookup(mount_point) {
            Ok(path) => Ok(path),
            Err(error) => {
                let parent = mount_point_holder(mount_point);
                let name = match mount_point.file_name() {
                    Some(bytes) => FsPath::from_bytes(bytes),
                    None => FsPath::from_bytes(Vec::new()),
                };
                assert(name@ =~= name_of(mount_point@));
                match self.lookup(&parent) {
                    Ok(canonical_parent) => Ok(canonical_parent.join(&name)),
                    Err(parent_error) => {
                        let shown = mount_point.display();
                        let mut message = join2("canonicalizing ", shown.as_str());
                        message.append(": ");
                        message.append(error.as_str());
                        message.append("; parent: ");
                        message.append(parent_error.as_str());
                        Err(message)
                    },
                }
            },
        }
    }
}

/// The home directory is what `HOME` says; without it, or where it is empty, it
/// is not known.
pub proof fn law_home_is_what_is_set(env: StdMountEnvironment, r: Result<FsPath, String>)
    requires
        call_ensures(StdMountEnvironment::home_dir, (&env,), r),
    ensures
        r is Ok <==> env.home is Some && env.home->0@.len() > 0,
        r matches Ok(home) ==> home@ == env.home->0@,
        r matches Err(message) ==> message@ == "HOME is not set"@,
{
}

/// Caches lie where `XDG_CACHE_HOME` says, else in `.cache` below the home
/// directory; on macOS they always lie in `Library/Caches` below it. Where the
/// home directory is needed and not known, there is no place for them.
pub proof fn law_cache_base_goes_by_platform(
    env: StdMountEnvironment,
    home: Result<FsPath, String>,
    r: Result<FsPath, String>,
)
    requires
        call_ensures(StdMountEnvironment::home_dir, (&env,), home),
        call_ensures(StdMountEnvironment::cache_base_dir, (&env,), r),
    ensures
        env.platform != Platform::MacOs && env.xdg_cache_home is Some ==> (r matches Ok(base)
            && base@ == env.xdg_cache_home->0@),
        env.platform != Platform::MacOs && env.xdg_cache_home is None && home is Ok ==> (
        r matches Ok(base) && base@ == joined_text(home->Ok_0@, ".cache"@)),
        env.platform == Platform::MacOs && home is Ok ==> (r matches Ok(base) && base@
            == joined_text(home->Ok_0@, "Library/Caches"@)),
        (env.platform == Platform::MacOs || env.xdg_cache_home is None) && home is Err ==> (
        r matches Err(message) && message@ == home->Err_0@),
{
}

proof fn lemma_answer_skips(table: Seq<CanonicalPath>, path: Seq<u8>, from: int, i: int)
    requires
        0 <= from <= i < table.len(),
        same_path(table[i].path@, path),
        forall|j: int| from <= j < i ==> !same_path((#[trigger] table[j]).path@, path),
    ensures
        answer_from(table, path, from) == path_result(table[i].answer),
    decreases i - from,
{
    if from < i {
        assert(!same_path(table[from].path@, path));
        lemma_answer_skips(table, path, from + 1, i);
    }
}

/// The canonical form of a mount point that the file system knows is what the
/// file system said of it first.
pub proof fn law_known_mount_point_is_canonical(
    env: StdMountEnvironment,
    mount_point: &FsPath,
    i: int,
    r: Result<FsPath, String>,
)
    requires
        call_ensures(StdMountEnvironment::canonicalize_mount_point, (&env, mount_point), r),
        0 <= i < env.canonical@.len(),
        same_path(env.canonical@[i].path@, mount_point@),
        env.canonical@[i].answer is Ok,
        forall|j: int|
            0 <= j < i ==> !same_path((#[trigger] env.canonical@[j]).path@, mount_point@),
    ensures
        r matches Ok(canonical) && canonical@ == env.canonical@[i].answer->Ok_0@,
{
    lemma_answer_skips(env.canonical@, mount_point@, 0, i);
}

/// A mount point that is missing on disk lies below the canonical form of its
/// directory, under its own name.
pub proof fn law_missing_mount_point_lies_in_its_directory(
    env: StdMountEnvironment,
    mount_point: &FsPath,
    i: int,
    d: int,
    r: Result<FsPath, String>,
)
    requires
        call_ensures(StdMountEnvironment::canonicalize_mount_point, (&env, mount_point), r),
        has_name(components(mount_point@)),
        components(mount_point@).last() != root_dir(),
        0 <= i < env.canonical@.len(),
        0 <= d < env.canonical@.len(),
        same_path(env.canonical@[i].path@, mount_point@),
        env.canonical@[i].answer is Err,
        forall|j: int|
            0 <= j < i ==> !same_path((#[trigger] env.canonical@[j]).path@, mount_point@),
        same_path(env.canonical@[d].path@, rendered(components(mount_point@).drop_last())),
        forall|j: int|
            0 <= j < d ==> !same_path(
                (#[trigger] env.canonical@[j]).path@,
                rendered(components(mount_point@).drop_last()),
            ),
    ensures
        env.canonical@[d].answer is Ok ==> (r matches Ok(canonical) && canonical@ == joined(
            env.canonical@[d].answer->Ok_0@,
            components(mount_point@).last(),
        )),
        env.canonical@[d].answer is Err ==> r is Err && r->Err_0@ == "canonicalizing "@
            + utf8_lossy(mount_point@) + ": "@ + env.canonical@[i].answer->Err_0@ + "; parent: "@
            + env.canonical@[d].answer->Err_0@,
{
    lemma_answer_skips(env.canonical@, mount_point@, 0, i);
    lemma_answer_skips(
        env.canonical@,
        rendered(components(mount_point@).drop_last()),
        0,
        d,
    );
}

/// What holds a mount point is its parent; what has none is taken to stand in the
/// current directory.
pub proof fn law_mount_point_stands_in_its_holder(
    mount_point: &FsPath,
    parent: Option<FsPath>,
    holder: FsPath,
)
    requires
        call_ensures(FsPath::parent, (mount_point,), parent),
        call_ensures(mount_point_holder, (mount_point,), holder),
    ensures
        parent matches Some(p) ==> holder@ == p@,
        parent is None ==> holder@ == vstd::utf8::encode_utf8("."@),
{
}

} // verus!
