//! Where a mount keeps its files.
use std::collections::hash_map::DefaultHasher;
use std::hash::{BuildHasher, BuildHasherDefault};

use vstd::prelude::*;
use vstd::utf8::{decode_utf8, encode_utf8, encode_utf8_decode_utf8, valid_utf8};

use crate::environment::{MountEnvironment, StdMountEnvironment};
use crate::paths::{
    absolute, joined_text, lemma_joined_is_within, lemma_within_is_a_preorder, within, FsPath,
};
use crate::text::{hex_padded, hex_padded_text, lemma_hex_len, lemma_hex_no_slash};
use crate::text_merge::decode_utf8_text;

verus! {

/// Which source a backend mounts.
#[derive(Debug, Clone)]
pub struct CacheKey {
    backend: &'static str,
    identity: String,
}

/// The hash of a backend's name, an identity and a mount point that is a text.
pub uninterp spec fn mount_hash(
    backend: Seq<char>,
    identity: Seq<char>,
    mount_point: Seq<char>,
) -> u64;

/// `BuildHasher::hash_one` of the standard library, with the hasher that
/// `DefaultHasher::new` gives, which is the same for all: the hash of the two
/// texts and the path, one after the other. The value is named, not described.
#[verifier::external_body]
fn hash_mount(backend: &str, identity: &str, mount_point: &str) -> (r: u64)
    ensures
        r == mount_hash(backend@, identity@, mount_point@),
{
    BuildHasherDefault::<DefaultHasher>::default().hash_one(
        (backend, identity, std::path::Path::new(mount_point)),
    )
}

/// The hash of a backend's name, an identity and the bytes of a mount point.
pub uninterp spec fn mount_bytes_hash(
    backend: Seq<char>,
    identity: Seq<char>,
    mount_point: Seq<u8>,
) -> u64;

/// `BuildHasher::hash_one` of the standard library, as in [`hash_mount`], for a
/// mount point that is no text: its bytes are hashed. The value is named, not
/// described.
#[verifier::external_body]
fn hash_mount_bytes(backend: &str, identity: &str, mount_point: &[u8]) -> (r: u64)
    ensures
        r == mount_bytes_hash(backend@, identity@, mount_point@),
{
    BuildHasherDefault::<DefaultHasher>::default().hash_one((backend, identity, mount_point))
}

/// The hash of a source and a mount point.
pub open spec fn hash_of(backend: Seq<char>, source: Seq<char>, mount_point: Seq<u8>) -> u64 {
    if valid_utf8(mount_point) {
        mount_hash(backend, source, decode_utf8(mount_point))
    } else {
        mount_bytes_hash(backend, source, mount_point)
    }
}

impl CacheKey {
    /// The name of the backend.
    pub closed spec fn backend_name(&self) -> Seq<char> {
        self.backend@
    }

    /// What the source is known by.
    pub closed spec fn source(&self) -> Seq<char> {
        self.identity@
    }

    /// The key of a source.
    pub fn new(backend: &'static str, identity: &str) -> (r: CacheKey)
        ensures
            r.backend_name() == backend@,
            r.source() == identity@,
    {
        CacheKey { backend, identity: identity.to_owned() }
    }

    fn hash_for(&self, mount_point: &FsPath) -> (r: String)
        ensures
            r@ == hash_text(self.backend_name(), self.source(), mount_point@),
    {
        let identity = self.identity.as_str();
        let hash: u64 = match decode_utf8_text(mount_point.as_bytes()) {
            Some(text) => {
                proof {
                    encode_utf8_decode_utf8(text@);
                }
                hash_mount(self.backend, identity, text)
            },
            None => hash_mount_bytes(self.backend, identity, mount_point.as_bytes()),
        };
        hex_padded_text(hash, 16)
    }
}

/// The hash of a source and a mount point, as sixteen hexadecimal digits.
pub open spec fn hash_text(backend: Seq<char>, source: Seq<char>, mount_point: Seq<u8>) -> Seq<
    char,
> {
    hex_padded(hash_of(backend, source, mount_point) as nat, 16)
}

/// The directory in which a backend works on a source.
pub open spec fn work_dir_of(
    cache_base: Seq<u8>,
    backend: Seq<char>,
    source: Seq<char>,
    mount_point: Seq<u8>,
) -> Seq<u8> {
    joined_text(
        joined_text(joined_text(cache_base, "omnifuse"@), backend),
        hash_text(backend, source, mount_point),
    )
}

/// Where a mount lies.
#[derive(Debug)]
pub struct MountLayout {
    /// The mount point that users see, in canonical form.
    pub mount_point: FsPath,
    /// The directory of the backend below the cache directory.
    pub work_dir: FsPath,
}

impl MountLayout {
    /// Whether this is the layout of a source for a mount point and a cache
    /// directory.
    pub open spec fn is_for(
        &self,
        mount_point: Seq<u8>,
        cache_base: Seq<u8>,
        backend: Seq<char>,
        source: Seq<char>,
    ) -> bool {
        &&& self.mount_point@ == mount_point
        &&& self.work_dir@ == work_dir_of(cache_base, backend, source, mount_point)
    }

    /// Whether a layout, or an error, is what the answers of the environment
    /// lead to. An error is handed on: that about the mount point, if there is
    /// one, else that about the cache directory.
    pub open spec fn resolved<E: MountEnvironment>(
        env: &E,
        mount_point: &FsPath,
        backend: Seq<char>,
        source: Seq<char>,
        r: Result<MountLayout, String>,
    ) -> bool {
        match r {
            Ok(layout) => exists|canonical: FsPath, base: FsPath|
                {
                    &&& #[trigger] call_ensures(
                        E::canonicalize_mount_point,
                        (env, mount_point),
                        Ok::<FsPath, String>(canonical),
                    )
                    &&& #[trigger] call_ensures(
                        E::cache_base_dir,
                        (env,),
                        Ok::<FsPath, String>(base),
                    )
                    &&& layout.is_for(canonical@, base@, backend, source)
                },
            Err(error) => {
                ||| call_ensures(
                    E::canonicalize_mount_point,
                    (env, mount_point),
                    Err::<FsPath, String>(error),
                )
                ||| call_ensures(E::cache_base_dir, (env,), Err::<FsPath, String>(error))
                    && exists|canonical: FsPath|
                    call_ensures(
                        E::canonicalize_mount_point,
                        (env, mount_point),
                        Ok::<FsPath, String>(canonical),
                    )
            },
        }
    }

    /// The layout for a canonical mount point and a cache directory.
    pub fn place(mount_point: FsPath, cache_base: &FsPath, cache_key: &CacheKey) -> (r: MountLayout)
        ensures
            r.is_for(mount_point@, cache_base@, cache_key.backend_name(), cache_key.source()),
    {
        let hash = cache_key.hash_for(&mount_point);
        let work_dir = cache_base.join_text("omnifuse").join_text(cache_key.backend).join_text(
            hash.as_str(),
        );
        MountLayout { mount_point, work_dir }
    }

    /// The layout for a mount point, as the environment sees it.
    pub fn resolve<E: MountEnvironment>(
        env: &E,
        mount_point: &FsPath,
        cache_key: &CacheKey,
    ) -> (r: Result<MountLayout, String>)
        ensures
            MountLayout::resolved(
                env,
                mount_point,
                cache_key.backend_name(),
                cache_key.source(),
                r,
            ),
    {
        match env.canonicalize_mount_point(mount_point) {
            Err(error) => Err(error),
            Ok(canonical) => match env.cache_base_dir() {
                Err(error) => Err(error),
                Ok(base) => {
                    let layout = MountLayout::place(canonical, &base, cache_key);
                    Ok(layout)
                },
            },
        }
    }

    /// A copy of the layout.
    pub fn copy(&self) -> (r: MountLayout)
        ensures
            r.mount_point@ == self.mount_point@,
            r.work_dir@ == self.work_dir@,
    {
        MountLayout { mount_point: self.mount_point.copy(), work_dir: self.work_dir.copy() }
    }
}

/// One source at one mount point has one work directory, however often it is
/// mounted.
pub proof fn law_work_dir_is_stable(
    first: MountLayout,
    second: MountLayout,
    mount_point: Seq<u8>,
    cache_base: Seq<u8>,
    backend: Seq<char>,
    source: Seq<char>,
)
    requires
        first.is_for(mount_point, cache_base, backend, source),
        second.is_for(mount_point, cache_base, backend, source),
    ensures
        first.work_dir@ == second.work_dir@,
        first.mount_point@ == second.mount_point@,
{
}

/// Whether an environment gives one answer about a mount point, and one about
/// the cache directory, however often it is asked.
pub open spec fn steady<E: MountEnvironment>(env: &E, mount_point: Seq<u8>) -> bool {
    &&& forall|p: FsPath, q: FsPath, a: FsPath, b: FsPath|
        p@ == mount_point && q@ == mount_point && #[trigger] call_ensures(
            E::canonicalize_mount_point,
            (env, &p),
            Ok::<FsPath, String>(a),
        ) && #[trigger] call_ensures(
            E::canonicalize_mount_point,
            (env, &q),
            Ok::<FsPath, String>(b),
        ) ==> a@ == b@
    &&& forall|a: FsPath, b: FsPath| #[trigger]
        call_ensures(E::cache_base_dir, (env,), Ok::<FsPath, String>(a)) && #[trigger] call_ensures(
            E::cache_base_dir,
            (env,),
            Ok::<FsPath, String>(b),
        ) ==> a@ == b@
}

/// The environment of the process, as it was read, gives one answer.
pub proof fn law_std_environment_is_steady(env: StdMountEnvironment, mount_point: Seq<u8>)
    ensures
        steady(&env, mount_point),
{
}

/// One source at one mount point has one layout: nothing else flows into it.
pub proof fn law_one_source_has_one_layout<E: MountEnvironment>(
    env: &E,
    first_point: &FsPath,
    second_point: &FsPath,
    backend: Seq<char>,
    source: Seq<char>,
    first: MountLayout,
    second: MountLayout,
)
    requires
        steady(env, first_point@),
        first_point@ == second_point@,
        MountLayout::resolved(
            env,
            first_point,
            backend,
            source,
            Ok::<MountLayout, String>(first),
        ),
        MountLayout::resolved(
            env,
            second_point,
            backend,
            source,
            Ok::<MountLayout, String>(second),
        ),
    ensures
        first.mount_point@ == second.mount_point@,
        first.work_dir@ == second.work_dir@,
{
}

/// The hash of a mount has sixteen digits.
pub proof fn law_hash_has_sixteen_digits(
    backend: Seq<char>,
    source: Seq<char>,
    mount_point: Seq<u8>,
)
    ensures
        hash_text(backend, source, mount_point).len() == 16,
{
    let n = hash_of(backend, source, mount_point) as nat;
    assert(vstd::arithmetic::power::pow(16, 16) == 0x1_0000_0000_0000_0000) by {
        reveal_with_fuel(vstd::arithmetic::power::pow, 17);
    }
    lemma_hex_len(n, 16);
}

/// The work directory lies below the cache directory.
pub proof fn law_work_dir_lies_in_the_cache(
    cache_base: Seq<u8>,
    backend: Seq<char>,
    source: Seq<char>,
    mount_point: Seq<u8>,
)
    requires
        !absolute(encode_utf8(backend)),
    ensures
        within(work_dir_of(cache_base, backend, source, mount_point), cache_base),
{
    let name = "omnifuse"@;
    reveal_strlit("omnifuse");
    assert(vstd::utf8::is_ascii_chars(name));
    vstd::utf8::is_ascii_chars_encode_utf8(name);
    assert(encode_utf8(name)[0] == 'o' as u8);
    let a = joined_text(cache_base, name);
    let b = joined_text(a, backend);
    let hash = hash_text(backend, source, mount_point);
    let n = hash_of(backend, source, mount_point) as nat;
    lemma_hex_no_slash(n);
    assert(vstd::utf8::is_ascii_chars(hash));
    vstd::utf8::is_ascii_chars_encode_utf8(hash);
    assert(hash.len() > 0 && hash[0] != '/');
    assert(encode_utf8(hash)[0] == hash[0] as u8);
    let c = joined_text(b, hash);
    lemma_joined_is_within(cache_base, encode_utf8(name));
    lemma_joined_is_within(a, encode_utf8(backend));
    lemma_joined_is_within(b, encode_utf8(hash));
    lemma_within_is_a_preorder(c, b, a);
    lemma_within_is_a_preorder(c, a, cache_base);
}

/// A key stands for the backend and the source that it was made of.
pub proof fn law_key_names_its_source(backend: &'static str, identity: &str, key: CacheKey)
    requires
        call_ensures(CacheKey::new, (backend, identity), key),
    ensures
        key.backend_name() == backend@,
        key.source() == identity@,
{
}

/// A mount lies at its canonical mount point, and its backend works below the
/// cache directory in `omnifuse`, the name of the backend, and the hash of the
/// backend, the source and the mount point.
pub proof fn law_mount_is_placed(
    mount_point: FsPath,
    cache_base: &FsPath,
    key: &CacheKey,
    text: Seq<char>,
    r: MountLayout,
)
    requires
        call_ensures(MountLayout::place, (mount_point, cache_base, key), r),
    ensures
        r.mount_point@ == mount_point@,
        mount_point@ == encode_utf8(text) ==> r.work_dir@ == joined_text(
            joined_text(joined_text(cache_base@, "omnifuse"@), key.backend_name()),
            hex_padded(mount_hash(key.backend_name(), key.source(), text) as nat, 16),
        ),
        !valid_utf8(mount_point@) ==> r.work_dir@ == joined_text(
            joined_text(joined_text(cache_base@, "omnifuse"@), key.backend_name()),
            hex_padded(
                mount_bytes_hash(key.backend_name(), key.source(), mount_point@) as nat,
                16,
            ),
        ),
{
    vstd::utf8::encode_utf8_valid_utf8(text);
    encode_utf8_decode_utf8(text);
}

/// The layout is placed where the environment says the mount point and the cache
/// directory are. What the environment cannot say is its own error; that about
/// the mount point comes first.
pub proof fn law_layout_follows_the_environment<E: MountEnvironment>(
    env: &E,
    mount_point: &FsPath,
    key: &CacheKey,
    r: Result<MountLayout, String>,
)
    requires
        call_ensures(MountLayout::resolve::<E>, (env, mount_point, key), r),
    ensures
        r matches Ok(layout) ==> exists|canonical: FsPath, base: FsPath|
            {
                &&& #[trigger] call_ensures(
                    E::canonicalize_mount_point,
                    (env, mount_point),
                    Ok::<FsPath, String>(canonical),
                )
                &&& #[trigger] call_ensures(E::cache_base_dir, (env,), Ok::<FsPath, String>(base))
                &&& layout.mount_point@ == canonical@
                &&& layout.work_dir@ == joined_text(
                    joined_text(joined_text(base@, "omnifuse"@), key.backend_name()),
                    hex_padded(
                        hash_of(key.backend_name(), key.source(), canonical@) as nat,
                        16,
                    ),
                )
            },
        r matches Err(error) ==> call_ensures(
            E::canonicalize_mount_point,
            (env, mount_point),
            Err::<FsPath, String>(error),
        ) || call_ensures(E::cache_base_dir, (env,), Err::<FsPath, String>(error)),
{
    if let Ok(layout) = r {
        let (canonical, base) = choose|canonical: FsPath, base: FsPath|
            {
                &&& #[trigger] call_ensures(
                    E::canonicalize_mount_point,
                    (env, mount_point),
                    Ok::<FsPath, String>(canonical),
                )
                &&& #[trigger] call_ensures(E::cache_base_dir, (env,), Ok::<FsPath, String>(base))
                &&& layout.is_for(canonical@, base@, key.backend_name(), key.source())
            };
        assert(layout.is_for(canonical@, base@, key.backend_name(), key.source()));
    }
}

/// A copy of a layout is the layout.
pub proof fn law_layout_is_copied(layout: MountLayout, r: MountLayout)
    requires
        call_ensures(MountLayout::copy, (&layout,), r),
    ensures
        r.mount_point@ == layout.mount_point@,
        r.work_dir@ == layout.work_dir@,
{
}

} // verus!
