//! Preparation of mounts.
use std::sync::Arc;

use vstd::prelude::*;

use crate::config::{BufferConfig, FuseMountOptions, LoggingConfig, MountConfig, SyncConfig};
use crate::environment::{MountEnvironment, StdMountEnvironment};
use crate::mount_layout::{law_one_source_has_one_layout, steady, CacheKey, MountLayout};
use crate::paths::{joined_text, FsPath};
use crate::persistent_cache::FilesystemCache;
use crate::text::{
    ends, ends_with, find_from, first_place, join3, lemma_first_place_is, lower, occurs_at,
    push_lower, push_slice, slice_text, to_chars, trim, trimmed, trimmed_end, trimmed_start,
    white_space,
};

verus! {

/// Values that stand in where a request leaves something open.
#[derive(Debug, Clone)]
pub struct MountDefaults {
    /// Git branch.
    pub git_branch: String,
    /// Seconds between two polls of a Git remote.
    pub git_poll_interval_secs: u64,
    /// Seconds between two polls of a wiki.
    pub wiki_poll_interval_secs: u64,
    /// Seconds between two polls of an S3 bucket.
    pub s3_poll_interval_secs: u64,
    /// Maximum number of Git push retries.
    pub git_max_push_retries: u32,
    /// Maximum depth of a wiki tree.
    pub wiki_max_depth: u32,
    /// Maximum number of wiki pages that are fetched for the tree.
    pub wiki_max_pages: u32,
}

impl MountDefaults {
    /// Whether these are the usual values.
    pub open spec fn usual(self) -> bool {
        &&& self.git_branch@ == "main"@
        &&& self.git_poll_interval_secs == 30
        &&& self.wiki_poll_interval_secs == 60
        &&& self.s3_poll_interval_secs == 60
        &&& self.git_max_push_retries == 3
        &&& self.wiki_max_depth == 10
        &&& self.wiki_max_pages == 500
    }
}

impl Default for MountDefaults {
    fn default() -> (r: MountDefaults)
        ensures
            r.usual(),
    {
        MountDefaults {
            git_branch: "main".to_owned(),
            git_poll_interval_secs: 30,
            wiki_poll_interval_secs: 60,
            s3_poll_interval_secs: 60,
            git_max_push_retries: 3,
            wiki_max_depth: 10,
            wiki_max_pages: 500,
        }
    }
}

/// A request for a Git mount.
#[derive(Debug)]
pub struct GitMountArgs {
    /// Source URL or path of a local repository.
    pub source: String,
    /// Mount point.
    pub mount_point: FsPath,
    /// Branch.
    pub branch: Option<String>,
    /// Seconds between two polls.
    pub poll_interval_secs: Option<u64>,
    /// Whether other users have access.
    pub allow_other: bool,
    /// Whether the mount is read-only.
    pub read_only: bool,
}

/// A request for a wiki mount.
pub struct WikiMountArgs {
    /// Base URL of the wiki's interface.
    pub base_url: String,
    /// Root page.
    pub root_slug: String,
    /// Authentication token.
    pub auth_token: String,
    /// Organization.
    pub org_id: Option<String>,
    /// Mount point.
    pub mount_point: FsPath,
    /// Seconds between two polls.
    pub poll_interval_secs: Option<u64>,
    /// Whether other users have access.
    pub allow_other: bool,
    /// Whether the mount is read-only.
    pub read_only: bool,
}

/// A request for an S3 mount.
pub struct S3MountArgs {
    /// Bucket.
    pub bucket: String,
    /// Mount point.
    pub mount_point: FsPath,
    /// Prefix that is mounted as the root.
    pub prefix: Option<String>,
    /// Endpoint URL.
    pub endpoint: Option<String>,
    /// Region.
    pub region: Option<String>,
    /// Access key ID.
    pub access_key_id: Option<String>,
    /// Secret access key.
    pub secret_access_key: Option<String>,
    /// Session token.
    pub session_token: Option<String>,
    /// Whether the bucket is part of the host name.
    pub virtual_host_style: bool,
    /// Seconds between two polls.
    pub poll_interval_secs: Option<u64>,
    /// Whether other users have access.
    pub allow_other: bool,
    /// Whether the mount is read-only.
    pub read_only: bool,
}

/// What stands in place of a secret where a request is shown.
pub const REDACTED: &'static str = "<redacted>";

/// What is shown in place of a secret that may be missing.
pub fn redact(secret: &Option<String>) -> (r: Option<&'static str>)
    ensures
        match r {
            Some(shown) => secret is Some && shown@ == REDACTED@,
            None => secret is None,
        },
{
    match secret {
        Some(_) => Some(REDACTED),
        None => None,
    }
}

/// The characters of a text that may be missing.
pub open spec fn chars_of(text: Option<String>) -> Option<Seq<char>> {
    match text {
        Some(t) => Some(t@),
        None => None,
    }
}

/// The characters of what stands in place of a secret that may be missing.
pub open spec fn mask_of(shown: Option<&'static str>) -> Option<Seq<char>> {
    match shown {
        Some(t) => Some(t@),
        None => None,
    }
}

fn copy_text(text: &Option<String>) -> (r: Option<String>)
    ensures
        chars_of(r) == chars_of(*text),
{
    match text {
        Some(t) => Some(t.clone()),
        None => None,
    }
}

/// What is shown of a request for a wiki mount.
#[derive(Debug)]
pub struct ShownWikiArgs {
    /// Base URL of the wiki's interface.
    pub base_url: String,
    /// Root page.
    pub root_slug: String,
    /// What stands in place of the authentication token.
    pub auth_token: &'static str,
    /// Organization.
    pub org_id: Option<String>,
    /// Mount point.
    pub mount_point: FsPath,
    /// Seconds between two polls.
    pub poll_interval_secs: Option<u64>,
    /// Whether other users have access.
    pub allow_other: bool,
    /// Whether the mount is read-only.
    pub read_only: bool,
}

impl ShownWikiArgs {
    /// Whether this is shown of a request.
    pub open spec fn shows(self, args: WikiMountArgs) -> bool {
        &&& self.base_url@ == args.base_url@
        &&& self.root_slug@ == args.root_slug@
        &&& self.auth_token@ == REDACTED@
        &&& chars_of(self.org_id) == chars_of(args.org_id)
        &&& self.mount_point@ == args.mount_point@
        &&& self.poll_interval_secs == args.poll_interval_secs
        &&& self.allow_other == args.allow_other
        &&& self.read_only == args.read_only
    }

    /// Whether two requests look the same.
    pub open spec fn alike(self, other: ShownWikiArgs) -> bool {
        &&& self.base_url@ == other.base_url@
        &&& self.root_slug@ == other.root_slug@
        &&& self.auth_token@ == other.auth_token@
        &&& chars_of(self.org_id) == chars_of(other.org_id)
        &&& self.mount_point@ == other.mount_point@
        &&& self.poll_interval_secs == other.poll_interval_secs
        &&& self.allow_other == other.allow_other
        &&& self.read_only == other.read_only
    }
}

impl WikiMountArgs {
    /// What is shown of the request: all but the token.
    pub fn shown(&self) -> (r: ShownWikiArgs)
        ensures
            r.shows(*self),
    {
        ShownWikiArgs {
            base_url: self.base_url.clone(),
            root_slug: self.root_slug.clone(),
            auth_token: REDACTED,
            org_id: copy_text(&self.org_id),
            mount_point: self.mount_point.copy(),
            poll_interval_secs: self.poll_interval_secs,
            allow_other: self.allow_other,
            read_only: self.read_only,
        }
    }

    /// Whether two requests are the same but for the token.
    pub open spec fn same_but_token(self, other: WikiMountArgs) -> bool {
        &&& self.base_url@ == other.base_url@
        &&& self.root_slug@ == other.root_slug@
        &&& chars_of(self.org_id) == chars_of(other.org_id)
        &&& self.mount_point@ == other.mount_point@
        &&& self.poll_interval_secs == other.poll_interval_secs
        &&& self.allow_other == other.allow_other
        &&& self.read_only == other.read_only
    }
}

/// What is shown of a request for an S3 mount.
#[derive(Debug)]
pub struct ShownS3Args {
    /// Bucket.
    pub bucket: String,
    /// Mount point.
    pub mount_point: FsPath,
    /// Prefix that is mounted as the root.
    pub prefix: Option<String>,
    /// Endpoint URL.
    pub endpoint: Option<String>,
    /// Region.
    pub region: Option<String>,
    /// What stands in place of the access key ID.
    pub access_key_id: Option<&'static str>,
    /// What stands in place of the secret access key.
    pub secret_access_key: Option<&'static str>,
    /// What stands in place of the session token.
    pub session_token: Option<&'static str>,
    /// Whether the bucket is part of the host name.
    pub virtual_host_style: bool,
    /// Seconds between two polls.
    pub poll_interval_secs: Option<u64>,
    /// Whether other users have access.
    pub allow_other: bool,
    /// Whether the mount is read-only.
    pub read_only: bool,
}

/// What stands in place of a secret: always the same where there is one.
pub open spec fn masked(secret: Option<String>) -> Option<Seq<char>> {
    if secret is Some {
        Some(REDACTED@)
    } else {
        None
    }
}

impl ShownS3Args {
    /// Whether this is shown of a request.
    pub open spec fn shows(self, args: S3MountArgs) -> bool {
        &&& self.bucket@ == args.bucket@
        &&& self.mount_point@ == args.mount_point@
        &&& chars_of(self.prefix) == chars_of(args.prefix)
        &&& chars_of(self.endpoint) == chars_of(args.endpoint)
        &&& chars_of(self.region) == chars_of(args.region)
        &&& mask_of(self.access_key_id) == masked(args.access_key_id)
        &&& mask_of(self.secret_access_key) == masked(args.secret_access_key)
        &&& mask_of(self.session_token) == masked(args.session_token)
        &&& self.virtual_host_style == args.virtual_host_style
        &&& self.poll_interval_secs == args.poll_interval_secs
        &&& self.allow_other == args.allow_other
        &&& self.read_only == args.read_only
    }

    /// Whether two requests look the same.
    pub open spec fn alike(self, other: ShownS3Args) -> bool {
        &&& self.bucket@ == other.bucket@
        &&& self.mount_point@ == other.mount_point@
        &&& chars_of(self.prefix) == chars_of(other.prefix)
        &&& chars_of(self.endpoint) == chars_of(other.endpoint)
        &&& chars_of(self.region) == chars_of(other.region)
        &&& mask_of(self.access_key_id) == mask_of(other.access_key_id)
        &&& mask_of(self.secret_access_key) == mask_of(other.secret_access_key)
        &&& mask_of(self.session_token) == mask_of(other.session_token)
        &&& self.virtual_host_style == other.virtual_host_style
        &&& self.poll_interval_secs == other.poll_interval_secs
        &&& self.allow_other == other.allow_other
        &&& self.read_only == other.read_only
    }
}

impl S3MountArgs {
    /// What is shown of the request: of its credentials only whether they are
    /// there.
    pub fn shown(&self) -> (r: ShownS3Args)
        ensures
            r.shows(*self),
    {
        ShownS3Args {
            bucket: self.bucket.clone(),
            mount_point: self.mount_point.copy(),
            prefix: copy_text(&self.prefix),
            endpoint: copy_text(&self.endpoint),
            region: copy_text(&self.region),
            access_key_id: redact(&self.access_key_id),
            secret_access_key: redact(&self.secret_access_key),
            session_token: redact(&self.session_token),
            virtual_host_style: self.virtual_host_style,
            poll_interval_secs: self.poll_interval_secs,
            allow_other: self.allow_other,
            read_only: self.read_only,
        }
    }

    /// Whether two requests are the same but for what their credentials are.
    pub open spec fn same_but_credentials(self, other: S3MountArgs) -> bool {
        &&& self.bucket@ == other.bucket@
        &&& self.mount_point@ == other.mount_point@
        &&& chars_of(self.prefix) == chars_of(other.prefix)
        &&& chars_of(self.endpoint) == chars_of(other.endpoint)
        &&& chars_of(self.region) == chars_of(other.region)
        &&& self.access_key_id is Some == other.access_key_id is Some
        &&& self.secret_access_key is Some == other.secret_access_key is Some
        &&& self.session_token is Some == other.session_token is Some
        &&& self.virtual_host_style == other.virtual_host_style
        &&& self.poll_interval_secs == other.poll_interval_secs
        &&& self.allow_other == other.allow_other
        &&& self.read_only == other.read_only
    }
}

/// What is shown of a request for an S3 mount is the same for any credentials.
pub proof fn law_s3_credentials_are_not_shown(
    a: S3MountArgs,
    b: S3MountArgs,
    x: ShownS3Args,
    y: ShownS3Args,
)
    requires
        a.same_but_credentials(b),
        x.shows(a),
        y.shows(b),
    ensures
        x.alike(y),
{
}

/// What is shown of a request for a wiki mount is the same for any token.
pub proof fn law_wiki_token_is_not_shown(
    a: WikiMountArgs,
    b: WikiMountArgs,
    x: ShownWikiArgs,
    y: ShownWikiArgs,
)
    requires
        a.same_but_token(b),
        x.shows(a),
        y.shows(b),
    ensures
        x.alike(y),
{
}

/// Settings of the Git backend.
#[derive(Debug)]
pub struct GitConfig {
    /// Source URL or path of a local repository.
    pub source: String,
    /// Branch.
    pub branch: String,
    /// Maximum number of push retries.
    pub max_push_retries: u32,
    /// Seconds between two polls.
    pub poll_interval_secs: u64,
    /// Working copy.
    pub local_dir: FsPath,
}

/// Settings of the wiki backend.
pub struct WikiConfig {
    /// Base URL of the wiki's interface.
    pub base_url: String,
    /// Authentication token.
    pub auth_token: String,
    /// Organization.
    pub org_id: Option<String>,
    /// Root page.
    pub root_slug: String,
    /// Seconds between two polls.
    pub poll_interval_secs: u64,
    /// Maximum depth of the tree.
    pub max_depth: u32,
    /// Maximum number of pages that are fetched for the tree.
    pub max_pages: u32,
}

/// Settings of the S3 backend.
pub struct S3Config {
    /// Bucket.
    pub bucket: String,
    /// Prefix that is mounted as the root.
    pub prefix: String,
    /// Endpoint URL.
    pub endpoint: Option<String>,
    /// Region.
    pub region: Option<String>,
    /// Access key ID.
    pub access_key_id: Option<String>,
    /// Secret access key.
    pub secret_access_key: Option<String>,
    /// Session token.
    pub session_token: Option<String>,
    /// Whether the bucket is part of the host name.
    pub virtual_host_style: bool,
    /// Seconds between two polls.
    pub poll_interval_secs: u64,
}

/// Settings of a backend that can use the cache on disk, with that cache.
pub struct CachedBackend<C> {
    /// Settings.
    pub config: C,
    /// Cache, where there is one.
    pub cache: Option<Arc<FilesystemCache>>,
}

/// A mount that is ready to run.
pub struct PreparedMount<B> {
    /// Mount configuration.
    pub config: MountConfig,
    /// Backend.
    pub backend: B,
    /// Where the mount lies.
    pub layout: MountLayout,
}

/// Prepares mounts in an environment.
#[derive(Debug)]
pub struct MountService<E> {
    env: E,
    defaults: MountDefaults,
    cache: Option<Arc<FilesystemCache>>,
}

/// Whether a mount configuration is the one for a layout.
pub open spec fn config_for(
    config: MountConfig,
    layout: MountLayout,
    fs_name: Seq<char>,
    allow_other: bool,
    read_only: bool,
) -> bool {
    &&& config.mount_point@ == layout.mount_point@
    &&& config.local_dir@ == layout.work_dir@
    &&& config.sync == (SyncConfig {
        debounce_timeout_secs: 1,
        max_retry_attempts: 10,
        initial_backoff_ms: 100,
        max_backoff_secs: 30,
    })
    &&& config.buffer == (BufferConfig { max_memory_mb: 512, lru_eviction_enabled: true })
    &&& config.mount_options.fs_name@ == fs_name
    &&& config.mount_options.allow_other == allow_other
    &&& config.mount_options.read_only == read_only
    &&& config.logging.level@ == "info"@
    &&& config.logging.log_file is None
}

fn mount_config(layout: &MountLayout, fs_name: &str, allow_other: bool, read_only: bool) -> (r:
    MountConfig)
    ensures
        config_for(r, *layout, fs_name@, allow_other, read_only),
{
    MountConfig {
        mount_point: layout.mount_point.copy(),
        local_dir: layout.work_dir.copy(),
        sync: SyncConfig::default(),
        buffer: BufferConfig::default(),
        mount_options: FuseMountOptions { fs_name: fs_name.to_owned(), allow_other, read_only },
        logging: LoggingConfig::default(),
    }
}

/// The value of a setting, or its default.
pub open spec fn or_default(value: Option<u64>, default: u64) -> u64 {
    match value {
        Some(v) => v,
        None => default,
    }
}

fn value_or(value: Option<u64>, default: u64) -> (r: u64)
    ensures
        r == or_default(value, default),
{
    match value {
        Some(v) => v,
        None => default,
    }
}

/// The branch of a request.
pub open spec fn branch_of(args: GitMountArgs, defaults: MountDefaults) -> Seq<char> {
    match args.branch {
        Some(branch) => branch@,
        None => defaults.git_branch@,
    }
}

/// What a Git source and branch are known by.
pub open spec fn git_cache_identity(source: Seq<char>, branch: Seq<char>) -> Seq<char> {
    git_identity(source) + ":"@ + branch
}

/// Texts with a colon between them.
pub open spec fn colon_joined(parts: Seq<String>) -> Seq<char>
    decreases parts.len(),
{
    if parts.len() == 0 {
        Seq::empty()
    } else if parts.len() == 1 {
        parts[0]@
    } else {
        colon_joined(parts.drop_last()) + ":"@ + parts.last()@
    }
}

/// What a source is known by whose backend describes it in parts: all but the
/// first, with colons between them.
pub fn cache_identity(parts: &Vec<String>) -> (r: String)
    requires
        parts@.len() > 0,
    ensures
        r@ == colon_joined(parts@.skip(1)),
{
    let ghost rest = parts@.skip(1);
    let mut out = String::new();
    let mut i: usize = 1;
    assert(rest.take(0) =~= Seq::<String>::empty());
    while i < parts.len()
        invariant
            1 <= i <= parts@.len(),
            rest == parts@.skip(1),
            out@ == colon_joined(rest.take(i - 1)),
        decreases parts@.len() - i,
    {
        let ghost now = rest.take(i as int);
        assert(now.drop_last() =~= rest.take(i - 1));
        assert(now.last() == parts@[i as int]);
        if i > 1 {
            out.append(":");
        }
        out.append(parts[i].as_str());
        assert(out@ =~= colon_joined(now));
        i += 1;
    }
    assert(rest.take(i - 1) =~= rest);
    out
}

/// Whether a prepared Git mount is the one for a request and its layout.
pub open spec fn git_prepared(
    r: PreparedMount<GitConfig>,
    args: GitMountArgs,
    defaults: MountDefaults,
) -> bool {
    &&& config_for(r.config, r.layout, "omnifuse-git"@, args.allow_other, args.read_only)
    &&& r.backend.source@ == args.source@
    &&& r.backend.branch@ == branch_of(args, defaults)
    &&& r.backend.max_push_retries == defaults.git_max_push_retries
    &&& r.backend.poll_interval_secs == or_default(
        args.poll_interval_secs,
        defaults.git_poll_interval_secs,
    )
    &&& r.backend.local_dir@ == r.layout.work_dir@
}

/// Whether a prepared wiki mount is the one for a request and its layout.
pub open spec fn wiki_prepared(
    r: PreparedMount<CachedBackend<WikiConfig>>,
    args: WikiMountArgs,
    defaults: MountDefaults,
    cache: Option<Arc<FilesystemCache>>,
) -> bool {
    let config = r.backend.config;
    &&& config_for(r.config, r.layout, "omnifuse-wiki"@, args.allow_other, args.read_only)
    &&& config.base_url == args.base_url
    &&& config.auth_token == args.auth_token
    &&& config.org_id == args.org_id
    &&& config.root_slug == args.root_slug
    &&& config.poll_interval_secs == or_default(
        args.poll_interval_secs,
        defaults.wiki_poll_interval_secs,
    )
    &&& config.max_depth == defaults.wiki_max_depth
    &&& config.max_pages == defaults.wiki_max_pages
    &&& r.backend.cache == cache
}

/// Whether a prepared S3 mount is the one for a request and its layout.
pub open spec fn s3_prepared(
    r: PreparedMount<CachedBackend<S3Config>>,
    args: S3MountArgs,
    defaults: MountDefaults,
    cache: Option<Arc<FilesystemCache>>,
) -> bool {
    let config = r.backend.config;
    &&& config_for(r.config, r.layout, "omnifuse-s3"@, args.allow_other, args.read_only)
    &&& config.bucket == args.bucket
    &&& config.prefix@ == match args.prefix {
        Some(prefix) => prefix@,
        None => Seq::empty(),
    }
    &&& config.endpoint == args.endpoint
    &&& config.region == args.region
    &&& config.access_key_id == args.access_key_id
    &&& config.secret_access_key == args.secret_access_key
    &&& config.session_token == args.session_token
    &&& config.virtual_host_style == args.virtual_host_style
    &&& config.poll_interval_secs == or_default(
        args.poll_interval_secs,
        defaults.s3_poll_interval_secs,
    )
    &&& r.backend.cache == cache
}

impl MountService<StdMountEnvironment> {
    /// The directory of the cache that all mounts of a user share.
    pub fn default_cache_root(env: &StdMountEnvironment) -> (r: Result<FsPath, String>)
        ensures
            match r {
                Ok(root) => crate::environment::cache_base_of(
                    env.platform,
                    env.home,
                    env.xdg_cache_home,
                ) matches Ok(base) && root@ == joined_text(
                    joined_text(base, "omnifuse"@),
                    "cache"@,
                ),
                Err(message) => crate::environment::cache_base_of(
                    env.platform,
                    env.home,
                    env.xdg_cache_home,
                ) == Err::<Seq<u8>, Seq<char>>(message@),
            },
    {
        match env.cache_base_dir() {
            Ok(base) => Ok(base.join_text("omnifuse").join_text("cache")),
            Err(message) => Err(message),
        }
    }

    /// A service with the cache that all mounts of a user share, where it could
    /// be opened. The service fails only without a cache directory.
    pub fn with_default_cache(
        env: StdMountEnvironment,
        opened: Option<Arc<FilesystemCache>>,
    ) -> (r: Result<MountService<StdMountEnvironment>, String>)
        ensures
            match r {
                Ok(service) => {
                    &&& crate::environment::cache_base_of(
                        env.platform,
                        env.home,
                        env.xdg_cache_home,
                    ) is Ok
                    &&& service.environment() == env
                    &&& service.shared_cache() == opened
                    &&& service.fallbacks().usual()
                },
                Err(message) => crate::environment::cache_base_of(
                    env.platform,
                    env.home,
                    env.xdg_cache_home,
                ) == Err::<Seq<u8>, Seq<char>>(message@),
            },
    {
        match MountService::default_cache_root(&env) {
            Err(message) => Err(message),
            Ok(_) => {
                let service = MountService::new(env);
                match opened {
                    Some(cache) => Ok(service.with_cache(cache)),
                    None => Ok(service),
                }
            },
        }
    }
}

impl<E: MountEnvironment> MountService<E> {
    /// The environment.
    pub closed spec fn environment(&self) -> E {
        self.env
    }

    /// The defaults.
    pub closed spec fn fallbacks(&self) -> MountDefaults {
        self.defaults
    }

    /// The cache.
    pub closed spec fn shared_cache(&self) -> Option<Arc<FilesystemCache>> {
        self.cache
    }

    /// A service with the usual defaults.
    pub fn new(env: E) -> (r: MountService<E>)
        ensures
            r.environment() == env,
            r.fallbacks().usual(),
            r.shared_cache() is None,
    {
        MountService { env, defaults: MountDefaults::default(), cache: None }
    }

    /// A service with the given defaults.
    pub fn with_defaults(env: E, defaults: MountDefaults) -> (r: MountService<E>)
        ensures
            r.environment() == env,
            r.fallbacks() == defaults,
            r.shared_cache() is None,
    {
        MountService { env, defaults, cache: None }
    }

    /// The service with a cache for its backends.
    pub fn with_cache(self, cache: Arc<FilesystemCache>) -> (r: MountService<E>)
        ensures
            r.environment() == self.environment(),
            r.fallbacks() == self.fallbacks(),
            r.shared_cache() == Some(cache),
    {
        MountService { env: self.env, defaults: self.defaults, cache: Some(cache) }
    }

    /// The cache for backends, where there is one.
    pub fn cache(&self) -> (r: Option<&Arc<FilesystemCache>>)
        ensures
            match r {
                Some(cache) => self.shared_cache() == Some(*cache),
                None => self.shared_cache() is None,
            },
    {
        match &self.cache {
            Some(cache) => Some(cache),
            None => None,
        }
    }

    fn cache_handle(&self) -> (r: Option<Arc<FilesystemCache>>)
        ensures
            r == self.shared_cache(),
    {
        match &self.cache {
            Some(cache) => Some(Arc::clone(cache)),
            None => None,
        }
    }

    /// Whether this is what preparing a Git mount comes to.
    pub open spec fn prepares_git(
        &self,
        args: GitMountArgs,
        r: Result<PreparedMount<GitConfig>, String>,
    ) -> bool {
        match r {
            Ok(mount) => {
                &&& MountLayout::resolved(
                    &self.environment(),
                    &args.mount_point,
                    "git"@,
                    git_cache_identity(args.source@, branch_of(args, self.fallbacks())),
                    Ok::<MountLayout, String>(mount.layout),
                )
                &&& git_prepared(mount, args, self.fallbacks())
            },
            Err(error) => MountLayout::resolved(
                &self.environment(),
                &args.mount_point,
                "git"@,
                git_cache_identity(args.source@, branch_of(args, self.fallbacks())),
                Err::<MountLayout, String>(error),
            ),
        }
    }

    /// Whether this is what preparing a wiki mount comes to.
    pub open spec fn prepares_wiki(
        &self,
        args: WikiMountArgs,
        identity_parts: Seq<String>,
        r: Result<PreparedMount<CachedBackend<WikiConfig>>, String>,
    ) -> bool {
        match r {
            Ok(mount) => {
                &&& MountLayout::resolved(
                    &self.environment(),
                    &args.mount_point,
                    "wiki"@,
                    colon_joined(identity_parts.skip(1)),
                    Ok::<MountLayout, String>(mount.layout),
                )
                &&& wiki_prepared(mount, args, self.fallbacks(), self.shared_cache())
            },
            Err(error) => MountLayout::resolved(
                &self.environment(),
                &args.mount_point,
                "wiki"@,
                colon_joined(identity_parts.skip(1)),
                Err::<MountLayout, String>(error),
            ),
        }
    }

    /// Whether this is what preparing an S3 mount comes to.
    pub open spec fn prepares_s3(
        &self,
        args: S3MountArgs,
        identity_parts: Seq<String>,
        r: Result<PreparedMount<CachedBackend<S3Config>>, String>,
    ) -> bool {
        match r {
            Ok(mount) => {
                &&& MountLayout::resolved(
                    &self.environment(),
                    &args.mount_point,
                    "s3"@,
                    colon_joined(identity_parts.skip(1)),
                    Ok::<MountLayout, String>(mount.layout),
                )
                &&& s3_prepared(mount, args, self.fallbacks(), self.shared_cache())
            },
            Err(error) => MountLayout::resolved(
                &self.environment(),
                &args.mount_point,
                "s3"@,
                colon_joined(identity_parts.skip(1)),
                Err::<MountLayout, String>(error),
            ),
        }
    }

    /// Prepares a Git mount.
    pub fn prepare_git(&self, args: GitMountArgs) -> (r: Result<PreparedMount<GitConfig>, String>)
        ensures
            self.prepares_git(args, r),
    {
        let branch: String = match &args.branch {
            Some(branch) => branch.clone(),
            None => self.defaults.git_branch.clone(),
        };
        let poll_interval_secs: u64 = value_or(
            args.poll_interval_secs,
            self.defaults.git_poll_interval_secs,
        );
        let source_identity = normalize_git_source_identity(args.source.as_str());
        let identity = join3(source_identity.as_str(), ":", branch.as_str());
        let key = CacheKey::new("git", identity.as_str());
        match MountLayout::resolve(&self.env, &args.mount_point, &key) {
            Err(error) => Err(error),
            Ok(layout) => {
                let config = mount_config(
                    &layout,
                    "omnifuse-git",
                    args.allow_other,
                    args.read_only,
                );
                let backend = GitConfig {
                    source: args.source,
                    branch,
                    max_push_retries: self.defaults.git_max_push_retries,
                    poll_interval_secs,
                    local_dir: layout.work_dir.copy(),
                };
                Ok(PreparedMount { config, backend, layout })
            },
        }
    }

    /// Prepares a wiki mount. `identity_parts` is how the wiki backend describes
    /// the source; its first part names the backend.
    pub fn prepare_wiki(&self, args: WikiMountArgs, identity_parts: &Vec<String>) -> (r: Result<
        PreparedMount<CachedBackend<WikiConfig>>,
        String,
    >)
        requires
            identity_parts@.len() > 0,
        ensures
            self.prepares_wiki(args, identity_parts@, r),
    {
        let poll_interval_secs: u64 = value_or(
            args.poll_interval_secs,
            self.defaults.wiki_poll_interval_secs,
        );
        let identity = cache_identity(identity_parts);
        let key = CacheKey::new("wiki", identity.as_str());
        match MountLayout::resolve(&self.env, &args.mount_point, &key) {
            Err(error) => Err(error),
            Ok(layout) => {
                let config = mount_config(
                    &layout,
                    "omnifuse-wiki",
                    args.allow_other,
                    args.read_only,
                );
                let backend = CachedBackend {
                    config: WikiConfig {
                        base_url: args.base_url,
                        auth_token: args.auth_token,
                        org_id: args.org_id,
                        root_slug: args.root_slug,
                        poll_interval_secs,
                        max_depth: self.defaults.wiki_max_depth,
                        max_pages: self.defaults.wiki_max_pages,
                    },
                    cache: self.cache_handle(),
                };
                Ok(PreparedMount { config, backend, layout })
            },
        }
    }

    /// Prepares an S3 mount. `identity_parts` is how the S3 backend describes the
    /// source; its first part names the backend.
    pub fn prepare_s3(&self, args: S3MountArgs, identity_parts: &Vec<String>) -> (r: Result<
        PreparedMount<CachedBackend<S3Config>>,
        String,
    >)
        requires
            identity_parts@.len() > 0,
        ensures
            self.prepares_s3(args, identity_parts@, r),
    {
        let poll_interval_secs: u64 = value_or(
            args.poll_interval_secs,
            self.defaults.s3_poll_interval_secs,
        );
        let identity = cache_identity(identity_parts);
        let key = CacheKey::new("s3", identity.as_str());
        match MountLayout::resolve(&self.env, &args.mount_point, &key) {
            Err(error) => Err(error),
            Ok(layout) => {
                let config = mount_config(
                    &layout,
                    "omnifuse-s3",
                    args.allow_other,
                    args.read_only,
                );
                let prefix: String = match args.prefix {
                    Some(prefix) => prefix,
                    None => String::new(),
                };
                let backend = CachedBackend {
                    config: S3Config {
                        bucket: args.bucket,
                        prefix,
                        endpoint: args.endpoint,
                        region: args.region,
                        access_key_id: args.access_key_id,
                        secret_access_key: args.secret_access_key,
                        session_token: args.session_token,
                        virtual_host_style: args.virtual_host_style,
                        poll_interval_secs,
                    },
                    cache: self.cache_handle(),
                };
                Ok(PreparedMount { config, backend, layout })
            },
        }
    }
}

/// Two Git sources that are known by one identity get one layout, and each is
/// handed to the backend as it was given.
pub proof fn law_git_layout_goes_by_identity<E: MountEnvironment>(
    service: MountService<E>,
    a: GitMountArgs,
    b: GitMountArgs,
    p: PreparedMount<GitConfig>,
    q: PreparedMount<GitConfig>,
)
    requires
        steady(&service.environment(), a.mount_point@),
        a.mount_point@ == b.mount_point@,
        git_identity(a.source@) == git_identity(b.source@),
        branch_of(a, service.fallbacks()) == branch_of(b, service.fallbacks()),
        service.prepares_git(a, Ok(p)),
        service.prepares_git(b, Ok(q)),
    ensures
        p.layout.mount_point@ == q.layout.mount_point@,
        p.layout.work_dir@ == q.layout.work_dir@,
        p.backend.source@ == a.source@,
        q.backend.source@ == b.source@,
        p.config.mount_point@ == p.layout.mount_point@,
        p.config.local_dir@ == p.layout.work_dir@,
{
    law_one_source_has_one_layout(
        &service.environment(),
        &a.mount_point,
        &b.mount_point,
        "git"@,
        git_cache_identity(a.source@, branch_of(a, service.fallbacks())),
        p.layout,
        q.layout,
    );
}

/// The layout of a wiki mount goes by what the wiki is known by and the mount
/// point: no credential, interval or flag flows into it.
pub proof fn law_wiki_layout_holds_no_credential<E: MountEnvironment>(
    service: MountService<E>,
    a: WikiMountArgs,
    b: WikiMountArgs,
    identity_parts: Seq<String>,
    p: PreparedMount<CachedBackend<WikiConfig>>,
    q: PreparedMount<CachedBackend<WikiConfig>>,
)
    requires
        steady(&service.environment(), a.mount_point@),
        a.mount_point@ == b.mount_point@,
        service.prepares_wiki(a, identity_parts, Ok(p)),
        service.prepares_wiki(b, identity_parts, Ok(q)),
    ensures
        p.layout.mount_point@ == q.layout.mount_point@,
        p.layout.work_dir@ == q.layout.work_dir@,
        p.config.mount_point@ == p.layout.mount_point@,
        p.config.local_dir@ == p.layout.work_dir@,
{
    law_one_source_has_one_layout(
        &service.environment(),
        &a.mount_point,
        &b.mount_point,
        "wiki"@,
        colon_joined(identity_parts.skip(1)),
        p.layout,
        q.layout,
    );
}

/// The layout of an S3 mount goes by what the bucket is known by and the mount
/// point: no credential, interval or flag flows into it.
pub proof fn law_s3_layout_holds_no_credential<E: MountEnvironment>(
    service: MountService<E>,
    a: S3MountArgs,
    b: S3MountArgs,
    identity_parts: Seq<String>,
    p: PreparedMount<CachedBackend<S3Config>>,
    q: PreparedMount<CachedBackend<S3Config>>,
)
    requires
        steady(&service.environment(), a.mount_point@),
        a.mount_point@ == b.mount_point@,
        service.prepares_s3(a, identity_parts, Ok(p)),
        service.prepares_s3(b, identity_parts, Ok(q)),
    ensures
        p.layout.mount_point@ == q.layout.mount_point@,
        p.layout.work_dir@ == q.layout.work_dir@,
        p.config.mount_point@ == p.layout.mount_point@,
        p.config.local_dir@ == p.layout.work_dir@,
{
    law_one_source_has_one_layout(
        &service.environment(),
        &a.mount_point,
        &b.mount_point,
        "s3"@,
        colon_joined(identity_parts.skip(1)),
        p.layout,
        q.layout,
    );
}

/// The text without slashes at its end.
pub open spec fn without_slashes(s: Seq<char>) -> Seq<char>
    decreases s.len(),
{
    if s.len() > 0 && s.last() == '/' {
        without_slashes(s.drop_last())
    } else {
        s
    }
}

/// The text without slashes at its end; one made of slashes alone stays.
pub open spec fn slash_trimmed(s: Seq<char>) -> Seq<char> {
    if without_slashes(s).len() == 0 {
        s
    } else {
        without_slashes(s)
    }
}

/// The text without the suffix `.git`.
pub open spec fn git_trimmed(s: Seq<char>) -> Seq<char> {
    if ends(s, ".git"@) {
        s.take(s.len() - ".git"@.len())
    } else {
        s
    }
}

/// What a URL is known by: its scheme and authority in lower case.
pub open spec fn url_identity(scheme: Seq<char>, rest: Seq<char>) -> Seq<char> {
    lower(scheme) + "://"@ + match first_place(rest, "/"@, 0) {
        Some(j) => if j + "/"@.len() == rest.len() {
            lower(rest.take(j))
        } else {
            lower(rest.take(j)) + "/"@ + rest.skip((j + "/"@.len()) as int)
        },
        None => lower(rest),
    }
}

/// A user and a host, with the host in lower case.
pub open spec fn scp_identity(authority: Seq<char>) -> Seq<char> {
    match first_place(authority, "@"@, 0) {
        Some(j) => authority.take(j) + "@"@ + lower(authority.skip((j + "@"@.len()) as int)),
        None => lower(authority),
    }
}

/// What a source is known by once the white space, slashes and suffix at its
/// end are gone.
pub open spec fn bare_identity(s: Seq<char>) -> Seq<char> {
    match first_place(s, "://"@, 0) {
        Some(i) => url_identity(s.take(i), s.skip((i + "://"@.len()) as int)),
        None => match first_place(s, ":"@, 0) {
            Some(i) => if first_place(s.take(i), "@"@, 0) is Some {
                scp_identity(s.take(i)) + ":"@ + s.skip((i + ":"@.len()) as int)
            } else {
                s
            },
            None => s,
        },
    }
}

/// What a Git source is known by.
pub open spec fn git_identity(source: Seq<char>) -> Seq<char> {
    bare_identity(git_trimmed(slash_trimmed(trimmed(source))))
}

fn trim_slashes(chars: &[char]) -> (r: usize)
    ensures
        r <= chars@.len(),
        chars@.take(r as int) == slash_trimmed(chars@),
{
    let mut end: usize = chars.len();
    assert(chars@.take(end as int) =~= chars@);
    while end > 0 && chars[end - 1] == '/'
        invariant
            end <= chars@.len(),
            without_slashes(chars@) == without_slashes(chars@.take(end as int)),
        decreases end,
    {
        assert(chars@.take(end as int).drop_last() =~= chars@.take(end - 1));
        end -= 1;
    }
    assert(chars@.take(chars@.len() as int) =~= chars@);
    if end == 0 {
        chars.len()
    } else {
        end
    }
}

fn push_url_identity(chars: &[char], scheme_end: usize, rest_start: usize, out: &mut String)
    requires
        scheme_end <= rest_start <= chars@.len(),
    ensures
        final(out)@ == old(out)@ + url_identity(
            chars@.take(scheme_end as int),
            chars@.skip(rest_start as int),
        ),
{
    let slash = to_chars("/");
    let rest = slice_text(chars, rest_start, chars.len());
    let rest_chars = to_chars(rest.as_str());
    let ghost r = chars@.skip(rest_start as int);
    assert(rest_chars@ =~= r);
    assert(chars@.subrange(0, scheme_end as int) =~= chars@.take(scheme_end as int));
    push_lower(chars, 0, scheme_end, out);
    out.append("://");
    match find_from(&rest_chars, &slash, 0) {
        Some(j) => {
            assert(r.subrange(0, j as int) =~= r.take(j as int));
            push_lower(&rest_chars, 0, j, out);
            let after: usize = j + slash.len();
            if after != rest_chars.len() {
                out.append("/");
                assert(r.subrange(after as int, r.len() as int) =~= r.skip(after as int));
                push_slice(&rest_chars, after, rest_chars.len(), out);
            }
        },
        None => {
            assert(r.subrange(0, r.len() as int) =~= r);
            push_lower(&rest_chars, 0, rest_chars.len(), out);
        },
    }
    assert(out@ =~= old(out)@ + url_identity(chars@.take(scheme_end as int), r));
}

fn push_scp_identity(chars: &[char], at: usize, colon: usize, out: &mut String)
    requires
        at < colon <= chars@.len(),
        first_place(chars@.take(colon as int), "@"@, 0) == Some(at as int),
        at + "@"@.len() <= colon,
    ensures
        final(out)@ == old(out)@ + scp_identity(chars@.take(colon as int)),
{
    let sign = to_chars("@");
    let ghost a = chars@.take(colon as int);
    assert(chars@.subrange(0, at as int) =~= a.take(at as int));
    push_slice(chars, 0, at, out);
    out.append("@");
    assert(chars@.subrange(at + sign@.len(), colon as int) =~= a.skip(at + sign@.len()));
    push_lower(chars, at + sign.len(), colon, out);
    assert(out@ =~= old(out)@ + scp_identity(a));
}

/// What a Git source is known by: white space around it, slashes and `.git` at
/// its end, and the case of the scheme and the host do not count.
pub fn normalize_git_source_identity(source: &str) -> (r: String)
    ensures
        r@ == git_identity(source@),
{
    let text = trim(source);
    let all = to_chars(text.as_str());
    let mut end: usize = trim_slashes(&all);
    let without = slice_text(&all, 0, end);
    let chars = to_chars(without.as_str());
    assert(chars@ =~= slash_trimmed(trimmed(source@)));
    let suffix = to_chars(".git");
    end = chars.len();
    if ends_with(&chars, &suffix) {
        end = chars.len() - suffix.len();
    }
    let bare = slice_text(&chars, 0, end);
    let s = to_chars(bare.as_str());
    assert(s@ =~= git_trimmed(chars@));
    let mut out = String::new();
    let scheme_mark = to_chars("://");
    match find_from(&s, &scheme_mark, 0) {
        Some(i) => {
            push_url_identity(&s, i, i + scheme_mark.len(), &mut out);
            assert(out@ =~= bare_identity(s@));
            return out;
        },
        None => {},
    }
    let colon = to_chars(":");
    match find_from(&s, &colon, 0) {
        Some(i) => {
            let sign = to_chars("@");
            let head = slice_text(&s, 0, i);
            let head_chars = to_chars(head.as_str());
            assert(head_chars@ =~= s@.take(i as int));
            match find_from(&head_chars, &sign, 0) {
                Some(j) => {
                    proof {
                        reveal_strlit("@");
                    }
                    push_scp_identity(&s, j, i, &mut out);
                    out.append(":");
                    assert(s@.subrange(i + colon@.len(), s@.len() as int) =~= s@.skip(
                        i + colon@.len(),
                    ));
                    push_slice(&s, i + colon.len(), s.len(), &mut out);
                    assert(out@ =~= bare_identity(s@));
                    return out;
                },
                None => {},
            }
        },
        None => {},
    }
    bare
}

proof fn lemma_trimmed(s: Seq<char>)
    ensures
        trimmed_start(s).len() <= s.len(),
        trimmed_end(s).len() <= s.len(),
    decreases s.len(),
{
    if s.len() > 0 {
        lemma_trimmed(s.drop_first());
        lemma_trimmed(s.drop_last());
    }
}

/// A text that is trimmed does not start with white space.
proof fn lemma_trimmed_first(s: Seq<char>)
    requires
        trimmed(s) == s,
        s.len() > 0,
    ensures
        !white_space(s[0]),
{
    if white_space(s[0]) {
        lemma_trimmed(s.drop_first());
        lemma_trimmed(trimmed_start(s));
    }
}

/// A slash at the end of a source does not count.
pub proof fn law_identity_ignores_trailing_slash(s: Seq<char>)
    requires
        trimmed(s) == s,
        without_slashes(s).len() > 0,
    ensures
        git_identity(s.push('/')) == git_identity(s),
{
    let t = s.push('/');
    lemma_without_slashes(s);
    lemma_trimmed_first(s);
    assert(t[0] == s[0]);
    assert(trimmed(t) == t);
    assert(t.drop_last() =~= s);
}

proof fn lemma_without_slashes(s: Seq<char>)
    ensures
        without_slashes(s).len() <= s.len(),
    decreases s.len(),
{
    if s.len() > 0 {
        lemma_without_slashes(s.drop_last());
    }
}

/// The suffix `.git` does not count.
pub proof fn law_identity_ignores_git_suffix(s: Seq<char>)
    requires
        trimmed(s) == s,
        without_slashes(s) == s,
        s.len() > 0,
        !ends(s, ".git"@),
    ensures
        git_identity(s + ".git"@) == git_identity(s),
{
    reveal_strlit(".git");
    let t = s + ".git"@;
    lemma_trimmed_first(s);
    assert(t[0] == s[0]);
    assert(t.last() == 't');
    assert(trimmed(t) == t);
    assert(slash_trimmed(t) == t);
    assert(t.subrange(t.len() - 4, t.len() as int) =~= ".git"@);
    assert(t.take(t.len() - 4) =~= s);
}

/// The case of the scheme and the host of a URL does not count.
pub proof fn law_identity_ignores_host_case(
    scheme1: Seq<char>,
    host1: Seq<char>,
    scheme2: Seq<char>,
    host2: Seq<char>,
    path: Seq<char>,
)
    requires
        lower(scheme1) == lower(scheme2),
        lower(host1) == lower(host2),
        !host1.contains('/'),
        !host2.contains('/'),
    ensures
        url_identity(scheme1, host1 + "/"@ + path) == url_identity(scheme2, host2 + "/"@ + path),
{
    lemma_host_end(host1, path);
    lemma_host_end(host2, path);
    assert(lower(host1).len() == host1.len());
    assert(lower(host2).len() == host2.len());
}

proof fn lemma_host_end(host: Seq<char>, path: Seq<char>)
    requires
        !host.contains('/'),
    ensures
        first_place(host + "/"@ + path, "/"@, 0) == Some(host.len() as int),
        (host + "/"@ + path).take(host.len() as int) == host,
        (host + "/"@ + path).skip((host.len() + "/"@.len()) as int) == path,
{
    reveal_strlit("/");
    let rest = host + "/"@ + path;
    assert(rest.subrange(host.len() as int, (host.len() + 1) as int) =~= "/"@);
    assert forall|j: int| 0 <= j < host.len() implies !occurs_at(rest, "/"@, j) by {
        if occurs_at(rest, "/"@, j) {
            assert(rest.subrange(j, j + 1)[0] == '/');
            assert(host[j] == '/');
        }
    }
    lemma_first_place_is(rest, "/"@, 0, host.len() as int);
    assert(rest.take(host.len() as int) =~= host);
    assert(rest.skip((host.len() + "/"@.len()) as int) =~= path);
}

/// The usual values of what a request leaves open, and that a service has them
/// unless it is given others.
pub proof fn law_usual_defaults<E: MountEnvironment>(
    defaults: MountDefaults,
    env: E,
    service: MountService<E>,
    given: MountService<E>,
    cache: Arc<FilesystemCache>,
    cached: MountService<E>,
)
    requires
        call_ensures(MountDefaults::default, (), defaults),
        call_ensures(MountService::<E>::new, (env,), service),
        call_ensures(MountService::<E>::with_defaults, (env, defaults), given),
        call_ensures(MountService::<E>::with_cache, (service, cache), cached),
    ensures
        defaults.git_branch@ == "main"@,
        defaults.git_poll_interval_secs == 30,
        defaults.wiki_poll_interval_secs == 60,
        defaults.s3_poll_interval_secs == 60,
        defaults.git_max_push_retries == 3,
        defaults.wiki_max_depth == 10,
        defaults.wiki_max_pages == 500,
        service.fallbacks().git_branch@ == "main"@,
        service.fallbacks().git_poll_interval_secs == 30,
        service.fallbacks().wiki_poll_interval_secs == 60,
        service.fallbacks().s3_poll_interval_secs == 60,
        service.fallbacks().git_max_push_retries == 3,
        service.fallbacks().wiki_max_depth == 10,
        service.fallbacks().wiki_max_pages == 500,
        service.environment() == env,
        service.shared_cache() is None,
        given.environment() == env,
        given.fallbacks() == defaults,
        given.shared_cache() is None,
        cached.environment() == env,
        cached.fallbacks() == service.fallbacks(),
        cached.shared_cache() == Some(cache),
{
}

/// A Git mount is prepared for the branch that the request names, and for the
/// default branch only where it names none: that branch is handed to the backend,
/// and the layout is the one of the source's identity, a colon and that branch.
pub proof fn law_git_mount_has_the_branch_asked_for<E: MountEnvironment>(
    service: MountService<E>,
    args: GitMountArgs,
    source: &str,
    identity: String,
    branch: Seq<char>,
    r: Result<PreparedMount<GitConfig>, String>,
)
    requires
        call_ensures(MountService::<E>::prepare_git, (&service, args), r),
        source@ == args.source@,
        call_ensures(normalize_git_source_identity, (source,), identity),
        args.branch matches Some(named) ==> branch == named@,
        args.branch is None ==> branch == service.fallbacks().git_branch@,
    ensures
        match r {
            Ok(mount) => mount.backend.branch@ == branch && MountLayout::resolved(
                &service.environment(),
                &args.mount_point,
                "git"@,
                identity@ + ":"@ + branch,
                Ok::<MountLayout, String>(mount.layout),
            ),
            Err(error) => MountLayout::resolved(
                &service.environment(),
                &args.mount_point,
                "git"@,
                identity@ + ":"@ + branch,
                Err::<MountLayout, String>(error),
            ),
        },
{
}

/// A Git mount is prepared as the request says: with its source, its interval or
/// else the default, its flags, and a working copy in the layout's directory.
pub proof fn law_git_mount_is_as_asked_for<E: MountEnvironment>(
    service: MountService<E>,
    args: GitMountArgs,
    mount: PreparedMount<GitConfig>,
)
    requires
        call_ensures(
            MountService::<E>::prepare_git,
            (&service, args),
            Ok::<PreparedMount<GitConfig>, String>(mount),
        ),
    ensures
        mount.backend.source@ == args.source@,
        mount.backend.local_dir@ == mount.layout.work_dir@,
        mount.backend.max_push_retries == service.fallbacks().git_max_push_retries,
        args.poll_interval_secs matches Some(secs) ==> mount.backend.poll_interval_secs == secs,
        args.poll_interval_secs is None ==> mount.backend.poll_interval_secs
            == service.fallbacks().git_poll_interval_secs,
        mount.config.mount_point@ == mount.layout.mount_point@,
        mount.config.local_dir@ == mount.layout.work_dir@,
        mount.config.mount_options.fs_name@ == "omnifuse-git"@,
        mount.config.sync.debounce_timeout_secs == 1,
        mount.config.sync.max_retry_attempts == 10,
        mount.config.sync.initial_backoff_ms == 100,
        mount.config.sync.max_backoff_secs == 30,
        mount.config.buffer.max_memory_mb == 512,
        mount.config.buffer.lru_eviction_enabled,
        mount.config.logging.level@ == "info"@,
        mount.config.logging.log_file is None,
        mount.config.mount_options.allow_other == args.allow_other,
        mount.config.mount_options.read_only == args.read_only,
{
}

/// A wiki mount is prepared as the request says, in the layout of what the wiki
/// is known by, with the cache of the service.
pub proof fn law_wiki_mount_is_as_asked_for<E: MountEnvironment>(
    service: MountService<E>,
    args: WikiMountArgs,
    identity_parts: &Vec<String>,
    identity: String,
    mount: PreparedMount<CachedBackend<WikiConfig>>,
)
    requires
        call_ensures(
            MountService::<E>::prepare_wiki,
            (&service, args, identity_parts),
            Ok::<PreparedMount<CachedBackend<WikiConfig>>, String>(mount),
        ),
        call_ensures(cache_identity, (identity_parts,), identity),
    ensures
        MountLayout::resolved(
            &service.environment(),
            &args.mount_point,
            "wiki"@,
            identity@,
            Ok::<MountLayout, String>(mount.layout),
        ),
        mount.backend.config.base_url@ == args.base_url@,
        mount.backend.config.auth_token@ == args.auth_token@,
        mount.backend.config.org_id == args.org_id,
        mount.backend.config.root_slug@ == args.root_slug@,
        args.poll_interval_secs matches Some(secs) ==> mount.backend.config.poll_interval_secs
            == secs,
        args.poll_interval_secs is None ==> mount.backend.config.poll_interval_secs
            == service.fallbacks().wiki_poll_interval_secs,
        mount.backend.config.max_depth == service.fallbacks().wiki_max_depth,
        mount.backend.config.max_pages == service.fallbacks().wiki_max_pages,
        mount.backend.cache == service.shared_cache(),
        mount.config.mount_point@ == mount.layout.mount_point@,
        mount.config.local_dir@ == mount.layout.work_dir@,
        mount.config.mount_options.fs_name@ == "omnifuse-wiki"@,
        mount.config.sync.debounce_timeout_secs == 1,
        mount.config.sync.max_retry_attempts == 10,
        mount.config.sync.initial_backoff_ms == 100,
        mount.config.sync.max_backoff_secs == 30,
        mount.config.buffer.max_memory_mb == 512,
        mount.config.buffer.lru_eviction_enabled,
        mount.config.logging.level@ == "info"@,
        mount.config.logging.log_file is None,
        mount.config.mount_options.allow_other == args.allow_other,
        mount.config.mount_options.read_only == args.read_only,
{
}

/// An S3 mount is prepared as the request says, in the layout of what the bucket
/// is known by, with the cache of the service. A missing prefix is the empty one.
pub proof fn law_s3_mount_is_as_asked_for<E: MountEnvironment>(
    service: MountService<E>,
    args: S3MountArgs,
    identity_parts: &Vec<String>,
    identity: String,
    mount: PreparedMount<CachedBackend<S3Config>>,
)
    requires
        call_ensures(
            MountService::<E>::prepare_s3,
            (&service, args, identity_parts),
            Ok::<PreparedMount<CachedBackend<S3Config>>, String>(mount),
        ),
        call_ensures(cache_identity, (identity_parts,), identity),
    ensures
        MountLayout::resolved(
            &service.environment(),
            &args.mount_point,
            "s3"@,
            identity@,
            Ok::<MountLayout, String>(mount.layout),
        ),
        mount.backend.config.bucket@ == args.bucket@,
        args.prefix matches Some(prefix) ==> mount.backend.config.prefix@ == prefix@,
        args.prefix is None ==> mount.backend.config.prefix@.len() == 0,
        mount.backend.config.endpoint == args.endpoint,
        mount.backend.config.region == args.region,
        mount.backend.config.access_key_id == args.access_key_id,
        mount.backend.config.secret_access_key == args.secret_access_key,
        mount.backend.config.session_token == args.session_token,
        mount.backend.config.virtual_host_style == args.virtual_host_style,
        args.poll_interval_secs matches Some(secs) ==> mount.backend.config.poll_interval_secs
            == secs,
        args.poll_interval_secs is None ==> mount.backend.config.poll_interval_secs
            == service.fallbacks().s3_poll_interval_secs,
        mount.backend.cache == service.shared_cache(),
        mount.config.mount_point@ == mount.layout.mount_point@,
        mount.config.local_dir@ == mount.layout.work_dir@,
        mount.config.mount_options.fs_name@ == "omnifuse-s3"@,
        mount.config.sync.debounce_timeout_secs == 1,
        mount.config.sync.max_retry_attempts == 10,
        mount.config.sync.initial_backoff_ms == 100,
        mount.config.sync.max_backoff_secs == 30,
        mount.config.buffer.max_memory_mb == 512,
        mount.config.buffer.lru_eviction_enabled,
        mount.config.logging.level@ == "info"@,
        mount.config.logging.log_file is None,
        mount.config.mount_options.allow_other == args.allow_other,
        mount.config.mount_options.read_only == args.read_only,
{
}

/// A mount cannot be prepared exactly where its layout cannot be resolved, and
/// then the error is that of the layout.
pub proof fn law_errors_of_the_layout_are_handed_on<E: MountEnvironment>(
    service: MountService<E>,
    wiki: WikiMountArgs,
    s3: S3MountArgs,
    identity_parts: &Vec<String>,
    identity: String,
    wiki_error: String,
    s3_error: String,
)
    requires
        call_ensures(
            MountService::<E>::prepare_wiki,
            (&service, wiki, identity_parts),
            Err::<PreparedMount<CachedBackend<WikiConfig>>, String>(wiki_error),
        ),
        call_ensures(
            MountService::<E>::prepare_s3,
            (&service, s3, identity_parts),
            Err::<PreparedMount<CachedBackend<S3Config>>, String>(s3_error),
        ),
        call_ensures(cache_identity, (identity_parts,), identity),
    ensures
        MountLayout::resolved(
            &service.environment(),
            &wiki.mount_point,
            "wiki"@,
            identity@,
            Err::<MountLayout, String>(wiki_error),
        ),
        MountLayout::resolved(
            &service.environment(),
            &s3.mount_point,
            "s3"@,
            identity@,
            Err::<MountLayout, String>(s3_error),
        ),
{
}

/// What a source is known by names every part but the first: one more part comes
/// behind a colon, unless it is the first that counts.
pub proof fn law_every_part_is_named(
    parts: &Vec<String>,
    more: &Vec<String>,
    part: String,
    identity: String,
    longer: String,
)
    requires
        parts@.len() > 0,
        more@ == parts@.push(part),
        call_ensures(cache_identity, (parts,), identity),
        call_ensures(cache_identity, (more,), longer),
    ensures
        parts@.len() == 1 ==> identity@.len() == 0 && longer@ == part@,
        parts@.len() > 1 ==> longer@ == identity@ + ":"@ + part@,
{
    assert(more@.skip(1) =~= parts@.skip(1).push(part));
    assert(more@.skip(1).drop_last() =~= parts@.skip(1));
}

/// What is shown of a request for a wiki mount is all of it but the token.
pub proof fn law_wiki_request_is_shown(args: WikiMountArgs, r: ShownWikiArgs)
    requires
        call_ensures(WikiMountArgs::shown, (&args,), r),
    ensures
        r.auth_token@ == "<redacted>"@,
        r.base_url@ == args.base_url@,
        r.root_slug@ == args.root_slug@,
        r.org_id is Some <==> args.org_id is Some,
        r.org_id is Some ==> r.org_id->0@ == args.org_id->0@,
        r.mount_point@ == args.mount_point@,
        r.poll_interval_secs == args.poll_interval_secs,
        r.allow_other == args.allow_other,
        r.read_only == args.read_only,
{
}

/// What is shown of a request for an S3 mount is all of it but the credentials,
/// of which only is shown whether they are there.
pub proof fn law_s3_request_is_shown(args: S3MountArgs, r: ShownS3Args)
    requires
        call_ensures(S3MountArgs::shown, (&args,), r),
    ensures
        r.access_key_id is Some <==> args.access_key_id is Some,
        r.access_key_id is Some ==> r.access_key_id->0@ == "<redacted>"@,
        r.secret_access_key is Some <==> args.secret_access_key is Some,
        r.secret_access_key is Some ==> r.secret_access_key->0@ == "<redacted>"@,
        r.session_token is Some <==> args.session_token is Some,
        r.session_token is Some ==> r.session_token->0@ == "<redacted>"@,
        r.bucket@ == args.bucket@,
        r.mount_point@ == args.mount_point@,
        r.prefix is Some <==> args.prefix is Some,
        r.prefix is Some ==> r.prefix->0@ == args.prefix->0@,
        r.endpoint is Some <==> args.endpoint is Some,
        r.endpoint is Some ==> r.endpoint->0@ == args.endpoint->0@,
        r.region is Some <==> args.region is Some,
        r.region is Some ==> r.region->0@ == args.region->0@,
        r.virtual_host_style == args.virtual_host_style,
        r.poll_interval_secs == args.poll_interval_secs,
        r.allow_other == args.allow_other,
        r.read_only == args.read_only,
{
}

/// Whether a source is written plainly: without white space around it, slashes
/// or `.git` at its end.
pub open spec fn plainly_written(s: Seq<char>) -> bool {
    &&& s.len() > 0
    &&& !white_space(s[0])
    &&& !white_space(s.last())
    &&& s.last() != '/'
    &&& !(s.len() >= 4 && s.skip(s.len() - 4) == seq!['.', 'g', 'i', 't'])
}

proof fn lemma_plainly_written(s: Seq<char>)
    requires
        plainly_written(s),
    ensures
        git_identity(s) == bare_identity(s),
{
    reveal_strlit(".git");
    assert(trimmed(s) == s);
    assert(without_slashes(s) == s);
    if s.len() >= 4 {
        assert(s.subrange(s.len() - 4, s.len() as int) =~= s.skip(s.len() - 4));
        assert(".git"@ =~= seq!['.', 'g', 'i', 't']);
    }
}

/// A URL is known by its scheme and host in lower case and its path as it is.
pub proof fn law_url_keeps_its_path(
    source: &str,
    scheme: Seq<char>,
    host: Seq<char>,
    path: Seq<char>,
    r: String,
)
    requires
        call_ensures(normalize_git_source_identity, (source,), r),
        source@ == scheme + "://"@ + host + "/"@ + path,
        plainly_written(source@),
        !scheme.contains(':'),
        !host.contains('/'),
        path.len() > 0,
    ensures
        r@ == lower(scheme) + "://"@ + lower(host) + "/"@ + path,
{
    reveal_strlit("://");
    reveal_strlit("/");
    lemma_plainly_written(source@);
    let s = source@;
    let n = scheme.len() as int;
    let rest = host + "/"@ + path;
    assert(s.subrange(n, n + 3) =~= "://"@);
    assert forall|j: int| 0 <= j < n implies !occurs_at(s, "://"@, j) by {
        if occurs_at(s, "://"@, j) {
            assert(s.subrange(j, j + 3)[0] == ':');
            assert(scheme[j] == ':');
        }
    }
    lemma_first_place_is(s, "://"@, 0, n);
    assert(s.take(n) =~= scheme);
    assert(s.skip(n + 3) =~= rest);
    lemma_host_end(host, path);
    assert(r@ =~= lower(scheme) + "://"@ + lower(host) + "/"@ + path);
}

/// A source of the form `user@host:path` is known by its host in lower case and
/// its user and path as they are.
pub proof fn law_remote_shell_source_keeps_its_path(
    source: &str,
    user: Seq<char>,
    host: Seq<char>,
    path: Seq<char>,
    r: String,
)
    requires
        call_ensures(normalize_git_source_identity, (source,), r),
        source@ == user + "@"@ + host + ":"@ + path,
        plainly_written(source@),
        !user.contains(':'),
        !user.contains('@'),
        !host.contains(':'),
        forall|i: int|
            0 <= i <= source@.len() - 3 ==> #[trigger] source@.subrange(i, i + 3) != "://"@,
    ensures
        r@ == user + "@"@ + lower(host) + ":"@ + path,
{
    reveal_strlit("://");
    reveal_strlit(":");
    reveal_strlit("@");
    lemma_plainly_written(source@);
    let s = source@;
    crate::text::lemma_first_place(s, "://"@, 0);
    if let Some(i) = first_place(s, "://"@, 0) {
        assert(s.subrange(i, i + 3) == "://"@);
    }
    let head = user + "@"@ + host;
    let n = head.len() as int;
    assert(s.subrange(n, n + 1) =~= ":"@);
    assert forall|j: int| 0 <= j < n implies !occurs_at(s, ":"@, j) by {
        if occurs_at(s, ":"@, j) {
            assert(s.subrange(j, j + 1)[0] == ':');
            assert(head[j] == ':');
            if j < user.len() {
                assert(user[j] == ':');
            } else if j > user.len() {
                assert(host[j - user.len() - 1] == ':');
            }
        }
    }
    lemma_first_place_is(s, ":"@, 0, n);
    assert(s.take(n) =~= head);
    assert(s.skip(n + 1) =~= path);
    let u = user.len() as int;
    assert(head.subrange(u, u + 1) =~= "@"@);
    assert forall|j: int| 0 <= j < u implies !occurs_at(head, "@"@, j) by {
        if occurs_at(head, "@"@, j) {
            assert(head.subrange(j, j + 1)[0] == '@');
            assert(user[j] == '@');
        }
    }
    lemma_first_place_is(head, "@"@, 0, u);
    assert(head.take(u) =~= user);
    assert(head.skip(u + 1) =~= host);
    assert(r@ =~= user + "@"@ + lower(host) + ":"@ + path);
}

/// A source without a colon, such as a local path, is known by itself.
pub proof fn law_local_source_is_known_by_itself(source: &str, r: String)
    requires
        call_ensures(normalize_git_source_identity, (source,), r),
        plainly_written(source@),
        !source@.contains(':'),
    ensures
        r@ == source@,
{
    reveal_strlit("://");
    reveal_strlit(":");
    lemma_plainly_written(source@);
    let s = source@;
    crate::text::lemma_first_place(s, "://"@, 0);
    crate::text::lemma_first_place(s, ":"@, 0);
    if let Some(i) = first_place(s, "://"@, 0) {
        assert(s.subrange(i, i + 3)[0] == ':');
        assert(s[i] == ':');
    }
    if let Some(i) = first_place(s, ":"@, 0) {
        assert(s.subrange(i, i + 1)[0] == ':');
        assert(s[i] == ':');
    }
}

/// White space around a source, slashes behind it and then `.git` do not count:
/// what is left of them is what the source is known by.
pub proof fn law_source_is_known_without_its_trimmings(
    source: &str,
    plain: &str,
    r: String,
    p: String,
)
    requires
        call_ensures(normalize_git_source_identity, (source,), r),
        call_ensures(normalize_git_source_identity, (plain,), p),
        plainly_written(plain@),
        source@ == plain@ + seq!['/'] || source@ == plain@ + seq![' '] || source@ == seq![' ']
            + plain@ || source@ == plain@ + ".git"@,
    ensures
        r@ == p@,
{
    let s = plain@;
    lemma_plainly_written(s);
    assert(trimmed(s) == s);
    assert(without_slashes(s) == s);
    reveal_strlit(".git");
    if s.len() >= 4 {
        assert(s.subrange(s.len() - 4, s.len() as int) =~= s.skip(s.len() - 4));
        assert(".git"@ =~= seq!['.', 'g', 'i', 't']);
    }
    if source@ == s + seq!['/'] {
        assert(source@ =~= s.push('/'));
        law_identity_ignores_trailing_slash(s);
    } else if source@ == s + ".git"@ {
        law_identity_ignores_git_suffix(s);
    } else if source@ == s + seq![' '] {
        let t = s.push(' ');
        assert(source@ =~= t);
        assert(t[0] == s[0]);
        assert(trimmed_start(t) == t);
        assert(t.drop_last() =~= s);
        assert(trimmed_end(t) == trimmed_end(s));
    } else {
        assert(source@[0] == ' ');
        assert(source@.drop_first() =~= s);
        assert(trimmed_start(source@) == trimmed_start(s));
    }
}

/// The cache that all mounts of a user share lies in `omnifuse/cache` below the
/// cache directory; a service gets it where it could be opened, and there is no
/// service only where there is no cache directory.
pub proof fn law_shared_cache_has_its_place(
    env: StdMountEnvironment,
    base: Result<FsPath, String>,
    root: Result<FsPath, String>,
    opened: Option<Arc<FilesystemCache>>,
    r: Result<MountService<StdMountEnvironment>, String>,
)
    requires
        call_ensures(StdMountEnvironment::cache_base_dir, (&env,), base),
        call_ensures(MountService::<StdMountEnvironment>::default_cache_root, (&env,), root),
        call_ensures(
            MountService::<StdMountEnvironment>::with_default_cache,
            (env, opened),
            r,
        ),
    ensures
        root is Ok <==> base is Ok,
        root matches Ok(dir) ==> dir@ == joined_text(
            joined_text(base->Ok_0@, "omnifuse"@),
            "cache"@,
        ),
        root matches Err(message) ==> message@ == base->Err_0@,
        r is Ok <==> base is Ok,
        r matches Ok(service) ==> service.environment() == env && service.shared_cache() == opened
            && service.fallbacks().git_branch@ == "main"@,
        r matches Err(message) ==> message@ == base->Err_0@,
{
}

/// A service tells the cache that it has.
pub proof fn law_service_tells_its_cache<E: MountEnvironment>(
    service: MountService<E>,
    r: Option<&Arc<FilesystemCache>>,
)
    requires
        call_ensures(MountService::<E>::cache, (&service,), r),
    ensures
        r is Some <==> service.shared_cache() is Some,
        r matches Some(cache) ==> service.shared_cache() == Some(*cache),
{
}

/// A URL without a path is known by itself in lower case.
pub proof fn law_url_without_a_path(source: &str, scheme: Seq<char>, host: Seq<char>, r: String)
    requires
        call_ensures(normalize_git_source_identity, (source,), r),
        source@ == scheme + "://"@ + host,
        plainly_written(source@),
        !scheme.contains(':'),
        !host.contains('/'),
    ensures
        r@ == lower(scheme) + "://"@ + lower(host),
{
    reveal_strlit("://");
    reveal_strlit("/");
    lemma_plainly_written(source@);
    let s = source@;
    let n = scheme.len() as int;
    assert(s.subrange(n, n + 3) =~= "://"@);
    assert forall|j: int| 0 <= j < n implies !occurs_at(s, "://"@, j) by {
        if occurs_at(s, "://"@, j) {
            assert(s.subrange(j, j + 3)[0] == ':');
            assert(scheme[j] == ':');
        }
    }
    lemma_first_place_is(s, "://"@, 0, n);
    assert(s.take(n) =~= scheme);
    assert(s.skip(n + 3) =~= host);
    crate::text::lemma_first_place(host, "/"@, 0);
    if let Some(i) = first_place(host, "/"@, 0) {
        assert(host.subrange(i, i + 1)[0] == '/');
        assert(host[i] == '/');
    }
}

/// A source with a colon that neither follows a user nor belongs to a scheme is
/// known by itself.
pub proof fn law_source_with_a_plain_colon(
    source: &str,
    head: Seq<char>,
    rest: Seq<char>,
    r: String,
)
    requires
        call_ensures(normalize_git_source_identity, (source,), r),
        source@ == head + ":"@ + rest,
        plainly_written(source@),
        !head.contains(':'),
        !head.contains('@'),
        forall|i: int|
            0 <= i <= source@.len() - 3 ==> #[trigger] source@.subrange(i, i + 3) != "://"@,
    ensures
        r@ == source@,
{
    reveal_strlit("://");
    reveal_strlit(":");
    reveal_strlit("@");
    lemma_plainly_written(source@);
    let s = source@;
    crate::text::lemma_first_place(s, "://"@, 0);
    if let Some(i) = first_place(s, "://"@, 0) {
        assert(s.subrange(i, i + 3) == "://"@);
    }
    let n = head.len() as int;
    assert(s.subrange(n, n + 1) =~= ":"@);
    assert forall|j: int| 0 <= j < n implies !occurs_at(s, ":"@, j) by {
        if occurs_at(s, ":"@, j) {
            assert(s.subrange(j, j + 1)[0] == ':');
            assert(head[j] == ':');
        }
    }
    lemma_first_place_is(s, ":"@, 0, n);
    assert(s.take(n) =~= head);
    crate::text::lemma_first_place(head, "@"@, 0);
    if let Some(i) = first_place(head, "@"@, 0) {
        assert(head.subrange(i, i + 1)[0] == '@');
        assert(head[i] == '@');
    }
}

/// Of several suffixes `.git` one does not count.
pub proof fn law_one_git_suffix_does_not_count(source: &str, s: Seq<char>, r: String)
    requires
        call_ensures(normalize_git_source_identity, (source,), r),
        source@ == s + ".git"@,
        s.len() > 0,
        !white_space(s[0]),
        !s.contains(':'),
    ensures
        r@ == s,
{
    reveal_strlit(".git");
    reveal_strlit("://");
    reveal_strlit(":");
    let t = source@;
    assert(t[0] == s[0]);
    assert(t.last() == 't');
    assert(trimmed(t) == t);
    assert(slash_trimmed(t) == t);
    assert(t.subrange(t.len() - 4, t.len() as int) =~= ".git"@);
    assert(t.take(t.len() - 4) =~= s);
    crate::text::lemma_first_place(s, "://"@, 0);
    crate::text::lemma_first_place(s, ":"@, 0);
    if let Some(i) = first_place(s, "://"@, 0) {
        assert(s.subrange(i, i + 3)[0] == ':');
        assert(s[i] == ':');
    }
    if let Some(i) = first_place(s, ":"@, 0) {
        assert(s.subrange(i, i + 1)[0] == ':');
        assert(s[i] == ':');
    }
}

/// Of a secret it is shown whether there is one, and nothing of what it is.
pub proof fn law_secrets_are_not_shown(
    one: &Option<String>,
    other: &Option<String>,
    a: Option<&'static str>,
    b: Option<&'static str>,
)
    requires
        call_ensures(redact, (one,), a),
        call_ensures(redact, (other,), b),
        one is Some <==> other is Some,
    ensures
        a is Some <==> one is Some,
        b is Some <==> other is Some,
        one is Some ==> a->0@ == b->0@ && a->0@ == "<redacted>"@,
{
}

} // verus!
