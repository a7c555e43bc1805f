//! Preparation of mounts.
use std::hash::{Hash, Hasher};
use std::sync::Arc;

use omnifuse::daemon::paths::{default_socket, DaemonPaths};
use omnifuse::environment::{CanonicalPath, MountEnvironment, Platform, StdMountEnvironment};
use omnifuse::mount_layout::{CacheKey, MountLayout};
use omnifuse::mount_service::{
    cache_identity, normalize_git_source_identity, redact, GitMountArgs, MountDefaults,
    MountService, S3MountArgs, WikiMountArgs,
};
use omnifuse::paths::FsPath;
use omnifuse::persistent_cache::{FilesystemCache, FilesystemCacheConfig};

fn path(text: &str) -> FsPath {
    FsPath::from_text(text)
}

struct FakeMountEnvironment {
    home: FsPath,
    canonical_paths: Vec<(FsPath, FsPath)>,
}

impl FakeMountEnvironment {
    fn new() -> Self {
        Self { home: path("/home/user"), canonical_paths: Vec::new() }
    }

    fn home(mut self, home: &str) -> Self {
        self.home = path(home);
        self
    }

    fn canonical(mut self, input: &str, output: &str) -> Self {
        self.canonical_paths.push((path(input), path(output)));
        self
    }
}

impl MountEnvironment for FakeMountEnvironment {
    fn home_dir(&self) -> Result<FsPath, String> {
        Ok(self.home.copy())
    }

    fn cache_base_dir(&self) -> Result<FsPath, String> {
        Ok(self.home.join_text(".cache"))
    }

    fn canonicalize_mount_point(&self, mount_point: &FsPath) -> Result<FsPath, String> {
        for (input, output) in &self.canonical_paths {
            if input == mount_point {
                return Ok(output.copy());
            }
        }
        Ok(mount_point.copy())
    }
}

fn std_env(home: Option<&str>, cache: Option<&str>) -> StdMountEnvironment {
    StdMountEnvironment {
        platform: Platform::Linux,
        home: home.map(path),
        xdg_cache_home: cache.map(path),
        canonical: Vec::new(),
    }
}

#[test]
fn mount_layout_keeps_mount_point_and_work_dir_separate() {
    let env =
        FakeMountEnvironment::new().home("/home/user").canonical("/mnt/wiki", "/abs/mnt/wiki");
    let layout = MountLayout::resolve(
        &env,
        &path("/mnt/wiki"),
        &CacheKey::new("wiki", "https://api.example.test/root"),
    )
    .expect("layout");

    assert_eq!(layout.mount_point, path("/abs/mnt/wiki"));
    assert_ne!(layout.mount_point, layout.work_dir);
    let parent = layout.work_dir.parent().expect("parent");
    assert_eq!(parent.file_name(), Some(b"wiki".to_vec()));
    assert_eq!(parent.parent().expect("parent").file_name(), Some(b"omnifuse".to_vec()));
}

#[test]
fn same_source_and_mount_produce_stable_work_dir() {
    let env =
        FakeMountEnvironment::new().home("/home/user").canonical("/mnt/repo", "/abs/mnt/repo");
    let first =
        MountLayout::resolve(&env, &path("/mnt/repo"), &CacheKey::new("git", "source-a"))
            .expect("first");
    let second =
        MountLayout::resolve(&env, &path("/mnt/repo"), &CacheKey::new("git", "source-a"))
            .expect("second");
    assert_eq!(first.work_dir, second.work_dir);
}

#[test]
fn different_sources_produce_different_work_dirs() {
    let env =
        FakeMountEnvironment::new().home("/home/user").canonical("/mnt/repo", "/abs/mnt/repo");
    let first =
        MountLayout::resolve(&env, &path("/mnt/repo"), &CacheKey::new("git", "source-a"))
            .expect("first");
    let second =
        MountLayout::resolve(&env, &path("/mnt/repo"), &CacheKey::new("git", "source-b"))
            .expect("second");
    assert_ne!(first.work_dir, second.work_dir);
}

#[test]
fn mount_points_that_are_no_text_have_their_own_work_dirs() {
    let key = CacheKey::new("git", "source-a");
    let base = path("/home/user/.cache");
    let first = FsPath::from_bytes(b"/mnt/\xff".to_vec());
    let second = FsPath::from_bytes(b"/mnt/\xfe".to_vec());
    assert_eq!(first.display(), second.display());
    let mut hasher = std::collections::hash_map::DefaultHasher::new();
    "git".hash(&mut hasher);
    "source-a".hash(&mut hasher);
    first.as_bytes().hash(&mut hasher);
    let expected = format!("/home/user/.cache/omnifuse/git/{:016x}", hasher.finish());
    let layout = MountLayout::place(first, &base, &key);
    assert_eq!(layout.work_dir.display(), expected);
    assert_ne!(layout.work_dir, MountLayout::place(second, &base, &key).work_dir);
}

#[test]
fn work_dirs_are_named_by_the_hash_of_the_source() {
    let mut hasher = std::collections::hash_map::DefaultHasher::new();
    "git".hash(&mut hasher);
    "source-a".to_string().hash(&mut hasher);
    std::path::PathBuf::from("/mnt/repo").hash(&mut hasher);
    let expected = format!("/home/user/.cache/omnifuse/git/{:016x}", hasher.finish());
    let layout = MountLayout::resolve(
        &FakeMountEnvironment::new(),
        &path("/mnt/repo"),
        &CacheKey::new("git", "source-a"),
    )
    .expect("layout");
    assert_eq!(layout.work_dir.display(), expected);
}

#[test]
fn prepare_git_builds_consistent_mount_and_backend_config() {
    let service = MountService::new(
        FakeMountEnvironment::new().home("/home/user").canonical("/mnt/repo", "/abs/mnt/repo"),
    );
    let prepared = service
        .prepare_git(GitMountArgs {
            source: "https://example.test/repo.git".to_string(),
            mount_point: path("/mnt/repo"),
            branch: Some("main".to_string()),
            poll_interval_secs: Some(15),
            allow_other: true,
            read_only: false,
        })
        .expect("prepared");

    assert_eq!(prepared.config.mount_point, path("/abs/mnt/repo"));
    assert_eq!(prepared.config.local_dir, prepared.layout.work_dir);
    assert_eq!(prepared.config.mount_options.fs_name, "omnifuse-git");
    assert!(prepared.config.mount_options.allow_other);
    assert_eq!(prepared.backend.source, "https://example.test/repo.git");
    assert_eq!(prepared.backend.poll_interval_secs, 15);
    assert_eq!(prepared.backend.max_push_retries, 3);
}

#[test]
fn prepare_wiki_uses_same_layout_rules_as_git() {
    let service = MountService::new(
        FakeMountEnvironment::new().home("/home/user").canonical("/mnt/wiki", "/abs/mnt/wiki"),
    );
    let parts = vec!["wiki".to_string(), "https://api.wiki.example.test".to_string()];
    let prepared = service
        .prepare_wiki(
            WikiMountArgs {
                base_url: "https://api.wiki.example.test".to_string(),
                root_slug: "root".to_string(),
                auth_token: "token".to_string(),
                org_id: Some("org".to_string()),
                mount_point: path("/mnt/wiki"),
                poll_interval_secs: Some(60),
                allow_other: false,
                read_only: false,
            },
            &parts,
        )
        .ok()
        .expect("prepared");

    assert_eq!(prepared.config.mount_point, path("/abs/mnt/wiki"));
    assert_eq!(prepared.config.local_dir, prepared.layout.work_dir);
    assert_eq!(prepared.config.mount_options.fs_name, "omnifuse-wiki");
    assert_eq!(prepared.backend.config.max_pages, 500);
    assert!(prepared.backend.cache.is_none());
}

#[test]
fn prepare_s3_uses_s3_layout_and_fs_name() {
    let service = MountService::new(
        FakeMountEnvironment::new().home("/home/user").canonical("/mnt/s3", "/abs/mnt/s3"),
    );
    let parts = vec!["s3".to_string(), "test-bucket".to_string()];
    let prepared = service
        .prepare_s3(
            S3MountArgs {
                bucket: "test-bucket".to_string(),
                mount_point: path("/mnt/s3"),
                prefix: Some("project".to_string()),
                endpoint: Some("https://s3.example.test".to_string()),
                region: Some("us-east-1".to_string()),
                access_key_id: Some("AKIA".to_string()),
                secret_access_key: Some("secret".to_string()),
                session_token: None,
                virtual_host_style: false,
                poll_interval_secs: Some(45),
                allow_other: false,
                read_only: false,
            },
            &parts,
        )
        .ok()
        .expect("prepared");

    assert_eq!(prepared.config.mount_point, path("/abs/mnt/s3"));
    assert_eq!(prepared.config.local_dir, prepared.layout.work_dir);
    assert_eq!(prepared.config.mount_options.fs_name, "omnifuse-s3");
    assert_eq!(prepared.backend.config.prefix, "project");
}

#[test]
fn git_source_identity_normalizes_url_shape_without_changing_source() {
    assert_eq!(
        normalize_git_source_identity("HTTPS://GitHub.com/Owner/Repo.git/"),
        "https://github.com/Owner/Repo"
    );
    assert_eq!(
        normalize_git_source_identity("https://github.com/Owner/Repo/"),
        "https://github.com/Owner/Repo"
    );
    assert_eq!(
        normalize_git_source_identity("git@GitHub.com:Owner/Repo.git"),
        "git@github.com:Owner/Repo"
    );
}

#[test]
fn git_source_identity_of_other_sources() {
    assert_eq!(normalize_git_source_identity("  /srv/Repo.git "), "/srv/Repo");
    assert_eq!(normalize_git_source_identity("///"), "///");
    assert_eq!(normalize_git_source_identity("C:/Repo"), "C:/Repo");
    assert_eq!(normalize_git_source_identity("https://HOST/.git"), "https://host");
    assert_eq!(normalize_git_source_identity("https://HOST"), "https://host");
    assert_eq!(normalize_git_source_identity(""), "");
}

#[test]
fn services_fill_in_defaults() {
    let cache = Arc::new(FilesystemCache::open(&path("/c"), FilesystemCacheConfig::default()));
    let defaults = MountDefaults { git_branch: "trunk".to_string(), ..MountDefaults::default() };
    let service =
        MountService::with_defaults(FakeMountEnvironment::new(), defaults).with_cache(cache);
    assert!(service.cache().is_some());
    let prepared = service
        .prepare_git(GitMountArgs {
            source: "/srv/repo".to_string(),
            mount_point: path("/m"),
            branch: None,
            poll_interval_secs: None,
            allow_other: false,
            read_only: true,
        })
        .expect("prepared");
    assert_eq!(prepared.backend.branch, "trunk");
    assert_eq!(prepared.backend.poll_interval_secs, 30);
    assert!(prepared.config.mount_options.read_only);
}

#[test]
fn identities_leave_the_first_part_out() {
    let parts = vec!["s3".to_string(), "a".to_string(), "".to_string(), "b".to_string()];
    assert_eq!(cache_identity(&parts), "a::b");
    assert_eq!(cache_identity(&vec!["s3".to_string()]), "");
    assert_eq!(redact(&Some("key".to_string())), Some("<redacted>"));
    assert_eq!(redact(&None), None);
}

#[test]
fn resolve_uses_explicit_root() {
    let paths = DaemonPaths::with_root(path("/tmp/omnifuse-test"));
    assert_eq!(paths.pid, path("/tmp/omnifuse-test/daemon.pid"));
    assert_eq!(paths.socket, path("/tmp/omnifuse-test/daemon.sock"));
}

#[test]
fn resolve_places_files_under_runtime_dir() {
    let env = std_env(Some("/home/user"), None);
    for runtime in [Some(path("/run/user/1")), None, Some(path(""))] {
        let paths = DaemonPaths::resolve(&env, runtime.as_ref()).expect("paths");
        assert_eq!(paths.dir.file_name(), Some(b"omnifuse".to_vec()));
        assert_eq!(paths.pid.file_name(), Some(b"daemon.pid".to_vec()));
        assert_eq!(paths.socket.file_name(), Some(b"daemon.sock".to_vec()));
    }
    let socket = default_socket(&env, Some(&path("/run/user/1"))).expect("socket");
    assert_eq!(socket, path("/run/user/1/omnifuse/daemon.sock"));
    let fallback = default_socket(&env, None).expect("socket");
    assert_eq!(fallback, path("/home/user/.cache/omnifuse/daemon.sock"));
    assert_eq!(default_socket(&std_env(None, None), None), Err("HOME is not set".to_string()));
}

#[test]
fn the_environment_resolves_directories() {
    assert_eq!(std_env(Some("/h"), None).home_dir(), Ok(path("/h")));
    assert_eq!(std_env(Some(""), None).home_dir(), Err("HOME is not set".to_string()));
    assert_eq!(std_env(Some("/h"), Some("/x")).cache_base_dir(), Ok(path("/x")));
    assert_eq!(std_env(Some("/h"), None).cache_base_dir(), Ok(path("/h/.cache")));
    let mac = StdMountEnvironment { platform: Platform::MacOs, ..std_env(Some("/h"), Some("/x")) };
    assert_eq!(mac.cache_base_dir(), Ok(path("/h/Library/Caches")));
}

#[test]
fn mount_points_may_be_missing_in_their_directory() {
    let mut env = std_env(Some("/h"), None);
    env.canonical.push(CanonicalPath {
        path: path("link/new"),
        answer: Err("no such file".to_string()),
    });
    env.canonical.push(CanonicalPath { path: path("link"), answer: Ok(path("/real")) });
    assert_eq!(env.canonicalize_mount_point(&path("link/new")), Ok(path("/real/new")));
    assert_eq!(env.canonicalize_mount_point(&path("link/")), Ok(path("/real")));
    env.canonical[1].answer = Err("denied".to_string());
    assert_eq!(
        env.canonicalize_mount_point(&path("link/new")),
        Err("canonicalizing link/new: no such file; parent: denied".to_string())
    );
}

#[test]
fn the_shared_cache_lies_below_the_cache_directory() {
    let env = std_env(Some("/h"), None);
    assert_eq!(
        MountService::default_cache_root(&env),
        Ok(path("/h/.cache/omnifuse/cache"))
    );
    let service = MountService::with_default_cache(env, None).ok().expect("service");
    assert!(service.cache().is_none());
    assert!(MountService::with_default_cache(std_env(None, None), None).is_err());
}

fn s3_request(secret: Option<&str>) -> S3MountArgs {
    S3MountArgs {
        bucket: "bucket".to_string(),
        mount_point: path("/mnt/s3"),
        prefix: Some("docs".to_string()),
        endpoint: None,
        region: None,
        access_key_id: secret.map(str::to_string),
        secret_access_key: secret.map(str::to_string),
        session_token: None,
        virtual_host_style: true,
        poll_interval_secs: Some(5),
        allow_other: false,
        read_only: true,
    }
}

#[test]
fn credentials_are_not_shown() {
    let shown = s3_request(Some("one")).shown();
    assert_eq!(shown.access_key_id, Some("<redacted>"));
    assert_eq!(shown.secret_access_key, Some("<redacted>"));
    assert_eq!(shown.session_token, None);
    assert_eq!(shown.bucket, "bucket");
    assert_eq!(shown.prefix.as_deref(), Some("docs"));
    assert_eq!(format!("{shown:?}"), format!("{:?}", s3_request(Some("two")).shown()));
    assert_ne!(format!("{shown:?}"), format!("{:?}", s3_request(None).shown()));

    let wiki = WikiMountArgs {
        base_url: "https://wiki.example.test".to_string(),
        root_slug: "root".to_string(),
        auth_token: "token".to_string(),
        org_id: Some("org".to_string()),
        mount_point: path("/mnt/wiki"),
        poll_interval_secs: None,
        allow_other: true,
        read_only: false,
    };
    let shown = wiki.shown();
    assert_eq!(shown.auth_token, "<redacted>");
    assert_eq!(shown.org_id.as_deref(), Some("org"));
}

#[test]
fn sources_with_one_identity_get_one_layout() {
    let service = MountService::new(FakeMountEnvironment::new());
    let request = |source: &str| GitMountArgs {
        source: source.to_string(),
        mount_point: path("/mnt/repo"),
        branch: None,
        poll_interval_secs: None,
        allow_other: false,
        read_only: false,
    };
    let first = service.prepare_git(request("https://Example.test/a/b.git")).expect("first");
    let second = service.prepare_git(request("https://example.test/a/b/")).expect("second");
    assert_eq!(first.layout.work_dir, second.layout.work_dir);
    assert_eq!(first.backend.source, "https://Example.test/a/b.git");
    assert_eq!(second.backend.source, "https://example.test/a/b/");
}
