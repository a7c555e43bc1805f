//! Names, budget and eviction of the cache on disk.
use omnifuse::paths::FsPath;
use omnifuse::persistent_cache::{
    blob_read, cache_answer, ensure_schema, plan_put, survives_reset, temporary_name, BlobEntry,
    BlobScan, CacheKey, EntryKind, FilesystemCache, FilesystemCacheConfig, InstanceHash, PutPlan,
    SchemaAction, DEFAULT_MAX_BYTES,
};

fn path(text: &str) -> FsPath {
    FsPath::from_text(text)
}

#[test]
fn instance_hash_stable_for_same_parts() {
    let a = InstanceHash::from_parts(&["s3", "bucket", "us-east-1", ""]);
    let b = InstanceHash::from_parts(&["s3", "bucket", "us-east-1", ""]);
    assert_eq!(a.as_str(), b.as_str());
    assert_eq!(a.as_str().len(), 64); // sha256 hex
}

#[test]
fn instance_hash_distinguishes_part_boundaries() {
    // "ab" + "c" vs "a" + "bc": without a separator these would collide.
    let left = InstanceHash::from_parts(&["ab", "c"]);
    let right = InstanceHash::from_parts(&["a", "bc"]);
    assert_ne!(left.as_str(), right.as_str());
}

#[test]
fn instance_hash_is_sha256_in_lower_case() {
    assert_eq!(
        InstanceHash::from_parts(&["abc"]).as_str(),
        "ba7816bf8f01cfea414140de5dae2223b00361a396177a9cb410ff61f20015ad"
    );
    assert_eq!(
        InstanceHash::from_parts(&[]).as_str(),
        "e3b0c44298fc1c149afbf4c8996fb92427ae41e4649b934ca495991b7852b855"
    );
    assert_eq!(
        InstanceHash::from_parts(&["a", "b"]).as_str(),
        InstanceHash::from_parts(&["a\u{1f}b"]).as_str()
    );
}

#[test]
fn blobs_lie_below_their_digests() {
    let cache = FilesystemCache::open(&path("/cache"), FilesystemCacheConfig::default());
    assert_eq!(cache.root(), &path("/cache/v1"));
    assert_eq!(cache.max_bytes(), DEFAULT_MAX_BYTES);
    let inst = InstanceHash::from_parts(&["abc"]);
    let key = CacheKey { instance: &inst, path: "abc", version: "" };
    assert_eq!(
        cache.blob_path(key).display(),
        "/cache/v1/ba7816bf8f01cfea414140de5dae2223b00361a396177a9cb410ff61f20015ad\
         /ba/ba7816bf8f01cfea414140de5dae2223b00361a396177a9cb410ff61f20015ad\
         /e3b0c44298fc1c149afbf4c8996fb92427ae41e4649b934ca495991b7852b855"
    );
    let newer = CacheKey { instance: &inst, path: "abc", version: "v2" };
    assert_ne!(cache.blob_path(key), cache.blob_path(newer));
}

#[test]
fn the_budget_comes_from_a_positive_number() {
    assert_eq!(FilesystemCacheConfig::from_env(None).max_bytes, DEFAULT_MAX_BYTES);
    assert_eq!(FilesystemCacheConfig::from_env(Some("4096")).max_bytes, 4096);
    assert_eq!(FilesystemCacheConfig::from_env(Some("+7")).max_bytes, 7);
    assert_eq!(FilesystemCacheConfig::from_env(Some("007")).max_bytes, 7);
    assert_eq!(
        FilesystemCacheConfig::from_env(Some("18446744073709551615")).max_bytes,
        u64::MAX
    );
    for bad in ["", "0", "-1", " 5", "5 ", "x", "+", "18446744073709551616"] {
        assert_eq!(FilesystemCacheConfig::from_env(Some(bad)).max_bytes, DEFAULT_MAX_BYTES);
    }
}

#[test]
fn another_layout_is_rebuilt() {
    assert_eq!(ensure_schema(Some("v1")), SchemaAction::Keep);
    assert_eq!(ensure_schema(Some(" v1\n")), SchemaAction::Keep);
    assert_eq!(ensure_schema(Some("v0")), SchemaAction::Rebuild);
    assert_eq!(ensure_schema(None), SchemaAction::Rebuild);
    assert!(survives_reset(b".omnifuse-cache-version"));
    assert!(!survives_reset(b"stale-data"));
}

#[test]
fn temporary_names_tell_process_and_moment() {
    assert_eq!(temporary_name(Some("abc"), 42, 255), "abc.tmp.42.000000ff");
    assert_eq!(temporary_name(None, 0, 999_999_999), "blob.tmp.0.3b9ac9ff");
    assert!(matches!(plan_put(true, Some("a"), 1, 2), PutPlan::Touch));
    assert!(
        matches!(plan_put(false, Some("a"), 1, 2), PutPlan::Write(name) if name == "a.tmp.1.00000002")
    );
}

#[test]
fn unreadable_blobs_count_as_missing() {
    assert_eq!(cache_answer(blob_read(Ok(b"x".to_vec()), false)), Some(b"x".to_vec()));
    assert_eq!(cache_answer(blob_read(Err("no such file".to_string()), true)), None);
    assert_eq!(cache_answer(blob_read(Err("denied".to_string()), false)), None);
}

fn blob(name: &str, mtime: i128, size: u64) -> Option<BlobEntry> {
    Some(BlobEntry { path: path(name), mtime, size })
}

fn file(scan: &mut BlobScan, name: &str, mtime: i128, size: u64) {
    assert!(!scan.visit(EntryKind::File, name.as_bytes(), blob(name, mtime, size)));
}

fn victims(cache: &FilesystemCache, scan: BlobScan, fails: &str) -> Vec<String> {
    let mut out = Vec::new();
    if let Some(mut run) = cache.evict_to_budget(scan) {
        loop {
            let name = match run.next_victim() {
                Some(entry) => entry.path.display(),
                None => break,
            };
            let removed = name != fails;
            if removed {
                out.push(name);
            }
            run.report(removed);
        }
    }
    out
}

fn budget(max_bytes: u64) -> FilesystemCache {
    FilesystemCache::open(&path("/c"), FilesystemCacheConfig { max_bytes })
}

#[test]
fn eviction_removes_oldest_until_under_budget() {
    let mut scan = BlobScan::new();
    file(&mut scan, "b", 50, 4);
    file(&mut scan, "a", 0, 4);
    assert_eq!(victims(&budget(5), scan, ""), vec!["a"]);
}

#[test]
fn eviction_is_stable_and_skips_what_cannot_be_removed() {
    let mut scan = BlobScan::new();
    for (name, mtime) in [("c", 3), ("a", 1), ("e", 5), ("b", 1), ("d", 3)] {
        file(&mut scan, name, mtime, 10);
    }
    assert_eq!(victims(&budget(10), scan, ""), vec!["a", "b", "c", "d"]);
    let mut again = BlobScan::new();
    for (name, mtime) in [("c", 3), ("a", 1), ("b", 2)] {
        file(&mut again, name, mtime, 10);
    }
    assert_eq!(victims(&budget(15), again, "a"), vec!["b", "c"]);
}

#[test]
fn only_blobs_are_counted() {
    let mut scan = BlobScan::new();
    assert!(scan.visit(EntryKind::Directory, b"ab", None));
    assert!(!scan.visit(EntryKind::Other, b"link", None));
    file(&mut scan, ".omnifuse-cache-version", 0, 100);
    file(&mut scan, "abc.tmp.1.00000000", 0, 100);
    assert!(!scan.visit(EntryKind::File, b"gone", None));
    file(&mut scan, "abc", 0, 5);
    assert!(budget(5).evict_to_budget(scan).is_none());
}

#[test]
fn totals_do_not_overflow() {
    let mut scan = BlobScan::new();
    file(&mut scan, "a", 0, u64::MAX);
    file(&mut scan, "b", 1, u64::MAX);
    assert_eq!(victims(&budget(10), scan, ""), vec!["a"]);
}

#[test]
fn eviction_is_due_now_and_then_and_runs_alone() {
    let mut cache = budget(1);
    let due: Vec<u32> = (1..=130).filter(|_| cache.count_put()).collect();
    assert_eq!(due, vec![64, 128]);
    assert!(cache.begin_eviction());
    assert!(!cache.begin_eviction());
    cache.end_eviction();
    assert!(cache.begin_eviction());
}

fn put(files: &mut std::collections::BTreeMap<String, Vec<u8>>, name: &str, bytes: &[u8]) {
    match plan_put(files.contains_key(name), Some(name), 7, 9) {
        PutPlan::Touch => {}
        PutPlan::Write(temporary) => {
            files.insert(temporary.clone(), bytes.to_vec());
            let written = files.remove(&temporary).expect("written");
            files.insert(name.to_string(), written);
        }
    }
}

#[test]
fn a_blob_keeps_its_first_content() {
    let mut files = std::collections::BTreeMap::new();
    put(&mut files, "blob", b"first");
    assert_eq!(files.len(), 1);
    put(&mut files, "blob", b"second");
    assert_eq!(files.get("blob"), Some(&b"first".to_vec()));
    assert_eq!(files.len(), 1);
}
