//! Buffers in memory.
use omnifuse::buffer::{FileBuffer, FileBufferManager, LoadStep};
use omnifuse::config::BufferConfig;
use omnifuse::paths::FsPath;

fn path(text: &str) -> FsPath {
    FsPath::from_text(text)
}

fn small(mb: usize) -> FileBufferManager {
    FileBufferManager::new(BufferConfig { max_memory_mb: mb, lru_eviction_enabled: true })
}

#[test]
fn test_file_buffer_read_write() {
    let mut buffer = FileBuffer::new(path("/test/file.txt"), b"hello".to_vec(), 0);
    assert_eq!(buffer.read(0, 5), b"hello");
    assert!(!buffer.is_dirty());

    buffer.write(0, b"HELLO", 1);
    assert_eq!(buffer.read(0, 5), b"HELLO");
    assert!(buffer.is_dirty());
    assert_eq!(buffer.mtime(), 1);
}

#[test]
fn test_file_buffer_extend() {
    let mut buffer = FileBuffer::new(path("/test/file.txt"), b"hello".to_vec(), 0);
    buffer.write(5, b" world", 1);
    assert_eq!(buffer.content(), b"hello world");
    assert_eq!(buffer.size(), 11);
}

#[test]
fn test_file_buffer_truncate() {
    let mut buffer = FileBuffer::new(path("/test/file.txt"), b"hello world".to_vec(), 0);
    buffer.truncate(5, 1);
    assert_eq!(buffer.content(), b"hello");
    assert_eq!(buffer.size(), 5);
    assert!(buffer.is_dirty());
}

#[test]
fn test_buffer_manager_cache() {
    let mut manager = FileBufferManager::new(BufferConfig::default());
    let content = b"test content".to_vec();
    let file = path("/test/file.txt");

    manager.cache(&file, content.clone(), 0);
    let cached = manager.get(&file);
    assert!(cached.is_some());
    assert_eq!(cached.unwrap().content(), content);
    assert_eq!(manager.buffer_count(), 1);
    assert_eq!(manager.memory_usage(), content.len());
}

#[test]
fn test_buffer_manager_remove() {
    let mut manager = FileBufferManager::new(BufferConfig::default());
    let file = path("/test/file.txt");
    manager.cache(&file, b"content".to_vec(), 0);
    assert_eq!(manager.buffer_count(), 1);

    manager.remove(&file);
    assert_eq!(manager.buffer_count(), 0);
    assert_eq!(manager.memory_usage(), 0);
}

#[test]
fn test_buffer_manager_dirty() {
    let mut manager = FileBufferManager::new(BufferConfig::default());
    let file = path("/test/file.txt");
    manager.cache(&file, b"content".to_vec(), 0);
    assert!(manager.dirty_buffers().is_empty());

    manager.write(&file, 0, b"modified", 1);
    let dirty = manager.dirty_buffers();
    assert_eq!(dirty.len(), 1);
    assert_eq!(dirty[0].content(), b"modified");
    assert_eq!(dirty[0].path(), &file);
}

#[test]
fn reads_are_clipped_and_gaps_are_zero() {
    let mut buffer = FileBuffer::new(path("f"), b"abc".to_vec(), 0);
    assert_eq!(buffer.read(1, 100), b"bc");
    assert_eq!(buffer.read(3, 1), b"");
    assert_eq!(buffer.read(99, 1), b"");
    assert_eq!(buffer.write(5, b"xy", 1), 2);
    assert_eq!(buffer.content(), b"abc\0\0xy");
    buffer.truncate(100, 2);
    assert_eq!(buffer.content().len(), 7);
    assert_eq!(buffer.size(), 7);
    assert!(buffer.is_dirty());
    buffer.mark_clean();
    assert!(!buffer.is_dirty());
}

#[test]
fn one_path_has_one_buffer_however_it_is_written() {
    let mut manager = FileBufferManager::new(BufferConfig::default());
    manager.cache(&path("/a//b/./c"), b"1".to_vec(), 0);
    assert!(manager.get(&path("/a/b/c")).is_some());
    assert!(manager.get(&path("a/b/c")).is_none());
    manager.cache(&path("/a/b/c/"), b"22".to_vec(), 0);
    assert_eq!(manager.buffer_count(), 1);
    assert_eq!(manager.get(&path("/a/b/c")).unwrap().content(), b"22");
    assert_eq!(manager.memory_usage(), 2);
}

#[test]
fn memory_is_counted_once_for_a_path() {
    let mut manager = FileBufferManager::new(BufferConfig::default());
    manager.cache(&path("/f"), b"aaaa".to_vec(), 0);
    manager.cache_with_mtime(&path("/f"), b"bb".to_vec(), 0);
    assert_eq!(manager.buffer_count(), 1);
    assert_eq!(manager.memory_usage(), 2);
    assert_eq!(manager.get(&path("/f")).unwrap().content(), b"bb");
    manager.write(&path("/f"), 2, b"ccc", 1);
    assert_eq!(manager.memory_usage(), 5);
    manager.truncate(&path("/f"), 1, 2);
    assert_eq!(manager.memory_usage(), 1);
    manager.set_content(&path("/f"), b"dddd".to_vec(), 3);
    assert_eq!(manager.memory_usage(), 4);
    manager.remove(&path("/f"));
    assert_eq!(manager.memory_usage(), 0);
}

#[test]
fn a_file_cached_again_is_the_last_to_leave() {
    let mut manager = small(1);
    let part = vec![7u8; 400 * 1024];
    manager.cache(&path("a"), part.clone(), 0);
    manager.cache(&path("b"), vec![7u8; 100 * 1024], 0);
    manager.cache(&path("a"), part.clone(), 1);
    manager.cache(&path("c"), part.clone(), 2);
    manager.cache(&path("d"), vec![7u8; 200 * 1024], 3);
    assert!(manager.get(&path("b")).is_none());
    assert!(manager.get(&path("a")).is_some());
}

#[test]
fn eviction_drops_what_was_not_used_for_longest() {
    let mut manager = small(1);
    let part = vec![7u8; 400 * 1024];
    manager.cache(&path("a"), part.clone(), 0);
    manager.cache(&path("b"), part.clone(), 0);
    assert_eq!(manager.get_or_load(&path("a"), None), LoadStep::Cached);
    manager.cache(&path("c"), part.clone(), 0);
    assert!(manager.get(&path("b")).is_none());
    assert!(manager.get(&path("a")).is_some());
    assert!(manager.get(&path("c")).is_some());
    assert_eq!(manager.memory_usage(), 2 * part.len());
}

#[test]
fn eviction_spares_dirty_buffers() {
    let mut manager = small(1);
    let part = vec![7u8; 400 * 1024];
    manager.cache(&path("a"), part.clone(), 0);
    manager.write(&path("a"), 0, b"!", 1);
    manager.cache(&path("b"), part.clone(), 0);
    manager.cache(&path("c"), part.clone(), 0);
    assert!(manager.get(&path("a")).is_some());
    assert!(manager.get(&path("b")).is_none());

    manager.write(&path("c"), 0, b"!", 1);
    manager.cache(&path("d"), part.clone(), 0);
    assert_eq!(manager.buffer_count(), 3);
}

#[test]
fn without_eviction_nothing_leaves() {
    let mut manager =
        FileBufferManager::new(BufferConfig { max_memory_mb: 0, lru_eviction_enabled: false });
    manager.cache(&path("a"), vec![0; 10], 0);
    manager.cache(&path("b"), vec![0; 10], 0);
    assert_eq!(manager.buffer_count(), 2);
}

#[test]
fn clean_buffers_are_reloaded_when_the_disk_is_newer() {
    let mut manager = FileBufferManager::new(BufferConfig::default());
    let file = path("f");
    assert_eq!(manager.get_or_load(&file, Some(5)), LoadStep::Load);
    manager.cache_with_mtime(&file, b"old".to_vec(), 5);
    assert_eq!(manager.get_or_load(&file, Some(5)), LoadStep::Cached);
    assert_eq!(manager.get_or_load(&file, None), LoadStep::Cached);
    assert_eq!(manager.get_or_load(&file, Some(6)), LoadStep::Reload(6));
    assert!(manager.get(&file).is_none());

    manager.cache_with_mtime(&file, b"new".to_vec(), 6);
    manager.write(&file, 0, b"N", 7);
    assert_eq!(manager.get_or_load(&file, Some(100)), LoadStep::Cached);
}

#[test]
fn flushing_gives_the_content_once() {
    let mut manager = FileBufferManager::new(BufferConfig::default());
    let file = path("f");
    assert!(manager.flush(&file).is_none());
    manager.cache(&file, b"abc".to_vec(), 0);
    assert!(manager.flush(&file).is_none());
    assert!(manager.set_content(&file, b"xyz".to_vec(), 1));
    assert_eq!(manager.flush(&file), Some(b"xyz".to_vec()));
    manager.mark_clean(&file);
    assert!(manager.flush(&file).is_none());
    assert_eq!(manager.get(&file).unwrap().content(), b"xyz");
    assert!(manager.truncate(&file, 1, 2));
    assert_eq!(manager.flush(&file), Some(b"x".to_vec()));
    assert!(!manager.truncate(&path("other"), 1, 2));
    assert_eq!(manager.write(&path("other"), 0, b"x", 2), None);
}

#[test]
fn probing_shows_flags_and_a_part() {
    let mut manager = FileBufferManager::new(BufferConfig::default());
    manager.cache_with_mtime(&path("f"), b"abcdef".to_vec(), 9);
    let probe = manager.probe(&path("f"), 2, 3).unwrap();
    assert_eq!(probe.bytes, b"cde");
    assert_eq!((probe.dirty, probe.mtime, probe.size), (false, 9, 6));
    assert!(manager.probe(&path("g"), 0, 1).is_none());
}

#[test]
fn clearing_leaves_nothing() {
    let mut manager = FileBufferManager::new(BufferConfig::default());
    manager.cache(&path("a"), vec![1; 10], 0);
    manager.write(&path("a"), 0, b"x", 1);
    for (file, content) in manager.flush_all() {
        assert_eq!(file, path("a"));
        assert_eq!(content, b"x\x01\x01\x01\x01\x01\x01\x01\x01\x01");
        manager.mark_clean(&file);
    }
    assert!(manager.flush_all().is_empty());
    manager.clear();
    assert_eq!(manager.buffer_count(), 0);
    assert_eq!(manager.memory_usage(), 0);
    manager.cache(&path("a"), vec![1; 3], 0);
    assert_eq!(manager.memory_usage(), 3);
}
