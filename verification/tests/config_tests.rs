//! Configuration defaults and conversions.
use omnifuse::config::{BufferConfig, FuseMountOptions, LoggingConfig, SyncConfig};
use omnifuse::duration::Duration;

#[test]
fn test_sync_config_defaults() {
    let config = SyncConfig::default();
    assert_eq!(config.debounce_timeout_secs, 1);
    assert_eq!(config.max_retry_attempts, 10);
    assert_eq!(config.initial_backoff_ms, 100);
    assert_eq!(config.max_backoff_secs, 30);
}

#[test]
fn test_sync_config_debounce_timeout() {
    let config = SyncConfig::default();
    assert_eq!(config.debounce_timeout(), Duration::from_secs(1));
}

#[test]
fn test_sync_config_backoff() {
    let config = SyncConfig::default();
    assert_eq!(config.initial_backoff(), Duration::from_millis(100));
    assert_eq!(config.max_backoff(), Duration::from_secs(30));
}

#[test]
fn test_buffer_config_defaults() {
    let config = BufferConfig::default();
    assert_eq!(config.max_memory_mb, 512);
    assert!(config.lru_eviction_enabled);
}

#[test]
fn config_test_buffer_config_max_memory_bytes() {
    let config = BufferConfig::default();
    assert_eq!(config.max_memory_bytes(), 512 * 1024 * 1024);
}

#[test]
fn test_fuse_mount_options_defaults() {
    let opts = FuseMountOptions::default();
    assert_eq!(opts.fs_name, "omnifuse");
    assert!(!opts.allow_other);
    assert!(!opts.read_only);
}

#[test]
fn test_logging_config_defaults() {
    let config = LoggingConfig::default();
    assert_eq!(config.level, "info");
    assert!(config.log_file.is_none());
}

#[test]
fn test_sync_config_custom_values() {
    let config = SyncConfig {
        debounce_timeout_secs: 5,
        max_retry_attempts: 5,
        initial_backoff_ms: 500,
        max_backoff_secs: 60,
    };
    assert_eq!(config.debounce_timeout(), Duration::from_secs(5));
    assert_eq!(config.max_retry_attempts, 5);
    assert_eq!(config.initial_backoff(), Duration::from_millis(500));
    assert_eq!(config.max_backoff(), Duration::from_secs(60));
}

#[test]
fn test_buffer_config_custom_memory() {
    let config = BufferConfig { max_memory_mb: 256, lru_eviction_enabled: false };
    assert_eq!(config.max_memory_mb, 256);
    assert_eq!(config.max_memory_bytes(), 256 * 1024 * 1024);
    assert!(!config.lru_eviction_enabled);
}

#[test]
fn test_sync_config_debounce_timeout_conversion() {
    let config = SyncConfig { debounce_timeout_secs: 10, ..SyncConfig::default() };
    assert_eq!(config.debounce_timeout(), Duration::from_secs(10));

    let config_zero = SyncConfig { debounce_timeout_secs: 0, ..SyncConfig::default() };
    assert_eq!(config_zero.debounce_timeout(), Duration::from_secs(0));

    let config_large = SyncConfig { debounce_timeout_secs: 3600, ..SyncConfig::default() };
    assert_eq!(config_large.debounce_timeout(), Duration::from_secs(3600));
}

#[test]
fn config_tests_test_buffer_config_max_memory_bytes() {
    let config_default = BufferConfig::default();
    assert_eq!(config_default.max_memory_bytes(), 512 * 1024 * 1024);

    let config_256 = BufferConfig { max_memory_mb: 256, ..BufferConfig::default() };
    assert_eq!(config_256.max_memory_bytes(), 256 * 1024 * 1024);

    let config_1 = BufferConfig { max_memory_mb: 1, ..BufferConfig::default() };
    assert_eq!(config_1.max_memory_bytes(), 1 * 1024 * 1024);

    let config_zero = BufferConfig { max_memory_mb: 0, ..BufferConfig::default() };
    assert_eq!(config_zero.max_memory_bytes(), 0);
}

#[test]
fn test_logging_config_filter_directive_uses_level() {
    let config = LoggingConfig { level: "debug".to_string(), log_file: None };
    assert_eq!(config.filter_directive(), "debug");
}

#[test]
fn durations_keep_milliseconds() {
    let d = Duration::from_millis(1_234);
    assert_eq!(d, Duration { secs: 1, nanos: 234_000_000 });
    assert_eq!(d.saturating_millis(), 1_234);
    assert_eq!(Duration { secs: u64::MAX, nanos: 0 }.saturating_millis(), u64::MAX);
}
