//! Mount configuration.
use vstd::prelude::*;

use crate::duration::Duration;
use crate::paths::FsPath;

verus! {

/// Mount configuration.
#[derive(Debug, Clone)]
pub struct MountConfig {
    /// Mount point.
    pub mount_point: FsPath,
    /// Local directory that holds the files.
    pub local_dir: FsPath,
    /// Sync settings.
    pub sync: SyncConfig,
    /// Buffer settings.
    pub buffer: BufferConfig,
    /// FUSE mount settings.
    pub mount_options: FuseMountOptions,
    /// Logging settings.
    pub logging: LoggingConfig,
}

/// Sync settings.
#[derive(Debug, Clone)]
pub struct SyncConfig {
    /// Quiet time before a sync, in seconds.
    pub debounce_timeout_secs: u64,
    /// Maximum number of retries.
    pub max_retry_attempts: u32,
    /// First retry delay, in milliseconds.
    pub initial_backoff_ms: u64,
    /// Longest retry delay, in seconds.
    pub max_backoff_secs: u64,
}

impl SyncConfig {
    /// The quiet time before a sync.
    pub fn debounce_timeout(&self) -> (r: Duration)
        ensures
            r == (Duration { secs: self.debounce_timeout_secs, nanos: 0 }),
    {
        Duration::from_secs(self.debounce_timeout_secs)
    }

    /// The first retry delay.
    pub fn initial_backoff(&self) -> (r: Duration)
        ensures
            r.wf(),
            r.total_nanos() == self.initial_backoff_ms * 1_000_000,
    {
        Duration::from_millis(self.initial_backoff_ms)
    }

    /// The longest retry delay.
    pub fn max_backoff(&self) -> (r: Duration)
        ensures
            r == (Duration { secs: self.max_backoff_secs, nanos: 0 }),
    {
        Duration::from_secs(self.max_backoff_secs)
    }
}

impl Default for SyncConfig {
    fn default() -> (r: SyncConfig)
        ensures
            r == (SyncConfig {
                debounce_timeout_secs: 1,
                max_retry_attempts: 10,
                initial_backoff_ms: 100,
                max_backoff_secs: 30,
            }),
    {
        SyncConfig {
            debounce_timeout_secs: 1,
            max_retry_attempts: 10,
            initial_backoff_ms: 100,
            max_backoff_secs: 30,
        }
    }
}

/// File buffer settings.
#[derive(Debug, Clone)]
pub struct BufferConfig {
    /// Maximum memory usage, in mebibytes.
    pub max_memory_mb: usize,
    /// Whether buffers that were not used lately leave when memory runs out.
    pub lru_eviction_enabled: bool,
}

impl BufferConfig {
    /// The maximum memory usage in bytes.
    pub open spec fn memory_limit(&self) -> int {
        self.max_memory_mb * 1024 * 1024
    }

    /// The maximum memory usage in bytes.
    pub fn max_memory_bytes(&self) -> (r: usize)
        requires
            self.memory_limit() <= usize::MAX,
        ensures
            r == self.memory_limit(),
    {
        self.max_memory_mb * 1024 * 1024
    }
}

impl Default for BufferConfig {
    fn default() -> (r: BufferConfig)
        ensures
            r == (BufferConfig { max_memory_mb: 512, lru_eviction_enabled: true }),
    {
        BufferConfig { max_memory_mb: 512, lru_eviction_enabled: true }
    }
}

/// FUSE mount settings.
#[derive(Debug, Clone)]
pub struct FuseMountOptions {
    /// File system name.
    pub fs_name: String,
    /// Whether other users have access.
    pub allow_other: bool,
    /// Whether the mount is read-only.
    pub read_only: bool,
}

impl Default for FuseMountOptions {
    fn default() -> (r: FuseMountOptions)
        ensures
            r.fs_name@ == "omnifuse"@,
            !r.allow_other,
            !r.read_only,
    {
        FuseMountOptions { fs_name: "omnifuse".to_owned(), allow_other: false, read_only: false }
    }
}

/// Logging settings.
#[derive(Debug, Clone)]
pub struct LoggingConfig {
    /// Log level.
    pub level: String,
    /// Log file.
    pub log_file: Option<FsPath>,
}

impl LoggingConfig {
    /// The filter that selects what is logged: the level.
    pub fn filter_directive(&self) -> (r: &str)
        ensures
            r@ == self.level@,
    {
        self.level.as_str()
    }
}

impl Default for LoggingConfig {
    fn default() -> (r: LoggingConfig)
        ensures
            r.level@ == "info"@,
            r.log_file is None,
    {
        LoggingConfig { level: "info".to_owned(), log_file: None }
    }
}

/// The usual settings.
pub proof fn law_usual_settings(
    sync: SyncConfig,
    buffer: BufferConfig,
    options: FuseMountOptions,
    logging: LoggingConfig,
)
    requires
        call_ensures(SyncConfig::default, (), sync),
        call_ensures(BufferConfig::default, (), buffer),
        call_ensures(FuseMountOptions::default, (), options),
        call_ensures(LoggingConfig::default, (), logging),
    ensures
        sync.debounce_timeout_secs == 1,
        sync.max_retry_attempts == 10,
        sync.initial_backoff_ms == 100,
        sync.max_backoff_secs == 30,
        buffer.max_memory_mb == 512,
        buffer.lru_eviction_enabled,
        options.fs_name@ == "omnifuse"@,
        !options.allow_other,
        !options.read_only,
        logging.level@ == "info"@,
        logging.log_file is None,
{
}

/// Settings are told in spans of time and in bytes as they are set.
pub proof fn law_settings_are_told(
    sync: SyncConfig,
    debounce: Duration,
    first: Duration,
    longest: Duration,
    buffer: BufferConfig,
    bytes: usize,
    logging: LoggingConfig,
    filter: &str,
)
    requires
        call_ensures(SyncConfig::debounce_timeout, (&sync,), debounce),
        call_ensures(SyncConfig::initial_backoff, (&sync,), first),
        call_ensures(SyncConfig::max_backoff, (&sync,), longest),
        call_ensures(BufferConfig::max_memory_bytes, (&buffer,), bytes),
        call_ensures(LoggingConfig::filter_directive, (&logging,), filter),
    ensures
        debounce.secs == sync.debounce_timeout_secs && debounce.nanos == 0,
        first.secs * 1_000_000_000 + first.nanos == sync.initial_backoff_ms * 1_000_000,
        longest.secs == sync.max_backoff_secs && longest.nanos == 0,
        bytes == buffer.max_memory_mb * 1_048_576,
        filter@ == logging.level@,
{
}

} // verus!
