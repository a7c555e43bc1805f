//! The logic of omniFUSE: git repositories, wikis and S3-compatible buckets as
//! local directories.
//!
//! - [`vfs`] and [`buffer`] are the mounted file system and its contents in memory.
//! - [`sync_engine`], [`backend`], [`dirty_index`] and [`text_merge`] decide when
//!   and how changes travel between the local and the remote side.
//! - [`persistent_cache`] holds the rules of the cache on disk.
//! - [`mount_service`], [`mount_layout`] and [`environment`] prepare mounts;
//!   [`mount_run`] is the course of one.
//! - [`daemon`] hosts mounts and talks to clients; [`cli`] is the command line.
//! - [`event`], [`events`] and [`product_events`] tell what happens.
//! - [`shown`] writes paths for messages.
//!
//! Nothing here does input or output: callers read clocks, files and sockets, hand
//! in what they found, and carry out what is decided.
pub mod backend;
pub mod buffer;
pub mod cli;
pub mod config;
pub mod daemon;
pub mod dirty_index;
pub mod duration;
pub mod environment;
pub mod event;
pub mod events;
pub mod file_mutations;
pub mod json;
pub mod mount_layout;
pub mod mount_run;
pub mod mount_service;
pub mod paths;
pub mod persistent_cache;
pub mod product_events;
pub mod shown;
pub mod sync_engine;
pub mod text;
pub mod text_merge;
pub mod vfs;

pub use backend::{
    Backend, InitResult, RemoteApplyMode, RemoteDeferReason, RemoteRefresh, RemoteRefreshResult,
    SyncResult,
};
pub use buffer::{FileBuffer, FileBufferManager};
pub use config::{BufferConfig, FuseMountOptions, LoggingConfig, MountConfig, SyncConfig};
pub use dirty_index::{DirtyIndex, PathProtection};
pub use event::{Action, Code, Event, Kind, Level, NoopSink, Op, RecordSink, Session, Sink, Source};
pub use sync_engine::{FsEvent, WorkerMetrics};
pub use vfs::OmniFuseVfs;
