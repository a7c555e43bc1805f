# omniFUSE

omniFUSE mounts Git repositories, wikis and S3-compatible buckets as file
systems. Files are edited in a local working copy, changes are synchronized in
batches, and changes from the remote side are brought in where no local change
stands in their way.

The rules of the system are a library, written in Verus: what its functions
promise is stated in their contracts and proved.

## Layout

- `src/` — the library.
  - `paths`, `text`, `json`, `duration`: the values that the rest works on.
  - `buffer`, `vfs`, `file_mutations`: file contents in memory and the operations
    of the mounted file system.
  - `dirty_index`, `backend`, `sync_engine`, `text_merge`: local changes, when they
    are sent, and what happens to changes from the remote side.
  - `persistent_cache`: where blobs lie on disk and which of them leave.
  - `environment`, `mount_layout`, `mount_service`, `mount_run`, `config`: how a
    mount is set up and what course it takes.
  - `event`, `events`, `product_events`: what is told about it.
  - `shown`: paths in messages.
  - `daemon`: the register of mounts, the protocol, and the mount table.
  - `cli`: the rules of the command line tool `of` and its manual.
- `tests/` — tests of the library.
- `app/` — the program `of`: disk, sockets, signals and the command line around
  the library. Storage backends and the FUSE driver are traits there
  (`backends.rs`, `mount.rs`); a build brings its own.

Functions whose names begin with `law_` state what holds of several operations
together, such as that no change is lost when a sync fails.
