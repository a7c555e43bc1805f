//! Where the daemon keeps its files.
use vstd::prelude::*;

use crate::environment::{cache_base_of, MountEnvironment, StdMountEnvironment};
use crate::paths::{joined_text, FsPath};

verus! {

/// Name of the file with the daemon's process ID.
pub const PID_FILE_NAME: &'static str = "daemon.pid";

/// Name of the daemon's socket.
pub const SOCKET_FILE_NAME: &'static str = "daemon.sock";

/// Name of the directory with the daemon's files.
pub const DAEMON_DIR: &'static str = "omnifuse";

/// Where the daemon keeps its files.
#[derive(Debug)]
pub struct DaemonPaths {
    /// Directory.
    pub dir: FsPath,
    /// File with the process ID.
    pub pid: FsPath,
    /// Socket.
    pub socket: FsPath,
}

impl DaemonPaths {
    /// Whether all files lie in the given directory.
    pub open spec fn lies_in(&self, dir: Seq<u8>) -> bool {
        &&& self.dir@ == dir
        &&& self.pid@ == joined_text(dir, PID_FILE_NAME@)
        &&& self.socket@ == joined_text(dir, SOCKET_FILE_NAME@)
    }

    /// Whether these are the files of the user's daemon, as the environment
    /// answers.
    pub open spec fn resolved<E: MountEnvironment>(
        env: &E,
        xdg_runtime_dir: Option<&FsPath>,
        r: Result<DaemonPaths, String>,
    ) -> bool {
        &&& has_runtime_dir(xdg_runtime_dir) ==> (r matches Ok(paths) && paths.lies_in(
            joined_text(xdg_runtime_dir->0@, DAEMON_DIR@),
        ))
        &&& !has_runtime_dir(xdg_runtime_dir) ==> match r {
            Ok(paths) => exists|base: FsPath|
                {
                    &&& #[trigger] call_ensures(
                        E::cache_base_dir,
                        (env,),
                        Ok::<FsPath, String>(base),
                    )
                    &&& paths.lies_in(joined_text(base@, DAEMON_DIR@))
                },
            Err(error) => call_ensures(E::cache_base_dir, (env,), Err::<FsPath, String>(error)),
        }
    }

    /// The files of the user's daemon. They lie below the runtime directory,
    /// where the caller found one that is not empty, else below the cache
    /// directory; an error about the latter is handed on.
    pub fn resolve<E: MountEnvironment>(env: &E, xdg_runtime_dir: Option<&FsPath>) -> (r: Result<
        DaemonPaths,
        String,
    >)
        ensures
            DaemonPaths::resolved(env, xdg_runtime_dir, r),
    {
        if let Some(dir) = xdg_runtime_dir {
            if dir.as_bytes().len() > 0 {
                return Ok(DaemonPaths::with_root(dir.join_text(DAEMON_DIR)));
            }
        }
        match env.cache_base_dir() {
            Ok(base) => Ok(DaemonPaths::with_root(base.join_text(DAEMON_DIR))),
            Err(error) => Err(error),
        }
    }

    /// The files of a daemon in the given directory.
    pub fn with_root(root: FsPath) -> (r: DaemonPaths)
        ensures
            r.lies_in(root@),
    {
        DaemonPaths {
            pid: root.join_text(PID_FILE_NAME),
            socket: root.join_text(SOCKET_FILE_NAME),
            dir: root,
        }
    }
}

/// Whether a runtime directory was found.
pub open spec fn has_runtime_dir(xdg_runtime_dir: Option<&FsPath>) -> bool {
    xdg_runtime_dir is Some && xdg_runtime_dir->0@.len() > 0
}

/// The socket of the user's daemon.
pub fn default_socket(env: &StdMountEnvironment, xdg_runtime_dir: Option<&FsPath>) -> (r: Result<
    FsPath,
    String,
>)
    ensures
        match r {
            Ok(socket) => {
                let base = if has_runtime_dir(xdg_runtime_dir) {
                    Ok::<Seq<u8>, Seq<char>>(xdg_runtime_dir->0@)
                } else {
                    cache_base_of(env.platform, env.home, env.xdg_cache_home)
                };
                base is Ok && socket@ == joined_text(
                    joined_text(base->Ok_0, DAEMON_DIR@),
                    SOCKET_FILE_NAME@,
                )
            },
            Err(error) => !has_runtime_dir(xdg_runtime_dir) && cache_base_of(
                env.platform,
                env.home,
                env.xdg_cache_home,
            ) == Err::<Seq<u8>, Seq<char>>(error@),
        },
{
    match DaemonPaths::resolve(env, xdg_runtime_dir) {
        Ok(paths) => Ok(paths.socket),
        Err(error) => Err(error),
    }
}

/// The daemon's files lie in one directory under fixed names.
pub proof fn law_daemon_files_lie_together(root: FsPath, r: DaemonPaths)
    requires
        call_ensures(DaemonPaths::with_root, (root,), r),
    ensures
        r.dir@ == root@,
        r.pid@ == joined_text(root@, "daemon.pid"@),
        r.socket@ == joined_text(root@, "daemon.sock"@),
{
}

/// The daemon's directory lies below the runtime directory, where there is one
/// that is not empty, else below the cache directory of the environment.
pub proof fn law_daemon_directory<E: MountEnvironment>(
    env: &E,
    runtime: Option<&FsPath>,
    r: Result<DaemonPaths, String>,
)
    requires
        call_ensures(DaemonPaths::resolve::<E>, (env, runtime), r),
    ensures
        runtime is Some && runtime->0@.len() > 0 ==> (r matches Ok(paths) && paths.dir@
            == joined_text(runtime->0@, "omnifuse"@) && paths.socket@ == joined_text(
            paths.dir@,
            "daemon.sock"@,
        ) && paths.pid@ == joined_text(paths.dir@, "daemon.pid"@)),
        !(runtime is Some && runtime->0@.len() > 0) && r is Ok ==> exists|base: FsPath|
            {
                &&& #[trigger] call_ensures(E::cache_base_dir, (env,), Ok::<FsPath, String>(base))
                &&& r->Ok_0.dir@ == joined_text(base@, "omnifuse"@)
                &&& r->Ok_0.socket@ == joined_text(r->Ok_0.dir@, "daemon.sock"@)
                &&& r->Ok_0.pid@ == joined_text(r->Ok_0.dir@, "daemon.pid"@)
            },
        !(runtime is Some && runtime->0@.len() > 0) && r is Err ==> call_ensures(
            E::cache_base_dir,
            (env,),
            Err::<FsPath, String>(r->Err_0),
        ),
{
    if !(runtime is Some && runtime->0@.len() > 0) && r is Ok {
        let base = choose|base: FsPath|
            {
                &&& #[trigger] call_ensures(E::cache_base_dir, (env,), Ok::<FsPath, String>(base))
                &&& r->Ok_0.lies_in(joined_text(base@, DAEMON_DIR@))
            };
        assert(r->Ok_0.lies_in(joined_text(base@, DAEMON_DIR@)));
    }
}

/// The socket is the one among the daemon's files.
pub proof fn law_socket_is_that_of_the_daemon(
    env: &StdMountEnvironment,
    runtime: Option<&FsPath>,
    base: Result<FsPath, String>,
    r: Result<FsPath, String>,
)
    requires
        call_ensures(default_socket, (env, runtime), r),
        call_ensures(StdMountEnvironment::cache_base_dir, (env,), base),
    ensures
        runtime is Some && runtime->0@.len() > 0 ==> (r matches Ok(socket) && socket@
            == joined_text(joined_text(runtime->0@, "omnifuse"@), "daemon.sock"@)),
        !(runtime is Some && runtime->0@.len() > 0) && base is Ok ==> (r matches Ok(socket)
            && socket@ == joined_text(joined_text(base->Ok_0@, "omnifuse"@), "daemon.sock"@)),
        !(runtime is Some && runtime->0@.len() > 0) && base is Err ==> (r matches Err(error)
            && error@ == base->Err_0@),
{
}

} // verus!
