//! What the commands decide and print.
use vstd::prelude::*;

use crate::config::LoggingConfig;
use crate::daemon::protocol::{MountSummary, StatusResult};
use crate::environment::Platform;
use crate::mount_service::{GitMountArgs, S3MountArgs, WikiMountArgs};
use crate::paths::{utf8_lossy, FsPath};
use crate::text::{
    decimal, decimal_text, join2, join3, padded, parse_i32, parsed_i32, push_padded, same, trim,
    trimmed,
};

verus! {

/// The logging settings for a number of `-v` options.
pub fn logging_config_for_verbose(verbose: u8) -> (r: LoggingConfig)
    ensures
        r.level@ == if verbose == 0 {
            "info"@
        } else if verbose == 1 {
            "debug"@
        } else {
            "trace"@
        },
        r.log_file is None,
{
    let level: &str = match verbose {
        0 => "info",
        1 => "debug",
        _ => "trace",
    };
    LoggingConfig { level: level.to_owned(), log_file: None }
}

/// The arguments of `mount`, as the command line gives them.
pub enum MountBackend {
    /// Mount a Git repository.
    Git {
        /// Source.
        source: String,
        /// Mount point.
        mountpoint: FsPath,
        /// Branch.
        branch: String,
        /// Seconds between two polls.
        poll_interval: u64,
        /// Whether other users have access.
        allow_other: bool,
        /// Whether the mount is read-only.
        read_only: bool,
    },
    /// Mount an S3 bucket.
    S3 {
        /// Bucket.
        bucket: String,
        /// Mount point.
        mountpoint: FsPath,
        /// Prefix that is mounted as the root.
        prefix: Option<String>,
        /// Endpoint URL.
        endpoint: Option<String>,
        /// Region.
        region: Option<String>,
        /// Access key ID.
        access_key_id: Option<String>,
        /// Secret access key.
        secret_access_key: Option<String>,
        /// Session token.
        session_token: Option<String>,
        /// Whether the bucket is part of the host name.
        virtual_host_style: bool,
        /// Seconds between two polls.
        poll_interval: u64,
        /// Whether other users have access.
        allow_other: bool,
        /// Whether the mount is read-only.
        read_only: bool,
    },
    /// Mount a wiki.
    Wiki {
        /// Base URL of the wiki's interface.
        base_url: String,
        /// Root page.
        root_slug: String,
        /// Mount point.
        mountpoint: FsPath,
        /// Authentication token.
        auth: String,
        /// Organization.
        org_id: Option<String>,
        /// Seconds between two polls.
        poll_interval: u64,
        /// Whether other users have access.
        allow_other: bool,
        /// Whether the mount is read-only.
        read_only: bool,
    },
}

/// A request to mount.
pub enum MountRequest {
    /// A Git repository.
    Git(GitMountArgs),
    /// An S3 bucket.
    S3(S3MountArgs),
    /// A wiki.
    Wiki(WikiMountArgs),
}

/// The request that the arguments of `mount` make.
pub fn mount_request(backend: MountBackend) -> (r: MountRequest)
    ensures
        r == match backend {
            MountBackend::Git { source, mountpoint, branch, poll_interval, allow_other, read_only }
                => MountRequest::Git(
                GitMountArgs {
                    source,
                    mount_point: mountpoint,
                    branch: Some(branch),
                    poll_interval_secs: Some(poll_interval),
                    allow_other,
                    read_only,
                },
            ),
            MountBackend::Wiki {
                base_url,
                root_slug,
                mountpoint,
                auth,
                org_id,
                poll_interval,
                allow_other,
                read_only,
            } => MountRequest::Wiki(
                WikiMountArgs {
                    base_url,
                    root_slug,
                    auth_token: auth,
                    org_id,
                    mount_point: mountpoint,
                    poll_interval_secs: Some(poll_interval),
                    allow_other,
                    read_only,
                },
            ),
            MountBackend::S3 {
                bucket,
                mountpoint,
                prefix,
                endpoint,
                region,
                access_key_id,
                secret_access_key,
                session_token,
                virtual_host_style,
                poll_interval,
                allow_other,
                read_only,
            } => MountRequest::S3(
                S3MountArgs {
                    bucket,
                    mount_point: mountpoint,
                    prefix,
                    endpoint,
                    region,
                    access_key_id,
                    secret_access_key,
                    session_token,
                    virtual_host_style,
                    poll_interval_secs: Some(poll_interval),
                    allow_other,
                    read_only,
                },
            ),
        },
{
    match backend {
        MountBackend::Git { source, mountpoint, branch, poll_interval, allow_other, read_only }
            => MountRequest::Git(
            GitMountArgs {
                source,
                mount_point: mountpoint,
                branch: Some(branch),
                poll_interval_secs: Some(poll_interval),
                allow_other,
                read_only,
            },
        ),
        MountBackend::Wiki {
            base_url,
            root_slug,
            mountpoint,
            auth,
            org_id,
            poll_interval,
            allow_other,
            read_only,
        } => MountRequest::Wiki(
            WikiMountArgs {
                base_url,
                root_slug,
                auth_token: auth,
                org_id,
                mount_point: mountpoint,
                poll_interval_secs: Some(poll_interval),
                allow_other,
                read_only,
            },
        ),
        MountBackend::S3 {
            bucket,
            mountpoint,
            prefix,
            endpoint,
            region,
            access_key_id,
            secret_access_key,
            session_token,
            virtual_host_style,
            poll_interval,
            allow_other,
            read_only,
        } => MountRequest::S3(
            S3MountArgs {
                bucket,
                mount_point: mountpoint,
                prefix,
                endpoint,
                region,
                access_key_id,
                secret_access_key,
                session_token,
                virtual_host_style,
                poll_interval_secs: Some(poll_interval),
                allow_other,
                read_only,
            },
        ),
    }
}

/// Whether the value of `OMNIFUSE_NO_DAEMON` keeps the daemon out.
pub fn daemon_is_declined(value: Option<&str>) -> (r: bool)
    ensures
        r == (value is Some && value->0@ == "1"@),
{
    match value {
        Some(text) => same(text, "1"),
        None => false,
    }
}

/// The line that tells of a mount by the daemon.
pub fn mounted_line(mount_point: &FsPath) -> (r: String)
    ensures
        r@ == "mounted "@ + utf8_lossy(mount_point@) + " (daemon)"@,
{
    let shown = mount_point.display();
    join3("mounted ", shown.as_str(), " (daemon)")
}

/// The line that tells of an unmount.
pub fn unmounted_line(mount_point: &FsPath) -> (r: String)
    ensures
        r@ == "unmounted "@ + utf8_lossy(mount_point@),
{
    let shown = mount_point.display();
    join2("unmounted ", shown.as_str())
}

/// The heading over a list of mounts.
pub open spec fn list_heading() -> Seq<char> {
    padded("BACKEND"@, 12) + " "@ + padded("AGE(s)"@, 10) + " MOUNT POINT"@
}

/// The line for a mount in a list.
pub open spec fn list_row(mount: MountSummary) -> Seq<char> {
    padded(mount.backend@, 12) + " "@ + padded(decimal(mount.age_secs as nat), 10) + " "@
        + utf8_lossy(mount.mount_point@)
}

/// The characters of each line.
pub open spec fn views(lines: Seq<String>) -> Seq<Seq<char>> {
    lines.map_values(|s: String| s@)
}

/// What `list` prints.
pub open spec fn list_output(mounts: Seq<MountSummary>) -> Seq<Seq<char>> {
    if mounts.len() == 0 {
        seq!["no active mounts"@]
    } else {
        seq![list_heading()] + mounts.map_values(|m: MountSummary| list_row(m))
    }
}

/// The lines that `list` prints.
pub fn list_lines(mounts: &Vec<MountSummary>) -> (r: Vec<String>)
    ensures
        views(r@) == list_output(mounts@),
{
    let mut out: Vec<String> = Vec::new();
    if mounts.len() == 0 {
        out.push("no active mounts".to_owned());
        assert(views(out@) =~= list_output(mounts@));
        return out;
    }
    let mut heading = String::new();
    push_padded("BACKEND", 12, &mut heading);
    heading.append(" ");
    push_padded("AGE(s)", 10, &mut heading);
    heading.append(" MOUNT POINT");
    assert(heading@ =~= list_heading());
    out.push(heading);
    let ghost rows = mounts@.map_values(|m: MountSummary| list_row(m));
    let mut i: usize = 0;
    assert(views(out@) =~= seq![list_heading()] + rows.take(0));
    while i < mounts.len()
        invariant
            i <= mounts@.len(),
            rows == mounts@.map_values(|m: MountSummary| list_row(m)),
            views(out@) == seq![list_heading()] + rows.take(i as int),
        decreases mounts@.len() - i,
    {
        let ghost before = views(out@);
        let mount = &mounts[i];
        let mut row = String::new();
        push_padded(mount.backend.as_str(), 12, &mut row);
        row.append(" ");
        push_padded(decimal_text(mount.age_secs).as_str(), 10, &mut row);
        row.append(" ");
        row.append(mount.mount_point.display().as_str());
        assert(row@ =~= list_row(*mount));
        out.push(row);
        assert(views(out@) =~= before.push(rows[i as int]));
        assert(views(out@) =~= seq![list_heading()] + rows.take(i + 1));
        i += 1;
    }
    assert(rows.take(i as int) =~= rows);
    out
}

/// The first line about a mount that the daemon hosts.
pub open spec fn status_heading(mount: MountSummary) -> Seq<char> {
    utf8_lossy(mount.mount_point@) + " ("@ + mount.backend@ + ", instance "@ + mount.instance@
        + ") age "@ + decimal(mount.age_secs as nat) + "s"@
}

/// What `status` prints about the answer of the daemon.
pub open spec fn status_output(
    status: StatusResult,
    mount_point: Seq<u8>,
    ratio: Option<Seq<char>>,
) -> Seq<Seq<char>> {
    match status.mount {
        Some(mount) => {
            let lines = seq![
                status_heading(mount),
                "dirty files: "@ + decimal(status.dirty_files as nat),
            ];
            match ratio {
                Some(text) => lines.push("cache hit ratio: "@ + text),
                None => lines,
            }
        },
        None => seq![
            utf8_lossy(mount_point) + " is not currently mounted by the daemon"@,
        ],
    }
}

/// The lines that `status` prints about the answer of the daemon. The cache hit
/// ratio, where it is known, comes as text with three decimals.
pub fn status_lines(status: &StatusResult, mount_point: &FsPath, ratio: Option<&str>) -> (r: Vec<
    String,
>)
    ensures
        views(r@) == status_output(
            *status,
            mount_point@,
            match ratio {
                Some(text) => Some(text@),
                None => None,
            },
        ),
{
    let mut out: Vec<String> = Vec::new();
    match &status.mount {
        Some(mount) => {
            let mut heading = mount.mount_point.display();
            heading.append(" (");
            heading.append(mount.backend.as_str());
            heading.append(", instance ");
            heading.append(mount.instance.as_str());
            heading.append(") age ");
            heading.append(decimal_text(mount.age_secs).as_str());
            heading.append("s");
            assert(heading@ =~= status_heading(*mount));
            out.push(heading);
            out.push(join2("dirty files: ", decimal_text(status.dirty_files).as_str()));
            if let Some(text) = ratio {
                out.push(join2("cache hit ratio: ", text));
            }
        },
        None => {
            let shown = mount_point.display();
            out.push(join2(shown.as_str(), " is not currently mounted by the daemon"));
        },
    }
    proof {
        let ratio_chars = match ratio {
            Some(text) => Some(text@),
            None => None,
        };
        assert(views(out@) =~= status_output(*status, mount_point@, ratio_chars));
    }
    out
}

/// The line that `status` prints without a daemon, given the entry of the mount
/// table.
pub fn degraded_status_line(entry: Option<&MountSummary>, mount_point: &FsPath) -> (r: String)
    ensures
        r@ == match entry {
            Some(mount) => utf8_lossy(mount.mount_point@) + " ("@ + mount.backend@
                + ", degraded view — no daemon running)"@,
            None => utf8_lossy(mount_point@) + " is not currently mounted"@,
        },
{
    match entry {
        Some(mount) => {
            let mut line = mount.mount_point.display();
            line.append(" (");
            line.append(mount.backend.as_str());
            line.append(", degraded view — no daemon running)");
            line
        },
        None => {
            let shown = mount_point.display();
            join2(shown.as_str(), " is not currently mounted")
        },
    }
}

/// What `daemon status` prints, given the content of the file with the process
/// ID, where there is one, and the number of mounts, where the daemon answers.
pub open spec fn daemon_status_output(pid: Option<Seq<char>>, mounts: Option<usize>) -> Seq<char> {
    match mounts {
        Some(n) => "daemon running ("@ + match pid {
            Some(text) => "pid "@ + trimmed(text),
            None => "pid unknown"@,
        } + ", "@ + decimal(n as nat) + " mount"@ + if n == 1 {
            Seq::empty()
        } else {
            "s"@
        } + ")"@,
        None => match pid {
            Some(text) => "daemon socket is unreachable (stale pid file: "@ + trimmed(text) + ")"@,
            None => "daemon is not running"@,
        },
    }
}

/// The line that `daemon status` prints.
pub fn daemon_status_line(pid: Option<&str>, mounts: Option<usize>) -> (r: String)
    ensures
        r@ == daemon_status_output(
            match pid {
                Some(text) => Some(text@),
                None => None,
            },
            mounts,
        ),
{
    match mounts {
        Some(n) => {
            let mut line = "daemon running (".to_owned();
            match pid {
                Some(text) => {
                    let shown = join2("pid ", trim(text).as_str());
                    line.append(shown.as_str());
                },
                None => {
                    line.append("pid unknown");
                },
            }
            line.append(", ");
            line.append(decimal_text(n as u64).as_str());
            line.append(" mount");
            if n != 1 {
                line.append("s");
            }
            line.append(")");
            proof {
                let pid_chars = match pid {
                    Some(text) => Some(text@),
                    None => None,
                };
                assert(line@ =~= daemon_status_output(pid_chars, mounts));
            }
            line
        },
        None => match pid {
            Some(text) => join3(
                "daemon socket is unreachable (stale pid file: ",
                trim(text).as_str(),
                ")",
            ),
            None => "daemon is not running".to_owned(),
        },
    }
}

/// The process ID in the daemon's file.
pub fn daemon_pid(text: &str) -> (r: Result<i32, String>)
    ensures
        match r {
            Ok(pid) => parsed_i32(trimmed(text@)) == Some(pid),
            Err(message) => parsed_i32(trimmed(text@)) is None && message@
                == "daemon pid file does not contain an integer"@,
        },
{
    match parse_i32(trim(text).as_str()) {
        Some(pid) => Ok(pid),
        None => Err("daemon pid file does not contain an integer".to_owned()),
    }
}

/// What `daemon stop` does, given the content of the file with the process ID,
/// where there is one.
#[derive(Debug)]
pub enum StopStep {
    /// Print that the daemon does not run.
    NotRunning,
    /// Ask the process with this ID to stop.
    Signal(i32),
    /// Fail with this message.
    Fail(String),
}

/// Decides what `daemon stop` does.
pub fn stop_step(pid_text: Option<&str>) -> (r: StopStep)
    ensures
        match pid_text {
            None => r is NotRunning,
            Some(text) => match parsed_i32(trimmed(text@)) {
                Some(pid) => r == StopStep::Signal(pid),
                None => r matches StopStep::Fail(message) && message@
                    == "daemon pid file does not contain an integer"@,
            },
        },
{
    match pid_text {
        None => StopStep::NotRunning,
        Some(text) => match daemon_pid(text) {
            Ok(pid) => StopStep::Signal(pid),
            Err(message) => StopStep::Fail(message),
        },
    }
}

/// How often `daemon start` looks for the socket.
pub const START_ATTEMPTS: u32 = 50;

/// Milliseconds of the pause after a look that found nothing.
pub const START_PAUSE_MS: u64 = 100;

/// What `daemon start` does once the daemon was started.
#[derive(Debug, Clone, Copy, PartialEq, Eq, Structural)]
pub enum StartStep {
    /// The daemon answers.
    Listening,
    /// Pause, then look again.
    Pause,
    /// Pause, then stop looking.
    PauseAndGiveUp,
}

/// Decides what `daemon start` does after a number of looks, the last of which
/// found the daemon or did not. A pause follows every look that found nothing,
/// the last one too.
pub fn start_step(looks: u32, answers: bool) -> (r: StartStep)
    ensures
        r == if answers {
            StartStep::Listening
        } else if looks < START_ATTEMPTS {
            StartStep::Pause
        } else {
            StartStep::PauseAndGiveUp
        },
{
    if answers {
        StartStep::Listening
    } else if looks < START_ATTEMPTS {
        StartStep::Pause
    } else {
        StartStep::PauseAndGiveUp
    }
}

/// How to install a FUSE driver.
pub open spec fn install_hint(platform: Platform) -> Seq<Seq<char>> {
    match platform {
        Platform::MacOs => seq![
            "macOS: install macFUSE"@,
            "  brew install --cask macfuse"@,
            "  or: https://osxfuse.github.io/"@,
        ],
        Platform::Linux => seq![
            "Linux: install libfuse3"@,
            "  sudo apt install libfuse3-dev fuse3    # Debian/Ubuntu"@,
            "  sudo dnf install fuse3-devel fuse3     # Fedora"@,
            "  sudo pacman -S fuse3                   # Arch"@,
        ],
        Platform::Windows => seq![
            "Windows: install WinFsp"@,
            "  winget install WinFsp.WinFsp"@,
            "  or: https://winfsp.dev/"@,
        ],
        Platform::Other => Seq::empty(),
    }
}

/// What `check` prints.
pub open spec fn check_output(available: bool, platform: Platform) -> Seq<Seq<char>> {
    if available {
        seq!["FUSE is available"@]
    } else {
        seq!["FUSE not found."@, ""@] + install_hint(platform)
    }
}

/// The lines that `check` prints.
pub fn check_lines(available: bool, platform: Platform) -> (r: Vec<String>)
    ensures
        views(r@) == check_output(available, platform),
{
    let mut out: Vec<String> = Vec::new();
    if available {
        out.push("FUSE is available".to_owned());
    } else {
        out.push("FUSE not found.".to_owned());
        out.push("".to_owned());
        match platform {
            Platform::MacOs => {
                out.push("macOS: install macFUSE".to_owned());
                out.push("  brew install --cask macfuse".to_owned());
                out.push("  or: https://osxfuse.github.io/".to_owned());
            },
            Platform::Linux => {
                out.push("Linux: install libfuse3".to_owned());
                out.push(
                    "  sudo apt install libfuse3-dev fuse3    # Debian/Ubuntu".to_owned(),
                );
                out.push("  sudo dnf install fuse3-devel fuse3     # Fedora".to_owned());
                out.push("  sudo pacman -S fuse3                   # Arch".to_owned());
            },
            Platform::Windows => {
                out.push("Windows: install WinFsp".to_owned());
                out.push("  winget install WinFsp.WinFsp".to_owned());
                out.push("  or: https://winfsp.dev/".to_owned());
            },
            Platform::Other => {},
        }
    }
    assert(views(out@) =~= check_output(available, platform));
    out
}

/// The outcome of `check`.
pub fn check_result(available: bool) -> (r: Result<(), String>)
    ensures
        r is Ok <==> available,
        r matches Err(message) ==> message@ == "FUSE is not installed"@,
{
    if available {
        Ok(())
    } else {
        Err("FUSE is not installed".to_owned())
    }
}

/// Without `-v` information is logged, with one also what helps to find faults,
/// with more everything.
pub proof fn law_verbosity_goes_by_count(verbose: u8, r: LoggingConfig)
    requires
        call_ensures(logging_config_for_verbose, (verbose,), r),
    ensures
        verbose == 0 ==> r.level@ == "info"@,
        verbose == 1 ==> r.level@ == "debug"@,
        verbose >= 2 ==> r.level@ == "trace"@,
        r.log_file is None,
{
}

/// A request to mount holds what the command line gave, for the backend that was
/// named.
pub proof fn law_mount_requests_hold_the_arguments(backend: MountBackend, r: MountRequest)
    requires
        call_ensures(mount_request, (backend,), r),
    ensures
        backend matches MountBackend::Git {
            source,
            mountpoint,
            branch,
            poll_interval,
            allow_other,
            read_only,
        } ==> (r matches MountRequest::Git(args) && args.source@ == source@ && args.mount_point@
            == mountpoint@ && args.branch is Some && args.branch->0@ == branch@
            && args.poll_interval_secs == Some(poll_interval) && args.allow_other == allow_other
            && args.read_only == read_only),
        backend matches MountBackend::Wiki {
            base_url,
            root_slug,
            mountpoint,
            auth,
            org_id,
            poll_interval,
            allow_other,
            read_only,
        } ==> (r matches MountRequest::Wiki(args) && args.base_url@ == base_url@ && args.root_slug@
            == root_slug@ && args.auth_token@ == auth@ && args.org_id == org_id && args.mount_point@
            == mountpoint@ && args.poll_interval_secs == Some(poll_interval) && args.allow_other
            == allow_other && args.read_only == read_only),
        backend matches MountBackend::S3 {
            bucket,
            mountpoint,
            prefix,
            endpoint,
            region,
            access_key_id,
            secret_access_key,
            session_token,
            virtual_host_style,
            poll_interval,
            allow_other,
            read_only,
        } ==> (r matches MountRequest::S3(args) && args.bucket@ == bucket@ && args.mount_point@
            == mountpoint@ && args.prefix == prefix && args.endpoint == endpoint && args.region
            == region && args.access_key_id == access_key_id && args.secret_access_key
            == secret_access_key && args.session_token == session_token && args.virtual_host_style
            == virtual_host_style && args.poll_interval_secs == Some(poll_interval)
            && args.allow_other == allow_other && args.read_only == read_only),
{
}

/// The list has a heading and a line for every mount, in order, with its backend,
/// its age and its mount point; without mounts it says so.
pub proof fn law_list_has_a_line_for_every_mount(mounts: &Vec<MountSummary>, r: Vec<String>, i: int)
    requires
        call_ensures(list_lines, (mounts,), r),
    ensures
        mounts@.len() == 0 ==> r@.len() == 1 && r@[0]@ == "no active mounts"@,
        mounts@.len() > 0 ==> r@.len() == mounts@.len() + 1,
        mounts@.len() > 0 ==> r@[0]@ == padded("BACKEND"@, 12) + " "@ + padded("AGE(s)"@, 10)
            + " MOUNT POINT"@,
        0 <= i < mounts@.len() ==> r@[i + 1]@ == padded(mounts@[i].backend@, 12) + " "@ + padded(
            decimal(mounts@[i].age_secs as nat),
            10,
        ) + " "@ + utf8_lossy(mounts@[i].mount_point@),
{
    assert(views(r@).len() == r@.len());
    assert(views(r@)[0] == r@[0]@);
    if 0 <= i < mounts@.len() {
        assert(views(r@)[i + 1] == r@[i + 1]@);
    }
}

/// The status of a mount is told with its mount point, backend, instance, age and
/// number of dirty files, and with the hit ratio where that is known; what is no
/// mount is told as such.
pub proof fn law_status_lines_tell_the_mount(
    status: &StatusResult,
    mount_point: &FsPath,
    ratio: Option<&str>,
    r: Vec<String>,
)
    requires
        call_ensures(status_lines, (status, mount_point, ratio), r),
    ensures
        status.mount is None ==> r@.len() == 1 && r@[0]@ == utf8_lossy(mount_point@)
            + " is not currently mounted by the daemon"@,
        status.mount matches Some(mount) ==> {
            &&& r@.len() == if ratio is Some {
                3int
            } else {
                2int
            }
            &&& r@[0]@ == utf8_lossy(mount.mount_point@) + " ("@ + mount.backend@ + ", instance "@
                + mount.instance@ + ") age "@ + decimal(mount.age_secs as nat) + "s"@
            &&& r@[1]@ == "dirty files: "@ + decimal(status.dirty_files as nat)
            &&& ratio matches Some(text) ==> r@[2]@ == "cache hit ratio: "@ + text@
        },
{
    assert(views(r@).len() == r@.len());
    assert(views(r@)[0] == r@[0]@);
    if status.mount is Some {
        assert(views(r@)[1] == r@[1]@);
        if ratio is Some {
            assert(views(r@)[2] == r@[2]@);
        }
    }
}

/// What is told of single mounts names their mount point.
pub proof fn law_lines_name_the_mount_point(
    mount_point: &FsPath,
    mounted: String,
    unmounted: String,
    entry: Option<&MountSummary>,
    degraded: String,
    value: Option<&str>,
    declined: bool,
)
    requires
        call_ensures(mounted_line, (mount_point,), mounted),
        call_ensures(unmounted_line, (mount_point,), unmounted),
        call_ensures(degraded_status_line, (entry, mount_point), degraded),
        call_ensures(daemon_is_declined, (value,), declined),
    ensures
        mounted@ == "mounted "@ + utf8_lossy(mount_point@) + " (daemon)"@,
        unmounted@ == "unmounted "@ + utf8_lossy(mount_point@),
        entry is None ==> degraded@ == utf8_lossy(mount_point@) + " is not currently mounted"@,
        entry matches Some(mount) ==> degraded@ == utf8_lossy(mount.mount_point@) + " ("@
            + mount.backend@ + ", degraded view — no daemon running)"@,
        declined <==> value is Some && value->0@ == "1"@,
{
}

/// The daemon's status tells whether it answers, its process and the number of its
/// mounts.
pub proof fn law_daemon_status_is_told(pid: Option<&str>, mounts: Option<usize>, r: String)
    requires
        call_ensures(daemon_status_line, (pid, mounts), r),
    ensures
        mounts is None && pid is None ==> r@ == "daemon is not running"@,
        mounts is None && pid is Some ==> r@ == "daemon socket is unreachable (stale pid file: "@
            + trimmed(pid->0@) + ")"@,
        mounts == Some(1usize) && pid is Some ==> r@ == "daemon running ("@ + ("pid "@ + trimmed(
            pid->0@,
        )) + ", "@ + decimal(1) + " mount"@ + Seq::<char>::empty() + ")"@,
        mounts is Some && mounts->0 != 1 && pid is Some ==> r@ == "daemon running ("@ + ("pid "@
            + trimmed(pid->0@)) + ", "@ + decimal(mounts->0 as nat) + " mount"@ + "s"@ + ")"@,
        mounts == Some(1usize) && pid is None ==> r@ == "daemon running ("@ + "pid unknown"@ + ", "@
            + decimal(1) + " mount"@ + Seq::<char>::empty() + ")"@,
        mounts is Some && mounts->0 != 1 && pid is None ==> r@ == "daemon running ("@
            + "pid unknown"@ + ", "@ + decimal(mounts->0 as nat) + " mount"@ + "s"@ + ")"@,
{
}

/// The process that is asked to stop is the one in the daemon's file; without the
/// file none is, and a file without a number is an error.
pub proof fn law_the_daemon_is_stopped(
    text: &str,
    pid: Result<i32, String>,
    content: Option<&str>,
    step: StopStep,
)
    requires
        call_ensures(daemon_pid, (text,), pid),
        call_ensures(stop_step, (content,), step),
        content matches Some(t) ==> t@ == text@,
    ensures
        pid is Ok <==> parsed_i32(trimmed(text@)) is Some,
        pid matches Ok(n) ==> parsed_i32(trimmed(text@)) == Some(n),
        pid matches Err(message) ==> message@ == "daemon pid file does not contain an integer"@,
        content is None <==> step is NotRunning,
        content is Some && pid is Ok ==> step == StopStep::Signal(pid->Ok_0),
        content is Some && pid is Err ==> (step matches StopStep::Fail(message) && message@
            == pid->Err_0@),
{
}

/// A daemon that answers is told of at once; else fifty looks are taken, with a
/// pause after each.
pub proof fn law_fifty_looks_are_taken(looks: u32, answers: bool, r: StartStep)
    requires
        call_ensures(start_step, (looks, answers), r),
    ensures
        r is Listening <==> answers,
        !answers && looks < 50 ==> r is Pause,
        !answers && looks >= 50 ==> r is PauseAndGiveUp,
{
}

/// Where there is a driver this is all that is said; else it is said how to get
/// one on the platform, and the check fails.
pub proof fn law_check_tells_how_to_get_a_driver(
    available: bool,
    platform: Platform,
    r: Vec<String>,
    outcome: Result<(), String>,
)
    requires
        call_ensures(check_lines, (available, platform), r),
        call_ensures(check_result, (available,), outcome),
    ensures
        outcome is Ok <==> available,
        outcome matches Err(message) ==> message@ == "FUSE is not installed"@,
        available ==> r@.len() == 1 && r@[0]@ == "FUSE is available"@,
        !available ==> r@.len() >= 2 && r@[0]@ == "FUSE not found."@ && r@[1]@ == ""@,
        !available && platform is MacOs ==> r@.len() == 5 && r@[2]@ == "macOS: install macFUSE"@
            && r@[3]@ == "  brew install --cask macfuse"@ && r@[4]@
            == "  or: https://osxfuse.github.io/"@,
        !available && platform is Linux ==> r@.len() == 6 && r@[2]@ == "Linux: install libfuse3"@
            && r@[3]@ == "  sudo apt install libfuse3-dev fuse3    # Debian/Ubuntu"@ && r@[4]@
            == "  sudo dnf install fuse3-devel fuse3     # Fedora"@ && r@[5]@
            == "  sudo pacman -S fuse3                   # Arch"@,
        !available && platform is Windows ==> r@.len() == 5 && r@[2]@
            == "Windows: install WinFsp"@ && r@[3]@ == "  winget install WinFsp.WinFsp"@ && r@[4]@
            == "  or: https://winfsp.dev/"@,
        !available && platform is Other ==> r@.len() == 2,
{
    assert(views(r@).len() == r@.len());
    assert(views(r@)[0] == r@[0]@);
    if !available {
        assert(views(r@)[1] == r@[1]@);
        if !(platform is Other) {
            assert(views(r@)[2] == r@[2]@);
            assert(views(r@)[3] == r@[3]@);
            assert(views(r@)[4] == r@[4]@);
        }
        if platform is Linux {
            assert(views(r@)[5] == r@[5]@);
        }
    }
}

} // verus!
