//! The daemon's register, its conversation with clients, and the mount table.
use omnifuse::daemon::client::{
    accept_response, daemon_is_absent, default_timeout, mount_method, mount_point_params,
    response_line, ConnectFailure, DaemonClient,
};
use omnifuse::daemon::mount_table::{
    classify_entry, decode_octal, lookup, macos_line_is_readable, mountinfo_line_is_decodable,
    parse_linux_mountinfo_line, parse_macos_mount_line, unmount_command, unmount_failure, RawMount,
};
use omnifuse::daemon::protocol::{MountSummary, Request, Response, PROTOCOL_VERSION};
use omnifuse::daemon::server::{
    dispatch, first_error, git_instance_hash, plan_startup, request_line, respond, serve_action,
    Daemon, Dispatch, MethodCall, ServeAction, ServeEvent, StartupStep, UnmountWait,
};
use omnifuse::duration::Duration;
use omnifuse::environment::Platform;
use omnifuse::json::Value;
use omnifuse::mount_service::GitConfig;
use omnifuse::paths::FsPath;
use omnifuse::persistent_cache::InstanceHash;

fn path(text: &str) -> FsPath {
    FsPath::from_text(text)
}

#[test]
fn parses_linux_mountinfo_fuse_line() {
    let line = "1 2 0:42 / /mnt/wiki rw,relatime - fuse.omnifuse-wiki omnifuse-wiki rw";
    let parsed = parse_linux_mountinfo_line(line).expect("parsed");
    assert_eq!(parsed.fs_name, "omnifuse-wiki");
    assert_eq!(parsed.mount_point, path("/mnt/wiki"));
}

#[test]
fn linux_mountinfo_decodes_octal_in_paths() {
    let line =
        r"42 0 0:21 / /mnt/with\040spaces ro,relatime - fuse.omnifuse-s3 omnifuse-s3 ro";
    let parsed = parse_linux_mountinfo_line(line).expect("parsed");
    assert_eq!(parsed.fs_name, "omnifuse-s3");
    assert_eq!(parsed.mount_point, path("/mnt/with spaces"));
}

#[test]
fn parses_macos_mount_line_for_macfuse() {
    let line = "omnifuse-s3@osxfuse0 on /Volumes/bucket (macfuse, nodev, nosuid)";
    let parsed = parse_macos_mount_line(line).expect("parsed");
    assert_eq!(parsed.fs_name, "omnifuse-s3@osxfuse0");
    assert_eq!(parsed.mount_point, path("/Volumes/bucket"));
}

#[test]
fn classify_keeps_omnifuse_backends_only() {
    let entry = RawMount { fs_name: "omnifuse-git".to_string(), mount_point: path("/mnt/repo") };
    assert!(classify_entry(&entry).is_some());

    let unrelated = RawMount { fs_name: "ext4".to_string(), mount_point: path("/") };
    assert!(classify_entry(&unrelated).is_none());
}

#[test]
fn mount_table_details() {
    let plain = "1 2 0:42 / /mnt/x rw - fuse omnifuse rw";
    let parsed = parse_linux_mountinfo_line(plain).expect("parsed");
    assert_eq!(parsed.fs_name, "omnifuse");
    let summary = classify_entry(&parsed).expect("known");
    assert_eq!(summary.backend, "omnifuse");
    assert_eq!(summary.age_secs, 0);
    assert_eq!(summary.instance, "");
    let s3 = RawMount { fs_name: "omnifuse-s3".to_string(), mount_point: path("/b") };
    assert_eq!(classify_entry(&s3).expect("known").backend, "s3");
    assert!(parse_linux_mountinfo_line("1 2 3 4 - fuse x").is_none());
    assert!(parse_linux_mountinfo_line("1 2 3 4 5 - fuse").is_none());
    assert!(parse_linux_mountinfo_line("no separator").is_none());
    assert!(mountinfo_line_is_decodable(plain));
    assert!(!mountinfo_line_is_decodable(r"1 2 0:42 / /m\777 rw - fuse omnifuse rw"));
    assert_eq!(decode_octal(r"a\134b\011"), "a\\b\t");
    assert_eq!(decode_octal(r"a\01"), "a\\01");
    assert_eq!(decode_octal(r"a\189b"), "a\\189b");
    assert_eq!(decode_octal(r"a\134b\011c"), "a\\b\tc");
    assert_eq!(decode_octal(r"\303\251x"), "\u{e9}x");
    let hfs = parse_macos_mount_line("/dev/disk1 on / (hfs, local)").expect("parsed");
    assert_eq!(hfs.fs_name, "hfs");
    assert_eq!(hfs.mount_point, path("/"));
    assert!(parse_macos_mount_line("no markers").is_none());
    assert!(!macos_line_is_readable("a on (x)"));
    assert!(macos_line_is_readable("a on b (x)"));
}

fn summary(mount_point: &str) -> MountSummary {
    MountSummary {
        backend: "git".to_string(),
        instance: String::new(),
        mount_point: path(mount_point),
        age_secs: 0,
    }
}

#[test]
fn mount_table_is_searched_by_path() {
    let entries = vec![summary("/a"), summary("/b"), summary("/b/")];
    assert_eq!(lookup(&entries, &path("/b/.")), Some(1));
    assert_eq!(lookup(&entries, &path("/c")), None);
}

#[test]
fn unmounting_by_platform() {
    let linux = unmount_command(Platform::Linux).expect("command");
    assert_eq!((linux.program, linux.option), ("fusermount", Some("-u")));
    assert_eq!(
        unmount_failure(&linux, &path("/m"), "busy"),
        "`fusermount -u /m` failed: busy"
    );
    let mac = unmount_command(Platform::MacOs).expect("command");
    assert_eq!(unmount_failure(&mac, &path("/m"), "busy"), "`umount /m` failed: busy");
    assert!(unmount_command(Platform::Windows).is_err());
}

#[test]
fn shared_buffer_manager_is_same_arc_per_instance() {
    let mut daemon = Daemon::new();
    let i1 = InstanceHash::from_parts(&["test", "alpha"]);
    let a = daemon.shared_buffer_manager(&i1);
    let b = daemon.shared_buffer_manager(&i1);
    assert_eq!(a.number, b.number, "same instance must share the buffer manager");
    assert!(a.created && !b.created);

    let i2 = InstanceHash::from_parts(&["test", "beta"]);
    let c = daemon.shared_buffer_manager(&i2);
    assert_ne!(a.number, c.number, "different instances must get distinct buffer managers");
}

#[test]
fn mounts_are_entered_and_taken_out() {
    let mut daemon = Daemon::new();
    let inst = InstanceHash::from_parts(&["x"]);
    assert_eq!(daemon.mount_count(), 0);
    let first = daemon.start_mount("git", &inst, &path("/m/a"), 1_000_000_000).expect("mount");
    let second = daemon.start_mount("git", &inst, &path("/m/b"), 2_000_000_000).expect("mount");
    assert_eq!(first.number, second.number);
    assert_eq!(
        daemon.start_mount("s3", &inst, &path("/m//a/"), 3),
        Err("mount already active at /m//a/".to_string())
    );
    assert_eq!(daemon.mount_count(), 2);
    let mut listed = daemon.list_mounts(5_500_000_000).mounts;
    listed.sort_by_key(|m| m.age_secs);
    assert_eq!(listed.len(), 2);
    assert_eq!(listed[1].mount_point, path("/m/a"));
    assert_eq!(listed[1].age_secs, 4);
    assert_eq!(listed[1].instance, inst.as_str());
    let status = daemon.status(&path("/m/b"), 2_000_000_000);
    assert_eq!(status.mount.expect("mounted").backend, "git");
    assert_eq!(status.dirty_files, 0);
    assert!(status.cache_hit_ratio.is_none());
    assert!(daemon.status(&path("/nope"), 0).mount.is_none());

    assert!(daemon.check_unmount(&path("/m/a")).is_ok());
    assert_eq!(daemon.await_unmount(&path("/m/a"), 5, 10), UnmountWait::Sleep);
    assert_eq!(daemon.await_unmount(&path("/m/a"), 10, 10), UnmountWait::GiveUp);
    daemon.end_mount(&path("/m/a"), inst.as_str());
    assert_eq!(daemon.await_unmount(&path("/m/a"), 10, 10), UnmountWait::Done);
    assert!(!daemon.shared_buffer_manager(&inst).created);
    daemon.end_mount(&path("/m/b"), inst.as_str());
    assert!(daemon.shared_buffer_manager(&inst).created);
}

#[test]
fn unmount_unknown_path_returns_error() {
    let daemon = Daemon::new();
    assert_eq!(
        daemon.check_unmount(&path("/tmp/never-mounted")),
        Err("no active mount at /tmp/never-mounted".to_string())
    );
}

#[test]
fn list_returns_empty_when_no_mounts() {
    assert!(Daemon::new().list_mounts(0).mounts.is_empty());
}

#[test]
fn dispatch_rejects_unknown_method() {
    match dispatch(Ok(Request::new(42, "bogus.method", None))) {
        Dispatch::Reply(response) => {
            assert_eq!(response.id, 42);
            assert_eq!(response.error.expect("err").message, "unknown method `bogus.method`");
        }
        other => panic!("unexpected {other:?}"),
    }
}

#[test]
fn dispatch_rejects_wrong_protocol_version() {
    let mut req = Request::new(1, "list", None);
    req.v = 999;
    match dispatch(Ok(req)) {
        Dispatch::Reply(response) => assert_eq!(
            response.error.expect("err").message,
            "protocol version mismatch: client v=999, daemon v=1"
        ),
        other => panic!("unexpected {other:?}"),
    }
}

#[test]
fn dispatch_routes_methods() {
    assert!(matches!(
        dispatch(Ok(Request::new(7, "list", None))),
        Dispatch::Run(7, MethodCall::List)
    ));
    let params = mount_point_params(&path("/m"));
    assert!(matches!(
        dispatch(Ok(Request::new(1, "status", Some(params)))),
        Dispatch::Run(1, MethodCall::Status(p)) if p == path("/m")
    ));
    let params = mount_point_params(&path("/m"));
    assert!(matches!(
        dispatch(Ok(Request::new(1, "unmount", Some(params)))),
        Dispatch::Run(1, MethodCall::Unmount(p)) if p == path("/m")
    ));
    assert!(matches!(
        dispatch(Ok(Request::new(1, "mount.s3", None))),
        Dispatch::Run(1, MethodCall::MountS3(Value::Null))
    ));
    assert!(matches!(
        dispatch(Ok(Request::new(1, "mount.wiki", Some(Value::Bool(true))))),
        Dispatch::Run(1, MethodCall::MountWiki(Value::Bool(true)))
    ));
    assert!(matches!(
        dispatch(Ok(Request::new(1, "mount.git", None))),
        Dispatch::Run(1, MethodCall::MountGit(Value::Null))
    ));
    for (method, message) in [
        ("status", "status requires `mountpoint`"),
        ("unmount", "unmount requires `mountpoint`"),
    ] {
        match dispatch(Ok(Request::new(3, method, None))) {
            Dispatch::Reply(response) => assert_eq!(response.error.expect("err").message, message),
            other => panic!("unexpected {other:?}"),
        }
    }
    match dispatch(Err("EOF".to_string())) {
        Dispatch::Reply(response) => {
            assert_eq!(response.id, 0);
            assert_eq!(response.error.expect("err").message, "invalid request: EOF");
        }
        other => panic!("unexpected {other:?}"),
    }
}

#[test]
fn responses_say_what_happened() {
    let ok = respond(1, Ok(Value::Bool(true)));
    assert!(ok.result.is_some());
    assert!(ok.error.is_none());
    let err = respond(2, Err("boom".to_string()));
    assert!(err.result.is_none());
    assert_eq!(err.error.expect("error").message, "boom");
    assert_eq!(err.v, PROTOCOL_VERSION);
}

#[test]
fn clients_read_responses() {
    assert!(matches!(accept_response(Response::ok(1, Value::Bool(true))), Ok(Value::Bool(true))));
    let refused = accept_response(Response::err(1, "boom"));
    assert!(matches!(refused, Err(message) if message == "boom"));
    let old = Response { v: 2, ..Response::ok(1, Value::Null) };
    let refused = accept_response(old);
    assert!(
        matches!(refused, Err(message) if message == "protocol version mismatch: daemon v=2, client v=1")
    );
    let empty = Response { v: 1, id: 1, result: None, error: None };
    let refused = accept_response(empty);
    assert!(
        matches!(refused, Err(message) if message == "daemon response had neither result nor error")
    );
    assert_eq!(response_line(3, "{}\r\n"), Ok("{}".to_string()));
    assert_eq!(response_line(0, ""), Err("daemon closed the connection".to_string()));
    assert_eq!(default_timeout(), Duration::from_secs(60));
    assert!(daemon_is_absent(ConnectFailure::NotFound));
    assert!(daemon_is_absent(ConnectFailure::ConnectionRefused));
    assert!(!daemon_is_absent(ConnectFailure::Other));
}

#[test]
fn clients_number_their_requests() {
    let mut client = DaemonClient::new();
    let first = client.request("list", None);
    let second = client.request(&mount_method("git"), None);
    assert_eq!((first.id, second.id), (1, 2));
    assert_eq!(first.v, PROTOCOL_VERSION);
    assert_eq!(second.method, "mount.git");
}

#[test]
fn lines_without_text_are_passed_over() {
    assert_eq!(request_line("{}\n"), Some("{}".to_string()));
    assert_eq!(request_line("\r\n"), None);
    assert_eq!(request_line(" \n"), Some(" ".to_string()));
}

#[test]
fn daemon_refuses_to_replace_live_socket() {
    let socket = path("/run/daemon.sock");
    let error = plan_startup(&socket, true, true).expect_err("second daemon must fail");
    assert!(error.contains("already running"), "unexpected error: {error}");
    assert_eq!(
        plan_startup(&socket, true, false),
        Ok(vec![
            StartupStep::WritePid,
            StartupStep::RemoveStaleSocket,
            StartupStep::Bind,
            StartupStep::RestrictSocket,
        ])
    );
    assert_eq!(
        plan_startup(&socket, false, false),
        Ok(vec![StartupStep::WritePid, StartupStep::Bind, StartupStep::RestrictSocket])
    );
}

#[test]
fn the_first_error_counts() {
    assert!(first_error(&vec![]).is_ok());
    assert!(first_error(&vec![Ok(()), Ok(())]).is_ok());
    let results = vec![Ok(()), Err("a".to_string()), Err("b".to_string())];
    assert_eq!(first_error(&results), Err("a".to_string()));
}

#[test]
fn git_instances_go_by_source_and_branch() {
    let config = GitConfig {
        source: "src".to_string(),
        branch: "main".to_string(),
        max_push_retries: 3,
        poll_interval_secs: 30,
        local_dir: path("/w"),
    };
    let expected = InstanceHash::from_parts(&["git", "src", "main"]);
    assert_eq!(git_instance_hash(&config).as_str(), expected.as_str());
}

#[test]
fn daemon_goes_on_until_it_is_told_to_stop() {
    assert_eq!(serve_action(ServeEvent::Connected), ServeAction::ServeClient);
    assert_eq!(serve_action(ServeEvent::AcceptFailed), ServeAction::Pause(50));
    assert_eq!(serve_action(ServeEvent::Shutdown), ServeAction::Stop);
}

#[test]
fn requests_hold_what_they_are_made_of() {
    let params = Value::Object(vec![("bucket".to_string(), Value::Text("x".to_string()))]);
    let request = Request::new(7, "mount.s3", Some(params));
    assert_eq!(request.v, PROTOCOL_VERSION);
    assert_eq!(request.id, 7);
    assert_eq!(request.method, "mount.s3");
    let params = request.params.expect("params");
    assert_eq!(params.get("bucket").and_then(Value::as_str), Some("x"));
}

#[test]
fn response_ok_and_err_are_distinguishable() {
    let ok = Response::ok(1, Value::Object(vec![("ok".to_string(), Value::Bool(true))]));
    let err = Response::err(2, "boom");
    assert!(ok.result.is_some());
    assert!(ok.error.is_none());
    assert!(err.result.is_none());
    assert_eq!(err.error.expect("error").message, "boom");
}

#[test]
fn a_second_mount_can_follow_a_first() {
    let mut daemon = Daemon::new();
    assert!(daemon.has_numbers());
    let alpha = InstanceHash::from_parts(&["test", "alpha"]);
    let beta = InstanceHash::from_parts(&["test", "beta"]);
    let first = daemon.start_mount("git", &alpha, &path("/a"), 0).expect("first");
    assert!(daemon.has_numbers());
    let second = daemon.start_mount("git", &beta, &path("/b"), 0).expect("second");
    assert_ne!(first.number, second.number);
}

#[test]
fn escapes_of_several_bytes_become_characters() {
    assert_eq!(decode_octal(r"/mnt/caf\303\251"), "/mnt/café");
    let line = r"42 0 0:21 / /mnt/caf\303\251 ro - fuse.omnifuse-git omnifuse-git ro";
    let parsed = parse_linux_mountinfo_line(line).expect("parsed");
    assert_eq!(parsed.mount_point, path("/mnt/café"));
}
