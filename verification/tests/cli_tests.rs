//! The manual for agents and what the commands print.
use omnifuse::cli::commands::{
    check_lines, check_result, daemon_is_declined, daemon_pid, daemon_status_line,
    degraded_status_line, list_lines, logging_config_for_verbose, mount_request, mounted_line,
    start_step, status_lines, stop_step, unmounted_line, MountBackend, MountRequest, StartStep,
    StopStep, START_ATTEMPTS,
};
use omnifuse::cli::manual::SAMPLE_CONFIG;
use omnifuse::cli::skill::{CommandTree, SkillInvocation, ToolTail};
use omnifuse::daemon::protocol::{MountSummary, StatusResult};
use omnifuse::environment::Platform;
use omnifuse::paths::FsPath;

const VERSION: &str = "0.1.0";

fn node(name: &str, about: Option<&str>, subcommands: Vec<CommandTree>) -> CommandTree {
    CommandTree {
        name: name.to_string(),
        about: about.map(str::to_string),
        help: format!("Usage: {name}"),
        subcommands,
    }
}

fn tree() -> CommandTree {
    node(
        "of",
        None,
        vec![
            node(
                "mount",
                Some("Mount a backend"),
                vec![
                    node("git", Some("Mount a git repository"), vec![]),
                    node("s3", Some("Mount an S3-compatible bucket"), vec![]),
                    node("wiki", Some("Mount a wiki"), vec![]),
                ],
            ),
            node("list", Some("List active mounts"), vec![]),
            node("status", None, vec![]),
            node("unmount", None, vec![]),
            node("daemon", None, vec![node("start", None, vec![]), node("stop", None, vec![])]),
            node("check", None, vec![]),
            node("gen-config", None, vec![]),
            node("skill", None, vec![]),
        ],
    )
}

fn argv(args: &[&str]) -> Vec<String> {
    std::iter::once("of").chain(args.iter().copied()).map(String::from).collect()
}

fn detect_skill_flag(argv: &Vec<String>) -> Option<SkillInvocation> {
    omnifuse::cli::skill::detect_skill_flag(argv, &tree())
}

fn render(path: &[String], for_tool: Option<&str>) -> String {
    let tails = vec![ToolTail { tool: "editor".to_string(), text: "## For the editor\n".to_string() }];
    omnifuse::cli::skill::render(&path.to_vec(), for_tool, VERSION, &tree(), &tails)
}

#[test]
fn detects_top_level_flag() {
    let inv = detect_skill_flag(&argv(&["--skill"])).expect("detected");
    assert!(inv.path.is_empty());
    assert!(inv.for_tool.is_none());
}

#[test]
fn detects_flag_with_subcommand_path() {
    let inv = detect_skill_flag(&argv(&["mount", "git", "--skill"])).expect("detected");
    assert_eq!(inv.path, vec!["mount".to_string(), "git".to_string()]);
}

#[test]
fn detects_flag_in_middle() {
    let inv = detect_skill_flag(&argv(&["--skill", "mount", "wiki"])).expect("detected");
    assert_eq!(inv.path, vec!["mount".to_string(), "wiki".to_string()]);
}

#[test]
fn stops_path_at_non_subcommand() {
    let inv =
        detect_skill_flag(&argv(&["--skill", "mount", "git", "src", "dst"])).expect("detected");
    assert_eq!(inv.path, vec!["mount".to_string(), "git".to_string()]);
}

#[test]
fn parses_for_equals_form() {
    let inv = detect_skill_flag(&argv(&["--skill", "--for=langchain"])).expect("detected");
    assert_eq!(inv.for_tool.as_deref(), Some("langchain"));
}

#[test]
fn parses_for_space_form() {
    let inv = detect_skill_flag(&argv(&["--skill", "--for", "openai"])).expect("detected");
    assert_eq!(inv.for_tool.as_deref(), Some("openai"));
}

#[test]
fn returns_none_without_flag() {
    assert!(detect_skill_flag(&argv(&["mount", "git", "src", "dst"])).is_none());
}

#[test]
fn double_dash_blocks_late_skill_flag() {
    assert!(detect_skill_flag(&argv(&["mount", "git", "--", "--skill"])).is_none());
}

#[test]
fn options_are_no_part_of_the_path() {
    let inv = detect_skill_flag(&argv(&["-v", "mount", "--branch", "s3", "--skill", "--for"]))
        .expect("detected");
    assert_eq!(inv.path, vec!["mount".to_string(), "s3".to_string()]);
    assert!(inv.for_tool.is_none());
    assert!(detect_skill_flag(&vec![]).is_none());
}

#[test]
fn render_empty_path_includes_intro_and_index() {
    let s = render(&[], None);
    assert!(s.contains("omniFUSE — skill manual"));
    assert!(s.contains("Subcommand index"));
    assert!(s.contains("`of mount`"));
}

#[test]
fn render_mount_git_includes_section() {
    let s = render(&["mount".into(), "git".into()], None);
    assert!(s.contains("of mount git"));
    assert!(s.contains("Conflict behavior"));
}

#[test]
fn a_tool_of_the_installation_gets_its_tail() {
    let s = render(&["mount".into(), "git".into()], Some("editor"));
    assert!(s.ends_with("\n\n## For the editor\n\n"));
}

#[test]
fn manuals_for_tools_begin_with_the_plain_one() {
    let plain = render(&["check".into()], None);
    assert!(plain.ends_with("\n\n"));
    for tool in ["editor", "openai", "langchain"] {
        let s = render(&["check".into()], Some(tool));
        assert!(s.starts_with(&plain) && s.len() > plain.len());
        assert!(s.ends_with("\n\n"));
    }
}

#[test]
fn render_with_unknown_for_silently_falls_back() {
    let with = render(&["mount".into(), "git".into()], Some("nonexistent"));
    let without = render(&["mount".into(), "git".into()], None);
    assert_eq!(with, without);
}

#[test]
fn render_starts_with_version_marker() {
    let s = render(&[], None);
    assert!(s.starts_with("<!-- of version: "));
}

#[test]
fn render_unknown_path_falls_back_to_clap_help() {
    let s = render(&["nonexistent".into()], None);
    assert!(s.contains("No dedicated skill section"));
}

#[test]
fn test_skill_flag_at_top_level() {
    let inv = detect_skill_flag(&argv(&["--skill"])).expect("detected");
    let s = render(&inv.path, inv.for_tool.as_deref());
    assert!(s.starts_with("<!-- of version: "));
    assert!(s.contains("omniFUSE — skill manual"));
    assert!(s.contains("Subcommand index"));
}

#[test]
fn test_skill_subcommand_at_top_level() {
    assert!(detect_skill_flag(&argv(&["skill"])).is_none());
    let s = render(&[], None);
    assert!(s.contains("omniFUSE — skill manual"));
    assert!(s.contains("Subcommand index"));
}

#[test]
fn test_skill_flag_with_required_args_missing() {
    let inv = detect_skill_flag(&argv(&["mount", "git", "--skill"])).expect("detected");
    let s = render(&inv.path, inv.for_tool.as_deref());
    assert!(s.contains("of mount git"));
    assert!(s.contains("Conflict behavior"));
}

#[test]
fn test_skill_for_unknown_tool_silently_falls_back() {
    let with_unknown = render(&["mount".into(), "git".into()], Some("nonsense"));
    let without_for = render(&["mount".into(), "git".into()], None);
    assert_eq!(with_unknown, without_for);
}

#[test]
fn test_skill_starts_with_version_marker() {
    let inv = detect_skill_flag(&argv(&["--skill"])).expect("detected");
    let s = render(&inv.path, inv.for_tool.as_deref());
    let first_line = s.lines().next().expect("at least one line");
    assert!(
        first_line.starts_with("<!-- of version: "),
        "first line should be version marker, got: {first_line:?}"
    );
}

#[test]
fn test_skill_subcommand_with_path() {
    let s = render(&["mount".into(), "wiki".into()], None);
    assert!(s.contains("of mount wiki"));
    assert!(s.contains("three-way merge"));
}

#[test]
fn test_skill_for_mount_s3_renders_s3_section() {
    let s = render(&["mount".into(), "s3".into()], None);
    assert!(s.contains("of mount s3"));
    assert!(s.contains("If-Match"));
    assert!(s.contains("Capability requirements"));
}

#[test]
fn test_skill_flag_and_subcommand_outputs_match() {
    let inv = detect_skill_flag(&argv(&["mount", "git", "--skill"])).expect("detected");
    let via_flag = render(&inv.path, inv.for_tool.as_deref());
    let via_sub = render(&["mount".into(), "git".into()], None);
    assert_eq!(via_flag, via_sub, "skill flag and subcommand should produce identical output");
}

#[test]
fn test_skill_for_each_subcommand_path() {
    let leaf_paths: &[&[&str]] = &[
        &["mount", "git"],
        &["mount", "wiki"],
        &["mount", "s3"],
        &["check"],
        &["gen-config"],
        &["skill"],
    ];
    for path in leaf_paths {
        let mut args: Vec<&str> = path.to_vec();
        args.push("--skill");
        let inv = detect_skill_flag(&argv(&args)).expect("detected");
        let expected: Vec<String> = path.iter().map(|p| p.to_string()).collect();
        assert_eq!(inv.path, expected);
        assert!(render(&inv.path, None).contains(&format!("## `of {}`", path.join(" "))));
    }
}

#[test]
fn manuals_are_put_together() {
    let s = render(&["daemon".into(), "start".into()], Some("openai"));
    assert!(s.starts_with("<!-- of version: 0.1.0 -->\n\n# omniFUSE"));
    assert!(s.contains("## `of daemon start`\n\nNo dedicated skill section is registered"));
    assert!(s.contains("```\nUsage: start\n```\n\n## For OpenAI agents\n"));
    assert!(s.ends_with("\n\n"));
    let index = render(&[], None);
    assert!(index.contains("- `of mount` — Mount a backend\n- `of list` — List active mounts\n"));
    assert!(index.contains("- `of status`\n"));
    let mount = render(&["mount".into()], Some("langchain"));
    assert!(mount.contains("of mount git") && mount.contains("of mount wiki"));
    assert!(mount.contains("## For LangChain"));
    assert!(render(&["check".into()], None).contains("## `of check`"));
}

#[test]
fn test_gen_config() {
    assert!(SAMPLE_CONFIG.contains("[backends"));
    assert!(SAMPLE_CONFIG.contains("type = "));
}

#[test]
fn test_gen_config_contains_git_example() {
    assert!(SAMPLE_CONFIG.contains("git"));
}

#[test]
fn test_gen_config_contains_wiki_example() {
    assert!(SAMPLE_CONFIG.contains("wiki"));
}

#[test]
fn test_gen_config_is_valid_toml() {
    assert!(SAMPLE_CONFIG.contains("[backends."), "should contain backends section");
    assert!(SAMPLE_CONFIG.contains("[mounts."), "should contain mounts section");
}

#[test]
fn verbosity_sets_the_level() {
    assert_eq!(logging_config_for_verbose(0).level, "info");
    assert_eq!(logging_config_for_verbose(1).level, "debug");
    assert_eq!(logging_config_for_verbose(2).level, "trace");
    assert_eq!(logging_config_for_verbose(255).level, "trace");
}

fn path(text: &str) -> FsPath {
    FsPath::from_text(text)
}

#[test]
fn mount_arguments_become_requests() {
    let git = mount_request(MountBackend::Git {
        source: "src".to_string(),
        mountpoint: path("/m"),
        branch: "dev".to_string(),
        poll_interval: 5,
        allow_other: true,
        read_only: false,
    });
    match git {
        MountRequest::Git(args) => {
            assert_eq!(args.source, "src");
            assert_eq!(args.branch.as_deref(), Some("dev"));
            assert_eq!(args.poll_interval_secs, Some(5));
            assert!(args.allow_other && !args.read_only);
        }
        _ => panic!("expected a git request"),
    }
    let wiki = mount_request(MountBackend::Wiki {
        base_url: "u".to_string(),
        root_slug: "r".to_string(),
        mountpoint: path("/w"),
        auth: "t".to_string(),
        org_id: None,
        poll_interval: 60,
        allow_other: false,
        read_only: true,
    });
    assert!(
        matches!(wiki, MountRequest::Wiki(args) if args.auth_token == "t" && args.mount_point == path("/w"))
    );
    let s3 = mount_request(MountBackend::S3 {
        bucket: "b".to_string(),
        mountpoint: path("/s"),
        prefix: None,
        endpoint: None,
        region: Some("auto".to_string()),
        access_key_id: None,
        secret_access_key: None,
        session_token: None,
        virtual_host_style: true,
        poll_interval: 60,
        allow_other: false,
        read_only: false,
    });
    assert!(
        matches!(s3, MountRequest::S3(args) if args.bucket == "b" && args.region.as_deref() == Some("auto"))
    );
}

fn summary() -> MountSummary {
    MountSummary {
        backend: "git".to_string(),
        instance: "abc".to_string(),
        mount_point: path("/mnt/repo"),
        age_secs: 75,
    }
}

#[test]
fn lists_are_printed_in_columns() {
    assert_eq!(list_lines(&vec![]), vec!["no active mounts"]);
    assert_eq!(
        list_lines(&vec![summary()]),
        vec!["BACKEND      AGE(s)     MOUNT POINT", "git          75         /mnt/repo"]
    );
}

#[test]
fn status_is_printed() {
    let status = StatusResult { mount: Some(summary()), dirty_files: 0, cache_hit_ratio: None };
    assert_eq!(
        status_lines(&status, &path("/mnt/repo"), Some("0.500")),
        vec![
            "/mnt/repo (git, instance abc) age 75s",
            "dirty files: 0",
            "cache hit ratio: 0.500"
        ]
    );
    assert_eq!(status_lines(&status, &path("/mnt/repo"), None).len(), 2);
    let none = StatusResult { mount: None, dirty_files: 0, cache_hit_ratio: None };
    assert_eq!(
        status_lines(&none, &path("/x"), None),
        vec!["/x is not currently mounted by the daemon"]
    );
    assert_eq!(
        degraded_status_line(Some(&summary()), &path("/mnt/repo")),
        "/mnt/repo (git, degraded view — no daemon running)"
    );
    assert_eq!(degraded_status_line(None, &path("/x")), "/x is not currently mounted");
    assert_eq!(mounted_line(&path("/m")), "mounted /m (daemon)");
    assert_eq!(unmounted_line(&path("/m")), "unmounted /m");
}

#[test]
fn the_daemon_is_looked_after() {
    assert_eq!(daemon_status_line(Some("42\n"), Some(1)), "daemon running (pid 42, 1 mount)");
    assert_eq!(daemon_status_line(None, Some(0)), "daemon running (pid unknown, 0 mounts)");
    assert_eq!(
        daemon_status_line(Some("42\n"), None),
        "daemon socket is unreachable (stale pid file: 42)"
    );
    assert_eq!(daemon_status_line(None, None), "daemon is not running");
    assert_eq!(daemon_pid(" 42\n"), Ok(42));
    assert_eq!(daemon_pid("-2147483648"), Ok(i32::MIN));
    assert_eq!(daemon_pid("+7"), Ok(7));
    for bad in ["", "-", "4 2", "2147483648", "-+1", "x"] {
        assert_eq!(
            daemon_pid(bad),
            Err("daemon pid file does not contain an integer".to_string())
        );
    }
    assert!(matches!(stop_step(None), StopStep::NotRunning));
    assert!(matches!(stop_step(Some("9")), StopStep::Signal(9)));
    assert!(matches!(stop_step(Some("?")), StopStep::Fail(_)));
    assert_eq!(start_step(1, true), StartStep::Listening);
    assert_eq!(start_step(1, false), StartStep::Pause);
    assert_eq!(start_step(START_ATTEMPTS - 1, false), StartStep::Pause);
    assert_eq!(start_step(START_ATTEMPTS, true), StartStep::Listening);
    assert_eq!(start_step(START_ATTEMPTS, false), StartStep::PauseAndGiveUp);
    let mut looks: u32 = 0;
    let mut pauses: u32 = 0;
    loop {
        looks += 1;
        let step = start_step(looks, false);
        pauses += 1;
        if step == StartStep::PauseAndGiveUp {
            break;
        }
    }
    assert_eq!((looks, pauses), (50, 50));
    assert!(daemon_is_declined(Some("1")));
    assert!(!daemon_is_declined(Some("0")));
    assert!(!daemon_is_declined(None));
}

#[test]
fn checks_tell_how_to_install() {
    assert_eq!(check_lines(true, Platform::Linux), vec!["FUSE is available"]);
    let linux = check_lines(false, Platform::Linux);
    assert_eq!(linux[0], "FUSE not found.");
    assert_eq!(linux[2], "Linux: install libfuse3");
    assert_eq!(check_lines(false, Platform::Other).len(), 2);
    assert!(check_result(true).is_ok());
    assert_eq!(check_result(false), Err("FUSE is not installed".to_string()));
}
