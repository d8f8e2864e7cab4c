use heel::config::{SandboxConfig, SecurityConfig, VenvConfig};
use heel::launcher::{
    bundled_build_outcome, bundled_heel_is_fresh, bundled_heel_path, cargo_build_args,
    cargo_program, heel_bin_from_env, heel_dependency_paths, heel_from_path, heel_launcher,
    newest_modified_time, path_candidates,
};
use heel::launcher::resolve_heel_binary;
use heel::linux::kernel::{KernelVersion, LinuxBackend};
use heel::linux::landlock::{
    build_ruleset_plan, check_enforcement, FsAccess, LandlockConfig, RulesetEnforcement, EPERM,
};
use heel::linux::launch::CommandLaunch;
use heel::linux::seccomp::{
    build_filter_rules, socket_rules, ArgEq, AF_INET, AF_INET6, AF_PACKET, SOCK_CLOEXEC, SOCK_STREAM,
};
use heel::macos::MacOSBackend;
use heel::pty::{pty_launch, PtyEvent, PtyFinish, PtyLoop, ReadOutcome};
use heel::python::{
    install_packages_command, plan_venv_creation, venv_command_outcome, VenvCreationPlan, VenvTool,
};
use heel::{Error, StdioConfig};

#[test]
fn launcher_escapes_the_binary_for_the_shell() {
    let plain = heel_launcher("/w/.heel/bin", "/opt/heel/bin/heel");
    assert_eq!(plain.path, "/w/.heel/bin/heel");
    assert_eq!(plain.binary, "/opt/heel/bin/heel");
    let spaced = heel_launcher("/w/.heel/bin", "/opt/my heel/it's!");
    assert_eq!(spaced.binary, "'/opt/my heel/it'\\''s'\\!''");
    assert_eq!(heel_launcher("/b", "").binary, "''");
}

#[test]
fn path_candidates_follow_path_order() {
    assert_eq!(
        path_candidates("/usr/bin:/bin:", "heel"),
        vec!["/usr/bin/heel".to_string(), "/bin/heel".to_string(), "heel".to_string()]
    );
    assert_eq!(path_candidates("", "cargo"), vec!["cargo".to_string()]);
}

#[test]
fn bundled_binary_paths() {
    assert_eq!(bundled_heel_path("/src/heel", ""), "/src/heel/target/debug/heel");
    assert_eq!(bundled_heel_path("/src/heel", ".exe"), "/src/heel/target/debug/heel.exe");
    assert_eq!(
        heel_dependency_paths("/m"),
        vec![
            "/m/Cargo.toml".to_string(),
            "/m/Cargo.lock".to_string(),
            "/m/src".to_string(),
            "/m/templates".to_string(),
            "/m/cli/Cargo.toml".to_string(),
            "/m/cli/src".to_string()
        ]
    );
    assert_eq!(
        cargo_build_args(),
        vec!["build".to_string(), "--bin".to_string(), "heel".to_string()]
    );
}

#[test]
fn freshness_compares_modification_times() {
    assert_eq!(newest_modified_time(5, &vec![3, 9, 4]), 9);
    assert_eq!(newest_modified_time(5, &vec![]), 5);
    assert!(bundled_heel_is_fresh(true, 10, &vec![3, 10]));
    assert!(!bundled_heel_is_fresh(true, 10, &vec![3, 11]));
    assert!(!bundled_heel_is_fresh(false, 10, &vec![]));
}

#[test]
fn heel_binary_resolution_messages() {
    assert!(heel_bin_from_env(None, false).is_none());
    assert_eq!(heel_bin_from_env(Some("/x/heel"), true), Some(Ok("/x/heel".to_string())));
    assert_eq!(
        heel_bin_from_env(Some("/x/heel"), false),
        Some(Err(Error::InitFailed(
            "HEEL_BIN points to a missing file: /x/heel".to_string()
        )))
    );
    assert_eq!(
        heel_from_path(None),
        Err(Error::InitFailed("failed to resolve heel binary".to_string()))
    );
    assert_eq!(cargo_program(Some("/c"), Some("/p")), Ok("/c".to_string()));
    assert_eq!(cargo_program(None, Some("/p")), Ok("/p".to_string()));
    assert!(cargo_program(None, None).is_err());
    assert_eq!(
        bundled_build_outcome(false, "exit status: 101", "/b/heel", false),
        Err(Error::InitFailed(
            "cargo build --bin heel exited with status exit status: 101".to_string()
        ))
    );
    assert_eq!(
        bundled_build_outcome(true, "", "/b/heel", false),
        Err(Error::InitFailed(
            "cargo reported success but heel binary is missing at /b/heel".to_string()
        ))
    );
    assert_eq!(bundled_build_outcome(true, "", "/b/heel", true), Ok("/b/heel".to_string()));
}

fn venv(use_uv: bool, python: Option<&str>, ssp: bool) -> VenvConfig {
    VenvConfig {
        path: "/v".to_string(),
        python: python.map(|p| p.to_string()),
        packages: Vec::new(),
        system_site_packages: ssp,
        use_uv,
    }
}

#[test]
fn venv_creation_prefers_existing_then_uv_then_python() {
    assert!(matches!(
        plan_venv_creation(&venv(true, None, false), true, true, None),
        Ok(VenvCreationPlan::Reuse)
    ));
    match plan_venv_creation(&venv(true, Some("/py"), true), false, true, None).unwrap() {
        VenvCreationPlan::Create { tool, command } => {
            assert_eq!(tool, VenvTool::Uv);
            assert_eq!(command.program, "uv");
            assert_eq!(
                command.args,
                vec!["venv", "/v", "--python", "/py", "--system-site-packages"]
            );
        }
        other => panic!("unexpected {other:?}"),
    }
    match plan_venv_creation(&venv(true, None, false), false, false, Some("/host/python3")).unwrap()
    {
        VenvCreationPlan::Create { tool, command } => {
            assert_eq!(tool, VenvTool::Pip);
            assert_eq!(command.program, "/host/python3");
            assert_eq!(command.args, vec!["-m", "venv", "/v"]);
        }
        other => panic!("unexpected {other:?}"),
    }
    assert!(matches!(
        plan_venv_creation(&venv(false, None, false), false, true, None),
        Err(Error::PythonNotFound)
    ));
}

#[test]
fn package_installation_commands() {
    assert!(install_packages_command(VenvTool::Uv, "/v/bin/python", &vec![]).is_none());
    let uv = install_packages_command(VenvTool::Uv, "/v/bin/python", &vec!["rich".to_string()])
        .unwrap();
    assert_eq!(uv.program, "uv");
    assert_eq!(uv.args, vec!["pip", "install", "--python", "/v/bin/python", "rich"]);
    let pip = install_packages_command(VenvTool::Pip, "/v/bin/python", &vec!["rich".to_string()])
        .unwrap();
    assert_eq!(pip.program, "/v/bin/python");
    assert_eq!(pip.args, vec!["-m", "pip", "install", "rich"]);
    assert_eq!(
        venv_command_outcome(false, false, "no space"),
        Err(Error::VenvCreationFailed("no space".to_string()))
    );
    assert_eq!(
        venv_command_outcome(true, false, "no wheel"),
        Err(Error::PackageInstallFailed("no wheel".to_string()))
    );
    assert_eq!(venv_command_outcome(true, true, "warnings"), Ok(()));
}

fn launch_args() -> Vec<String> {
    vec!["-c".to_string(), "pwd".to_string()]
}

#[test]
fn linux_launch_clears_environment_and_uses_working_dir() {
    let (_, data) = SandboxConfig::builder()
        .working_dir("/w")
        .env_passthrough("LANG")
        .build()
        .expect("config")
        .into_parts();
    let backend = LinuxBackend {
        kernel: KernelVersion::new(6, 8, 0),
        landlock_abi: 4,
    };
    let args = launch_args();
    let envs = vec![("A".to_string(), "1".to_string())];
    let host = vec![
        ("LANG".to_string(), "C.UTF-8".to_string()),
        ("SECRET".to_string(), "x".to_string()),
    ];
    let launch = CommandLaunch {
        program: "bash",
        args: &args,
        envs: &envs,
        current_dir: None,
        stdin: StdioConfig::Inherit,
        stdout: StdioConfig::Piped,
        stderr: StdioConfig::Null,
    };
    let l = backend.build_command(&data, 0, &launch, &host, Some("/home/u"));
    assert_eq!(l.program, "bash");
    assert_eq!(l.args, args);
    assert_eq!(l.current_dir, "/w");
    assert_eq!(
        l.env,
        vec![
            ("LANG".to_string(), "C.UTF-8".to_string()),
            ("A".to_string(), "1".to_string())
        ]
    );
    assert!(!l.landlock.handle_net);
    assert!(l.landlock.path_rules.iter().any(|r| r.path == "/w"));
    assert!(!l.landlock.path_rules.iter().any(|r| r.path == "/home/u"));
    assert_eq!(l.stdout, StdioConfig::Piped);
    assert_eq!(
        l.seccomp.len(),
        build_filter_rules(&SecurityConfig::strict(), true, false).len()
    );
}

#[test]
fn macos_launch_wraps_the_program_in_sandbox_exec() {
    let (_, data) = SandboxConfig::builder()
        .working_dir("/w")
        .build()
        .expect("config")
        .into_parts();
    let backend = MacOSBackend::new("14.2").expect("supported");
    let args = launch_args();
    let envs = vec![];
    let launch = CommandLaunch {
        program: "bash",
        args: &args,
        envs: &envs,
        current_dir: Some("/elsewhere"),
        stdin: StdioConfig::Inherit,
        stdout: StdioConfig::Inherit,
        stderr: StdioConfig::Inherit,
    };
    let l = backend.build_command(&data, "(version 1)", &launch, &vec![]);
    assert_eq!(l.program, "sandbox-exec");
    assert_eq!(l.args, vec!["-p", "(version 1)", "bash", "-c", "pwd"]);
    assert_eq!(l.current_dir, "/elsewhere");
    assert!(l.env.is_empty());
    assert!(MacOSBackend::new("10.14").is_err());
}

#[test]
fn pty_launch_sets_terminal_proxy_and_ipc_variables() {
    let (_, data) = SandboxConfig::builder()
        .working_dir("/w")
        .build()
        .expect("config")
        .into_parts();
    let host = vec![("PATH".to_string(), "/usr/bin".to_string())];
    let l = pty_launch(
        &data,
        "(version 1)",
        Some("http://p"),
        Some("/tmp/s"),
        "zsh",
        &vec![],
        &vec![],
        None,
        &host,
    );
    assert_eq!(l.program, "/usr/bin/sandbox-exec");
    assert_eq!(l.args, vec!["-p", "(version 1)", "zsh"]);
    assert_eq!(l.current_dir, "/w");
    assert_eq!(
        l.env,
        vec![
            ("PATH".to_string(), "/usr/bin".to_string()),
            ("TERM".to_string(), "xterm-256color".to_string()),
            ("HTTP_PROXY".to_string(), "http://p".to_string()),
            ("HTTPS_PROXY".to_string(), "http://p".to_string()),
            ("http_proxy".to_string(), "http://p".to_string()),
            ("https_proxy".to_string(), "http://p".to_string()),
            ("LEASH_IPC_ENDPOINT".to_string(), "/tmp/s".to_string()),
            ("PATH".to_string(), "/w/.leash/bin:/usr/bin".to_string())
        ]
    );
}

#[test]
fn pty_loop_copies_until_the_child_ends() {
    let mut state = PtyLoop::new();
    let s = state.step(PtyEvent::StdinRead(ReadOutcome::Data(3)));
    assert_eq!(s.to_pty, Some(3));
    assert!(s.rearm_stdin);
    let s = state.step(PtyEvent::PtyRead(ReadOutcome::Data(7)));
    assert_eq!(s.to_stdout, Some(7));
    assert!(s.rearm_pty);
    let s = state.step(PtyEvent::StdinRead(ReadOutcome::Eof));
    assert!(!s.rearm_stdin);
    assert!(state.stdin_eof);
    let s = state.step(PtyEvent::StdinRead(ReadOutcome::Data(1)));
    assert_eq!(s.to_pty, None);
    let s = state.step(PtyEvent::ChildExited { success: true });
    assert!(matches!(
        s.finish,
        Some(PtyFinish::DrainThenReport { success: true })
    ));
    let s = state.step(PtyEvent::PtyRead(ReadOutcome::Eof));
    assert!(matches!(s.finish, Some(PtyFinish::WaitThenReport)));
    match state.step(PtyEvent::ChildStatusFailed("EINTR".to_string())).finish {
        Some(PtyFinish::Fail(Error::PtyError(m))) => {
            assert_eq!(m, "Failed to check child status: EINTR")
        }
        other => panic!("unexpected {other:?}"),
    }
}


fn refuses(rules: &[Vec<ArgEq>], family: u64, ty: u64) -> bool {
    rules.iter().any(|rule| {
        rule.iter()
            .all(|c| (c.arg == 0 && c.value == family) || (c.arg == 1 && c.value == ty))
    })
}

#[test]
fn denied_network_refuses_tcp_sockets_and_allowed_network_does_not() {
    let denied = socket_rules(true, false);
    assert!(refuses(&denied, AF_INET, SOCK_STREAM));
    assert!(refuses(&denied, AF_INET6, SOCK_STREAM | SOCK_CLOEXEC));
    for (deny, ipc) in [(false, false), (false, true), (true, true)] {
        let rules = socket_rules(deny, ipc);
        assert!(!refuses(&rules, AF_INET, SOCK_STREAM));
        assert!(!refuses(&rules, AF_INET6, SOCK_STREAM | SOCK_CLOEXEC));
        assert!(refuses(&rules, AF_PACKET, SOCK_STREAM));
    }
    assert_eq!(denied.len(), 25);
    assert_eq!(socket_rules(false, false).len(), 17);
}

#[test]
fn test_filter_program_is_not_empty() {
    let filter = build_filter_rules(&SecurityConfig::strict(), false, false);
    assert!(!filter.is_empty());
}

#[test]
fn strict_tier_writes_only_in_the_working_directory() {
    let (_, data) = SandboxConfig::builder()
        .working_dir("/w")
        .build()
        .expect("config")
        .into_parts();
    let plan = build_ruleset_plan(&LandlockConfig::from_config(&data), 0, Some("/home/u"));
    assert!(!plan.path_rules.iter().any(|r| r.path == "/tmp" || r.path == "/var/tmp"));
    for rule in &plan.path_rules {
        if rule.access == FsAccess::All {
            assert_eq!(rule.path, "/w");
        }
    }
    assert!(plan
        .path_rules
        .iter()
        .any(|r| r.path == "/dev/null" && r.access == FsAccess::Read));

    let (_, loose) = SandboxConfig::builder()
        .working_dir("/w")
        .filesystem_strict(false)
        .build()
        .expect("config")
        .into_parts();
    let plan = build_ruleset_plan(&LandlockConfig::from_config(&loose), 0, None);
    assert!(plan.path_rules.iter().any(|r| r.path == "/tmp" && r.access == FsAccess::All));
    assert!(plan.path_rules.iter().any(|r| r.path == "/dev/null" && r.access == FsAccess::All));
}

#[test]
fn only_fully_enforced_rule_sets_are_accepted() {
    assert_eq!(check_enforcement(RulesetEnforcement::Full), Ok(()));
    assert_eq!(check_enforcement(RulesetEnforcement::Partial), Err(EPERM));
    assert_eq!(check_enforcement(RulesetEnforcement::Nothing), Err(EPERM));
}

#[test]
fn heel_binary_comes_from_env_then_bundle_then_path() {
    assert_eq!(resolve_heel_binary(Some("/opt/heel"), true, None, Some("/bin/heel")), Ok("/opt/heel".to_string()));
    assert!(matches!(
        resolve_heel_binary(Some("/gone"), false, None, Some("/bin/heel")),
        Err(Error::InitFailed(m)) if m == "HEEL_BIN points to a missing file: /gone"
    ));
    assert_eq!(
        resolve_heel_binary(None, false, Some(Ok("/b/heel".to_string())), Some("/bin/heel")),
        Ok("/b/heel".to_string())
    );
    assert_eq!(
        resolve_heel_binary(None, false, Some(Err(Error::InitFailed("x".to_string()))), Some("/bin/heel")),
        Ok("/bin/heel".to_string())
    );
    assert!(matches!(
        resolve_heel_binary(None, false, None, None),
        Err(Error::InitFailed(m)) if m == "failed to resolve heel binary"
    ));
}
