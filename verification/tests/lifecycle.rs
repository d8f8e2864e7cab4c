use heel::command::{ProxyEndpoint, RunMode};
use heel::StdioConfig;
use heel::config::{NetworkPolicyKind, PythonConfig, SandboxConfig, VenvConfig};
use heel::sandbox::{ensure_executable_path, setup_plan, IpcSetup, Sandbox};
use heel::Error;

fn default_data() -> heel::config::SandboxConfigData {
    SandboxConfig::builder().build().expect("config").into_parts().1
}

#[test]
fn setup_starts_proxy_only_without_deny_all() {
    let deny = default_data();
    let plan = setup_plan(&deny);
    assert!(!plan.start_proxy);
    assert!(!plan.start_ipc);
    let (_, allow) = SandboxConfig::builder()
        .network(NetworkPolicyKind::AllowAll)
        .working_dir("/w")
        .ipc()
        .build()
        .expect("config")
        .into_parts();
    let plan = setup_plan(&allow);
    assert!(plan.start_proxy);
    assert!(plan.start_ipc);
    assert_eq!(plan.heel_dir, "/w/.heel");
    assert_eq!(plan.bin_dir, "/w/.heel/bin");
}

#[test]
fn executable_path_is_added_once() {
    let mut paths = vec!["/usr/local/bin/tool".to_string()];
    ensure_executable_path(&mut paths, "/opt/heel");
    ensure_executable_path(&mut paths, "/opt/heel");
    assert_eq!(paths, vec!["/usr/local/bin/tool".to_string(), "/opt/heel".to_string()]);
}

#[test]
fn assembled_sandbox_records_ipc_port_and_heel_binary() {
    let (_, data) = SandboxConfig::builder()
        .working_dir("/w")
        .ipc()
        .build()
        .expect("config")
        .into_parts();
    let sandbox = Sandbox::assemble(
        data,
        None,
        Some(IpcSetup {
            endpoint: "tcp://127.0.0.1:4000".to_string(),
            port: 4000,
            heel_binary: "/opt/heel".to_string(),
        }),
    );
    assert_eq!(sandbox.config().ipc_port, Some(4000));
    assert_eq!(sandbox.config().executable_paths, vec!["/opt/heel".to_string()]);
    assert_eq!(sandbox.proxy_url(), "");
    assert_eq!(sandbox.working_dir(), "/w");
}

#[test]
fn auto_created_working_dir_is_removed_unless_kept() {
    let mut sandbox = Sandbox::assemble(default_data(), None, None);
    let teardown = sandbox.teardown();
    assert!(teardown.remove_working_dir);
    assert!(!teardown.stop_ipc);
    assert!(!teardown.stop_proxy);

    let mut kept = Sandbox::assemble(default_data(), None, None);
    kept.keep_working_dir();
    assert!(!kept.teardown().remove_working_dir);
}

#[test]
fn user_working_dir_is_never_removed() {
    let (_, data) = SandboxConfig::builder()
        .working_dir("/mine")
        .build()
        .expect("config")
        .into_parts();
    let mut sandbox = Sandbox::assemble(data, None, None);
    assert!(!sandbox.teardown().remove_working_dir);
}

#[test]
fn teardown_kills_tracked_children_and_stops_services() {
    let (_, data) = SandboxConfig::builder()
        .network(NetworkPolicyKind::AllowAll)
        .build()
        .expect("config")
        .into_parts();
    let mut sandbox = Sandbox::assemble(
        data,
        Some(ProxyEndpoint {
            url: "http://127.0.0.1:8080".to_string(),
            port: 8080,
        }),
        Some(IpcSetup {
            endpoint: "/tmp/ipc.sock".to_string(),
            port: 9,
            heel_binary: "/opt/heel".to_string(),
        }),
    );
    assert_eq!(sandbox.proxy_url(), "http://127.0.0.1:8080");
    sandbox.register_child(11);
    sandbox.register_child(12);
    sandbox.unregister_child(11);
    let teardown = sandbox.teardown();
    assert_eq!(teardown.kill, vec![12]);
    assert!(teardown.stop_ipc);
    assert!(teardown.stop_proxy);
    assert!(sandbox.teardown().kill.is_empty());
}

#[test]
fn commands_carry_proxy_and_ipc_endpoint() {
    let (_, data) = SandboxConfig::builder()
        .network(NetworkPolicyKind::AllowAll)
        .working_dir("/w")
        .build()
        .expect("config")
        .into_parts();
    let sandbox = Sandbox::assemble(
        data,
        Some(ProxyEndpoint {
            url: "http://127.0.0.1:8080".to_string(),
            port: 8080,
        }),
        Some(IpcSetup {
            endpoint: "/tmp/ipc.sock".to_string(),
            port: 9,
            heel_binary: "/opt/heel".to_string(),
        }),
    );
    let command = sandbox.command("python3").arg("-V");
    let envs = command.build_envs("/usr/bin");
    assert!(envs.contains(&("HTTP_PROXY".to_string(), "http://127.0.0.1:8080".to_string())));
    assert!(envs.contains(&("HEEL_IPC_ENDPOINT".to_string(), "/tmp/ipc.sock".to_string())));
    assert!(envs.contains(&("PATH".to_string(), "/w/.heel/bin:/usr/bin".to_string())));
}

#[test]
fn command_settings_win_over_proxy_defaults() {
    let (_, data) = SandboxConfig::builder()
        .network(NetworkPolicyKind::AllowAll)
        .working_dir("/w")
        .build()
        .expect("config")
        .into_parts();
    let sandbox = Sandbox::assemble(
        data,
        Some(ProxyEndpoint {
            url: "http://proxy".to_string(),
            port: 1,
        }),
        None,
    );
    let envs = sandbox
        .command("curl")
        .env("HTTP_PROXY", "http://mine")
        .build_envs("/usr/bin");
    let http: Vec<_> = envs.iter().filter(|(k, _)| k == "HTTP_PROXY").collect();
    assert_eq!(http, vec![&("HTTP_PROXY".to_string(), "http://mine".to_string())]);
    assert!(envs.contains(&("HTTPS_PROXY".to_string(), "http://proxy".to_string())));
    assert!(!envs.iter().any(|(k, _)| k == "PATH"));
}

#[test]
fn run_python_prefers_the_virtual_environment() {
    let python = PythonConfig {
        venv: VenvConfig {
            path: "/venv".to_string(),
            python: None,
            packages: Vec::new(),
            system_site_packages: false,
            use_uv: false,
        },
        allow_pip_install: false,
    };
    let (_, data) = SandboxConfig::builder()
        .python(python)
        .build()
        .expect("config")
        .into_parts();
    let sandbox = Sandbox::assemble(data, None, None);
    assert_eq!(
        sandbox.python_program(false, Some("/usr/bin/python3")).unwrap(),
        "/venv/bin/python"
    );
    let plain = Sandbox::assemble(default_data(), None, None);
    assert_eq!(
        plain.python_program(false, Some("/usr/bin/python3")).unwrap(),
        "/usr/bin/python3"
    );
    assert_eq!(plain.python_program(false, None), Err(Error::PythonNotFound));
}

#[test]
fn batched_args_and_envs_match_single_calls() {
    let data = default_data();
    let sandbox = Sandbox::assemble(data, None, None);
    let xs = vec!["-c".to_string(), "print(1)".to_string()];
    let batched = sandbox.command("python3").args(&xs).args(&vec!["x".to_string()]);
    let single = sandbox.command("python3").arg("-c").arg("print(1)").arg("x");
    assert_eq!(batched.arguments(), single.arguments());
    assert_eq!(sandbox.command("ls").args(&Vec::new()).arguments().len(), 0);
    let pairs = vec![("A".to_string(), "1".to_string()), ("B".to_string(), "2".to_string())];
    let batched = sandbox.command("env").envs(&pairs).build_envs("/bin");
    let single = sandbox.command("env").env("A", "1").env("B", "2").build_envs("/bin");
    assert_eq!(batched, single);
    assert_eq!(batched, pairs);
}

#[test]
fn output_runs_with_null_input_and_piped_outputs() {
    let sandbox = Sandbox::assemble(default_data(), None, None);
    let command = sandbox
        .command("ls")
        .stdin(StdioConfig::Inherit)
        .stdout(StdioConfig::Null)
        .stderr(StdioConfig::Inherit);
    assert_eq!(
        command.run_stdio(RunMode::Output),
        (StdioConfig::Null, StdioConfig::Piped, StdioConfig::Piped)
    );
    let configured = (StdioConfig::Inherit, StdioConfig::Null, StdioConfig::Inherit);
    assert_eq!(command.run_stdio(RunMode::Status), configured);
    assert_eq!(command.run_stdio(RunMode::Spawn), configured);
}
