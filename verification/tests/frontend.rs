use heel::cli::NetworkMode;
use heel::config::{NetworkPolicyKind, SecurityConfig};
use heel::frontend::{
    build_config, create_sandbox_config, default_venv_path, effective_executable_paths,
    exit_code_of, get_python_executable, network_policy_for, python_arguments, shell_program,
    to_exit_code, CliError, MergedConfig, MergedPython,
};

fn merged() -> MergedConfig {
    MergedConfig {
        network_mode: NetworkMode::Deny,
        allow_domains: Vec::new(),
        security: SecurityConfig::strict(),
        readable_paths: vec!["/data".to_string()],
        writable_paths: vec!["/out".to_string()],
        executable_paths: vec!["/opt/tool".to_string()],
        env_passthroughs: vec!["LANG".to_string()],
        filesystem_strict: true,
        writable_file_system: false,
        working_dir: None,
        keep_working_dir: false,
        env_set: Vec::new(),
        python: MergedPython {
            venv: None,
            interpreter: None,
            packages: Vec::new(),
            system_site_packages: false,
            use_uv: false,
            allow_pip_install: false,
        },
    }
}

#[test]
fn allow_list_needs_domains() {
    assert!(matches!(
        network_policy_for(NetworkMode::AllowList, &vec![]),
        Err(CliError::MissingAllowDomains)
    ));
    assert_eq!(
        network_policy_for(NetworkMode::AllowList, &vec!["example.com".to_string()]).unwrap(),
        NetworkPolicyKind::AllowList(vec!["example.com".to_string()])
    );
    assert_eq!(
        network_policy_for(NetworkMode::Deny, &vec![]).unwrap(),
        NetworkPolicyKind::DenyAll
    );
    assert_eq!(
        network_policy_for(NetworkMode::Allow, &vec![]).unwrap(),
        NetworkPolicyKind::AllowAll
    );
}

#[test]
fn sandbox_config_copies_the_merged_options() {
    let config = build_config(NetworkPolicyKind::DenyAll, &merged(), false, None);
    assert!(config.data.network_deny_all);
    assert_eq!(config.data.readable_paths, vec!["/data".to_string()]);
    assert_eq!(config.data.writable_paths, vec!["/out".to_string()]);
    assert_eq!(config.data.executable_paths, vec!["/opt/tool".to_string()]);
    assert_eq!(config.data.env_passthrough, vec!["LANG".to_string()]);
    assert!(config.data.working_dir_auto_created);
    assert!(config.data.python.is_none());
}

#[test]
fn sandbox_config_sets_python_when_packages_are_given() {
    let mut m = merged();
    m.working_dir = Some("/w".to_string());
    m.python.packages = vec!["requests".to_string()];
    m.python.interpreter = Some("/usr/bin/python3".to_string());
    m.python.use_uv = true;
    let config = build_config(NetworkPolicyKind::AllowAll, &m, false, None);
    assert!(!config.data.network_deny_all);
    assert_eq!(config.data.working_dir, "/w");
    assert!(!config.data.working_dir_auto_created);
    let python = config.data.python.expect("python");
    assert_eq!(python.venv.packages, vec!["requests".to_string()]);
    assert_eq!(python.venv.python.as_deref(), Some("/usr/bin/python3"));
    assert!(python.venv.use_uv);
}

#[test]
fn windows_runs_add_python_runtime_roots() {
    let mut m = merged();
    m.python.interpreter = Some("C:/Python314/python.exe".to_string());
    m.python.venv = Some("C:/venv".to_string());
    let paths = effective_executable_paths(
        &m,
        true,
        Some("home = C:/Python314\nexecutable = C:/Python314/python.exe\n"),
    );
    assert_eq!(
        paths,
        vec![
            "/opt/tool".to_string(),
            "C:/Python314".to_string(),
            "C:/Python314".to_string(),
            "C:/Python314".to_string()
        ]
    );
    assert_eq!(effective_executable_paths(&m, false, Some("home = /x")), vec!["/opt/tool".to_string()]);
}

#[test]
fn create_sandbox_config_rejects_empty_allow_lists() {
    let mut m = merged();
    m.network_mode = NetworkMode::AllowList;
    assert!(matches!(
        create_sandbox_config(&m, false, None),
        Err(CliError::MissingAllowDomains)
    ));
    m.allow_domains = vec!["*.example.com".to_string()];
    let config = create_sandbox_config(&m, false, None).expect("allow list");
    assert!(!config.data.network_deny_all);
}

#[test]
fn python_runs_pick_venv_then_interpreter_then_python3() {
    assert_eq!(get_python_executable(Some("/v"), Some("/usr/bin/py"), false), "/v/bin/python");
    assert_eq!(get_python_executable(Some("C:/v"), None, true), "C:/v\\Scripts\\python.exe");
    assert_eq!(get_python_executable(None, Some("/usr/bin/py"), false), "/usr/bin/py");
    assert_eq!(get_python_executable(None, None, false), "python3");
    assert_eq!(default_venv_path("/home/u/p"), "/home/u/p/.sandbox-venv");
}

#[test]
fn python_arguments_are_script_then_args() {
    assert_eq!(
        python_arguments(Some("main.py"), &vec!["-v".to_string()]),
        vec!["main.py".to_string(), "-v".to_string()]
    );
    assert!(python_arguments(None, &vec!["-v".to_string()]).is_empty());
}

#[test]
fn shells_default_to_bash_and_codes_default_to_one() {
    assert_eq!(shell_program(None), "/bin/bash");
    assert_eq!(shell_program(Some("/bin/zsh")), "/bin/zsh");
    assert_eq!(exit_code_of(Some(3)), 3);
    assert_eq!(exit_code_of(None), 1);
    assert_eq!(to_exit_code(&Ok(())), 0);
    assert_eq!(to_exit_code(&Err(CliError::MissingIpcEndpoint)), 1);
}

#[test]
fn executable_paths_take_the_interpreter_dir_and_venv_roots_on_windows() {
    let mut config = merged();
    config.executable_paths = vec!["C:/tools".to_string()];
    config.python.venv = Some("C:/venv".to_string());
    let out = heel::frontend::executable_paths_with(
        &config,
        true,
        Some("C:/Py".to_string()),
        Some(vec!["C:/Base".to_string()]),
    );
    assert_eq!(out, vec!["C:/tools", "C:/Py", "C:/Base"]);
    let unix = heel::frontend::executable_paths_with(&config, false, Some("C:/Py".to_string()), None);
    assert_eq!(unix, vec!["C:/tools"]);
}

#[test]
fn python_runs_plan_a_venv_only_when_wanted() {
    let mut config = merged();
    config.python.venv = None;
    config.python.packages = Vec::new();
    assert!(heel::frontend::python_venv_plan(&config, "/work").is_none());
    config.python.packages = vec!["requests".to_string()];
    config.python.interpreter = Some("/usr/bin/python3".to_string());
    let plan = heel::frontend::python_venv_plan(&config, "/work").expect("venv");
    assert_eq!(plan.path, "/work/.sandbox-venv");
    assert_eq!(plan.python.as_deref(), Some("/usr/bin/python3"));
    assert_eq!(plan.packages, vec!["requests".to_string()]);
    config.python.venv = Some("/v".to_string());
    assert_eq!(heel::frontend::python_venv_plan(&config, "/work").expect("venv").path, "/v");
}
