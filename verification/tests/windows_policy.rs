use heel::config::{NetworkPolicyKind, PythonConfig, SandboxConfig, SecurityConfig, VenvConfig};
use heel::windows::backend::{appcontainer_profile_name, plan_launch, WindowsBackend};
use heel::Error;
use heel::windows::paths::{grant, grants_from_config, HostFacts, RootAccess};
use heel::windows::policy::validate_config_supported;
use std::path::Path;

fn no_facts() -> HostFacts {
    HostFacts {
        directories: Vec::new(),
        pyvenv_cfg: None,
    }
}

#[test]
fn windows_policy_accepts_default_deny_all_without_ipc() {
    let (_, config) = SandboxConfig::builder()
        .build()
        .expect("config")
        .into_parts();

    let grants = validate_config_supported(&config, &no_facts())
        .expect("default deny-all should be supported");
    assert_eq!(grants.len(), 1);
}

#[test]
fn windows_policy_rejects_non_deny_all_network() {
    let (_, config) = SandboxConfig::builder()
        .network(NetworkPolicyKind::AllowAll)
        .build()
        .expect("config")
        .into_parts();

    let err = validate_config_supported(&config, &no_facts())
        .expect_err("AllowAll should be unsupported");
    assert!(err.message().contains("windows-appcontainer-network"));
    assert!(err.message().contains("DenyAll network policy"));
}

#[test]
fn windows_policy_rejects_ipc() {
    let (_, config) = SandboxConfig::builder()
        .ipc()
        .build()
        .expect("config")
        .into_parts();

    let err =
        validate_config_supported(&config, &no_facts()).expect_err("IPC should be unsupported");
    assert!(err.message().contains("windows-appcontainer-ipc"));
    assert!(err.message().contains("IPC disabled"));
}

#[test]
fn windows_policy_rejects_non_strict_filesystem() {
    let (_, config) = SandboxConfig::builder()
        .filesystem_strict(false)
        .build()
        .expect("config")
        .into_parts();

    let err = validate_config_supported(&config, &no_facts())
        .expect_err("non-strict filesystem is unsupported");
    assert!(err.message().contains("windows-appcontainer-filesystem"));
    assert!(err.message().contains("strict filesystem"));
}

#[test]
fn windows_policy_rejects_globally_writable_filesystem() {
    let (_, config) = SandboxConfig::builder()
        .writable_file_system(true)
        .build()
        .expect("config")
        .into_parts();

    let err = validate_config_supported(&config, &no_facts())
        .expect_err("writable filesystem is unsupported");
    assert!(err.message().contains("windows-appcontainer-filesystem"));
    assert!(err.message().contains("explicit writable roots"));
}

#[test]
fn grant_keeps_path_and_access() {
    let item = grant("C:/Eureka/session", RootAccess::Full, true);

    assert_eq!(item.path, "C:/Eureka/session");
    assert_eq!(item.access, RootAccess::Full);
    assert!(item.is_directory);
}

#[test]
fn write_access_class_is_available_for_acl_specialization() {
    let item = grant("C:/Eureka/out.log", RootAccess::Write, false);

    assert_eq!(item.access, RootAccess::Write);
    assert!(!item.is_directory);
}

#[test]
fn grants_from_config_maps_roots_to_access_classes() {
    let (_, config) = SandboxConfig::builder()
        .working_dir("C:/Eureka/work")
        .readable_path("C:/Eureka/read")
        .writable_path("C:/Eureka/write")
        .executable_path("C:/Eureka/python")
        .build()
        .expect("config")
        .into_parts();

    let grants = grants_from_config(&config, &no_facts());

    assert!(grants
        .iter()
        .any(|item| item.access == RootAccess::Full && Path::new(&item.path).ends_with("work")));
    assert!(grants
        .iter()
        .any(|item| item.access == RootAccess::Read && Path::new(&item.path).ends_with("read")));
    assert!(grants
        .iter()
        .any(|item| item.access == RootAccess::Full && Path::new(&item.path).ends_with("write")));
    assert!(grants.iter().any(
        |item| item.access == RootAccess::Execute && Path::new(&item.path).ends_with("python")
    ));
}

#[test]
fn grants_from_config_includes_python_venv_and_base_runtime() {
    let python = PythonConfig {
        venv: VenvConfig {
            path: "C:/Eureka/venv".to_string(),
            python: Some("C:/Python314/python.exe".to_string()),
            packages: Vec::new(),
            system_site_packages: false,
            use_uv: false,
        },
        allow_pip_install: false,
    };
    let (_, config) = SandboxConfig::builder()
        .working_dir("C:/Eureka/work")
        .python(python)
        .build()
        .expect("config")
        .into_parts();

    let grants = grants_from_config(&config, &no_facts());

    assert!(grants.iter().any(
        |item| item.access == RootAccess::Runtime && Path::new(&item.path).ends_with("venv")
    ));
    assert!(grants.iter().any(
        |item| item.access == RootAccess::Runtime && Path::new(&item.path).ends_with("Python314")
    ));
}

#[test]
fn grants_from_config_do_not_expand_permissive_security_to_home() {
    let (_, config) = SandboxConfig::builder()
        .working_dir("C:/Eureka/work")
        .security(SecurityConfig::permissive())
        .build()
        .expect("config")
        .into_parts();

    let grants = grants_from_config(&config, &no_facts());

    assert_eq!(grants.len(), 1);
    assert!(Path::new(&grants[0].path).ends_with("work"));
}

#[test]
fn grants_mark_only_known_directories_as_directories() {
    let (_, config) = SandboxConfig::builder()
        .working_dir("/w")
        .readable_path("/r/dir")
        .readable_path("/r/file.txt")
        .build()
        .expect("config")
        .into_parts();
    let facts = HostFacts {
        directories: vec!["/r/dir".to_string()],
        pyvenv_cfg: None,
    };
    let grants = grants_from_config(&config, &facts);
    assert_eq!(grants.len(), 3);
    assert_eq!(grants[0].path, "/w");
    assert!(grants[0].is_directory);
    assert_eq!(grants[1].path, "/r/dir");
    assert!(grants[1].is_directory);
    assert_eq!(grants[2].path, "/r/file.txt");
    assert!(!grants[2].is_directory);
}

#[test]
fn launch_plan_uses_working_dir_and_heel_profile() {
    let (_, config) = SandboxConfig::builder()
        .working_dir("C:/Eureka/work")
        .build()
        .expect("config")
        .into_parts();
    let plan = plan_launch(&config, &no_facts(), None).expect("supported config");
    assert_eq!(plan.current_dir, "C:/Eureka/work");
    assert_eq!(plan.grants.len(), 1);
    assert!(plan.profile.as_str().starts_with("heel.heel."));
    let other = plan_launch(&config, &no_facts(), Some("C:/elsewhere")).expect("supported");
    assert_eq!(other.current_dir, "C:/elsewhere");
}

#[test]
fn launch_plan_rejects_unsupported_configurations() {
    let (_, config) = SandboxConfig::builder()
        .network(NetworkPolicyKind::AllowAll)
        .build()
        .expect("config")
        .into_parts();
    assert!(plan_launch(&config, &no_facts(), None).is_err());
}

#[test]
fn spawn_runs_policy_validation_before_unsupported_platform() {
    let (_, config) = SandboxConfig::builder()
        .network(NetworkPolicyKind::AllowAll)
        .build()
        .expect("config")
        .into_parts();
    let backend = WindowsBackend::new().expect("backend");

    let result = backend.spawn(&config, &no_facts(), None, false);

    match result {
        Ok(_) => panic!("policy validation should reject before process launch"),
        Err(err) => assert!(err.message().contains("windows-appcontainer-network")),
    }
}

#[test]
fn windows_backend_still_fails_closed_until_process_launch_lands() {
    let (_, config) = SandboxConfig::builder()
        .working_dir("C:/Heel/session")
        .build()
        .expect("config")
        .into_parts();
    let backend = WindowsBackend::new().expect("backend");
    let profile_name = appcontainer_profile_name(&config).expect("profile name");

    assert_eq!(
        profile_name.as_str(),
        appcontainer_profile_name(&config).unwrap().as_str()
    );
    assert!(profile_name.as_str().starts_with("heel.heel."));

    let result = backend.spawn(&config, &no_facts(), None, false);

    match result {
        Ok(_) => panic!("process launch fails closed without AppContainer support"),
        Err(err) => assert!(matches!(err, Error::UnsupportedPlatform)),
    }
}

#[test]
fn spawn_with_appcontainer_support_returns_the_launch_plan() {
    let (_, config) = SandboxConfig::builder()
        .working_dir("C:/Heel/session")
        .build()
        .expect("config")
        .into_parts();
    let backend = WindowsBackend::new().expect("backend");
    let plan = backend.spawn(&config, &no_facts(), Some("C:/elsewhere"), true).expect("plan");
    assert_eq!(plan.current_dir, "C:/elsewhere");
    assert!(plan.profile.as_str().starts_with("heel.heel."));
}
