use heel::capabilities::{linux_capabilities, macos_capabilities, windows_capabilities, TargetOs};
use heel::linux::kernel::KernelVersion;
use heel::windows::backend::WindowsBackend;
use heel::{platform_capabilities, PlatformCapabilities, StdioConfig};

#[test]
fn test_kernel_version_parsing() {
    assert_eq!(
        KernelVersion::parse("6.7.0").unwrap(),
        KernelVersion::new(6, 7, 0)
    );
    assert_eq!(
        KernelVersion::parse("6.8.1-generic").unwrap(),
        KernelVersion::new(6, 8, 1)
    );
    assert_eq!(
        KernelVersion::parse("5.15.0-91-generic").unwrap(),
        KernelVersion::new(5, 15, 0)
    );
}

#[test]
fn test_kernel_version_comparison() {
    assert!(KernelVersion::new(6, 7, 0) >= KernelVersion::new(6, 7, 0));
    assert!(KernelVersion::new(6, 8, 0) > KernelVersion::new(6, 7, 0));
    assert!(KernelVersion::new(5, 15, 0) < KernelVersion::new(6, 7, 0));
}

#[test]
fn kernel_version_older_than_agrees_with_ordering() {
    let min = KernelVersion::new(6, 7, 0);
    assert!(KernelVersion::new(6, 6, 99).older_than(&min));
    assert!(!KernelVersion::new(6, 7, 0).older_than(&min));
    assert!(!KernelVersion::new(7, 0, 0).older_than(&min));
}

#[test]
fn kernel_version_rejects_malformed_releases() {
    assert!(KernelVersion::parse("6").is_err());
    assert!(KernelVersion::parse("").is_err());
    assert!(KernelVersion::parse("x.y.z").is_err());
}

#[test]
fn platform_capabilities_report_backend_name() {
    let capabilities = platform_capabilities(TargetOs::Linux);

    assert_eq!(capabilities.backend, "linux_landlock_seccomp");
}

#[test]
fn windows_first_release_capability_contract_is_explicit() {
    let capabilities = windows_capabilities();

    assert!(!capabilities.execution_supported);
    assert!(!capabilities.filesystem_strict);
    assert!(!capabilities.network_deny_all);
    assert!(!capabilities.network_allowlist);
    assert!(!capabilities.ipc);
    assert!(!capabilities.background_process_tree_cleanup);
}

#[test]
fn windows_stub_capability_contract_is_fail_closed() {
    let capabilities = windows_capabilities();

    assert_eq!(capabilities.backend, "windows_appcontainer");
    assert!(!capabilities.execution_supported);
    assert!(!capabilities.filesystem_strict);
    assert!(!capabilities.network_deny_all);
    assert!(!capabilities.network_allowlist);
    assert!(!capabilities.ipc);
    assert!(!capabilities.background_process_tree_cleanup);
}

#[test]
fn macos_capability_contract_is_explicit() {
    let capabilities = macos_capabilities();

    assert_eq!(capabilities.backend, "macos_sandbox_exec");
    assert!(capabilities.execution_supported);
    assert!(!capabilities.filesystem_strict);
    assert!(capabilities.network_deny_all);
    assert!(capabilities.network_allowlist);
    assert!(capabilities.ipc);
    assert!(!capabilities.background_process_tree_cleanup);
}

#[test]
fn linux_capability_contract_is_explicit() {
    let capabilities = linux_capabilities();

    assert_eq!(capabilities.backend, "linux_landlock_seccomp");
    assert!(capabilities.execution_supported);
    assert!(capabilities.filesystem_strict);
    assert!(capabilities.network_deny_all);
    assert!(capabilities.network_allowlist);
    assert!(capabilities.ipc);
    assert!(!capabilities.background_process_tree_cleanup);
}

#[test]
fn active_platform_capability_contract_is_explicit() {
    let capabilities = platform_capabilities(TargetOs::Linux);

    assert_eq!(
        capabilities,
        PlatformCapabilities {
            backend: "linux_landlock_seccomp",
            execution_supported: true,
            filesystem_strict: true,
            network_deny_all: true,
            network_allowlist: true,
            ipc: true,
            background_process_tree_cleanup: false,
        }
    );
}

#[test]
fn stdio_config_is_copyable_and_comparable() {
    let config = StdioConfig::Piped;
    let copied = config;

    assert_eq!(config, copied);
}

#[test]
fn windows_backend_constructs() {
    let _backend = WindowsBackend::new().expect("backend");
}

#[test]
fn kernel_version_text_parses_back() {
    for v in [KernelVersion::new(6, 8, 12), KernelVersion::new(0, 0, 0), KernelVersion::new(4294967295, 10, 7)] {
        let text = v.to_text();
        assert_eq!(KernelVersion::parse(&text).unwrap(), v);
    }
    assert_eq!(KernelVersion::new(5, 15, 0).to_text(), "5.15.0");
}

#[test]
fn platform_capabilities_follow_the_build_target() {
    assert_eq!(platform_capabilities(TargetOs::MacOs), macos_capabilities());
    assert_eq!(platform_capabilities(TargetOs::Windows), windows_capabilities());
    assert_eq!(platform_capabilities(TargetOs::Other).backend, "unsupported");
}
