//! Static capability metadata of each platform backend.

use vstd::prelude::*;

verus! {

/// Static sandbox capability metadata of a platform backend.
///
/// This describes which backend features are implemented for a target OS.
/// Runtime initialization can still fail because of OS version, kernel,
/// entitlement, or host policy requirements.
#[derive(Debug, Clone, Copy, PartialEq, Eq)]
pub struct PlatformCapabilities {
    /// Diagnostic backend identifier, for logs and status only.
    pub backend: &'static str,
    /// Whether sandboxed command execution is implemented.
    pub execution_supported: bool,
    /// Whether strict filesystem root enforcement is supported.
    pub filesystem_strict: bool,
    /// Whether a deny-all network policy can be enforced.
    pub network_deny_all: bool,
    /// Whether network allowlists can be enforced.
    pub network_allowlist: bool,
    /// Whether IPC from sandboxed children is supported.
    pub ipc: bool,
    /// Whether child process tree cleanup is implemented.
    pub background_process_tree_cleanup: bool,
}

/// The operating systems the library knows a backend for.
#[derive(Debug, Clone, Copy, PartialEq, Eq, Structural)]
pub enum TargetOs {
    MacOs,
    Linux,
    Windows,
    Other,
}

/// Capabilities of the macOS `sandbox-exec` backend.
pub fn macos_capabilities() -> (c: PlatformCapabilities)
    ensures
        c.backend@ == "macos_sandbox_exec"@,
        c.execution_supported,
        !c.filesystem_strict,
        c.network_deny_all,
        c.network_allowlist,
        c.ipc,
        !c.background_process_tree_cleanup,
{
    PlatformCapabilities {
        backend: "macos_sandbox_exec",
        execution_supported: true,
        filesystem_strict: false,
        network_deny_all: true,
        network_allowlist: true,
        ipc: true,
        background_process_tree_cleanup: false,
    }
}

/// Capabilities of the Linux Landlock + Seccomp backend.
pub fn linux_capabilities() -> (c: PlatformCapabilities)
    ensures
        c.backend@ == "linux_landlock_seccomp"@,
        c.execution_supported,
        c.filesystem_strict,
        c.network_deny_all,
        c.network_allowlist,
        c.ipc,
        !c.background_process_tree_cleanup,
{
    PlatformCapabilities {
        backend: "linux_landlock_seccomp",
        execution_supported: true,
        filesystem_strict: true,
        network_deny_all: true,
        network_allowlist: true,
        ipc: true,
        background_process_tree_cleanup: false,
    }
}

/// Capabilities of the Windows AppContainer backend: it fails closed.
pub fn windows_capabilities() -> (c: PlatformCapabilities)
    ensures
        c.backend@ == "windows_appcontainer"@,
        !c.execution_supported,
        !c.filesystem_strict,
        !c.network_deny_all,
        !c.network_allowlist,
        !c.ipc,
        !c.background_process_tree_cleanup,
{
    PlatformCapabilities {
        backend: "windows_appcontainer",
        execution_supported: false,
        filesystem_strict: false,
        network_deny_all: false,
        network_allowlist: false,
        ipc: false,
        background_process_tree_cleanup: false,
    }
}

/// Capabilities of a target without a backend: nothing is supported.
pub fn unsupported_capabilities() -> (c: PlatformCapabilities)
    ensures
        c.backend@ == "unsupported"@,
        !c.execution_supported,
        !c.filesystem_strict,
        !c.network_deny_all,
        !c.network_allowlist,
        !c.ipc,
        !c.background_process_tree_cleanup,
{
    PlatformCapabilities {
        backend: "unsupported",
        execution_supported: false,
        filesystem_strict: false,
        network_deny_all: false,
        network_allowlist: false,
        ipc: false,
        background_process_tree_cleanup: false,
    }
}

/// Capabilities of the backend of the target the program is built for. The
/// build target is a fact of the build that the library does not read: the
/// program names it (`TargetOs`).
pub fn platform_capabilities(os: TargetOs) -> (c: PlatformCapabilities)
    ensures
        os == TargetOs::MacOs ==> c.backend@ == "macos_sandbox_exec"@,
        os == TargetOs::Linux ==> c.backend@ == "linux_landlock_seccomp"@,
        os == TargetOs::Windows ==> c.backend@ == "windows_appcontainer"@,
        os == TargetOs::Other ==> c.backend@ == "unsupported"@,
        c.execution_supported == (os == TargetOs::MacOs || os == TargetOs::Linux),
        c.filesystem_strict == (os == TargetOs::Linux),
        c.network_deny_all == (os == TargetOs::MacOs || os == TargetOs::Linux),
        c.network_allowlist == (os == TargetOs::MacOs || os == TargetOs::Linux),
        c.ipc == (os == TargetOs::MacOs || os == TargetOs::Linux),
        !c.background_process_tree_cleanup,
{
    match os {
        TargetOs::MacOs => macos_capabilities(),
        TargetOs::Linux => linux_capabilities(),
        TargetOs::Windows => windows_capabilities(),
        TargetOs::Other => unsupported_capabilities(),
    }
}

} // verus!
