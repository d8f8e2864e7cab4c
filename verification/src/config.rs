//! The sandbox configuration that the backends read: filesystem roots, network
//! and IPC settings, Python environment and security toggles.

use vstd::prelude::*;

verus! {

/// Which host resources a sandbox may reach.
#[derive(Debug, Clone, Copy, PartialEq, Eq)]
pub struct SecurityConfig {
    /// Keep the user's home directory out of reach.
    pub protect_user_home: bool,
    /// Keep SSH and GPG credentials out of reach.
    pub protect_credentials: bool,
    /// Keep cloud tool configuration (`.aws`, `.kube`, ...) out of reach.
    pub protect_cloud_config: bool,
    /// Keep browser profiles out of reach.
    pub protect_browser_data: bool,
    /// Keep the system keychain out of reach.
    pub protect_keychain: bool,
    /// Keep shell history out of reach.
    pub protect_shell_history: bool,
    /// Keep package manager credentials out of reach.
    pub protect_package_credentials: bool,
    /// Allow GPU devices.
    pub allow_gpu: bool,
    /// Allow NPU devices.
    pub allow_npu: bool,
    /// Allow other hardware (USB, input, video, audio).
    pub allow_hardware: bool,
}

impl SecurityConfig {
    /// Every protection on, no hardware.
    pub fn strict() -> (s: SecurityConfig)
        ensures
            s.protect_user_home && s.protect_credentials && s.protect_cloud_config
                && s.protect_browser_data && s.protect_keychain && s.protect_shell_history
                && s.protect_package_credentials,
            !s.allow_gpu && !s.allow_npu && !s.allow_hardware,
    {
        SecurityConfig {
            protect_user_home: true,
            protect_credentials: true,
            protect_cloud_config: true,
            protect_browser_data: true,
            protect_keychain: true,
            protect_shell_history: true,
            protect_package_credentials: true,
            allow_gpu: false,
            allow_npu: false,
            allow_hardware: false,
        }
    }

    /// The home directory in reach, credentials still protected, hardware allowed.
    pub fn permissive() -> (s: SecurityConfig)
        ensures
            !s.protect_user_home,
            s.protect_credentials && s.protect_cloud_config && s.protect_browser_data
                && s.protect_keychain && s.protect_shell_history && s.protect_package_credentials,
            s.allow_gpu && s.allow_npu && s.allow_hardware,
    {
        SecurityConfig {
            protect_user_home: false,
            protect_credentials: true,
            protect_cloud_config: true,
            protect_browser_data: true,
            protect_keychain: true,
            protect_shell_history: true,
            protect_package_credentials: true,
            allow_gpu: true,
            allow_npu: true,
            allow_hardware: true,
        }
    }
}

/// A Python virtual environment the sandbox uses.
#[derive(Debug, Clone)]
pub struct VenvConfig {
    /// Where the environment lives.
    pub path: String,
    /// The interpreter that creates it, if one is named.
    pub python: Option<String>,
    /// Packages to install into it.
    pub packages: Vec<String>,
    /// Whether the environment sees the system site packages.
    pub system_site_packages: bool,
    /// Whether `uv` creates it.
    pub use_uv: bool,
}

/// Python settings of a sandbox.
#[derive(Debug, Clone)]
pub struct PythonConfig {
    /// The virtual environment.
    pub venv: VenvConfig,
    /// Whether sandboxed code may install packages.
    pub allow_pip_install: bool,
}

/// The network policy a sandbox applies.
#[derive(Debug, Clone, PartialEq, Eq)]
pub enum NetworkPolicyKind {
    /// No network access.
    DenyAll,
    /// All network access, through the proxy.
    AllowAll,
    /// Access to the listed domains (wildcards allowed), through the proxy.
    AllowList(Vec<String>),
}

/// The configuration data the backends read.
#[derive(Debug, Clone)]
pub struct SandboxConfigData {
    pub security: SecurityConfig,
    pub writable_paths: Vec<String>,
    pub readable_paths: Vec<String>,
    pub executable_paths: Vec<String>,
    pub network_deny_all: bool,
    pub ipc_configured: bool,
    pub ipc_port: Option<u16>,
    pub python: Option<PythonConfig>,
    pub working_dir: String,
    pub working_dir_auto_created: bool,
    pub filesystem_strict: bool,
    pub writable_file_system: bool,
    pub env_passthrough: Vec<String>,
}

impl SandboxConfigData {
    /// Records the port of the IPC server (or its absence).
    pub fn set_ipc_port(&mut self, port: Option<u16>)
        ensures
            *final(self) == (SandboxConfigData { ipc_port: port, ..*old(self) }),
    {
        self.ipc_port = port;
    }
}

/// A sandbox configuration: the network policy and the data the backends read.
#[derive(Debug, Clone)]
pub struct SandboxConfig {
    pub policy: NetworkPolicyKind,
    pub data: SandboxConfigData,
}

impl SandboxConfig {
    /// A builder with the defaults: strict security, strict filesystem, no
    /// network, no IPC, no extra roots, and a working directory to be allocated.
    pub fn builder() -> (b: SandboxConfigBuilder)
        ensures
            is_default_config_data(b.data),
            b.policy == NetworkPolicyKind::DenyAll,
    {
        SandboxConfigBuilder::default_builder()
    }

    /// Splits the configuration into its network policy and its data.
    pub fn into_parts(self) -> (r: (NetworkPolicyKind, SandboxConfigData))
        ensures
            r.0 == self.policy,
            r.1 == self.data,
    {
        (self.policy, self.data)
    }
}

/// Whether `d` is the data of a configuration built with no option set.
pub open spec fn is_default_config_data(d: SandboxConfigData) -> bool {
    &&& d.security == SecurityConfig {
        protect_user_home: true,
        protect_credentials: true,
        protect_cloud_config: true,
        protect_browser_data: true,
        protect_keychain: true,
        protect_shell_history: true,
        protect_package_credentials: true,
        allow_gpu: false,
        allow_npu: false,
        allow_hardware: false,
    }
    &&& d.writable_paths@.len() == 0
    &&& d.readable_paths@.len() == 0
    &&& d.executable_paths@.len() == 0
    &&& d.network_deny_all
    &&& !d.ipc_configured
    &&& d.ipc_port is None
    &&& d.python is None
    &&& d.working_dir@.len() == 0
    &&& d.working_dir_auto_created
    &&& d.filesystem_strict
    &&& !d.writable_file_system
    &&& d.env_passthrough@.len() == 0
}

/// Builds a `SandboxConfig` option by option.
#[derive(Debug, Clone)]
pub struct SandboxConfigBuilder {
    pub policy: NetworkPolicyKind,
    pub data: SandboxConfigData,
}

impl SandboxConfigBuilder {
    /// The builder with every option at its default.
    pub fn default_builder() -> (b: SandboxConfigBuilder)
        ensures
            is_default_config_data(b.data),
            b.policy == NetworkPolicyKind::DenyAll,
    {
        SandboxConfigBuilder {
            policy: NetworkPolicyKind::DenyAll,
            data: SandboxConfigData {
                security: SecurityConfig::strict(),
                writable_paths: Vec::new(),
                readable_paths: Vec::new(),
                executable_paths: Vec::new(),
                network_deny_all: true,
                ipc_configured: false,
                ipc_port: None,
                python: None,
                working_dir: String::new(),
                working_dir_auto_created: true,
                filesystem_strict: true,
                writable_file_system: false,
                env_passthrough: Vec::new(),
            },
        }
    }

    /// Sets the network policy.
    pub fn network(self, policy: NetworkPolicyKind) -> (b: SandboxConfigBuilder)
        ensures
            b.policy == policy,
            b.data == (SandboxConfigData { network_deny_all: policy is DenyAll, ..self.data }),
    {
        let deny_all = match policy {
            NetworkPolicyKind::DenyAll => true,
            _ => false,
        };
        SandboxConfigBuilder {
            policy,
            data: SandboxConfigData { network_deny_all: deny_all, ..self.data },
        }
    }

    /// Uses `dir` as the working directory; it is then not removed with the sandbox.
    pub fn working_dir(self, dir: &str) -> (b: SandboxConfigBuilder)
        ensures
            b.policy == self.policy,
            b.data.working_dir@ == dir@,
            !b.data.working_dir_auto_created,
            b.data == (SandboxConfigData {
                working_dir: b.data.working_dir,
                working_dir_auto_created: false,
                ..self.data
            }),
    {
        SandboxConfigBuilder {
            policy: self.policy,
            data: SandboxConfigData {
                working_dir: String::from_str(dir),
                working_dir_auto_created: false,
                ..self.data
            },
        }
    }

    /// Adds a root that sandboxed code may read.
    pub fn readable_path(self, path: &str) -> (b: SandboxConfigBuilder)
        ensures
            b.policy == self.policy,
            b.data.readable_paths@.len() == self.data.readable_paths@.len() + 1,
            b.data.readable_paths@.drop_last() == self.data.readable_paths@,
            b.data.readable_paths@.last()@ == path@,
            b.data == (SandboxConfigData { readable_paths: b.data.readable_paths, ..self.data }),
    {
        let mut d = self.data;
        d.readable_paths.push(String::from_str(path));
        SandboxConfigBuilder { policy: self.policy, data: d }
    }

    /// Adds a root that sandboxed code may read and write.
    pub fn writable_path(self, path: &str) -> (b: SandboxConfigBuilder)
        ensures
            b.policy == self.policy,
            b.data.writable_paths@.len() == self.data.writable_paths@.len() + 1,
            b.data.writable_paths@.drop_last() == self.data.writable_paths@,
            b.data.writable_paths@.last()@ == path@,
            b.data == (SandboxConfigData { writable_paths: b.data.writable_paths, ..self.data }),
    {
        let mut d = self.data;
        d.writable_paths.push(String::from_str(path));
        SandboxConfigBuilder { policy: self.policy, data: d }
    }

    /// Adds a root that sandboxed code may read and execute.
    pub fn executable_path(self, path: &str) -> (b: SandboxConfigBuilder)
        ensures
            b.policy == self.policy,
            b.data.executable_paths@.len() == self.data.executable_paths@.len() + 1,
            b.data.executable_paths@.drop_last() == self.data.executable_paths@,
            b.data.executable_paths@.last()@ == path@,
            b.data == (SandboxConfigData { executable_paths: b.data.executable_paths, ..self.data }),
    {
        let mut d = self.data;
        d.executable_paths.push(String::from_str(path));
        SandboxConfigBuilder { policy: self.policy, data: d }
    }

    /// Passes the host's value of `name` through to sandboxed processes.
    pub fn env_passthrough(self, name: &str) -> (b: SandboxConfigBuilder)
        ensures
            b.policy == self.policy,
            b.data.env_passthrough@.len() == self.data.env_passthrough@.len() + 1,
            b.data.env_passthrough@.drop_last() == self.data.env_passthrough@,
            b.data.env_passthrough@.last()@ == name@,
            b.data == (SandboxConfigData { env_passthrough: b.data.env_passthrough, ..self.data }),
    {
        let mut d = self.data;
        d.env_passthrough.push(String::from_str(name));
        SandboxConfigBuilder { policy: self.policy, data: d }
    }

    /// Sets the security toggles.
    pub fn security(self, security: SecurityConfig) -> (b: SandboxConfigBuilder)
        ensures
            b.policy == self.policy,
            b.data == (SandboxConfigData { security, ..self.data }),
    {
        SandboxConfigBuilder { policy: self.policy, data: SandboxConfigData { security, ..self.data } }
    }

    /// Sets the Python environment.
    pub fn python(self, python: PythonConfig) -> (b: SandboxConfigBuilder)
        ensures
            b.policy == self.policy,
            b.data == (SandboxConfigData { python: Some(python), ..self.data }),
    {
        SandboxConfigBuilder { policy: self.policy, data: SandboxConfigData { python: Some(python), ..self.data } }
    }

    /// Whether only explicit roots (plus system roots) are reachable.
    pub fn filesystem_strict(self, strict: bool) -> (b: SandboxConfigBuilder)
        ensures
            b.policy == self.policy,
            b.data == (SandboxConfigData { filesystem_strict: strict, ..self.data }),
    {
        SandboxConfigBuilder { policy: self.policy, data: SandboxConfigData { filesystem_strict: strict, ..self.data } }
    }

    /// Whether the whole filesystem is writable.
    pub fn writable_file_system(self, writable: bool) -> (b: SandboxConfigBuilder)
        ensures
            b.policy == self.policy,
            b.data == (SandboxConfigData { writable_file_system: writable, ..self.data }),
    {
        SandboxConfigBuilder {
            policy: self.policy,
            data: SandboxConfigData { writable_file_system: writable, ..self.data },
        }
    }

    /// Enables IPC from sandboxed processes to host commands.
    pub fn ipc(self) -> (b: SandboxConfigBuilder)
        ensures
            b.policy == self.policy,
            b.data == (SandboxConfigData { ipc_configured: true, ..self.data }),
    {
        SandboxConfigBuilder { policy: self.policy, data: SandboxConfigData { ipc_configured: true, ..self.data } }
    }

    /// The configuration.
    pub fn build(self) -> (r: crate::error::Result<SandboxConfig>)
        ensures
            r matches Ok(c) && c.data == self.data && c.policy == self.policy,
    {
        Ok(SandboxConfig { policy: self.policy, data: self.data })
    }
}

} // verus!
