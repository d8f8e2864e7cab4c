//! The command-line interface of the `leash` tool, as plain data. The argument
//! parser itself lives with the binary.

use vstd::prelude::*;

verus! {

/// Parsed command line.
#[derive(Debug, Clone)]
pub struct Cli {
    pub command: Commands,
    /// Path to a config file (TOML).
    pub config: Option<String>,
    /// Verbose output.
    pub verbose: bool,
}

/// Subcommands.
#[derive(Debug, Clone)]
pub enum Commands {
    /// Run a command in the sandbox.
    Run(RunArgs),
    /// Start an interactive shell in the sandbox.
    Shell(ShellArgs),
    /// Run Python in the sandbox (REPL if no script).
    Python(PythonArgs),
    /// Invoke an IPC command inside a sandbox.
    Ipc(IpcArgs),
}

/// Arguments of `run`.
#[derive(Debug, Clone)]
pub struct RunArgs {
    pub program: String,
    pub args: Vec<String>,
    pub common: CommonArgs,
}

/// Arguments of `shell`.
#[derive(Debug, Clone)]
pub struct ShellArgs {
    pub shell: Option<String>,
    pub common: CommonArgs,
}

/// Arguments of `python`.
#[derive(Debug, Clone)]
pub struct PythonArgs {
    pub script: Option<String>,
    pub args: Vec<String>,
    pub venv: Option<String>,
    pub python: Option<String>,
    pub packages: Vec<String>,
    pub system_site_packages: bool,
    pub use_uv: bool,
    pub allow_pip_install: bool,
    pub common: CommonArgs,
}

/// Arguments of `ipc`.
#[derive(Debug, Clone)]
pub struct IpcArgs {
    pub command: String,
    pub args: Vec<String>,
}

/// Arguments shared by the sandboxing subcommands.
#[derive(Debug, Clone)]
pub struct CommonArgs {
    pub network: NetworkMode,
    pub allow_domains: Vec<String>,
    pub permissive: bool,
    pub protect_home: bool,
    pub no_protect_home: bool,
    pub protect_credentials: bool,
    pub no_protect_credentials: bool,
    pub protect_cloud_config: bool,
    pub no_protect_cloud_config: bool,
    pub protect_browser_data: bool,
    pub no_protect_browser_data: bool,
    pub protect_keychain: bool,
    pub no_protect_keychain: bool,
    pub protect_shell_history: bool,
    pub no_protect_shell_history: bool,
    pub protect_package_credentials: bool,
    pub no_protect_package_credentials: bool,
    pub allow_gpu: bool,
    pub no_allow_gpu: bool,
    pub allow_npu: bool,
    pub no_allow_npu: bool,
    pub allow_hardware: bool,
    pub no_allow_hardware: bool,
    pub readable_paths: Vec<String>,
    pub writable_paths: Vec<String>,
    pub executable_paths: Vec<String>,
    pub max_memory: Option<u64>,
    pub max_cpu_time: Option<u64>,
    pub max_file_size: Option<u64>,
    pub max_processes: Option<u32>,
    pub working_dir: Option<String>,
    pub keep_working_dir: bool,
    pub env_passthroughs: Vec<String>,
    pub envs: Vec<String>,
}

/// Network mode chosen on the command line.
#[derive(Debug, Clone, Copy, PartialEq, Eq, Structural)]
pub enum NetworkMode {
    /// Deny all network access.
    Deny,
    /// Allow all network access.
    Allow,
    /// Allow only the listed domains.
    AllowList,
}

} // verus!
