//! What the command-line front end decides before and after it runs a
//! sandboxed program: the sandbox configuration from the merged options, the
//! network policy, the interpreter and shell it runs, and the exit code.

use vstd::prelude::*;

use crate::cli::{CommonArgs, NetworkMode, PythonArgs};
use crate::config::{
    NetworkPolicyKind, PythonConfig, SandboxConfig, SandboxConfigBuilder, SandboxConfigData,
    SecurityConfig, VenvConfig,
};
use crate::error::Error;
use crate::python::spec_python_executable;
use crate::text::{
    chars_of, find_char, find_char_in, join_path, opt_string_view, slice_chars, string_of, strs,
};
use crate::windows::paths::{pyvenv_roots, pyvenv_runtime_roots_from_text, spec_path_parent};

verus! {

/// Errors of the command-line front end.
#[derive(Debug)]
pub enum CliError {
    /// An error of the sandbox itself.
    Sandbox(Error),
    /// An I/O error.
    Io(String),
    /// The configuration file could not be read.
    ReadConfig { path: String, message: String },
    /// The configuration file could not be parsed.
    ParseConfig { path: String, message: String },
    /// The configuration names an unknown network mode.
    InvalidNetworkMode { value: String },
    /// An environment assignment is not `KEY=VALUE`.
    InvalidEnvFormat { value: String },
    /// An allow-list network without any allowed domain.
    MissingAllowDomains,
    /// `LEASH_IPC_ENDPOINT` is not set.
    MissingIpcEndpoint,
    /// The IPC request could not be encoded.
    SerializeIpcRequest(String),
    /// The IPC response could not be decoded.
    DecodeIpcResponse(String),
    /// A JSON payload could not be rendered.
    RenderIpcJson(String),
    /// Talking to the IPC endpoint failed.
    IpcTransport { endpoint: String, message: String },
    /// The IPC response announced an unacceptable length.
    InvalidIpcResponseLength { length: usize },
    /// Any other failure, with its message.
    Message { message: String },
}

/// The options of one front-end run, merged from the configuration file and
/// the command line.
#[derive(Debug, Clone)]
pub struct MergedConfig {
    pub network_mode: NetworkMode,
    pub allow_domains: Vec<String>,
    pub security: SecurityConfig,
    pub readable_paths: Vec<String>,
    pub writable_paths: Vec<String>,
    pub executable_paths: Vec<String>,
    pub env_passthroughs: Vec<String>,
    pub filesystem_strict: bool,
    pub writable_file_system: bool,
    pub working_dir: Option<String>,
    pub keep_working_dir: bool,
    pub env_set: Vec<(String, String)>,
    pub python: MergedPython,
}

/// The Python options of a front-end run.
#[derive(Debug, Clone)]
pub struct MergedPython {
    pub venv: Option<String>,
    pub interpreter: Option<String>,
    pub packages: Vec<String>,
    pub system_site_packages: bool,
    pub use_uv: bool,
    pub allow_pip_install: bool,
}

/// The network policy of a run; an allow-list needs at least one domain.
pub fn network_policy_for(mode: NetworkMode, domains: &Vec<String>) -> (r: core::result::Result<
    NetworkPolicyKind,
    CliError,
>)
    ensures
        (mode == NetworkMode::AllowList && domains@.len() == 0) <==> (r matches Err(e)
            && e is MissingAllowDomains),
        r is Ok || (r matches Err(e) && e is MissingAllowDomains),
        r matches Ok(p) ==> is_policy_for(mode, strs(domains@), p),
{
    match mode {
        NetworkMode::Deny => Ok(NetworkPolicyKind::DenyAll),
        NetworkMode::Allow => Ok(NetworkPolicyKind::AllowAll),
        NetworkMode::AllowList => {
            if domains.len() == 0 {
                return Err(CliError::MissingAllowDomains);
            }
            Ok(NetworkPolicyKind::AllowList(copy_strings(domains)))
        },
    }
}

fn copy_strings(v: &Vec<String>) -> (out: Vec<String>)
    ensures
        strs(out@) == strs(v@),
{
    let mut out: Vec<String> = Vec::new();
    let mut i: usize = 0;
    while i < v.len()
        invariant
            i <= v.len(),
            strs(out@) == strs(v@).take(i as int),
        decreases v.len() - i,
    {
        let ghost before = out@;
        out.push(v[i].clone());
        assert(strs(out@) =~= strs(before).push(v@[i as int]@));
        assert(strs(v@).take(i + 1) =~= strs(v@).take(i as int).push(
            v@[i as int]@,
        ));
        i = i + 1;
    }
    assert(strs(v@).take(v.len() as int) =~= strs(v@));
    out
}

/// The executable roots of a run: the configured ones and, on Windows, the
/// directory of the chosen interpreter and the runtime roots named by the
/// virtual environment's `pyvenv.cfg` (when it could be read).
pub open spec fn spec_effective_executable_paths(
    config: MergedConfig,
    windows: bool,
    pyvenv_cfg: Option<Seq<char>>,
) -> Seq<Seq<char>> {
    executable_paths_from(
        config,
        windows,
        match config.python.interpreter {
            Some(i) => spec_path_parent(i@),
            None => None,
        },
        match pyvenv_cfg {
            Some(text) => Some(pyvenv_roots(text)),
            None => None,
        },
    )
}

/// The executable roots of a run, given the directory of the chosen
/// interpreter (if it has one) and the runtime roots named by `pyvenv.cfg`
/// (if it was read): on Windows these follow the configured roots, the
/// latter only when a virtual environment is given.
pub open spec fn executable_paths_from(
    config: MergedConfig,
    windows: bool,
    interpreter_dir: Option<Seq<char>>,
    venv_roots: Option<Seq<Seq<char>>>,
) -> Seq<Seq<char>> {
    let base = strs(config.executable_paths@);
    if !windows {
        base
    } else {
        let with_interpreter = match interpreter_dir {
            Some(p) => base.push(p),
            None => base,
        };
        match config.python.venv {
            Some(_) => match venv_roots {
                Some(roots) => with_interpreter + roots,
                None => with_interpreter,
            },
            None => with_interpreter,
        }
    }
}

/// The executable roots of a run given the interpreter's directory and the
/// runtime roots of `pyvenv.cfg` (see `executable_paths_from`).
pub fn executable_paths_with(
    config: &MergedConfig,
    windows: bool,
    interpreter_dir: Option<String>,
    venv_roots: Option<Vec<String>>,
) -> (out: Vec<String>)
    ensures
        strs(out@) == executable_paths_from(
            *config,
            windows,
            opt_string_view(interpreter_dir),
            match venv_roots {
                Some(r) => Some(strs(r@)),
                None => None,
            },
        ),
{
    let mut paths = copy_strings(&config.executable_paths);
    if !windows {
        return paths;
    }
    match interpreter_dir {
        Some(p) => {
            let ghost before = paths@;
            paths.push(p);
            assert(strs(paths@) =~= strs(before).push(paths@.last()@));
        },
        None => {},
    }
    if config.python.venv.is_some() {
        match venv_roots {
            Some(roots) => {
                let ghost before = paths@;
                let mut k: usize = 0;
                while k < roots.len()
                    invariant
                        k <= roots.len(),
                        strs(paths@) == strs(before) + strs(roots@).take(k as int),
                    decreases roots.len() - k,
                {
                    let ghost mid = paths@;
                    paths.push(roots[k].clone());
                    assert(strs(paths@) =~= strs(mid).push(roots@[k as int]@));
                    assert(strs(roots@).take(k + 1) =~= strs(roots@).take(k as int).push(
                        roots@[k as int]@,
                    ));
                    k = k + 1;
                }
                assert(strs(roots@).take(roots.len() as int) =~= strs(roots@));
            },
            None => {},
        }
    }
    paths
}

/// The executable roots of a run (see `spec_effective_executable_paths`).
pub fn effective_executable_paths(config: &MergedConfig, windows: bool, pyvenv_cfg: Option<&str>) -> (out:
    Vec<String>)
    ensures
        strs(out@) == spec_effective_executable_paths(
            *config,
            windows,
            match pyvenv_cfg {
                Some(t) => Some(t@),
                None => None,
            },
        ),
{
    let interpreter_dir = match &config.python.interpreter {
        Some(i) => crate::windows::paths::path_parent(i.as_str()),
        None => None,
    };
    let venv_roots = match pyvenv_cfg {
        Some(text) => Some(pyvenv_runtime_roots_from_text(text)),
        None => None,
    };
    executable_paths_with(config, windows, interpreter_dir, venv_roots)
}

/// Whether a run sets up Python: a virtual environment or packages are given.
pub open spec fn wants_python(config: MergedConfig) -> bool {
    config.python.venv is Some || config.python.packages@.len() > 0
}

/// Whether `r` is the sandbox configuration of a run with `policy`: the
/// policy, the security settings, the roots (executable ones as
/// `spec_effective_executable_paths` gives them), the passed-through
/// variables, the filesystem switches, the working directory if one is given
/// (else one to be allocated), no IPC, and Python settings exactly when a
/// virtual environment or packages are given.
pub open spec fn is_run_config(
    r: SandboxConfig,
    policy: NetworkPolicyKind,
    config: MergedConfig,
    windows: bool,
    pyvenv_cfg: Option<Seq<char>>,
) -> bool {
    &&& r.policy == policy
    &&& r.data.network_deny_all == (policy is DenyAll)
    &&& r.data.security == config.security
    &&& strs(r.data.readable_paths@) == strs(config.readable_paths@)
    &&& strs(r.data.writable_paths@) == strs(config.writable_paths@)
    &&& strs(r.data.executable_paths@) == spec_effective_executable_paths(config, windows, pyvenv_cfg)
    &&& strs(r.data.env_passthrough@) == strs(config.env_passthroughs@)
    &&& r.data.filesystem_strict == config.filesystem_strict
    &&& r.data.writable_file_system == config.writable_file_system
    &&& match config.working_dir {
        Some(d) => r.data.working_dir@ == d@ && !r.data.working_dir_auto_created,
        None => r.data.working_dir@.len() == 0 && r.data.working_dir_auto_created,
    }
    &&& !r.data.ipc_configured
    &&& r.data.ipc_port is None
    &&& wants_python(config) ==> (r.data.python matches Some(p) && p.venv.path@ == (match config.python.venv {
        Some(v) => v@,
        None => Seq::empty(),
    }) && (match (p.venv.python, config.python.interpreter) {
        (Some(a), Some(b)) => a@ == b@,
        (None, None) => true,
        _ => false,
    }) && strs(p.venv.packages@) == strs(config.python.packages@)
        && p.venv.system_site_packages == config.python.system_site_packages && p.venv.use_uv
        == config.python.use_uv && p.allow_pip_install == config.python.allow_pip_install)
    &&& !wants_python(config) ==> r.data.python is None
}

/// The sandbox configuration of a run with `policy` (see `is_run_config`).
pub fn build_config(
    policy: NetworkPolicyKind,
    config: &MergedConfig,
    windows: bool,
    pyvenv_cfg: Option<&str>,
) -> (r: SandboxConfig)
    ensures
        is_run_config(
            r,
            policy,
            *config,
            windows,
            match pyvenv_cfg {
                Some(t) => Some(t@),
                None => None,
            },
        ),
{
    let b = SandboxConfigBuilder::default_builder();
    let mut data = b.data;
    data.network_deny_all = match policy {
        NetworkPolicyKind::DenyAll => true,
        _ => false,
    };
    data.security = config.security;
    data.readable_paths = copy_strings(&config.readable_paths);
    data.writable_paths = copy_strings(&config.writable_paths);
    data.executable_paths = effective_executable_paths(config, windows, pyvenv_cfg);
    data.env_passthrough = copy_strings(&config.env_passthroughs);
    data.filesystem_strict = config.filesystem_strict;
    data.writable_file_system = config.writable_file_system;
    match &config.working_dir {
        Some(d) => {
            data.working_dir = d.clone();
            data.working_dir_auto_created = false;
        },
        None => {},
    }
    if config.python.venv.is_some() || config.python.packages.len() > 0 {
        let path = match &config.python.venv {
            Some(v) => v.clone(),
            None => String::new(),
        };
        let interpreter = match &config.python.interpreter {
            Some(i) => Some(i.clone()),
            None => None,
        };
        data.python = Some(
            PythonConfig {
                venv: VenvConfig {
                    path,
                    python: interpreter,
                    packages: copy_strings(&config.python.packages),
                    system_site_packages: config.python.system_site_packages,
                    use_uv: config.python.use_uv,
                },
                allow_pip_install: config.python.allow_pip_install,
            },
        );
    }
    SandboxConfig { policy, data }
}

/// Whether `p` is the network policy that `mode` asks for with `domains`.
pub open spec fn is_policy_for(mode: NetworkMode, domains: Seq<Seq<char>>, p: NetworkPolicyKind) -> bool {
    match mode {
        NetworkMode::Deny => p == NetworkPolicyKind::DenyAll,
        NetworkMode::Allow => p == NetworkPolicyKind::AllowAll,
        NetworkMode::AllowList => domains.len() > 0 && (p matches NetworkPolicyKind::AllowList(d)
            && strs(d@) == domains),
    }
}

/// The sandbox configuration of a run, with the network policy its mode
/// asks for; an allow-list without domains is refused.
pub fn create_sandbox_config(config: &MergedConfig, windows: bool, pyvenv_cfg: Option<&str>) -> (r:
    core::result::Result<SandboxConfig, CliError>)
    ensures
        (config.network_mode == NetworkMode::AllowList && config.allow_domains@.len() == 0) <==> (
        r matches Err(e) && e is MissingAllowDomains),
        r is Ok || (r matches Err(e) && e is MissingAllowDomains),
        r matches Ok(c) ==> is_policy_for(config.network_mode, strs(config.allow_domains@), c.policy)
            && is_run_config(
            c,
            c.policy,
            *config,
            windows,
            match pyvenv_cfg {
                Some(t) => Some(t@),
                None => None,
            },
        ),
{
    let policy = network_policy_for(config.network_mode, &config.allow_domains)?;
    Ok(build_config(policy, config, windows, pyvenv_cfg))
}

/// The interpreter a Python run uses: the virtual environment's, else the
/// chosen interpreter, else `python3`.
pub fn get_python_executable(venv: Option<&str>, interpreter: Option<&str>, windows: bool) -> (p:
    String)
    ensures
        p@ == (match venv {
            Some(v) => spec_python_executable(v@, windows),
            None => match interpreter {
                Some(i) => i@,
                None => "python3"@,
            },
        }),
{
    match venv {
        Some(v) => crate::python::python_executable(v, windows),
        None => match interpreter {
            Some(i) => String::from_str(i),
            None => String::from_str("python3"),
        },
    }
}

/// Where a Python run creates its virtual environment when none is named:
/// `.sandbox-venv` in the current directory.
pub fn default_venv_path(current_dir: &str) -> (p: String)
    ensures
        p@ == join_path(current_dir@, ".sandbox-venv"@),
{
    crate::text::path_join(current_dir, ".sandbox-venv")
}

/// The virtual environment a Python run prepares, when it wants one (a
/// virtual environment or packages are given): at the given path, else
/// `.sandbox-venv` in `cwd`, with the run's interpreter, packages and switches.
pub fn python_venv_plan(config: &MergedConfig, cwd: &str) -> (r: Option<VenvConfig>)
    ensures
        !wants_python(*config) ==> r is None,
        wants_python(*config) ==> (r matches Some(v) && v.path@ == (match config.python.venv {
            Some(p) => p@,
            None => join_path(cwd@, ".sandbox-venv"@),
        }) && opt_string_view(v.python) == opt_string_view(config.python.interpreter) && strs(
            v.packages@,
        ) == strs(config.python.packages@) && v.system_site_packages
            == config.python.system_site_packages && v.use_uv == config.python.use_uv),
{
    if config.python.venv.is_none() && config.python.packages.len() == 0 {
        return None;
    }
    let path = match &config.python.venv {
        Some(v) => v.clone(),
        None => default_venv_path(cwd),
    };
    let python = match &config.python.interpreter {
        Some(i) => Some(i.clone()),
        None => None,
    };
    Some(
        VenvConfig {
            path,
            python,
            packages: copy_strings(&config.python.packages),
            system_site_packages: config.python.system_site_packages,
            use_uv: config.python.use_uv,
        },
    )
}

/// The arguments of a Python run: the script and its arguments, or nothing
/// for the interactive interpreter.
pub fn python_arguments(script: Option<&str>, args: &Vec<String>) -> (out: Vec<String>)
    ensures
        strs(out@) == (match script {
            Some(s) => seq![s@] + strs(args@),
            None => Seq::empty(),
        }),
{
    match script {
        Some(s) => {
            let mut out: Vec<String> = Vec::new();
            out.push(String::from_str(s));
            let rest = copy_strings(args);
            let mut i: usize = 0;
            while i < rest.len()
                invariant
                    i <= rest.len(),
                    strs(rest@) == strs(args@),
                    strs(out@) == seq![s@] + strs(rest@).take(i as int),
                decreases rest.len() - i,
            {
                let ghost before = out@;
                out.push(rest[i].clone());
                assert(strs(out@) =~= strs(before).push(rest@[i as int]@));
                assert(strs(rest@).take(i + 1) =~= strs(rest@).take(i as int).push(
                    rest@[i as int]@,
                ));
                i = i + 1;
            }
            assert(strs(rest@).take(rest.len() as int) =~= strs(rest@));
            out
        },
        None => Vec::new(),
    }
}

/// The shell an interactive run starts: the chosen one, else `/bin/bash`.
pub fn shell_program(shell: Option<&str>) -> (p: String)
    ensures
        p@ == (match shell {
            Some(s) => s@,
            None => "/bin/bash"@,
        }),
{
    match shell {
        Some(s) => String::from_str(s),
        None => String::from_str("/bin/bash"),
    }
}

/// The exit code of a run: the child's, or 1 when it has none (it was
/// killed by a signal).
pub fn exit_code_of(code: Option<i32>) -> (c: i32)
    ensures
        c == (match code {
            Some(x) => x,
            None => 1,
        }),
{
    match code {
        Some(x) => x,
        None => 1,
    }
}

/// The process exit status of the front end: 0 on success, 1 on error.
pub fn to_exit_code(result: &core::result::Result<(), CliError>) -> (c: u8)
    ensures
        c == (if result is Ok { 0u8 } else { 1u8 }),
{
    match result {
        Ok(()) => 0,
        Err(_) => 1,
    }
}

/// A protection or permission toggled on the command line: `on` sets it,
/// `off` clears it, neither keeps the preset's value.
pub open spec fn toggled(preset: bool, on: bool, off: bool) -> bool {
    if on {
        true
    } else if off {
        false
    } else {
        preset
    }
}

fn toggle(preset: bool, on: bool, off: bool) -> (b: bool)
    ensures
        b == toggled(preset, on, off),
{
    if on {
        true
    } else if off {
        false
    } else {
        preset
    }
}

/// The security settings of the command line: the strict preset, or the
/// permissive one with `--permissive`, each toggle then applied.
pub open spec fn spec_security_from_args(a: CommonArgs) -> SecurityConfig {
    let p = if a.permissive {
        SecurityConfig {
            protect_user_home: false,
            protect_credentials: true,
            protect_cloud_config: true,
            protect_browser_data: true,
            protect_keychain: true,
            protect_shell_history: true,
            protect_package_credentials: true,
            allow_gpu: true,
            allow_npu: true,
            allow_hardware: true,
        }
    } else {
        SecurityConfig {
            protect_user_home: true,
            protect_credentials: true,
            protect_cloud_config: true,
            protect_browser_data: true,
            protect_keychain: true,
            protect_shell_history: true,
            protect_package_credentials: true,
            allow_gpu: false,
            allow_npu: false,
            allow_hardware: false,
        }
    };
    SecurityConfig {
        protect_user_home: toggled(p.protect_user_home, a.protect_home, a.no_protect_home),
        protect_credentials: toggled(
            p.protect_credentials,
            a.protect_credentials,
            a.no_protect_credentials,
        ),
        protect_cloud_config: toggled(
            p.protect_cloud_config,
            a.protect_cloud_config,
            a.no_protect_cloud_config,
        ),
        protect_browser_data: toggled(
            p.protect_browser_data,
            a.protect_browser_data,
            a.no_protect_browser_data,
        ),
        protect_keychain: toggled(p.protect_keychain, a.protect_keychain, a.no_protect_keychain),
        protect_shell_history: toggled(
            p.protect_shell_history,
            a.protect_shell_history,
            a.no_protect_shell_history,
        ),
        protect_package_credentials: toggled(
            p.protect_package_credentials,
            a.protect_package_credentials,
            a.no_protect_package_credentials,
        ),
        allow_gpu: toggled(p.allow_gpu, a.allow_gpu, a.no_allow_gpu),
        allow_npu: toggled(p.allow_npu, a.allow_npu, a.no_allow_npu),
        allow_hardware: toggled(p.allow_hardware, a.allow_hardware, a.no_allow_hardware),
    }
}

/// The security settings of the command line (see `spec_security_from_args`).
pub fn security_from_args(a: &CommonArgs) -> (s: SecurityConfig)
    ensures
        s == spec_security_from_args(*a),
{
    let p = if a.permissive {
        SecurityConfig::permissive()
    } else {
        SecurityConfig::strict()
    };
    SecurityConfig {
        protect_user_home: toggle(p.protect_user_home, a.protect_home, a.no_protect_home),
        protect_credentials: toggle(p.protect_credentials, a.protect_credentials, a.no_protect_credentials),
        protect_cloud_config: toggle(
            p.protect_cloud_config,
            a.protect_cloud_config,
            a.no_protect_cloud_config,
        ),
        protect_browser_data: toggle(
            p.protect_browser_data,
            a.protect_browser_data,
            a.no_protect_browser_data,
        ),
        protect_keychain: toggle(p.protect_keychain, a.protect_keychain, a.no_protect_keychain),
        protect_shell_history: toggle(
            p.protect_shell_history,
            a.protect_shell_history,
            a.no_protect_shell_history,
        ),
        protect_package_credentials: toggle(
            p.protect_package_credentials,
            a.protect_package_credentials,
            a.no_protect_package_credentials,
        ),
        allow_gpu: toggle(p.allow_gpu, a.allow_gpu, a.no_allow_gpu),
        allow_npu: toggle(p.allow_npu, a.allow_npu, a.no_allow_npu),
        allow_hardware: toggle(p.allow_hardware, a.allow_hardware, a.no_allow_hardware),
    }
}

/// `KEY=VALUE`, split at the first `=`.
pub open spec fn spec_env_assignment(s: Seq<char>) -> Option<(Seq<char>, Seq<char>)> {
    match find_char(s, '=') {
        Some(i) => Some((s.take(i), s.skip(i + 1))),
        None => None,
    }
}

/// Reads an `--env` assignment `KEY=VALUE`; text without `=` is refused.
pub fn parse_env_assignment(s: &str) -> (r: core::result::Result<(String, String), CliError>)
    ensures
        match spec_env_assignment(s@) {
            Some(kv) => r matches Ok(p) && p.0@ == kv.0 && p.1@ == kv.1,
            None => r matches Err(e) && e matches CliError::InvalidEnvFormat { value } && value@
                == s@,
        },
{
    let v = chars_of(s);
    proof {
        crate::text::lemma_find_char_bounds(v@, '=');
        assert(v@.skip(0) =~= v@);
    }
    match find_char_in(&v, '=', 0) {
        Some(i) => {
            let key = slice_chars(&v, 0, i);
            let value = slice_chars(&v, i + 1, v.len());
            assert(key@ =~= v@.take(i as int));
            assert(value@ =~= v@.skip(i + 1));
            Ok((string_of(&key), string_of(&value)))
        },
        None => Err(CliError::InvalidEnvFormat { value: String::from_str(s) }),
    }
}

/// The options of a run from its command-line arguments: network, security
/// (see `spec_security_from_args`), roots, working directory, passed-through
/// and set variables (each `--env` must be `KEY=VALUE`); no Python settings.
pub fn merge_common_args(a: &CommonArgs) -> (r: core::result::Result<MergedConfig, CliError>)
    ensures
        match r {
            Ok(m) => m.network_mode == a.network && strs(m.allow_domains@) == strs(
                a.allow_domains@,
            ) && m.security == spec_security_from_args(*a) && strs(m.readable_paths@)
                == strs(a.readable_paths@) && strs(m.writable_paths@)
                == strs(a.writable_paths@) && strs(m.executable_paths@)
                == strs(a.executable_paths@) && strs(m.env_passthroughs@)
                == strs(a.env_passthroughs@) && m.filesystem_strict
                && !m.writable_file_system && m.keep_working_dir == a.keep_working_dir
                && m.env_set@.len() == a.envs@.len() && (forall|i: int|
                0 <= i < a.envs@.len() ==> spec_env_assignment(#[trigger] a.envs@[i]@) == Some(
                    (m.env_set@[i].0@, m.env_set@[i].1@),
                )) && opt_string_view(m.working_dir) == opt_string_view(a.working_dir)
                && m.python.venv is None && m.python.interpreter is None
                && m.python.packages@.len() == 0 && !m.python.system_site_packages
                && !m.python.use_uv && !m.python.allow_pip_install,
            Err(e) => exists|i: int|
                0 <= i < a.envs@.len() && spec_env_assignment(#[trigger] a.envs@[i]@) is None
                    && (forall|j: int|
                    0 <= j < i ==> spec_env_assignment(#[trigger] a.envs@[j]@) is Some) && (
                e matches CliError::InvalidEnvFormat { value } && value@ == a.envs@[i]@),
        },
{
    let mut env_set: Vec<(String, String)> = Vec::new();
    let mut i: usize = 0;
    while i < a.envs.len()
        invariant
            i <= a.envs.len(),
            env_set@.len() == i,
            forall|j: int|
                0 <= j < i ==> spec_env_assignment(#[trigger] a.envs@[j]@) == Some(
                    (env_set@[j].0@, env_set@[j].1@),
                ),
        decreases a.envs.len() - i,
    {
        let kv = parse_env_assignment(a.envs[i].as_str())?;
        env_set.push(kv);
        i = i + 1;
    }
    Ok(
        MergedConfig {
            network_mode: a.network,
            allow_domains: copy_strings(&a.allow_domains),
            security: security_from_args(a),
            readable_paths: copy_strings(&a.readable_paths),
            writable_paths: copy_strings(&a.writable_paths),
            executable_paths: copy_strings(&a.executable_paths),
            env_passthroughs: copy_strings(&a.env_passthroughs),
            filesystem_strict: true,
            writable_file_system: false,
            working_dir: match &a.working_dir {
                Some(d) => Some(d.clone()),
                None => None,
            },
            keep_working_dir: a.keep_working_dir,
            env_set,
            python: MergedPython {
                venv: None,
                interpreter: None,
                packages: Vec::new(),
                system_site_packages: false,
                use_uv: false,
                allow_pip_install: false,
            },
        },
    )
}

/// Takes the Python options of the `python` subcommand into a run's options:
/// a given environment, interpreter or package list replaces the current one,
/// and each switch given turns its option on.
pub fn merge_python_args(config: &mut MergedConfig, args: &PythonArgs)
    ensures
        final(config).python.venv == (match args.venv {
            Some(v) => Some(v),
            None => old(config).python.venv,
        }),
        final(config).python.interpreter == (match args.python {
            Some(p) => Some(p),
            None => old(config).python.interpreter,
        }),
        strs(final(config).python.packages@) == (if args.packages@.len() > 0 {
            strs(args.packages@)
        } else {
            strs(old(config).python.packages@)
        }),
        final(config).python.system_site_packages == (old(config).python.system_site_packages
            || args.system_site_packages),
        final(config).python.use_uv == (old(config).python.use_uv || args.use_uv),
        final(config).python.allow_pip_install == (old(config).python.allow_pip_install
            || args.allow_pip_install),
        *final(config) == (MergedConfig { python: final(config).python, ..*old(config) }),
{
    let venv = match &args.venv {
        Some(v) => Some(v.clone()),
        None => config.python.venv.clone(),
    };
    let interpreter = match &args.python {
        Some(p) => Some(p.clone()),
        None => config.python.interpreter.clone(),
    };
    let packages = if args.packages.len() > 0 {
        copy_strings(&args.packages)
    } else {
        copy_strings(&config.python.packages)
    };
    let merged = MergedPython {
        venv,
        interpreter,
        packages,
        system_site_packages: config.python.system_site_packages || args.system_site_packages,
        use_uv: config.python.use_uv || args.use_uv,
        allow_pip_install: config.python.allow_pip_install || args.allow_pip_install,
    };
    config.python = merged;
}

} // verus!
