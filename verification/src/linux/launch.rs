//! What the Linux backend prepares before it starts a sandboxed process: the
//! Landlock rule set and the Seccomp filter the child applies before `exec`,
//! and the program, arguments, directory, environment and standard streams.

use vstd::prelude::*;

use crate::command::env_view;
use crate::config::SandboxConfigData;
use crate::env::{child_environment, passthrough_assignments};
use crate::linux::kernel::LinuxBackend;
use crate::linux::landlock::{
    build_ruleset_plan, rules_view, spec_net_ports, spec_path_rules, LandlockConfig,
    LandlockConfigView, LandlockPlan,
};
use crate::linux::seccomp::{build_filter_rules, filter_view, spec_filter, SyscallRules};
use crate::stdio::StdioConfig;
use crate::text::strs;

verus! {

/// What a command asks of the backend.
pub struct CommandLaunch<'a> {
    pub program: &'a str,
    pub args: &'a Vec<String>,
    pub envs: &'a Vec<(String, String)>,
    pub current_dir: Option<&'a str>,
    pub stdin: StdioConfig,
    pub stdout: StdioConfig,
    pub stderr: StdioConfig,
}

/// Everything a sandboxed process is started with. The environment is
/// cleared first; `env` is all the child gets.
#[derive(Debug)]
pub struct LinuxLaunch {
    pub landlock: LandlockPlan,
    pub seccomp: Vec<SyscallRules>,
    pub program: String,
    pub args: Vec<String>,
    pub current_dir: String,
    pub env: Vec<(String, String)>,
    pub stdin: StdioConfig,
    pub stdout: StdioConfig,
    pub stderr: StdioConfig,
}

/// The Landlock view of a sandbox configuration.
pub open spec fn landlock_view_of(config: SandboxConfigData) -> LandlockConfigView {
    LandlockConfigView {
        security: config.security,
        writable_paths: strs(config.writable_paths@),
        readable_paths: strs(config.readable_paths@),
        executable_paths: strs(config.executable_paths@),
        network_deny_all: config.network_deny_all,
        ipc_port: config.ipc_port,
        python_venv_path: match config.python {
            Some(p) => Some(p.venv.path@),
            None => None,
        },
        working_dir: config.working_dir@,
        filesystem_strict: config.filesystem_strict,
        writable_file_system: config.writable_file_system,
    }
}

impl LinuxBackend {
    /// Prepares a sandboxed process: the rule set and filter for `config`
    /// (IPC counts as enabled when the configuration has an IPC port), the
    /// command's program and arguments, its directory (the command's, else
    /// the working directory), and an environment of the passed-through host
    /// variables followed by the command's variables.
    pub fn build_command(
        &self,
        config: &SandboxConfigData,
        proxy_port: u16,
        launch: &CommandLaunch,
        host_env: &Vec<(String, String)>,
        home: Option<&str>,
    ) -> (l: LinuxLaunch)
        ensures
            l.landlock.handle_net == (!config.network_deny_all || config.ipc_port is Some),
            rules_view(l.landlock.path_rules@) == spec_path_rules(
                landlock_view_of(*config),
                match home {
                    Some(h) => Some(h@),
                    None => None,
                },
            ),
            l.landlock.net_ports@ == spec_net_ports(landlock_view_of(*config), proxy_port),
            filter_view(l.seccomp@) == spec_filter(
                config.security,
                config.network_deny_all,
                config.ipc_port is Some,
            ),
            l.program@ == launch.program@,
            strs(l.args@) == strs(launch.args@),
            l.current_dir@ == (match launch.current_dir {
                Some(d) => d@,
                None => config.working_dir@,
            }),
            env_view(l.env@) == passthrough_assignments(
                strs(config.env_passthrough@),
                env_view(host_env@),
            ) + env_view(launch.envs@),
            l.stdin == launch.stdin,
            l.stdout == launch.stdout,
            l.stderr == launch.stderr,
    {
        let landlock_config = LandlockConfig::from_config(config);
        let landlock = build_ruleset_plan(&landlock_config, proxy_port, home);
        let seccomp = build_filter_rules(&config.security, config.network_deny_all, config.ipc_port.is_some());
        let mut args: Vec<String> = Vec::new();
        let mut i: usize = 0;
        while i < launch.args.len()
            invariant
                i <= launch.args.len(),
                strs(args@) == strs(launch.args@).take(i as int),
            decreases launch.args.len() - i,
        {
            let ghost before = args@;
            args.push(launch.args[i].clone());
            assert(strs(args@) =~= strs(before).push(launch.args@[i as int]@));
            assert(strs(launch.args@).take(i + 1) =~= strs(launch.args@).take(i as int).push(
                launch.args@[i as int]@,
            ));
            i = i + 1;
        }
        assert(strs(launch.args@).take(launch.args.len() as int) =~= strs(launch.args@));
        let current_dir = match launch.current_dir {
            Some(d) => String::from_str(d),
            None => config.working_dir.clone(),
        };
        let env = child_environment(&config.env_passthrough, host_env, launch.envs);
        LinuxLaunch {
            landlock,
            seccomp,
            program: String::from_str(launch.program),
            args,
            current_dir,
            env,
            stdin: launch.stdin,
            stdout: launch.stdout,
            stderr: launch.stderr,
        }
    }
}

} // verus!
