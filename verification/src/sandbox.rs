//! The lifecycle of a sandbox: what it starts when it is created, what the
//! commands run in it see of it, and what it tears down when it goes away.
//!
//! The network proxy, the IPC server and the filesystem work are the host's;
//! this module decides what they are asked to do.

use vstd::prelude::*;

use crate::command::{Command, ProxyEndpoint};
use crate::config::SandboxConfigData;
use crate::error::{Error, Result};
use crate::process_tracker::ProcessTracker;
use crate::stdio::StdioConfig;
use crate::python::spec_python_executable;
use crate::text::{chars_of, join_path, path_join, strs};
use crate::windows::token::chars_same;

verus! {

/// What creating a sandbox starts, and where its IPC helpers live.
#[derive(Debug, Clone)]
pub struct SandboxSetup {
    /// Whether a network proxy is started (any policy but deny-all).
    pub start_proxy: bool,
    /// Whether an IPC server is started and wrapper scripts are written.
    pub start_ipc: bool,
    /// `<working dir>/.heel`.
    pub heel_dir: String,
    /// `<working dir>/.heel/bin`, where the launcher and the wrappers go.
    pub bin_dir: String,
}

/// What creating a sandbox with `config` starts.
pub fn setup_plan(config: &SandboxConfigData) -> (p: SandboxSetup)
    ensures
        p.start_proxy == !config.network_deny_all,
        p.start_ipc == config.ipc_configured,
        p.heel_dir@ == join_path(config.working_dir@, ".heel"@),
        p.bin_dir@ == join_path(join_path(config.working_dir@, ".heel"@), "bin"@),
{
    let heel_dir = path_join(config.working_dir.as_str(), ".heel");
    let bin_dir = path_join(heel_dir.as_str(), "bin");
    SandboxSetup {
        start_proxy: !config.network_deny_all,
        start_ipc: config.ipc_configured,
        heel_dir,
        bin_dir,
    }
}

/// `paths` with `binary` added at the end unless it is already there.
pub open spec fn with_executable(paths: Seq<Seq<char>>, binary: Seq<char>) -> Seq<Seq<char>> {
    if paths.contains(binary) {
        paths
    } else {
        paths.push(binary)
    }
}

/// Adds `binary` to the executable roots unless it is already one of them.
pub fn ensure_executable_path(paths: &mut Vec<String>, binary: &str)
    ensures
        strs(final(paths)@) == with_executable(strs(old(paths)@), binary@),
{
    let mut i: usize = 0;
    while i < paths.len()
        invariant
            i <= paths.len(),
            forall|j: int| 0 <= j < i ==> paths@[j]@ != binary@,
        decreases paths.len() - i,
    {
        if string_eq(&paths[i], binary) {
            assert(strs(paths@)[i as int] == binary@);
            return;
        }
        i = i + 1;
    }
    proof {
        if strs(paths@).contains(binary@) {
            let j = choose|j: int| 0 <= j < strs(paths@).len() && strs(paths@)[j]
                == binary@;
            assert(paths@[j]@ == binary@);
        }
    }
    let ghost before = paths@;
    paths.push(String::from_str(binary));
    assert(strs(paths@) =~= strs(before).push(binary@));
}

fn string_eq(a: &String, b: &str) -> (r: bool)
    ensures
        r == (a@ == b@),
{
    chars_same(&chars_of(a.as_str()), &chars_of(b))
}

/// The IPC server a sandbox runs: its endpoint and port, and the `heel`
/// binary its wrapper scripts call.
#[derive(Debug, Clone)]
pub struct IpcSetup {
    pub endpoint: String,
    pub port: u16,
    pub heel_binary: String,
}

/// What dropping a sandbox does.
#[derive(Debug, Clone)]
pub struct Teardown {
    /// Stop the IPC server (it is stopped before the working directory goes).
    pub stop_ipc: bool,
    /// Stop the network proxy.
    pub stop_proxy: bool,
    /// The child processes to kill.
    pub kill: Vec<u32>,
    /// Whether the working directory is removed.
    pub remove_working_dir: bool,
}

/// A sandbox, by what its decisions read.
pub struct Sandbox {
    config_data: SandboxConfigData,
    proxy: Option<ProxyEndpoint>,
    ipc_endpoint: Option<String>,
    process_tracker: ProcessTracker,
    keep_working_dir: bool,
}

/// A sandbox by its plain values.
pub struct SandboxView {
    pub working_dir: Seq<char>,
    pub working_dir_auto_created: bool,
    pub keep_working_dir: bool,
    pub proxy_url: Option<Seq<char>>,
    /// The proxy's port, or 0 where no proxy runs.
    pub proxy_port: u16,
    pub ipc_endpoint: Option<Seq<char>>,
    pub children: Seq<u32>,
}

/// Whether dropping a sandbox in state `v` removes its working directory:
/// only an auto-created one, and only when it was not kept.
pub open spec fn removes_working_dir(v: SandboxView) -> bool {
    v.working_dir_auto_created && !v.keep_working_dir
}

impl Sandbox {
    pub closed spec fn view(&self) -> SandboxView {
        SandboxView {
            working_dir: self.config_data.working_dir@,
            working_dir_auto_created: self.config_data.working_dir_auto_created,
            keep_working_dir: self.keep_working_dir,
            proxy_url: match self.proxy {
                Some(p) => Some(p.url@),
                None => None,
            },
            proxy_port: match self.proxy {
                Some(p) => p.port,
                None => 0,
            },
            ipc_endpoint: match self.ipc_endpoint {
                Some(e) => Some(e@),
                None => None,
            },
            children: self.process_tracker.view(),
        }
    }

    /// The configuration the sandbox runs with.
    pub closed spec fn spec_config(&self) -> SandboxConfigData {
        self.config_data
    }

    /// A sandbox once its services run: the proxy, which runs exactly when the
    /// network is not denied (see `setup_plan`), and the IPC server, if any. With IPC, the server's port is recorded in the
    /// configuration and the `heel` binary becomes an executable root.
    pub fn assemble(config: SandboxConfigData, proxy: Option<ProxyEndpoint>, ipc: Option<IpcSetup>) -> (s:
        Sandbox)
        requires
            proxy is Some <==> !config.network_deny_all,
        ensures
            s.view().proxy_url is None <==> config.network_deny_all,
            s.view().working_dir == config.working_dir@,
            s.view().working_dir_auto_created == config.working_dir_auto_created,
            !s.view().keep_working_dir,
            s.view().proxy_url == (match proxy {
                Some(p) => Some(p.url@),
                None => None,
            }),
            s.view().proxy_port == (match proxy {
                Some(p) => p.port,
                None => 0,
            }),
            s.view().ipc_endpoint == (match ipc {
                Some(i) => Some(i.endpoint@),
                None => None,
            }),
            s.view().children == Seq::<u32>::empty(),
            match ipc {
                Some(i) => s.spec_config() == (SandboxConfigData {
                    ipc_port: Some(i.port),
                    executable_paths: s.spec_config().executable_paths,
                    ..config
                }) && strs(s.spec_config().executable_paths@) == with_executable(
                    strs(config.executable_paths@),
                    i.heel_binary@,
                ),
                None => s.spec_config() == config,
            },
    {
        let mut config_data = config;
        let ipc_endpoint = match ipc {
            Some(i) => {
                ensure_executable_path(&mut config_data.executable_paths, i.heel_binary.as_str());
                config_data.set_ipc_port(Some(i.port));
                Some(i.endpoint)
            },
            None => None,
        };
        Sandbox {
            config_data,
            proxy,
            ipc_endpoint,
            process_tracker: ProcessTracker::new(),
            keep_working_dir: false,
        }
    }

    /// Keeps the working directory after the sandbox goes away.
    pub fn keep_working_dir(&mut self)
        ensures
            final(self).view() == (SandboxView { keep_working_dir: true, ..old(self).view() }),
            final(self).spec_config() == old(self).spec_config(),
    {
        self.keep_working_dir = true;
    }

    /// The proxy URL for `HTTP_PROXY`/`HTTPS_PROXY`; empty without a proxy.
    pub fn proxy_url(&self) -> (u: String)
        ensures
            u@ == (match self.view().proxy_url {
                Some(p) => p,
                None => Seq::empty(),
            }),
    {
        match &self.proxy {
            Some(p) => p.url.clone(),
            None => String::new(),
        }
    }

    /// The configuration.
    pub fn config(&self) -> (c: &SandboxConfigData)
        ensures
            *c == self.spec_config(),
    {
        &self.config_data
    }

    /// The working directory.
    pub fn working_dir(&self) -> (d: &str)
        ensures
            d@ == self.view().working_dir,
    {
        self.config_data.working_dir.as_str()
    }

    /// A command that runs `program` in the sandbox, with its proxy and IPC endpoint.
    pub fn command(&self, program: &str) -> (c: Command<'_>)
        ensures
            c.view().working_dir == self.view().working_dir,
            c.view().proxy_url == self.view().proxy_url,
            c.view().proxy_port == self.view().proxy_port,
            c.view().ipc_endpoint == self.view().ipc_endpoint,
            c.view().program == program@,
            c.view().args.len() == 0,
            c.view().envs.len() == 0,
            c.view().current_dir is None,
            c.view().stdin == StdioConfig::Inherit,
            c.view().stdout == StdioConfig::Inherit,
            c.view().stderr == StdioConfig::Inherit,
            c.spec_config() == self.spec_config(),
    {
        let proxy = match &self.proxy {
            Some(p) => Some(ProxyEndpoint { url: p.url.clone(), port: p.port }),
            None => None,
        };
        let ipc = match &self.ipc_endpoint {
            Some(e) => Some(e.clone()),
            None => None,
        };
        Command::new(&self.config_data, proxy, ipc, program)
    }

    /// The interpreter `run_python` uses: the configured virtual
    /// environment's, else the system interpreter found on the host.
    pub fn python_program(&self, windows: bool, system_python: Option<&str>) -> (r: Result<String>)
        ensures
            match self.spec_config().python {
                Some(p) => r matches Ok(s) && s@ == spec_python_executable(p.venv.path@, windows),
                None => match system_python {
                    Some(sp) => r matches Ok(s) && s@ == sp@,
                    None => r matches Err(e) && e == Error::PythonNotFound,
                },
            },
    {
        match &self.config_data.python {
            Some(p) => Ok(crate::python::python_executable(p.venv.path.as_str(), windows)),
            None => match system_python {
                Some(sp) => Ok(String::from_str(sp)),
                None => Err(Error::PythonNotFound),
            },
        }
    }

    /// Tracks a child process spawned in the sandbox.
    pub fn register_child(&mut self, pid: u32)
        ensures
            final(self).view() == (SandboxView {
                children: old(self).view().children.push(pid),
                ..old(self).view()
            }),
            final(self).spec_config() == old(self).spec_config(),
    {
        self.process_tracker.register(pid);
    }

    /// Stops tracking a child process that exited.
    pub fn unregister_child(&mut self, pid: u32)
        ensures
            final(self).view() == (SandboxView {
                children: crate::process_tracker::without_pid(old(self).view().children, pid),
                ..old(self).view()
            }),
            final(self).spec_config() == old(self).spec_config(),
    {
        self.process_tracker.unregister(pid);
    }

    /// What dropping the sandbox does: stop the IPC server and the proxy if
    /// they run, kill every tracked child, and remove the working directory
    /// when it was auto-created and not kept. The children are no longer
    /// tracked afterwards.
    pub fn teardown(&mut self) -> (t: Teardown)
        ensures
            t.stop_ipc == (old(self).view().ipc_endpoint is Some),
            t.stop_proxy == (old(self).view().proxy_url is Some),
            t.kill@ == old(self).view().children,
            t.remove_working_dir == removes_working_dir(old(self).view()),
            final(self).view() == (SandboxView {
                children: Seq::<u32>::empty(),
                ..old(self).view()
            }),
    {
        let kill = self.process_tracker.take_all();
        Teardown {
            stop_ipc: self.ipc_endpoint.is_some(),
            stop_proxy: self.proxy.is_some(),
            kill,
            remove_working_dir: self.config_data.working_dir_auto_created && !self.keep_working_dir,
        }
    }
}

/// A working directory the caller gave is never removed, and neither is one
/// that was kept.
pub proof fn lemma_only_unkept_auto_dirs_are_removed(v: SandboxView)
    ensures
        !v.working_dir_auto_created ==> !removes_working_dir(v),
        v.keep_working_dir ==> !removes_working_dir(v),
        removes_working_dir(SandboxView { keep_working_dir: true, ..v }) == false,
{
}

/// Adding an executable root twice is the same as adding it once.
pub proof fn lemma_with_executable_idempotent(paths: Seq<Seq<char>>, binary: Seq<char>)
    ensures
        with_executable(with_executable(paths, binary), binary) == with_executable(paths, binary),
        with_executable(paths, binary).contains(binary),
{
    if !paths.contains(binary) {
        assert(paths.push(binary)[paths.len() as int] == binary);
    }
}

} // verus!
