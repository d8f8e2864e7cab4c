//! A builder for sandboxed commands, and the environment a command receives.

use vstd::prelude::*;

use crate::config::SandboxConfigData;
use crate::stdio::StdioConfig;
use crate::text::{join_path, path_join, push_str, string_of, strs};

verus! {

/// An environment as plain values.
pub open spec fn env_view(envs: Seq<(String, String)>) -> Seq<(Seq<char>, Seq<char>)> {
    envs.map_values(|e: (String, String)| (e.0@, e.1@))
}

/// Whether `envs` sets `key`.
pub open spec fn env_has(envs: Seq<(Seq<char>, Seq<char>)>, key: Seq<char>) -> bool {
    exists|i: int| 0 <= i < envs.len() && envs[i].0 == key
}

/// `envs` with `key=val` appended unless `key` is already set.
pub open spec fn env_add_if_absent(
    envs: Seq<(Seq<char>, Seq<char>)>,
    key: Seq<char>,
    val: Seq<char>,
) -> Seq<(Seq<char>, Seq<char>)> {
    if env_has(envs, key) {
        envs
    } else {
        envs.push((key, val))
    }
}

/// `envs` without any entry for `key`.
pub open spec fn env_without(envs: Seq<(Seq<char>, Seq<char>)>, key: Seq<char>) -> Seq<
    (Seq<char>, Seq<char>),
> {
    envs.filter(entry_not_for(key))
}

/// Whether an environment entry is not for `key`.
pub open spec fn entry_not_for(key: Seq<char>) -> spec_fn((Seq<char>, Seq<char>)) -> bool {
    |e: (Seq<char>, Seq<char>)| e.0 != key
}

/// The value a program sees for `key`: the last assignment to it.
pub open spec fn env_effective(envs: Seq<(Seq<char>, Seq<char>)>, key: Seq<char>) -> Option<Seq<char>>
    decreases envs.len(),
{
    if envs.len() == 0 {
        None
    } else if envs.last().0 == key {
        Some(envs.last().1)
    } else {
        env_effective(envs.drop_last(), key)
    }
}

proof fn lemma_env_effective_has(envs: Seq<(Seq<char>, Seq<char>)>, key: Seq<char>)
    ensures
        env_has(envs, key) == (env_effective(envs, key) is Some),
    decreases envs.len(),
{
    if envs.len() > 0 {
        let init = envs.drop_last();
        lemma_env_effective_has(init, key);
        if env_has(init, key) {
            let i = choose|i: int| 0 <= i < init.len() && init[i].0 == key;
            assert(envs[i] == init[i]);
        }
        if env_has(envs, key) && envs.last().0 != key {
            let i = choose|i: int| 0 <= i < envs.len() && envs[i].0 == key;
            assert(i < init.len());
            assert(init[i] == envs[i]);
        }
        if envs.last().0 == key {
            assert(envs[envs.len() - 1].0 == key);
        }
    }
}

proof fn lemma_env_effective_add(
    envs: Seq<(Seq<char>, Seq<char>)>,
    k: Seq<char>,
    v: Seq<char>,
    key: Seq<char>,
)
    ensures
        env_effective(env_add_if_absent(envs, k, v), key) == if key == k && !env_has(envs, k) {
            Some(v)
        } else {
            env_effective(envs, key)
        },
{
    if !env_has(envs, k) {
        assert(envs.push((k, v)).drop_last() =~= envs);
    }
}

proof fn lemma_env_effective_without(envs: Seq<(Seq<char>, Seq<char>)>, k: Seq<char>, key: Seq<char>)
    requires
        key != k,
    ensures
        env_effective(env_without(envs, k), key) == env_effective(envs, key),
    decreases envs.len(),
{
    let pred = entry_not_for(k);
    if envs.len() > 0 {
        let init = envs.drop_last();
        lemma_env_effective_without(init, k, key);
        assert(init.push(envs.last()) =~= envs);
        init.lemma_filter_push(envs.last(), pred);
        if pred(envs.last()) {
            assert(init.filter(pred).push(envs.last()).drop_last() =~= init.filter(pred));
        }
    } else {
        reveal(Seq::filter);
    }
}

/// Variables set on a command win over the defaults: a variable the command
/// sets (other than `PATH`, which IPC replaces) keeps the command's value; the
/// proxy variables default to the proxy's URL and `HEEL_IPC_ENDPOINT` to the
/// IPC endpoint; with IPC, `PATH` starts with `<working dir>/.heel/bin`.
pub proof fn lemma_build_envs_respects_command(
    envs: Seq<(Seq<char>, Seq<char>)>,
    proxy_url: Option<Seq<char>>,
    ipc_endpoint: Option<Seq<char>>,
    working_dir: Seq<char>,
    host_path: Seq<char>,
    key: Seq<char>,
)
    requires
        key != "PATH"@,
    ensures
        env_has(envs, key) ==> env_effective(
            spec_build_envs(envs, proxy_url, ipc_endpoint, working_dir, host_path),
            key,
        ) == env_effective(envs, key),
        !env_has(envs, key) && proxy_url is Some && (key == "HTTP_PROXY"@ || key == "HTTPS_PROXY"@
            || key == "http_proxy"@ || key == "https_proxy"@) ==> env_effective(
            spec_build_envs(envs, proxy_url, ipc_endpoint, working_dir, host_path),
            key,
        ) == proxy_url,
        !env_has(envs, key) && key == "HEEL_IPC_ENDPOINT"@ && ipc_endpoint is Some
            ==> env_effective(
            spec_build_envs(envs, proxy_url, ipc_endpoint, working_dir, host_path),
            key,
        ) == ipc_endpoint,
        ipc_endpoint is Some ==> env_effective(
            spec_build_envs(envs, proxy_url, ipc_endpoint, working_dir, host_path),
            "PATH"@,
        ) == Some(join_path(join_path(working_dir, ".heel"@), "bin"@) + seq![':'] + host_path),
{
    reveal_strlit("PATH");
    reveal_strlit("HTTP_PROXY");
    reveal_strlit("HTTPS_PROXY");
    reveal_strlit("http_proxy");
    reveal_strlit("https_proxy");
    reveal_strlit("HEEL_IPC_ENDPOINT");
    lemma_env_effective_has(envs, key);
    let with_proxy = match proxy_url {
        Some(u) => env_add_if_absent(
            env_add_if_absent(
                env_add_if_absent(env_add_if_absent(envs, "HTTP_PROXY"@, u), "HTTPS_PROXY"@, u),
                "http_proxy"@,
                u,
            ),
            "https_proxy"@,
            u,
        ),
        None => envs,
    };
    match proxy_url {
        Some(u) => {
            let a = env_add_if_absent(envs, "HTTP_PROXY"@, u);
            let b = env_add_if_absent(a, "HTTPS_PROXY"@, u);
            let c = env_add_if_absent(b, "http_proxy"@, u);
            lemma_env_effective_add(envs, "HTTP_PROXY"@, u, key);
            lemma_env_effective_add(a, "HTTPS_PROXY"@, u, key);
            lemma_env_effective_add(b, "http_proxy"@, u, key);
            lemma_env_effective_add(c, "https_proxy"@, u, key);
            lemma_env_effective_has(a, key);
            lemma_env_effective_has(b, key);
            lemma_env_effective_has(c, key);
            assert("HTTP_PROXY"@.len() != "HTTPS_PROXY"@.len());
            assert("HTTP_PROXY"@[0] != "http_proxy"@[0]);
            assert("HTTP_PROXY"@.len() != "https_proxy"@.len());
            assert("HTTPS_PROXY"@.len() != "http_proxy"@.len());
            assert("HTTPS_PROXY"@[0] != "https_proxy"@[0]);
            assert("http_proxy"@.len() != "https_proxy"@.len());
        },
        None => {},
    }
    lemma_env_effective_has(with_proxy, key);
    match ipc_endpoint {
        Some(e) => {
            let added = env_add_if_absent(with_proxy, "HEEL_IPC_ENDPOINT"@, e);
            lemma_env_effective_add(with_proxy, "HEEL_IPC_ENDPOINT"@, e, key);
            lemma_env_effective_without(added, "PATH"@, key);
            let stripped = env_without(added, "PATH"@);
            let path_value = join_path(join_path(working_dir, ".heel"@), "bin"@) + seq![':']
                + host_path;
            assert(stripped.push(("PATH"@, path_value)).drop_last() =~= stripped);
            assert("HEEL_IPC_ENDPOINT"@.len() != "HTTP_PROXY"@.len());
            assert("HEEL_IPC_ENDPOINT"@.len() != "HTTPS_PROXY"@.len());
            assert("HEEL_IPC_ENDPOINT"@.len() != "http_proxy"@.len());
            assert("HEEL_IPC_ENDPOINT"@.len() != "https_proxy"@.len());
        },
        None => {},
    }
}

/// The network proxy a command's traffic goes through.
#[derive(Debug, Clone)]
pub struct ProxyEndpoint {
    pub url: String,
    pub port: u16,
}

/// The environment a sandboxed command receives: the variables set on the
/// command; then, when a proxy runs, `HTTP_PROXY`, `HTTPS_PROXY`, `http_proxy`
/// and `https_proxy` pointing at it unless already set; then, when IPC is
/// configured, `HEEL_IPC_ENDPOINT` unless already set, and `PATH` replaced by
/// `<working dir>/.heel/bin:<host PATH>`.
pub open spec fn spec_build_envs(
    envs: Seq<(Seq<char>, Seq<char>)>,
    proxy_url: Option<Seq<char>>,
    ipc_endpoint: Option<Seq<char>>,
    working_dir: Seq<char>,
    host_path: Seq<char>,
) -> Seq<(Seq<char>, Seq<char>)> {
    let with_proxy = match proxy_url {
        Some(u) => env_add_if_absent(
            env_add_if_absent(
                env_add_if_absent(env_add_if_absent(envs, "HTTP_PROXY"@, u), "HTTPS_PROXY"@, u),
                "http_proxy"@,
                u,
            ),
            "https_proxy"@,
            u,
        ),
        None => envs,
    };
    match ipc_endpoint {
        Some(e) => env_without(env_add_if_absent(with_proxy, "HEEL_IPC_ENDPOINT"@, e), "PATH"@).push(
            (
                "PATH"@,
                join_path(join_path(working_dir, ".heel"@), "bin"@) + seq![':'] + host_path,
            ),
        ),
        None => with_proxy,
    }
}

fn env_contains(envs: &Vec<(String, String)>, key: &str) -> (b: bool)
    ensures
        b == env_has(env_view(envs@), key@),
{
    let k = String::from_str(key);
    let mut i: usize = 0;
    while i < envs.len()
        invariant
            i <= envs.len(),
            k@ == key@,
            forall|j: int| 0 <= j < i ==> env_view(envs@)[j].0 != key@,
        decreases envs.len() - i,
    {
        if envs[i].0 == k {
            assert(env_view(envs@)[i as int].0 == key@);
            return true;
        }
        i = i + 1;
    }
    false
}

fn push_env(envs: &mut Vec<(String, String)>, key: String, val: String)
    ensures
        env_view(final(envs)@) == env_view(old(envs)@).push((key@, val@)),
{
    envs.push((key, val));
    assert(env_view(envs@) == env_view(old(envs)@).push((key@, val@)));
}

fn add_if_absent(envs: &mut Vec<(String, String)>, key: &str, val: &String)
    ensures
        env_view(final(envs)@) == env_add_if_absent(env_view(old(envs)@), key@, val@),
{
    if !env_contains(envs, key) {
        envs.push((String::from_str(key), val.clone()));
        assert(env_view(envs@) == env_view(old(envs)@).push((key@, val@)));
    }
}

fn remove_key(envs: &mut Vec<(String, String)>, key: &str)
    ensures
        env_view(final(envs)@) == env_without(env_view(old(envs)@), key@),
{
    let k = String::from_str(key);
    let mut kept: Vec<(String, String)> = Vec::new();
    let mut i: usize = 0;
    while i < envs.len()
        invariant
            i <= envs.len(),
            k@ == key@,
            envs@ == old(envs)@,
            env_view(kept@) == env_without(env_view(envs@).take(i as int), key@),
        decreases envs.len() - i,
    {
        proof {
            let t = env_view(envs@).take(i + 1);
            assert(t.drop_last() == env_view(envs@).take(i as int));
            reveal(Seq::filter);
        }
        if envs[i].0 != k {
            let e = (envs[i].0.clone(), envs[i].1.clone());
            kept.push(e);
            assert(env_view(kept@) == env_view(kept@.drop_last()).push((e.0@, e.1@)));
        }
        i = i + 1;
    }
    assert(env_view(envs@).take(envs.len() as int) == env_view(envs@));
    *envs = kept;
}

/// A builder for a command run inside the sandbox.
pub struct Command<'a> {
    config: &'a SandboxConfigData,
    proxy: Option<ProxyEndpoint>,
    ipc_endpoint: Option<String>,
    program: String,
    args: Vec<String>,
    envs: Vec<(String, String)>,
    current_dir: Option<String>,
    stdin: StdioConfig,
    stdout: StdioConfig,
    stderr: StdioConfig,
}

/// How a command is run: collecting its output, waiting for its exit
/// status, or spawning it for streaming I/O.
#[derive(Debug, Clone, Copy, PartialEq, Eq, Structural)]
pub enum RunMode {
    Output,
    Status,
    Spawn,
}

/// A command by its plain values.
pub struct CommandView {
    pub working_dir: Seq<char>,
    pub proxy_url: Option<Seq<char>>,
    pub proxy_port: u16,
    pub ipc_endpoint: Option<Seq<char>>,
    pub program: Seq<char>,
    pub args: Seq<Seq<char>>,
    pub envs: Seq<(Seq<char>, Seq<char>)>,
    pub current_dir: Option<Seq<char>>,
    pub stdin: StdioConfig,
    pub stdout: StdioConfig,
    pub stderr: StdioConfig,
}

/// `v` with `arg` appended to its arguments (what `arg` does).
pub open spec fn with_arg(v: CommandView, arg: Seq<char>) -> CommandView {
    CommandView { args: v.args.push(arg), ..v }
}

/// `v` with `args` appended to its arguments (what `args` does).
pub open spec fn with_args(v: CommandView, args: Seq<Seq<char>>) -> CommandView {
    CommandView { args: v.args + args, ..v }
}

/// `v` after `with_arg` for each of `args`, in order.
pub open spec fn arg_chain(v: CommandView, args: Seq<Seq<char>>) -> CommandView
    decreases args.len(),
{
    if args.len() == 0 {
        v
    } else {
        with_arg(arg_chain(v, args.drop_last()), args.last())
    }
}

/// `v` with the variable `key` set to `val` after its other variables (what
/// `env` does).
pub open spec fn with_env(v: CommandView, key: Seq<char>, val: Seq<char>) -> CommandView {
    CommandView { envs: v.envs.push((key, val)), ..v }
}

/// `v` with `envs` set after its other variables (what `envs` does).
pub open spec fn with_envs(v: CommandView, envs: Seq<(Seq<char>, Seq<char>)>) -> CommandView {
    CommandView { envs: v.envs + envs, ..v }
}

/// `v` after `with_env` for each pair of `envs`, in order.
pub open spec fn env_chain(v: CommandView, envs: Seq<(Seq<char>, Seq<char>)>) -> CommandView
    decreases envs.len(),
{
    if envs.len() == 0 {
        v
    } else {
        with_env(env_chain(v, envs.drop_last()), envs.last().0, envs.last().1)
    }
}

/// Adding several arguments at once is adding them one by one, in order;
/// two batches add up to one, and an empty batch changes nothing. Nothing
/// but the arguments changes.
pub proof fn lemma_args_is_arg_chain(v: CommandView, xs: Seq<Seq<char>>, ys: Seq<Seq<char>>)
    ensures
        with_args(v, xs) == arg_chain(v, xs),
        with_args(with_args(v, xs), ys) == with_args(v, xs + ys),
        with_args(v, Seq::empty()) == v,
    decreases xs.len(),
{
    assert(v.args + xs + ys =~= v.args + (xs + ys));
    assert(v.args + Seq::<Seq<char>>::empty() =~= v.args);
    if xs.len() > 0 {
        lemma_args_is_arg_chain(v, xs.drop_last(), ys);
        assert(v.args + xs =~= (v.args + xs.drop_last()).push(xs.last()));
    } else {
        assert(v.args + xs =~= v.args);
    }
}

/// Setting several variables at once is setting them one by one, in order;
/// two batches add up to one, and an empty batch changes nothing. Nothing
/// but the variables changes.
pub proof fn lemma_envs_is_env_chain(
    v: CommandView,
    xs: Seq<(Seq<char>, Seq<char>)>,
    ys: Seq<(Seq<char>, Seq<char>)>,
)
    ensures
        with_envs(v, xs) == env_chain(v, xs),
        with_envs(with_envs(v, xs), ys) == with_envs(v, xs + ys),
        with_envs(v, Seq::empty()) == v,
    decreases xs.len(),
{
    assert(v.envs + xs + ys =~= v.envs + (xs + ys));
    assert(v.envs + Seq::<(Seq<char>, Seq<char>)>::empty() =~= v.envs);
    if xs.len() > 0 {
        lemma_envs_is_env_chain(v, xs.drop_last(), ys);
        assert(v.envs + xs =~= (v.envs + xs.drop_last()).push(xs.last()));
    } else {
        assert(v.envs + xs =~= v.envs);
    }
}

pub open spec fn opt_view(o: Option<String>) -> Option<Seq<char>> {
    match o {
        Some(s) => Some(s@),
        None => None,
    }
}

impl<'a> Command<'a> {
    /// The sandbox configuration the command runs under.
    pub closed spec fn spec_config(&self) -> SandboxConfigData {
        *self.config
    }

    pub closed spec fn view(&self) -> CommandView {
        CommandView {
            working_dir: self.config.working_dir@,
            proxy_url: match self.proxy {
                Some(p) => Some(p.url@),
                None => None,
            },
            proxy_port: match self.proxy {
                Some(p) => p.port,
                None => 0,
            },
            ipc_endpoint: opt_view(self.ipc_endpoint),
            program: self.program@,
            args: strs(self.args@),
            envs: env_view(self.envs@),
            current_dir: opt_view(self.current_dir),
            stdin: self.stdin,
            stdout: self.stdout,
            stderr: self.stderr,
        }
    }

    /// A command that runs `program` with the sandbox's configuration, its
    /// proxy (if the network is not denied) and its IPC endpoint (if any); no
    /// arguments, no extra environment, and inherited standard I/O.
    pub fn new(
        config: &'a SandboxConfigData,
        proxy: Option<ProxyEndpoint>,
        ipc_endpoint: Option<String>,
        program: &str,
    ) -> (c: Command<'a>)
        ensures
            c.view().working_dir == config.working_dir@,
            c.view().proxy_url == (match proxy {
                Some(p) => Some(p.url@),
                None => None,
            }),
            c.view().proxy_port == (match proxy {
                Some(p) => p.port,
                None => 0,
            }),
            c.view().ipc_endpoint == opt_view(ipc_endpoint),
            c.view().program == program@,
            c.view().args.len() == 0,
            c.view().envs.len() == 0,
            c.view().current_dir is None,
            c.view().stdin == StdioConfig::Inherit,
            c.view().stdout == StdioConfig::Inherit,
            c.view().stderr == StdioConfig::Inherit,
            c.spec_config() == *config,
    {
        Command {
            config,
            proxy,
            ipc_endpoint,
            program: String::from_str(program),
            args: Vec::new(),
            envs: Vec::new(),
            current_dir: None,
            stdin: StdioConfig::Inherit,
            stdout: StdioConfig::Inherit,
            stderr: StdioConfig::Inherit,
        }
    }

    /// Adds one argument.
    pub fn arg(self, arg: &str) -> (c: Command<'a>)
        ensures
            c.spec_config() == self.spec_config(),
            c.view() == with_arg(self.view(), arg@),
    {
        let mut c = self;
        let ghost before = c.args@;
        c.args.push(String::from_str(arg));
        assert(strs(c.args@) == strs(before).push(arg@));
        c
    }

    /// Adds several arguments, in order.
    pub fn args(self, args: &Vec<String>) -> (c: Command<'a>)
        ensures
            c.spec_config() == self.spec_config(),
            c.view() == with_args(self.view(), strs(args@)),
    {
        let mut all = self.args;
        let ghost before = all@;
        let mut i: usize = 0;
        while i < args.len()
            invariant
                i <= args.len(),
                strs(all@) == strs(before) + strs(args@.take(i as int)),
            decreases args.len() - i,
        {
            let ghost prev = all@;
            let a = args[i].clone();
            all.push(a);
            assert(strs(all@) == strs(prev).push(a@));
            assert(strs(args@.take(i + 1)) == strs(args@.take(i as int)).push(
                args@[i as int]@,
            ));
            i = i + 1;
        }
        assert(args@.take(args.len() as int) == args@);
        Command { args: all, ..self }
    }

    /// Sets one environment variable.
    pub fn env(self, key: &str, val: &str) -> (c: Command<'a>)
        ensures
            c.spec_config() == self.spec_config(),
            c.view() == with_env(self.view(), key@, val@),
    {
        let mut c = self;
        let ghost before = c.envs@;
        c.envs.push((String::from_str(key), String::from_str(val)));
        assert(env_view(c.envs@) == env_view(before).push((key@, val@)));
        c
    }

    /// Sets several environment variables, in order.
    pub fn envs(self, envs: &Vec<(String, String)>) -> (c: Command<'a>)
        ensures
            c.spec_config() == self.spec_config(),
            c.view() == with_envs(self.view(), env_view(envs@)),
    {
        let mut all = self.envs;
        let ghost before = all@;
        let mut i: usize = 0;
        while i < envs.len()
            invariant
                i <= envs.len(),
                env_view(all@) == env_view(before) + env_view(envs@.take(i as int)),
            decreases envs.len() - i,
        {
            push_env(&mut all, envs[i].0.clone(), envs[i].1.clone());
            assert(env_view(envs@.take(i + 1)) == env_view(envs@.take(i as int)).push(
                (envs@[i as int].0@, envs@[i as int].1@),
            ));
            i = i + 1;
        }
        assert(envs@.take(envs.len() as int) == envs@);
        Command { envs: all, ..self }
    }

    /// Sets the working directory of the command.
    pub fn current_dir(self, dir: &str) -> (c: Command<'a>)
        ensures
            c.spec_config() == self.spec_config(),
            c.view() == (CommandView { current_dir: Some(dir@), ..self.view() }),
    {
        let mut c = self;
        c.current_dir = Some(String::from_str(dir));
        c
    }

    /// Configures standard input.
    pub fn stdin(self, cfg: StdioConfig) -> (c: Command<'a>)
        ensures
            c.spec_config() == self.spec_config(),
            c.view() == (CommandView { stdin: cfg, ..self.view() }),
    {
        let mut c = self;
        c.stdin = cfg;
        c
    }

    /// Configures standard output.
    pub fn stdout(self, cfg: StdioConfig) -> (c: Command<'a>)
        ensures
            c.spec_config() == self.spec_config(),
            c.view() == (CommandView { stdout: cfg, ..self.view() }),
    {
        let mut c = self;
        c.stdout = cfg;
        c
    }

    /// Configures standard error.
    pub fn stderr(self, cfg: StdioConfig) -> (c: Command<'a>)
        ensures
            c.spec_config() == self.spec_config(),
            c.view() == (CommandView { stderr: cfg, ..self.view() }),
    {
        let mut c = self;
        c.stderr = cfg;
        c
    }

    /// The final environment of the command (see `spec_build_envs`); `host_path`
    /// is the host's `PATH`, or empty where it is unset.
    pub fn build_envs(&self, host_path: &str) -> (out: Vec<(String, String)>)
        ensures
            env_view(out@) == spec_build_envs(
                self.view().envs,
                self.view().proxy_url,
                self.view().ipc_endpoint,
                self.view().working_dir,
                host_path@,
            ),
    {
        let mut envs: Vec<(String, String)> = Vec::new();
        let mut i: usize = 0;
        while i < self.envs.len()
            invariant
                i <= self.envs.len(),
                env_view(envs@) == env_view(self.envs@.take(i as int)),
            decreases self.envs.len() - i,
        {
            push_env(&mut envs, self.envs[i].0.clone(), self.envs[i].1.clone());
            assert(env_view(self.envs@.take(i + 1)) == env_view(self.envs@.take(i as int)).push(
                (self.envs@[i as int].0@, self.envs@[i as int].1@),
            ));
            i = i + 1;
        }
        assert(self.envs@.take(self.envs.len() as int) == self.envs@);
        match &self.proxy {
            Some(p) => {
                add_if_absent(&mut envs, "HTTP_PROXY", &p.url);
                add_if_absent(&mut envs, "HTTPS_PROXY", &p.url);
                add_if_absent(&mut envs, "http_proxy", &p.url);
                add_if_absent(&mut envs, "https_proxy", &p.url);
            },
            None => {},
        }
        let ghost with_proxy = env_view(envs@);
        assert(with_proxy == match self.view().proxy_url {
            Some(u) => env_add_if_absent(
                env_add_if_absent(
                    env_add_if_absent(env_add_if_absent(self.view().envs, "HTTP_PROXY"@, u), "HTTPS_PROXY"@, u),
                    "http_proxy"@,
                    u,
                ),
                "https_proxy"@,
                u,
            ),
            None => self.view().envs,
        });
        match &self.ipc_endpoint {
            Some(endpoint) => {
                add_if_absent(&mut envs, "HEEL_IPC_ENDPOINT", endpoint);
                let heel_dir = path_join(self.config.working_dir.as_str(), ".heel");
                let heel_bin = path_join(heel_dir.as_str(), "bin");
                let mut path_value: Vec<char> = Vec::new();
                push_str(&mut path_value, heel_bin.as_str());
                path_value.push(':');
                push_str(&mut path_value, host_path);
                remove_key(&mut envs, "PATH");
                let ghost removed = env_view(envs@);
                assert(removed == env_without(env_add_if_absent(with_proxy, "HEEL_IPC_ENDPOINT"@, endpoint@), "PATH"@));
                assert(heel_bin@ == join_path(join_path(self.view().working_dir, ".heel"@), "bin"@));
                let pv = string_of(&path_value);
                assert(pv@ == heel_bin@ + seq![':'] + host_path@);
                push_env(&mut envs, String::from_str("PATH"), pv);
                assert(self.view().ipc_endpoint == Some(endpoint@));
            },
            None => {},
        }
        envs
    }

    /// The program to run.
    pub fn program(&self) -> (p: &str)
        ensures
            p@ == self.view().program,
    {
        self.program.as_str()
    }

    /// The arguments, in order.
    pub fn arguments(&self) -> (a: &Vec<String>)
        ensures
            strs(a@) == self.view().args,
    {
        &self.args
    }

    /// The working directory the command runs in: the one set on the command,
    /// or else the sandbox's.
    pub fn effective_dir(&self) -> (d: &str)
        ensures
            d@ == match self.view().current_dir {
                Some(c) => c,
                None => self.view().working_dir,
            },
    {
        match &self.current_dir {
            Some(d) => d.as_str(),
            None => self.config.working_dir.as_str(),
        }
    }

    /// The port of the proxy, or 0 where none runs.
    pub fn proxy_port(&self) -> (p: u16)
        ensures
            p == self.view().proxy_port,
    {
        match &self.proxy {
            Some(p) => p.port,
            None => 0,
        }
    }

    /// The standard input, output and error a run in `mode` uses: collecting
    /// the output runs with no input and both outputs piped, whatever was
    /// configured; waiting for the status and spawning use the configured ones.
    pub fn run_stdio(&self, mode: RunMode) -> (s: (StdioConfig, StdioConfig, StdioConfig))
        ensures
            s == (match mode {
                RunMode::Output => (StdioConfig::Null, StdioConfig::Piped, StdioConfig::Piped),
                _ => (self.view().stdin, self.view().stdout, self.view().stderr),
            }),
    {
        match mode {
            RunMode::Output => (StdioConfig::Null, StdioConfig::Piped, StdioConfig::Piped),
            _ => (self.stdin, self.stdout, self.stderr),
        }
    }

    /// The configured standard input, output and error.
    pub fn stdio(&self) -> (s: (StdioConfig, StdioConfig, StdioConfig))
        ensures
            s == (self.view().stdin, self.view().stdout, self.view().stderr),
    {
        (self.stdin, self.stdout, self.stderr)
    }

    /// The sandbox configuration the command runs under.
    pub fn config(&self) -> (c: &'a SandboxConfigData)
        ensures
            *c == self.spec_config(),
            c.working_dir@ == self.view().working_dir,
    {
        self.config
    }
}

} // verus!
