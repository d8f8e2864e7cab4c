//! The Landlock rule set a sandboxed process gets: which paths it may reach,
//! with which rights, and which TCP ports it may connect to.

use vstd::prelude::*;

use crate::config::{SandboxConfigData, SecurityConfig};
use crate::text::{opt_string_view, strs};

verus! {

/// Minimal configuration snapshot for building Landlock rule sets.
#[derive(Debug, Clone)]
pub struct LandlockConfig {
    security: SecurityConfig,
    writable_paths: Vec<String>,
    readable_paths: Vec<String>,
    executable_paths: Vec<String>,
    network_deny_all: bool,
    ipc_port: Option<u16>,
    python_venv_path: Option<String>,
    working_dir: String,
    filesystem_strict: bool,
    writable_file_system: bool,
}

/// A Landlock configuration by its plain values.
pub struct LandlockConfigView {
    pub security: SecurityConfig,
    pub writable_paths: Seq<Seq<char>>,
    pub readable_paths: Seq<Seq<char>>,
    pub executable_paths: Seq<Seq<char>>,
    pub network_deny_all: bool,
    pub ipc_port: Option<u16>,
    pub python_venv_path: Option<Seq<char>>,
    pub working_dir: Seq<char>,
    pub filesystem_strict: bool,
    pub writable_file_system: bool,
}

fn clone_strings(v: &Vec<String>) -> (out: Vec<String>)
    ensures
        strs(out@) == strs(v@),
{
    let mut out: Vec<String> = Vec::new();
    let mut i: usize = 0;
    while i < v.len()
        invariant
            i <= v.len(),
            strs(out@) == strs(v@.take(i as int)),
        decreases v.len() - i,
    {
        let s = v[i].clone();
        out.push(s);
        assert(strs(v@.take(i + 1)) == strs(v@.take(i as int)).push(v@[i as int]@));
        assert(strs(out@) == strs(out@.drop_last()).push(s@));
        i = i + 1;
    }
    assert(v@.take(v.len() as int) == v@);
    out
}

impl LandlockConfig {
    pub closed spec fn view(&self) -> LandlockConfigView {
        LandlockConfigView {
            security: self.security,
            writable_paths: strs(self.writable_paths@),
            readable_paths: strs(self.readable_paths@),
            executable_paths: strs(self.executable_paths@),
            network_deny_all: self.network_deny_all,
            ipc_port: self.ipc_port,
            python_venv_path: opt_string_view(self.python_venv_path),
            working_dir: self.working_dir@,
            filesystem_strict: self.filesystem_strict,
            writable_file_system: self.writable_file_system,
        }
    }

    /// The snapshot of `config` that the rule set is built from.
    pub fn from_config(config: &SandboxConfigData) -> (c: LandlockConfig)
        ensures
            c.view() == (LandlockConfigView {
                security: config.security,
                writable_paths: strs(config.writable_paths@),
                readable_paths: strs(config.readable_paths@),
                executable_paths: strs(config.executable_paths@),
                network_deny_all: config.network_deny_all,
                ipc_port: config.ipc_port,
                python_venv_path: match config.python {
                    Some(p) => Some(p.venv.path@),
                    None => None,
                },
                working_dir: config.working_dir@,
                filesystem_strict: config.filesystem_strict,
                writable_file_system: config.writable_file_system,
            }),
    {
        let venv = match &config.python {
            Some(p) => Some(p.venv.path.clone()),
            None => None,
        };
        LandlockConfig {
            security: config.security,
            writable_paths: clone_strings(&config.writable_paths),
            readable_paths: clone_strings(&config.readable_paths),
            executable_paths: clone_strings(&config.executable_paths),
            network_deny_all: config.network_deny_all,
            ipc_port: config.ipc_port,
            python_venv_path: venv,
            working_dir: config.working_dir.clone(),
            filesystem_strict: config.filesystem_strict,
            writable_file_system: config.writable_file_system,
        }
    }

    pub fn security(&self) -> (s: &SecurityConfig)
        ensures
            *s == self.view().security,
    {
        &self.security
    }

    pub fn writable_paths(&self) -> (p: &Vec<String>)
        ensures
            strs(p@) == self.view().writable_paths,
    {
        &self.writable_paths
    }

    pub fn readable_paths(&self) -> (p: &Vec<String>)
        ensures
            strs(p@) == self.view().readable_paths,
    {
        &self.readable_paths
    }

    pub fn executable_paths(&self) -> (p: &Vec<String>)
        ensures
            strs(p@) == self.view().executable_paths,
    {
        &self.executable_paths
    }

    pub fn network_deny_all(&self) -> (b: bool)
        ensures
            b == self.view().network_deny_all,
    {
        self.network_deny_all
    }

    pub fn ipc_port(&self) -> (p: Option<u16>)
        ensures
            p == self.view().ipc_port,
    {
        self.ipc_port
    }

    pub fn python_venv_path(&self) -> (p: Option<&str>)
        ensures
            match p {
                Some(s) => self.view().python_venv_path == Some(s@),
                None => self.view().python_venv_path is None,
            },
    {
        match &self.python_venv_path {
            Some(s) => Some(s.as_str()),
            None => None,
        }
    }

    pub fn working_dir(&self) -> (p: &str)
        ensures
            p@ == self.view().working_dir,
    {
        self.working_dir.as_str()
    }

    pub fn filesystem_strict(&self) -> (b: bool)
        ensures
            b == self.view().filesystem_strict,
    {
        self.filesystem_strict
    }

    pub fn writable_file_system(&self) -> (b: bool)
        ensures
            b == self.view().writable_file_system,
    {
        self.writable_file_system
    }
}

} // verus!

verus! {

/// The filesystem rights a path rule grants.
#[derive(Debug, Clone, Copy, PartialEq, Eq, Structural)]
pub enum FsAccess {
    /// `ReadFile | ReadDir | Execute`: system binaries and libraries.
    ReadDirExecute,
    /// Every read right of ABI v4.
    Read,
    /// Every filesystem right of ABI v4.
    All,
    /// `ReadFile | Execute`: user-configured executable roots.
    ReadFileExecute,
}

/// One path rule: `path` and everything beneath it get `access`.
#[derive(Debug, Clone)]
pub struct PathRule {
    pub path: String,
    pub access: FsAccess,
}

/// The complete Landlock rule set: whether TCP connects are handled (denied
/// unless allowed), the path rules in the order they are added, and the TCP
/// ports that may be connected to. Paths that do not exist are skipped when the
/// rules are applied.
#[derive(Debug, Clone)]
pub struct LandlockPlan {
    pub handle_net: bool,
    pub path_rules: Vec<PathRule>,
    pub net_ports: Vec<u16>,
}

pub open spec fn rule_view(r: PathRule) -> (Seq<char>, FsAccess) {
    (r.path@, r.access)
}

pub open spec fn rules_view(rs: Seq<PathRule>) -> Seq<(Seq<char>, FsAccess)> {
    rs.map_values(|r: PathRule| rule_view(r))
}

/// Literal paths with one access.
pub open spec fn literal_rules(paths: Seq<&str>, access: FsAccess) -> Seq<(Seq<char>, FsAccess)> {
    paths.map_values(|p: &str| (p@, access))
}

/// Configured paths with one access.
pub open spec fn path_rules(paths: Seq<Seq<char>>, access: FsAccess) -> Seq<(Seq<char>, FsAccess)> {
    paths.map_values(|p: Seq<char>| (p, access))
}

/// System binary and library roots: a narrow list in strict mode, whole
/// top-level trees otherwise.
pub open spec fn system_exec_paths(strict: bool) -> Seq<&'static str> {
    if strict {
        seq![
            "/bin",
            "/sbin",
            "/usr/bin",
            "/usr/sbin",
            "/usr/lib",
            "/usr/lib64",
            "/usr/lib32",
            "/lib",
            "/lib64",
            "/lib32",
            "/usr/libexec",
            "/usr/local",
        ]
    } else {
        seq!["/usr", "/lib", "/lib64", "/lib32", "/bin", "/sbin"]
    }
}

/// Read-only system configuration and pseudo-filesystems.
pub open spec fn system_read_paths() -> Seq<&'static str> {
    seq!["/etc", "/proc", "/sys", "/run"]
}

/// Temporary directories.
pub open spec fn temp_paths() -> Seq<&'static str> {
    seq!["/tmp", "/var/tmp"]
}

/// The temporary directories' rules: full access outside the strict tier,
/// none in it (the strict tier writes only in the working directory).
pub open spec fn temp_rules(strict: bool) -> Seq<(Seq<char>, FsAccess)> {
    if strict {
        seq![]
    } else {
        literal_rules(temp_paths(), FsAccess::All)
    }
}

/// The rights device nodes get: read rights only in the strict tier (which
/// writes nowhere outside the working directory), every right otherwise.
pub open spec fn device_access(strict: bool) -> FsAccess {
    if strict {
        FsAccess::Read
    } else {
        FsAccess::All
    }
}

/// Devices every sandbox needs: null, zero, randomness, terminals.
pub open spec fn basic_devices() -> Seq<&'static str> {
    seq![
        "/dev/null",
        "/dev/zero",
        "/dev/full",
        "/dev/random",
        "/dev/urandom",
        "/dev/fd",
        "/dev/tty",
        "/dev/ptmx",
        "/dev/pts",
    ]
}

/// GPU devices (DRM and NVIDIA).
pub open spec fn gpu_devices() -> Seq<&'static str> {
    seq!["/dev/dri", "/dev/nvidia0", "/dev/nvidiactl", "/dev/nvidia-modeset", "/dev/nvidia-uvm"]
}

/// NPU devices.
pub open spec fn npu_devices() -> Seq<&'static str> {
    seq!["/dev/accel", "/dev/accel0"]
}

/// Other hardware: USB, input, webcams, audio.
pub open spec fn hardware_devices() -> Seq<&'static str> {
    seq!["/dev/bus/usb", "/dev/input", "/dev/video0", "/dev/video1", "/dev/snd"]
}

/// Device rules for the security toggles, with `access`.
pub open spec fn device_rules(security: SecurityConfig, access: FsAccess) -> Seq<(Seq<char>, FsAccess)> {
    literal_rules(basic_devices(), access) + (if security.allow_gpu {
        literal_rules(gpu_devices(), access)
    } else {
        seq![]
    }) + (if security.allow_npu {
        literal_rules(npu_devices(), access)
    } else {
        seq![]
    }) + (if security.allow_hardware {
        literal_rules(hardware_devices(), access)
    } else {
        seq![]
    })
}

/// Home access when the home directory is not protected: `$HOME` (if set) and `/home`.
pub open spec fn home_rules(security: SecurityConfig, home: Option<Seq<char>>) -> Seq<
    (Seq<char>, FsAccess),
> {
    if !security.protect_user_home {
        (match home {
            Some(h) => seq![(h, FsAccess::All)],
            None => seq![],
        }) + seq![("/home"@, FsAccess::All)]
    } else {
        seq![]
    }
}

/// The path rules of a configuration, in the order they are added: system
/// roots, system configuration, temporary directories (not in the strict
/// tier), devices (read-only in the strict tier),
/// the working directory, readable, writable and executable roots, the Python
/// environment, `/` when the whole filesystem is writable, and home access
/// when the home is not protected.
pub open spec fn spec_path_rules(c: LandlockConfigView, home: Option<Seq<char>>) -> Seq<
    (Seq<char>, FsAccess),
> {
    literal_rules(system_exec_paths(c.filesystem_strict), FsAccess::ReadDirExecute)
        + literal_rules(system_read_paths(), FsAccess::Read) + temp_rules(c.filesystem_strict)
        + device_rules(c.security, device_access(c.filesystem_strict)) + seq![(c.working_dir, FsAccess::All)] + path_rules(
        c.readable_paths,
        FsAccess::Read,
    ) + path_rules(c.writable_paths, FsAccess::All) + path_rules(
        c.executable_paths,
        FsAccess::ReadFileExecute,
    ) + (match c.python_venv_path {
        Some(v) => seq![(v, FsAccess::All)],
        None => seq![],
    }) + (if c.writable_file_system {
        seq![("/"@, FsAccess::All)]
    } else {
        seq![]
    }) + home_rules(c.security, home)
}

/// The TCP ports that may be connected to: the proxy's unless the network is
/// denied, then the IPC server's if there is one.
pub open spec fn spec_net_ports(c: LandlockConfigView, proxy_port: u16) -> Seq<u16> {
    (if !c.network_deny_all {
        seq![proxy_port]
    } else {
        seq![]
    }) + match c.ipc_port {
        Some(p) => seq![p],
        None => seq![],
    }
}

fn push_literals(rules: &mut Vec<PathRule>, paths: &[&str], access: FsAccess)
    ensures
        rules_view(final(rules)@) == rules_view(old(rules)@) + literal_rules(paths@, access),
{
    let mut i: usize = 0;
    while i < paths.len()
        invariant
            i <= paths.len(),
            rules_view(rules@) == rules_view(old(rules)@) + literal_rules(
                paths@.take(i as int),
                access,
            ),
        decreases paths.len() - i,
    {
        let r = PathRule { path: String::from_str(paths[i]), access };
        let ghost prev = rules@;
        rules.push(r);
        assert(rules_view(rules@) == rules_view(prev).push(rule_view(r)));
        assert(literal_rules(paths@.take(i + 1), access) == literal_rules(
            paths@.take(i as int),
            access,
        ).push((paths@[i as int]@, access)));
        assert(rules_view(old(rules)@) + literal_rules(paths@.take(i + 1), access) == (
        rules_view(old(rules)@) + literal_rules(paths@.take(i as int), access)).push(
            (paths@[i as int]@, access),
        ));
        i = i + 1;
    }
    assert(paths@.take(paths.len() as int) == paths@);
}

fn push_paths(rules: &mut Vec<PathRule>, paths: &Vec<String>, access: FsAccess)
    ensures
        rules_view(final(rules)@) == rules_view(old(rules)@) + path_rules(strs(paths@), access),
{
    let mut i: usize = 0;
    while i < paths.len()
        invariant
            i <= paths.len(),
            rules_view(rules@) == rules_view(old(rules)@) + path_rules(
                strs(paths@.take(i as int)),
                access,
            ),
        decreases paths.len() - i,
    {
        let r = PathRule { path: paths[i].clone(), access };
        let ghost prev = rules@;
        rules.push(r);
        assert(rules_view(rules@) == rules_view(prev).push(rule_view(r)));
        assert(strs(paths@.take(i + 1)) == strs(paths@.take(i as int)).push(
            paths@[i as int]@,
        ));
        assert(path_rules(strs(paths@.take(i + 1)), access) == path_rules(
            strs(paths@.take(i as int)),
            access,
        ).push((paths@[i as int]@, access)));
        assert(rules_view(old(rules)@) + path_rules(strs(paths@.take(i + 1)), access) == (
        rules_view(old(rules)@) + path_rules(strs(paths@.take(i as int)), access)).push(
            (paths@[i as int]@, access),
        ));
        i = i + 1;
    }
    assert(paths@.take(paths.len() as int) == paths@);
}

fn push_one(rules: &mut Vec<PathRule>, path: &str, access: FsAccess)
    ensures
        rules_view(final(rules)@) == rules_view(old(rules)@) + seq![(path@, access)],
{
    let r = PathRule { path: String::from_str(path), access };
    rules.push(r);
    assert(rules_view(rules@) == rules_view(old(rules)@).push(rule_view(r)));
}

fn push_device_rules(rules: &mut Vec<PathRule>, security: &SecurityConfig, access: FsAccess)
    ensures
        rules_view(final(rules)@) == rules_view(old(rules)@) + device_rules(*security, access),
{
    let basic: [&str; 9] = [
        "/dev/null",
        "/dev/zero",
        "/dev/full",
        "/dev/random",
        "/dev/urandom",
        "/dev/fd",
        "/dev/tty",
        "/dev/ptmx",
        "/dev/pts",
    ];
    assert(basic@ == basic_devices());
    push_literals(rules, &basic, access);
    let ghost a = rules_view(rules@);
    if security.allow_gpu {
        let gpu: [&str; 5] = [
            "/dev/dri",
            "/dev/nvidia0",
            "/dev/nvidiactl",
            "/dev/nvidia-modeset",
            "/dev/nvidia-uvm",
        ];
        assert(gpu@ == gpu_devices());
        push_literals(rules, &gpu, access);
    }
    let ghost b = rules_view(rules@);
    if security.allow_npu {
        let npu: [&str; 2] = ["/dev/accel", "/dev/accel0"];
        assert(npu@ == npu_devices());
        push_literals(rules, &npu, access);
    }
    let ghost c = rules_view(rules@);
    if security.allow_hardware {
        let hw: [&str; 5] = ["/dev/bus/usb", "/dev/input", "/dev/video0", "/dev/video1", "/dev/snd"];
        assert(hw@ == hardware_devices());
        push_literals(rules, &hw, access);
    }
    proof {
        let e: Seq<(Seq<char>, FsAccess)> = seq![];
        if !security.allow_gpu {
            assert(b == a + e);
        }
        if !security.allow_npu {
            assert(c == b + e);
        }
        if !security.allow_hardware {
            assert(rules_view(rules@) == c + e);
        }
    }
}

fn push_system_rules(rules: &mut Vec<PathRule>, strict: bool)
    ensures
        rules_view(final(rules)@) == rules_view(old(rules)@) + literal_rules(
            system_exec_paths(strict),
            FsAccess::ReadDirExecute,
        ) + literal_rules(system_read_paths(), FsAccess::Read) + temp_rules(strict),
{
    if strict {
        let p: [&str; 12] = [
            "/bin",
            "/sbin",
            "/usr/bin",
            "/usr/sbin",
            "/usr/lib",
            "/usr/lib64",
            "/usr/lib32",
            "/lib",
            "/lib64",
            "/lib32",
            "/usr/libexec",
            "/usr/local",
        ];
        assert(p@ == system_exec_paths(true));
        push_literals(rules, &p, FsAccess::ReadDirExecute);
    } else {
        let p: [&str; 6] = ["/usr", "/lib", "/lib64", "/lib32", "/bin", "/sbin"];
        assert(p@ == system_exec_paths(false));
        push_literals(rules, &p, FsAccess::ReadDirExecute);
    }
    let r: [&str; 4] = ["/etc", "/proc", "/sys", "/run"];
    assert(r@ == system_read_paths());
    push_literals(rules, &r, FsAccess::Read);
    let ghost before = rules_view(rules@);
    if !strict {
        let t: [&str; 2] = ["/tmp", "/var/tmp"];
        assert(t@ == temp_paths());
        push_literals(rules, &t, FsAccess::All);
    } else {
        assert(rules_view(rules@) == before + Seq::<(Seq<char>, FsAccess)>::empty());
    }
}

/// Builds the Landlock rule set for `config` (see `spec_path_rules` and
/// `spec_net_ports`); `home` is the host's `HOME`, where it is set. In the
/// strict tier the process writes only within the working directory and the
/// roots the configuration names (see
/// `lemma_strict_tier_writes_only_in_working_dir`).
pub fn build_ruleset_plan(config: &LandlockConfig, proxy_port: u16, home: Option<&str>) -> (p:
    LandlockPlan)
    ensures
        p.handle_net == (!config.view().network_deny_all || config.view().ipc_port is Some),
        rules_view(p.path_rules@) == spec_path_rules(
            config.view(),
            match home {
                Some(h) => Some(h@),
                None => None,
            },
        ),
        p.net_ports@ == spec_net_ports(config.view(), proxy_port),
{
    let mut rules: Vec<PathRule> = Vec::new();
    push_system_rules(&mut rules, config.filesystem_strict());
    let device = if config.filesystem_strict() {
        FsAccess::Read
    } else {
        FsAccess::All
    };
    push_device_rules(&mut rules, config.security(), device);
    push_one(&mut rules, config.working_dir(), FsAccess::All);
    push_paths(&mut rules, config.readable_paths(), FsAccess::Read);
    push_paths(&mut rules, config.writable_paths(), FsAccess::All);
    push_paths(&mut rules, config.executable_paths(), FsAccess::ReadFileExecute);
    let ghost before_venv = rules_view(rules@);
    match config.python_venv_path() {
        Some(v) => push_one(&mut rules, v, FsAccess::All),
        None => {},
    }
    let ghost before_root = rules_view(rules@);
    if config.writable_file_system() {
        push_one(&mut rules, "/", FsAccess::All);
    }
    let ghost before_home = rules_view(rules@);
    if !config.security().protect_user_home {
        match home {
            Some(h) => push_one(&mut rules, h, FsAccess::All),
            None => {},
        }
        push_one(&mut rules, "/home", FsAccess::All);
    }
    proof {
        let e: Seq<(Seq<char>, FsAccess)> = seq![];
        if config.view().python_venv_path is None {
            assert(before_root == before_venv + e);
        }
        if !config.view().writable_file_system {
            assert(before_home == before_root + e);
        }
        if config.view().security.protect_user_home {
            assert(rules_view(rules@) == before_home + e);
        } else if home is None {
            assert(e + seq![("/home"@, FsAccess::All)] == seq![("/home"@, FsAccess::All)]);
        }
    }
    let mut ports: Vec<u16> = Vec::new();
    if !config.network_deny_all() {
        ports.push(proxy_port);
    }
    match config.ipc_port() {
        Some(p) => ports.push(p),
        None => {},
    }
    proof {
        let e: Seq<u16> = seq![];
        if config.view().network_deny_all {
            assert(e + (match config.view().ipc_port {
                Some(p) => seq![p],
                None => seq![],
            }) == (match config.view().ipc_port {
                Some(p) => seq![p],
                None => seq![],
            }));
        } else if config.view().ipc_port is None {
            assert(seq![proxy_port] + e == seq![proxy_port]);
        }
    }
    LandlockPlan {
        handle_net: !config.network_deny_all() || config.ipc_port().is_some(),
        path_rules: rules,
        net_ports: ports,
    }
}

} // verus!

verus! {

/// Whether a right lets the sandboxed process write.
pub open spec fn writes(access: FsAccess) -> bool {
    access == FsAccess::All
}

/// What the strict tier allows of one rule: writing only in the working
/// directory.
pub open spec fn strict_rule(r: (Seq<char>, FsAccess), working_dir: Seq<char>) -> bool {
    writes(r.1) ==> r.0 == working_dir
}

pub open spec fn strict_rules(rs: Seq<(Seq<char>, FsAccess)>, working_dir: Seq<char>) -> bool {
    forall|i: int| 0 <= i < rs.len() ==> strict_rule(#[trigger] rs[i], working_dir)
}

proof fn lemma_strict_concat(a: Seq<(Seq<char>, FsAccess)>, b: Seq<(Seq<char>, FsAccess)>, wd: Seq<char>)
    requires
        strict_rules(a, wd),
        strict_rules(b, wd),
    ensures
        strict_rules(a + b, wd),
{
    assert forall|i: int| 0 <= i < (a + b).len() implies strict_rule(#[trigger] (a + b)[i], wd) by {
        if i < a.len() {
            assert((a + b)[i] == a[i]);
        } else {
            assert((a + b)[i] == b[i - a.len()]);
        }
    }
}

proof fn lemma_non_writing_literals(paths: Seq<&'static str>, access: FsAccess, wd: Seq<char>)
    requires
        !writes(access),
    ensures
        strict_rules(literal_rules(paths, access), wd),
{
}

/// The strict tier writes only within the working directory: for a strict
/// configuration that does not make the whole filesystem writable, names no
/// writable root and no Python environment, and protects the home directory,
/// the only rule that lets the process write is the working directory itself;
/// temporary directories are not granted and device nodes are read-only.
pub proof fn lemma_strict_tier_writes_only_in_working_dir(c: LandlockConfigView, home: Option<Seq<char>>)
    requires
        c.filesystem_strict,
        !c.writable_file_system,
        c.writable_paths.len() == 0,
        c.python_venv_path is None,
        c.security.protect_user_home,
    ensures
        forall|i: int|
            0 <= i < spec_path_rules(c, home).len() && writes(#[trigger] spec_path_rules(c, home)[i].1)
                ==> spec_path_rules(c, home)[i].0 == c.working_dir,
{
    let wd = c.working_dir;
    let e: Seq<(Seq<char>, FsAccess)> = seq![];
    lemma_non_writing_literals(system_exec_paths(true), FsAccess::ReadDirExecute, wd);
    lemma_non_writing_literals(system_read_paths(), FsAccess::Read, wd);
    lemma_non_writing_literals(basic_devices(), FsAccess::Read, wd);
    lemma_non_writing_literals(gpu_devices(), FsAccess::Read, wd);
    lemma_non_writing_literals(npu_devices(), FsAccess::Read, wd);
    lemma_non_writing_literals(hardware_devices(), FsAccess::Read, wd);
    let dv = device_rules(c.security, FsAccess::Read);
    let g = if c.security.allow_gpu { literal_rules(gpu_devices(), FsAccess::Read) } else { e };
    let n = if c.security.allow_npu { literal_rules(npu_devices(), FsAccess::Read) } else { e };
    let h = if c.security.allow_hardware {
        literal_rules(hardware_devices(), FsAccess::Read)
    } else {
        e
    };
    assert(strict_rules(e, wd));
    lemma_strict_concat(literal_rules(basic_devices(), FsAccess::Read), g, wd);
    lemma_strict_concat(literal_rules(basic_devices(), FsAccess::Read) + g, n, wd);
    lemma_strict_concat(literal_rules(basic_devices(), FsAccess::Read) + g + n, h, wd);
    assert(dv == literal_rules(basic_devices(), FsAccess::Read) + g + n + h);
    let a = literal_rules(system_exec_paths(true), FsAccess::ReadDirExecute);
    let b = literal_rules(system_read_paths(), FsAccess::Read);
    let w = seq![(wd, FsAccess::All)];
    let r = path_rules(c.readable_paths, FsAccess::Read);
    let x = path_rules(c.executable_paths, FsAccess::ReadFileExecute);
    let wr = path_rules(c.writable_paths, FsAccess::All);
    assert(wr =~= e);
    assert(strict_rules(w, wd));
    assert(strict_rules(r, wd));
    assert(strict_rules(x, wd));
    lemma_strict_concat(a, b, wd);
    lemma_strict_concat(a + b, e, wd);
    lemma_strict_concat(a + b + e, dv, wd);
    lemma_strict_concat(a + b + e + dv, w, wd);
    lemma_strict_concat(a + b + e + dv + w, r, wd);
    lemma_strict_concat(a + b + e + dv + w + r, wr, wd);
    lemma_strict_concat(a + b + e + dv + w + r + wr, x, wd);
    lemma_strict_concat(a + b + e + dv + w + r + wr + x, e, wd);
    lemma_strict_concat(a + b + e + dv + w + r + wr + x + e, e, wd);
    lemma_strict_concat(a + b + e + dv + w + r + wr + x + e + e, e, wd);
    assert(spec_path_rules(c, home) == a + b + e + dv + w + r + wr + x + e + e + e);
    assert forall|i: int|
        0 <= i < spec_path_rules(c, home).len() && writes(#[trigger] spec_path_rules(c, home)[i].1)
            implies spec_path_rules(c, home)[i].0 == c.working_dir by {
        assert(strict_rule(spec_path_rules(c, home)[i], wd));
    }
}

} // verus!

verus! {

/// `EPERM` on Linux.
pub const EPERM: i32 = 1;

/// How far the kernel enforces a rule set once it is applied.
#[derive(Debug, Clone, Copy, PartialEq, Eq, Structural)]
pub enum RulesetEnforcement {
    Full,
    Partial,
    Nothing,
}

/// Whether the process may go on after applying its rule set: only a fully
/// enforced rule set is accepted; a partially enforced or unenforced one
/// fails with `EPERM` rather than run with reduced security.
pub fn check_enforcement(status: RulesetEnforcement) -> (r: core::result::Result<(), i32>)
    ensures
        r is Ok <==> status == RulesetEnforcement::Full,
        r matches Err(code) ==> code == EPERM,
{
    match status {
        RulesetEnforcement::Full => Ok(()),
        RulesetEnforcement::Partial => Err(EPERM),
        RulesetEnforcement::Nothing => Err(EPERM),
    }
}

} // verus!

verus! {

/// The TCP ports a sandboxed process may connect to: the proxy's port exactly
/// when the network is not denied, the IPC server's port when one is
/// configured, and nothing else; with neither, none at all.
pub proof fn lemma_net_ports_are_proxy_and_ipc(c: LandlockConfigView, proxy_port: u16)
    ensures
        !c.network_deny_all ==> spec_net_ports(c, proxy_port).contains(proxy_port),
        c.ipc_port matches Some(q) ==> spec_net_ports(c, proxy_port).contains(q),
        forall|i: int|
            0 <= i < spec_net_ports(c, proxy_port).len() ==> (#[trigger] spec_net_ports(c, proxy_port)[i]
                == proxy_port && !c.network_deny_all) || c.ipc_port == Some(
                spec_net_ports(c, proxy_port)[i],
            ),
        c.network_deny_all && c.ipc_port is None ==> spec_net_ports(c, proxy_port).len() == 0,
{
    let ports = spec_net_ports(c, proxy_port);
    let a: Seq<u16> = if !c.network_deny_all { seq![proxy_port] } else { seq![] };
    let b: Seq<u16> = match c.ipc_port {
        Some(p) => seq![p],
        None => seq![],
    };
    assert(ports == a + b);
    if !c.network_deny_all {
        assert(ports[0] == proxy_port);
    }
    if let Some(q) = c.ipc_port {
        assert(ports[a.len() as int] == q);
    }
    assert forall|i: int| 0 <= i < ports.len() implies (#[trigger] ports[i] == proxy_port
        && !c.network_deny_all) || c.ipc_port == Some(ports[i]) by {
        if i < a.len() {
            assert(ports[i] == a[i]);
        } else {
            assert(ports[i] == b[i - a.len()]);
        }
    }
}

} // verus!
