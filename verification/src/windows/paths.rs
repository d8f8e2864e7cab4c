//! Filesystem roots that an AppContainer is granted, and the Python runtime
//! roots named by a virtual environment's `pyvenv.cfg`.

use vstd::prelude::*;

use crate::config::{PythonConfig, SandboxConfigData, SecurityConfig};
use crate::text::{
    chars_eq_ignore_ascii_case, chars_of, eq_ignore_ascii_case, find_char, find_char_in,
    lemma_find_char_bounds, lines_of, opt_string_view, slice_chars, string_of, strip_cr, strs, trim_char,
    trim_char_chars, trim_ws, trim_ws_chars,
};

verus! {

/// The kind of access a root is granted.
#[derive(Debug, Clone, Copy, PartialEq, Eq, Structural)]
pub enum RootAccess {
    Read,
    Write,
    Execute,
    Full,
    Runtime,
}

/// A filesystem root granted to the AppContainer.
#[derive(Debug, Clone, PartialEq, Eq)]
pub struct RootGrant {
    pub path: String,
    pub access: RootAccess,
    pub is_directory: bool,
}

/// A grant by its plain values.
pub open spec fn grant_view(g: RootGrant) -> (Seq<char>, RootAccess, bool) {
    (g.path@, g.access, g.is_directory)
}

/// The grants by their plain values.
pub open spec fn grants_view(gs: Seq<RootGrant>) -> Seq<(Seq<char>, RootAccess, bool)> {
    gs.map_values(|g: RootGrant| grant_view(g))
}

/// A grant of `access` to `path`.
pub fn grant(path: &str, access: RootAccess, is_directory: bool) -> (g: RootGrant)
    ensures
        g.path@ == path@,
        g.access == access,
        g.is_directory == is_directory,
{
    RootGrant { path: String::from_str(path), access, is_directory }
}


/// What `std::path::Path::parent` returns for the path written `p`, with the
/// separators and prefixes of the target the library is built for (the
/// `windows` flags of the functions that use it do not change it).
pub uninterp spec fn spec_path_parent(p: Seq<char>) -> Option<Seq<char>>;

/// Calls `std::path::Path::parent` on `p`; the result is the parent's text,
/// or `None` where the path has no parent (the empty path or a root).
#[verifier::external_body]
pub(crate) fn path_parent(p: &str) -> (r: Option<String>)
    ensures
        match r {
            Some(q) => spec_path_parent(p@) == Some(q@),
            None => spec_path_parent(p@) is None,
        },
{
    std::path::Path::new(p).parent().map(|q| q.to_string_lossy().into_owned())
}

/// The setting one line of `pyvenv.cfg` makes: whether its key is `home`
/// (else `executable`) and its value. Keys compare without regard to ASCII
/// case; values lose surrounding white space and double quotes; lines with
/// another key, without `=` or with an empty value set nothing.
#[verifier::opaque]
pub open spec fn pyvenv_line_setting(line: Seq<char>) -> Option<(bool, Seq<char>)> {
    match find_char(line, '=') {
        None => None,
        Some(i) => {
            let key = trim_ws(line.take(i));
            let value = trim_char(trim_ws(line.skip(i + 1)), '"');
            if value.len() == 0 {
                None
            } else if eq_ignore_ascii_case(key, "home"@) {
                Some((true, value))
            } else if eq_ignore_ascii_case(key, "executable"@) {
                Some((false, value))
            } else {
                None
            }
        },
    }
}

/// The runtime root a setting names, given the parent directory of its value:
/// the value of `home`, or that parent for `executable`.
pub open spec fn setting_root(setting: (bool, Seq<char>), parent: Option<Seq<char>>) -> Option<Seq<char>> {
    if setting.0 {
        Some(setting.1)
    } else {
        parent
    }
}

/// The runtime root named by one line of `pyvenv.cfg`: the value of a `home`
/// key, or the parent directory of the value of an `executable` key.
pub open spec fn pyvenv_line_root(line: Seq<char>) -> Option<Seq<char>> {
    match pyvenv_line_setting(line) {
        None => None,
        Some(st) => setting_root(st, if st.0 { None } else { spec_path_parent(st.1) }),
    }
}

/// The runtime roots named by a sequence of lines, in line order.
pub open spec fn pyvenv_roots_of_lines(ls: Seq<Seq<char>>) -> Seq<Seq<char>>
    decreases ls.len(),
{
    if ls.len() == 0 {
        seq![]
    } else {
        pyvenv_roots_of_lines(ls.drop_last()) + match pyvenv_line_root(ls.last()) {
            Some(r) => seq![r],
            None => seq![],
        }
    }
}

/// The runtime roots named by the text of a `pyvenv.cfg` file.
pub open spec fn pyvenv_roots(text: Seq<char>) -> Seq<Seq<char>> {
    pyvenv_roots_of_lines(lines_of(text))
}

/// A setting of `pyvenv.cfg`: whether its key is `home` (else `executable`),
/// and its value.
#[derive(Debug, Clone)]
pub struct PyvenvSetting {
    pub home: bool,
    pub value: String,
}

/// The setting one line of `pyvenv.cfg` makes (see `pyvenv_line_setting`).
pub fn pyvenv_setting_of_line(line: &str) -> (r: Option<PyvenvSetting>)
    ensures
        match r {
            Some(st) => pyvenv_line_setting(line@) == Some((st.home, st.value@)),
            None => pyvenv_line_setting(line@) is None,
        },
{
    let line = chars_of(line);
    proof {
        reveal(pyvenv_line_setting);
        lemma_find_char_bounds(line@, '=');
        assert(line@.skip(0) == line@);
    }
    match find_char_in(&line, '=', 0) {
        None => None,
        Some(i) => {
            let key = trim_ws_chars(&slice_chars(&line, 0, i));
            let raw = trim_ws_chars(&slice_chars(&line, i + 1, line.len()));
            let value = trim_char_chars(&raw, '"');
            proof {
                assert(line@.subrange(0, i as int) == line@.take(i as int));
                assert(line@.subrange(i + 1, line@.len() as int) == line@.skip(i + 1));
            }
            if value.len() == 0 {
                None
            } else if chars_eq_ignore_ascii_case(&key, "home") {
                Some(PyvenvSetting { home: true, value: string_of(&value) })
            } else if chars_eq_ignore_ascii_case(&key, "executable") {
                Some(PyvenvSetting { home: false, value: string_of(&value) })
            } else {
                None
            }
        },
    }
}

/// The runtime root a setting names, given `parent`, the parent directory of
/// its value (see `setting_root`).
pub fn root_of_setting(setting: PyvenvSetting, parent: Option<String>) -> (r: Option<String>)
    ensures
        opt_string_view(r) == setting_root((setting.home, setting.value@), opt_string_view(parent)),
{
    if setting.home {
        Some(setting.value)
    } else {
        parent
    }
}

fn line_root(line: &Vec<char>) -> (r: Option<String>)
    ensures
        match r {
            Some(s) => pyvenv_line_root(line@) == Some(s@),
            None => pyvenv_line_root(line@) is None,
        },
{
    let text = string_of(line);
    match pyvenv_setting_of_line(text.as_str()) {
        None => None,
        Some(st) => {
            let parent = if st.home {
                None
            } else {
                path_parent(st.value.as_str())
            };
            root_of_setting(st, parent)
        },
    }
}

proof fn lemma_roots_push(ls: Seq<Seq<char>>, l: Seq<char>)
    ensures
        pyvenv_roots_of_lines(ls.push(l)) == pyvenv_roots_of_lines(ls) + match pyvenv_line_root(l) {
            Some(r) => seq![r],
            None => seq![],
        },
{
    assert(ls.push(l).drop_last() == ls);
}

proof fn lemma_roots_concat(a: Seq<Seq<char>>, b: Seq<Seq<char>>)
    ensures
        pyvenv_roots_of_lines(a + b) == pyvenv_roots_of_lines(a) + pyvenv_roots_of_lines(b),
    decreases b.len(),
{
    if b.len() == 0 {
        assert(a + b == a);
    } else {
        lemma_roots_concat(a, b.drop_last());
        assert((a + b).drop_last() == a + b.drop_last());
    }
}

/// The first line of `v[pos..]` and the position just after it.
fn next_line(v: &Vec<char>, pos: usize) -> (r: (Vec<char>, usize))
    requires
        pos < v.len(),
    ensures
        pos < r.1 <= v.len(),
        lines_of(v@.skip(pos as int)) == seq![r.0@] + lines_of(v@.skip(r.1 as int)),
{
    let ghost rest = v@.skip(pos as int);
    proof {
        reveal(lines_of);
        lemma_find_char_bounds(rest, '\n');
    }
    match find_char_in(v, '\n', pos) {
        Some(nl) => {
            let raw = slice_chars(v, pos, nl);
            let line = if raw.len() > 0 && raw[raw.len() - 1] == '\r' {
                slice_chars(&raw, 0, raw.len() - 1)
            } else {
                raw
            };
            proof {
                assert(raw@ == rest.take(nl - pos));
                assert(line@ == strip_cr(rest.take(nl - pos)));
                assert(rest.skip(nl - pos + 1) == v@.skip(nl + 1));
            }
            (line, nl + 1)
        },
        None => {
            let line = slice_chars(v, pos, v.len());
            proof {
                assert(line@ == rest);
                assert(v@.skip(v.len() as int).len() == 0);
                assert(lines_of(v@.skip(v.len() as int)) == Seq::<Seq<char>>::empty());
                assert(seq![line@] + Seq::<Seq<char>>::empty() == seq![line@]);
            }
            (line, v.len())
        },
    }
}

fn push_root(roots: &mut Vec<String>, root: Option<String>)
    ensures
        strs(final(roots)@) == strs(old(roots)@) + match root {
            Some(r) => seq![r@],
            None => seq![],
        },
{
    match root {
        Some(r) => {
            roots.push(r);
            proof {
                assert(strs(roots@) == strs(old(roots)@) + seq![roots@.last()@]);
            }
        },
        None => {
            assert(strs(roots@) == strs(old(roots)@) + Seq::<Seq<char>>::empty());
        },
    }
}

/// Parses the text of a `pyvenv.cfg` file into the Python runtime roots it
/// names (see `pyvenv_line_root`), in the order of its lines.
pub fn pyvenv_runtime_roots_from_text(config: &str) -> (roots: Vec<String>)
    ensures
        strs(roots@) == pyvenv_roots(config@),
{
    let v = chars_of(config);
    let mut roots: Vec<String> = Vec::new();
    let mut pos: usize = 0;
    let ghost mut done: Seq<Seq<char>> = seq![];
    proof {
        assert(v@.skip(0) == v@);
        assert(done + lines_of(v@) == lines_of(v@));
    }
    while pos < v.len()
        invariant
            v@ == config@,
            pos <= v.len(),
            lines_of(v@) == done + lines_of(v@.skip(pos as int)),
            strs(roots@) == pyvenv_roots_of_lines(done),
        decreases v.len() - pos,
    {
        let (line, next) = next_line(&v, pos);
        let root = line_root(&line);
        proof {
            lemma_roots_push(done, line@);
            assert(match root {
                Some(r) => pyvenv_line_root(line@) == Some(r@),
                None => pyvenv_line_root(line@) is None,
            });
        }
        push_root(&mut roots, root);
        proof {
            assert(done.push(line@) + lines_of(v@.skip(next as int)) == done + (seq![line@]
                + lines_of(v@.skip(next as int))));
            done = done.push(line@);
        }
        pos = next;
    }
    proof {
        reveal(lines_of);
        assert(v@.skip(pos as int).len() == 0);
        assert(lines_of(v@.skip(pos as int)) == Seq::<Seq<char>>::empty());
        assert(done + Seq::<Seq<char>>::empty() == done);
    }
    roots
}

} // verus!

verus! {

/// What the backend learns from the host filesystem before computing grants:
/// which configured roots are directories, and the text of the virtual
/// environment's `pyvenv.cfg` if it could be read.
#[derive(Debug, Clone)]
pub struct HostFacts {
    pub directories: Vec<String>,
    pub pyvenv_cfg: Option<String>,
}

pub open spec fn is_dir_in(dirs: Seq<String>, p: Seq<char>) -> bool {
    exists|i: int| 0 <= i < dirs.len() && dirs[i]@ == p
}

/// `paths` granted `access`, each marked a directory when the host says so.
pub open spec fn roots_as(paths: Seq<String>, access: RootAccess, dirs: Seq<String>) -> Seq<
    (Seq<char>, RootAccess, bool),
> {
    paths.map_values(|p: String| (p@, access, is_dir_in(dirs, p@)))
}

/// The runtime roots a Python environment needs: the environment itself, the
/// directory of the interpreter that created it, and the roots its
/// `pyvenv.cfg` names.
pub open spec fn spec_python_runtime_grants(python: PythonConfig, cfg: Option<String>) -> Seq<
    (Seq<char>, RootAccess, bool),
> {
    runtime_grants_of(
        python.venv.path@,
        match python.venv.python {
            Some(exe) => spec_path_parent(exe@),
            None => None,
        },
        match cfg {
            Some(text) => pyvenv_roots(text@),
            None => seq![],
        },
    )
}

/// The runtime grants of a virtual environment at `venv`, given the directory
/// of the interpreter that created it (if known) and the roots its
/// `pyvenv.cfg` names.
pub open spec fn runtime_grants_of(
    venv: Seq<char>,
    interpreter_dir: Option<Seq<char>>,
    cfg_roots: Seq<Seq<char>>,
) -> Seq<(Seq<char>, RootAccess, bool)> {
    seq![(venv, RootAccess::Runtime, true)] + (match interpreter_dir {
        Some(root) => seq![(root, RootAccess::Runtime, true)],
        None => seq![],
    }) + cfg_roots.map_values(|r: Seq<char>| (r, RootAccess::Runtime, true))
}

/// The roots an AppContainer is granted for a configuration: the working
/// directory (full access), the readable, writable and executable roots, and
/// the Python runtime roots.
pub open spec fn spec_grants(config: SandboxConfigData, facts: HostFacts) -> Seq<
    (Seq<char>, RootAccess, bool),
> {
    seq![(config.working_dir@, RootAccess::Full, true)] + roots_as(
        config.readable_paths@,
        RootAccess::Read,
        facts.directories@,
    ) + roots_as(config.writable_paths@, RootAccess::Full, facts.directories@) + roots_as(
        config.executable_paths@,
        RootAccess::Execute,
        facts.directories@,
    ) + match config.python {
        Some(p) => spec_python_runtime_grants(p, facts.pyvenv_cfg),
        None => seq![],
    }
}

/// The AppContainer is granted explicit roots only: the security toggles
/// (home protection, hardware access and the rest) change no grant.
pub proof fn lemma_grants_ignore_security(
    config: SandboxConfigData,
    security: SecurityConfig,
    facts: HostFacts,
)
    ensures
        spec_grants(SandboxConfigData { security, ..config }, facts) == spec_grants(config, facts),
{
}

fn contains_path(dirs: &Vec<String>, p: &String) -> (b: bool)
    ensures
        b == is_dir_in(dirs@, p@),
{
    let mut i: usize = 0;
    while i < dirs.len()
        invariant
            i <= dirs.len(),
            forall|k: int| 0 <= k < i ==> dirs@[k]@ != p@,
        decreases dirs.len() - i,
    {
        if dirs[i] == *p {
            return true;
        }
        i = i + 1;
    }
    false
}

fn push_roots(
    out: &mut Vec<RootGrant>,
    paths: &Vec<String>,
    access: RootAccess,
    dirs: &Vec<String>,
)
    ensures
        grants_view(final(out)@) == grants_view(old(out)@) + roots_as(paths@, access, dirs@),
{
    let mut i: usize = 0;
    while i < paths.len()
        invariant
            i <= paths.len(),
            grants_view(out@) == grants_view(old(out)@) + roots_as(
                paths@.take(i as int),
                access,
                dirs@,
            ),
        decreases paths.len() - i,
    {
        let d = contains_path(dirs, &paths[i]);
        let g = grant(paths[i].as_str(), access, d);
        let ghost before = out@;
        out.push(g);
        proof {
            assert(grants_view(out@) == grants_view(before) + seq![grant_view(g)]);
            assert(roots_as(paths@.take(i + 1), access, dirs@) == roots_as(
                paths@.take(i as int),
                access,
                dirs@,
            ) + seq![grant_view(g)]);
        }
        i = i + 1;
    }
    proof {
        assert(paths@.take(paths.len() as int) == paths@);
    }
}

fn push_grant(out: &mut Vec<RootGrant>, g: RootGrant)
    ensures
        grants_view(final(out)@) == grants_view(old(out)@) + seq![grant_view(g)],
{
    out.push(g);
    assert(grants_view(out@) == grants_view(old(out)@) + seq![grant_view(g)]);
}

/// The runtime grants of the virtual environment at `venv`, given the
/// directory of its interpreter and the roots its `pyvenv.cfg` names (see
/// `runtime_grants_of`).
pub fn runtime_grants(venv: &str, interpreter_dir: Option<String>, cfg_roots: &Vec<String>) -> (gs: Vec<
    RootGrant,
>)
    ensures
        grants_view(gs@) == runtime_grants_of(venv@, opt_string_view(interpreter_dir), strs(cfg_roots@)),
{
    let mut gs: Vec<RootGrant> = Vec::new();
    push_grant(&mut gs, grant(venv, RootAccess::Runtime, true));
    let ghost after_venv = grants_view(gs@);
    match interpreter_dir {
        Some(root) => push_grant(&mut gs, grant(root.as_str(), RootAccess::Runtime, true)),
        None => {},
    }
    let ghost after_exe = grants_view(gs@);
    let mut i: usize = 0;
    while i < cfg_roots.len()
        invariant
            i <= cfg_roots.len(),
            grants_view(gs@) == after_exe + strs(cfg_roots@).take(i as int).map_values(
                |r: Seq<char>| (r, RootAccess::Runtime, true),
            ),
        decreases cfg_roots.len() - i,
    {
        push_grant(&mut gs, grant(cfg_roots[i].as_str(), RootAccess::Runtime, true));
        proof {
            assert(strs(cfg_roots@).take(i + 1) == strs(cfg_roots@).take(i as int).push(
                cfg_roots@[i as int]@,
            ));
        }
        i = i + 1;
    }
    proof {
        assert(strs(cfg_roots@).take(cfg_roots.len() as int) == strs(cfg_roots@));
    }
    gs
}

fn python_runtime_grants(python: &PythonConfig, cfg: &Option<String>) -> (gs: Vec<RootGrant>)
    ensures
        grants_view(gs@) == spec_python_runtime_grants(*python, *cfg),
{
    let interpreter_dir = match &python.venv.python {
        Some(exe) => path_parent(exe.as_str()),
        None => None,
    };
    let roots = match cfg {
        Some(text) => pyvenv_runtime_roots_from_text(text.as_str()),
        None => Vec::new(),
    };
    proof {
        if cfg is None {
            assert(strs(roots@) =~= Seq::<Seq<char>>::empty());
        }
    }
    runtime_grants(python.venv.path.as_str(), interpreter_dir, &roots)
}

/// The roots an AppContainer is granted for `config` (see `spec_grants`).
pub fn grants_from_config(config: &SandboxConfigData, facts: &HostFacts) -> (gs: Vec<RootGrant>)
    ensures
        grants_view(gs@) == spec_grants(*config, *facts),
{
    let mut gs: Vec<RootGrant> = Vec::new();
    push_grant(&mut gs, grant(config.working_dir.as_str(), RootAccess::Full, true));
    push_roots(&mut gs, &config.readable_paths, RootAccess::Read, &facts.directories);
    push_roots(&mut gs, &config.writable_paths, RootAccess::Full, &facts.directories);
    push_roots(&mut gs, &config.executable_paths, RootAccess::Execute, &facts.directories);
    match &config.python {
        Some(python) => {
            let extra = python_runtime_grants(python, &facts.pyvenv_cfg);
            let mut i: usize = 0;
            let ghost base = grants_view(gs@);
            while i < extra.len()
                invariant
                    i <= extra.len(),
                    grants_view(gs@) == base + grants_view(extra@).take(i as int),
                decreases extra.len() - i,
            {
                push_grant(&mut gs, extra[i].clone_grant());
                proof {
                    assert(grants_view(extra@).take(i + 1) == grants_view(extra@).take(
                        i as int,
                    ).push(grant_view(extra@[i as int])));
                }
                i = i + 1;
            }
            proof {
                assert(grants_view(extra@).take(extra.len() as int) == grants_view(extra@));
            }
        },
        None => {},
    }
    gs
}

impl RootGrant {
    /// A copy of this grant.
    pub fn clone_grant(&self) -> (g: RootGrant)
        ensures
            grant_view(g) == grant_view(*self),
    {
        RootGrant { path: self.path.clone(), access: self.access, is_directory: self.is_directory }
    }
}

} // verus!
