//! Python virtual environments and interpreters: where their files are, and
//! which interpreter is usable.

use vstd::prelude::*;

use crate::config::VenvConfig;
use crate::error::{Error, Result};
use crate::text::{
    ascii_lower_all, chars_contain, chars_of, contains_seq, join_path, join_windows_path, windows_path_join, lower_ascii_chars,
    opt_string_view, path_join, strs,
};
use crate::windows::token::{char_codes, chars_before, lemma_lex_order, lex_lt};

verus! {

/// The Python executable inside a virtual environment: `Scripts\python.exe`
/// on Windows, `bin/python` elsewhere.
pub open spec fn spec_python_executable(venv: Seq<char>, windows: bool) -> Seq<char> {
    if windows {
        join_windows_path(join_windows_path(venv, "Scripts"@), "python.exe"@)
    } else {
        join_path(join_path(venv, "bin"@), "python"@)
    }
}

/// The Python executable inside the virtual environment at `venv`.
pub fn python_executable(venv: &str, windows: bool) -> (p: String)
    ensures
        p@ == spec_python_executable(venv@, windows),
{
    if windows {
        let d = windows_path_join(venv, "Scripts");
        windows_path_join(d.as_str(), "python.exe")
    } else {
        let d = path_join(venv, "bin");
        path_join(d.as_str(), "python")
    }
}

/// Whether `path` is a Windows Store alias of Python (a stub that does not run Python).
pub open spec fn spec_windows_store_python_alias(path: Seq<char>) -> bool {
    contains_seq(ascii_lower_all(path), "\\microsoft\\windowsapps\\python"@)
}

/// Whether `path` is a Windows Store alias of Python.
pub fn windows_store_python_alias(path: &str) -> (b: bool)
    ensures
        b == spec_windows_store_python_alias(path@),
{
    let lower = lower_ascii_chars(&chars_of(path));
    let pat = chars_of("\\microsoft\\windowsapps\\python");
    chars_contain(&lower, &pat)
}

/// A candidate interpreter path and whether it exists on the host.
#[derive(Debug, Clone)]
pub struct Candidate {
    pub path: String,
    pub exists: bool,
}

/// Whether a candidate can run Python: it exists and is no Store alias.
pub open spec fn usable(c: Candidate) -> bool {
    c.exists && !spec_windows_store_python_alias(c.path@)
}

/// Whether a candidate can run Python.
pub fn is_usable_python_path(c: &Candidate) -> (b: bool)
    ensures
        b == usable(*c),
{
    if windows_store_python_alias(c.path.as_str()) {
        return false;
    }
    c.exists
}

/// The first usable interpreter found on `PATH` (`python3`, then `python`),
/// or else the first existing one among the known install locations.
pub open spec fn spec_select_interpreter(on_path: Seq<Candidate>, known: Seq<Candidate>) -> Option<Seq<char>> {
    if exists|i: int| 0 <= i < on_path.len() && usable(on_path[i]) {
        let i = choose|i: int|
            0 <= i < on_path.len() && usable(on_path[i]) && forall|j: int|
                0 <= j < i ==> !usable(on_path[j]);
        Some(on_path[i].path@)
    } else if exists|i: int| 0 <= i < known.len() && known[i].exists {
        let i = choose|i: int|
            0 <= i < known.len() && known[i].exists && forall|j: int| 0 <= j < i ==> !known[j].exists;
        Some(known[i].path@)
    } else {
        None
    }
}

/// Picks the interpreter for host-side virtual environment setup (see
/// `spec_select_interpreter`).
pub fn resolve_python_interpreter(on_path: &Vec<Candidate>, known: &Vec<Candidate>) -> (r: Option<String>)
    ensures
        match r {
            Some(p) => spec_select_interpreter(on_path@, known@) == Some(p@),
            None => spec_select_interpreter(on_path@, known@) is None,
        },
{
    let mut i: usize = 0;
    while i < on_path.len()
        invariant
            i <= on_path.len(),
            forall|j: int| 0 <= j < i ==> !usable(on_path@[j]),
        decreases on_path.len() - i,
    {
        if is_usable_python_path(&on_path[i]) {
            proof {
                let c = choose|k: int|
                    0 <= k < on_path@.len() && usable(on_path@[k]) && forall|j: int|
                        0 <= j < k ==> !usable(on_path@[j]);
                assert(usable(on_path@[i as int]));
                if c < i {
                } else if c > i {
                    assert(!usable(on_path@[i as int]));
                }
            }
            return Some(on_path[i].path.clone());
        }
        i = i + 1;
    }
    let mut k: usize = 0;
    while k < known.len()
        invariant
            k <= known.len(),
            forall|j: int| 0 <= j < on_path.len() ==> !usable(on_path@[j]),
            forall|j: int| 0 <= j < k ==> !known@[j].exists,
        decreases known.len() - k,
    {
        if known[k].exists {
            proof {
                let c = choose|m: int|
                    0 <= m < known@.len() && known@[m].exists && forall|j: int|
                        0 <= j < m ==> !known@[j].exists;
                if c < k {
                } else if c > k {
                    assert(!known@[k as int].exists);
                }
            }
            return Some(known[k].path.clone());
        }
        k = k + 1;
    }
    None
}

} // verus!

verus! {

/// The directories searched for Python installations on Windows:
/// `%LOCALAPPDATA%\Programs\Python`, `%ProgramFiles%` and
/// `%ProgramFiles(x86)%`, each where its variable is set.
pub open spec fn spec_windows_python_search_roots(
    local_app_data: Option<Seq<char>>,
    program_files: Option<Seq<char>>,
    program_files_x86: Option<Seq<char>>,
) -> Seq<Seq<char>> {
    (match local_app_data {
        Some(d) => seq![join_path(join_path(d, "Programs"@), "Python"@)],
        None => Seq::empty(),
    }) + (match program_files {
        Some(d) => seq![d],
        None => Seq::empty(),
    }) + (match program_files_x86 {
        Some(d) => seq![d],
        None => Seq::empty(),
    })
}

/// The directories searched for Python installations, given the values of
/// `LOCALAPPDATA`, `ProgramFiles` and `ProgramFiles(x86)`.
pub fn windows_python_search_roots(
    local_app_data: Option<String>,
    program_files: Option<String>,
    program_files_x86: Option<String>,
) -> (roots: Vec<String>)
    ensures
        strs(roots@) == spec_windows_python_search_roots(
            opt_string_view(local_app_data),
            opt_string_view(program_files),
            opt_string_view(program_files_x86),
        ),
{
    let mut roots: Vec<String> = Vec::new();
    if let Some(d) = local_app_data {
        let programs = path_join(d.as_str(), "Programs");
        roots.push(path_join(programs.as_str(), "Python"));
    }
    if let Some(d) = program_files {
        roots.push(d);
    }
    if let Some(d) = program_files_x86 {
        roots.push(d);
    }
    assert(strs(roots@) =~= spec_windows_python_search_roots(
        opt_string_view(local_app_data),
        opt_string_view(program_files),
        opt_string_view(program_files_x86),
    ));
    roots
}

/// An entry of a directory searched for Python installations.
#[derive(Debug, Clone)]
pub struct InstallDirEntry {
    pub name: String,
    pub is_dir: bool,
}

/// Whether an entry looks like a Python installation: a directory whose name
/// starts with `python`, ignoring ASCII case.
pub open spec fn is_python_install_dir(e: InstallDirEntry) -> bool {
    e.is_dir && starts_with(ascii_lower_all(e.name@), "python"@)
}

/// The `python.exe` of each Python installation among `entries` of `root`,
/// in the order of the entries.
pub open spec fn spec_python_install_candidates(root: Seq<char>, entries: Seq<InstallDirEntry>) -> Seq<
    Seq<char>,
>
    decreases entries.len(),
{
    if entries.len() == 0 {
        Seq::empty()
    } else {
        let rest = spec_python_install_candidates(root, entries.drop_last());
        let e = entries.last();
        if is_python_install_dir(e) {
            rest.push(join_path(join_path(root, e.name@), "python.exe"@))
        } else {
            rest
        }
    }
}

/// Appends to `candidates` the `python.exe` of each Python installation
/// among the `entries` of `root`.
pub fn collect_python_install_candidates(
    root: &str,
    entries: &Vec<InstallDirEntry>,
    candidates: &mut Vec<String>,
)
    ensures
        strs(final(candidates)@) == strs(old(candidates)@) + spec_python_install_candidates(
            root@,
            entries@,
        ),
{
    let prefix = chars_of("python");
    let mut i: usize = 0;
    while i < entries.len()
        invariant
            i <= entries.len(),
            prefix@ == "python"@,
            strs(candidates@) == strs(old(candidates)@) + spec_python_install_candidates(
                root@,
                entries@.take(i as int),
            ),
        decreases entries.len() - i,
    {
        let e = &entries[i];
        assert(entries@.take(i + 1).drop_last() =~= entries@.take(i as int));
        if e.is_dir {
            let lower = lower_ascii_chars(&chars_of(e.name.as_str()));
            if chars_start_with(&lower, &prefix) {
                let dir = path_join(root, e.name.as_str());
                let before = Ghost(strs(candidates@));
                candidates.push(path_join(dir.as_str(), "python.exe"));
                assert(strs(candidates@) =~= before@.push(candidates@.last()@));
            }
        }
        i = i + 1;
    }
    assert(entries@.take(entries.len() as int) =~= entries@);
}

/// Whether `v` starts with `p`.
fn chars_start_with(v: &Vec<char>, p: &Vec<char>) -> (b: bool)
    ensures
        b == starts_with(v@, p@),
{
    if p.len() > v.len() {
        return false;
    }
    let mut i: usize = 0;
    while i < p.len()
        invariant
            p.len() <= v.len(),
            i <= p.len(),
            v@.take(i as int) == p@.take(i as int),
        decreases p.len() - i,
    {
        if v[i] != p[i] {
            assert(v@.take(p.len() as int)[i as int] != p@[i as int]);
            return false;
        }
        assert(v@.take(i + 1) =~= v@.take(i as int).push(v@[i as int]));
        assert(p@.take(i + 1) =~= p@.take(i as int).push(p@[i as int]));
        i = i + 1;
    }
    assert(p@.take(p.len() as int) =~= p@);
    true
}

/// The key by which installation candidates are ordered: the code points of
/// the path with ASCII letters lower-cased.
pub open spec fn candidate_key(p: Seq<char>) -> Seq<int> {
    char_codes(ascii_lower_all(p))
}

/// Whether candidate `a`, found at position `ia`, is tried before candidate
/// `b`, found at `ib`: a greater key first, and of equal keys the one found
/// later.
pub open spec fn tried_before(a: Seq<char>, ia: int, b: Seq<char>, ib: int) -> bool {
    lex_lt(candidate_key(b), candidate_key(a)) || (candidate_key(a) == candidate_key(b) && ia > ib)
}

/// Whether `order` lists each position below `n` once.
pub open spec fn is_arrangement(order: Seq<int>, n: int) -> bool {
    &&& order.len() == n
    &&& forall|k: int| 0 <= k < n ==> 0 <= #[trigger] order[k] < n
    &&& forall|a: int, b: int| 0 <= a < b < n ==> order[a] != order[b]
}

/// Whether `out` holds the candidates `found` in the order in which they are
/// tried: `out[k]` is `found[order[k]]` for an arrangement `order` under
/// which each candidate is tried before every later one.
pub open spec fn in_trial_order(found: Seq<Seq<char>>, out: Seq<Seq<char>>) -> bool {
    exists|order: Seq<int>|
        {
            &&& is_arrangement(order, found.len() as int)
            &&& out.len() == found.len()
            &&& forall|k: int| 0 <= k < out.len() ==> out[k] == found[#[trigger] order[k]]
            &&& forall|a: int, b: int|
                0 <= a < b < out.len() ==> tried_before(out[a], order[a], out[b], order[b])
        }
}

/// Inserting a candidate found after all others at `pos`, the first place
/// whose key is not greater than its own, keeps the trial order.
proof fn lemma_insert_in_trial_order(
    outs: Seq<Seq<char>>,
    order: Seq<int>,
    pos: int,
    new: Seq<char>,
    i: int,
)
    requires
        outs.len() == order.len(),
        0 <= pos <= outs.len(),
        forall|k: int| 0 <= k < order.len() ==> #[trigger] order[k] < i,
        forall|a: int, b: int|
            0 <= a < b < outs.len() ==> tried_before(outs[a], order[a], outs[b], order[b]),
        forall|k: int| 0 <= k < pos ==> lex_lt(candidate_key(new), candidate_key(#[trigger] outs[k])),
        pos < outs.len() ==> !lex_lt(candidate_key(new), candidate_key(outs[pos])),
    ensures
        forall|a: int, b: int|
            0 <= a < b < outs.len() + 1 ==> tried_before(
                outs.insert(pos, new)[a],
                order.insert(pos, i)[a],
                outs.insert(pos, new)[b],
                order.insert(pos, i)[b],
            ),
{
    let no = outs.insert(pos, new);
    let nr = order.insert(pos, i);
    assert forall|a: int, b: int| 0 <= a < b < outs.len() + 1 implies tried_before(
        no[a],
        nr[a],
        no[b],
        nr[b],
    ) by {
        if a < pos && b < pos {
            assert(no[a] == outs[a] && no[b] == outs[b] && nr[a] == order[a] && nr[b] == order[b]);
        } else if a < pos && b == pos {
            assert(no[a] == outs[a]);
        } else if a < pos {
            assert(no[a] == outs[a] && no[b] == outs[b - 1] && nr[a] == order[a] && nr[b] == order[
                b - 1
            ]);
        } else if a == pos {
            let p = outs[pos];
            let q = outs[b - 1];
            assert(no[b] == q && nr[b] == order[b - 1]);
            assert(order[b - 1] < i);
            lemma_lex_order(candidate_key(new), candidate_key(p), candidate_key(q));
            lemma_lex_order(candidate_key(q), candidate_key(p), candidate_key(new));
            lemma_lex_order(candidate_key(p), candidate_key(new), candidate_key(q));
            if b - 1 > pos {
                assert(tried_before(p, order[pos], q, order[b - 1]));
            }
        } else {
            assert(no[a] == outs[a - 1] && no[b] == outs[b - 1] && nr[a] == order[a - 1] && nr[b]
                == order[b - 1]);
        }
    }
}

/// The Python installations found on Windows, in the order in which they are
/// tried: by path, ignoring ASCII case, from the greatest down, and of equal
/// paths the one found later first.
pub fn known_windows_python_candidates(found: Vec<String>) -> (out: Vec<String>)
    ensures
        in_trial_order(strs(found@), strs(out@)),
{
    let ghost fs = strs(found@);
    let mut out: Vec<String> = Vec::new();
    let mut keys: Vec<Vec<char>> = Vec::new();
    let ghost mut order: Seq<int> = Seq::empty();
    let mut i: usize = 0;
    while i < found.len()
        invariant
            i <= found.len(),
            fs == strs(found@),
            out.len() == i,
            keys.len() == i,
            is_arrangement(order, i as int),
            forall|k: int| 0 <= k < i ==> out@[k]@ == fs[#[trigger] order[k]],
            forall|k: int| 0 <= k < i ==> (#[trigger] keys@[k])@ == ascii_lower_all(out@[k]@),
            forall|a: int, b: int|
                0 <= a < b < i ==> tried_before(out@[a]@, order[a], out@[b]@, order[b]),
        decreases found.len() - i,
    {
        let s = found[i].clone();
        let key = lower_ascii_chars(&chars_of(s.as_str()));
        let mut pos: usize = 0;
        while pos < keys.len() && chars_before(&key, &keys[pos])
            invariant
                pos <= keys.len(),
                keys.len() == i,
                key@ == ascii_lower_all(s@),
                forall|k: int| 0 <= k < i ==> (#[trigger] keys@[k])@ == ascii_lower_all(out@[k]@),
                forall|k: int|
                    0 <= k < pos ==> lex_lt(candidate_key(s@), candidate_key(#[trigger] out@[k]@)),
            decreases keys.len() - pos,
        {
            pos = pos + 1;
        }
        proof {
            let outs = strs(out@);
            assert forall|k: int| 0 <= k < pos implies lex_lt(
                candidate_key(s@),
                candidate_key(#[trigger] outs[k]),
            ) by {
                assert(outs[k] == out@[k]@);
            }
            assert forall|a: int, b: int| 0 <= a < b < outs.len() implies tried_before(
                outs[a],
                order[a],
                outs[b],
                order[b],
            ) by {
                assert(outs[a] == out@[a]@ && outs[b] == out@[b]@);
            }
            if pos < i {
                assert(outs[pos as int] == out@[pos as int]@);
            }
            lemma_insert_in_trial_order(outs, order, pos as int, s@, i as int);
        }
        let ghost old_out = out@;
        let ghost old_keys = keys@;
        out.insert(pos, s);
        keys.insert(pos, key);
        proof {
            let old_order = order;
            order = order.insert(pos as int, i as int);
            assert(strs(out@) =~= strs(old_out).insert(pos as int, found@[i as int]@));
            assert forall|k: int| 0 <= k < i + 1 implies out@[k]@ == fs[#[trigger] order[k]] by {
                if k < pos {
                    assert(out@[k] == old_out[k]);
                } else if k > pos {
                    assert(out@[k] == old_out[k - 1]);
                }
            }
            assert forall|k: int| 0 <= k < i + 1 implies (#[trigger] keys@[k])@ == ascii_lower_all(
                out@[k]@,
            ) by {
                if k < pos {
                    assert(keys@[k] == old_keys[k] && out@[k] == old_out[k]);
                } else if k > pos {
                    assert(keys@[k] == old_keys[k - 1] && out@[k] == old_out[k - 1]);
                }
            }
            assert forall|a: int, b: int| 0 <= a < b < i + 1 implies tried_before(
                out@[a]@,
                order[a],
                out@[b]@,
                order[b],
            ) by {
                assert(out@[a]@ == strs(out@)[a] && out@[b]@ == strs(out@)[b]);
            }
            assert forall|k: int| 0 <= k < i + 1 implies 0 <= #[trigger] order[k] < i + 1 by {
                if k < pos {
                    assert(order[k] == old_order[k]);
                } else if k > pos {
                    assert(order[k] == old_order[k - 1]);
                }
            }
            assert forall|a: int, b: int| 0 <= a < b < i + 1 implies order[a] != order[b] by {
                if a < pos && b > pos {
                    assert(order[a] == old_order[a] && order[b] == old_order[b - 1]);
                } else if a > pos {
                    assert(order[a] == old_order[a - 1] && order[b] == old_order[b - 1]);
                } else if b < pos {
                    assert(order[a] == old_order[a] && order[b] == old_order[b]);
                } else if a == pos {
                    assert(order[b] == old_order[b - 1]);
                } else {
                    assert(order[a] == old_order[a]);
                }
            }
        }
        i = i + 1;
    }
    proof {
        let outs = strs(out@);
        assert forall|k: int| 0 <= k < outs.len() implies outs[k] == fs[#[trigger] order[k]] by {
            assert(outs[k] == out@[k]@);
        }
        assert forall|a: int, b: int| 0 <= a < b < outs.len() implies tried_before(
            outs[a],
            order[a],
            outs[b],
            order[b],
        ) by {
            assert(outs[a] == out@[a]@ && outs[b] == out@[b]@);
        }
        assert(is_arrangement(order, fs.len() as int));
    }
    out
}

} // verus!

verus! {

/// An entry of a virtual environment's `lib` directory: its name, and whether
/// a `site-packages` directory exists inside it.
#[derive(Debug, Clone)]
pub struct LibEntry {
    pub name: String,
    pub has_site_packages: bool,
}

/// What the host filesystem shows of a virtual environment.
#[derive(Debug, Clone)]
pub struct VenvFacts {
    /// Whether the environment's directory exists.
    pub exists: bool,
    /// Whether its Python executable exists.
    pub python_exists: bool,
    /// The entries of its `lib` directory, in directory order; `None` where
    /// there is no `lib` directory.
    pub lib_entries: Option<Vec<LibEntry>>,
}

/// Whether `s` starts with `p`.
pub open spec fn starts_with(s: Seq<char>, p: Seq<char>) -> bool {
    p.len() <= s.len() && s.take(p.len() as int) == p
}

/// Whether a `lib` entry holds the site packages: its name starts with
/// `python` and it has a `site-packages` directory.
pub open spec fn site_entry(e: LibEntry) -> bool {
    starts_with(e.name@, "python"@) && e.has_site_packages
}

/// The first entry that holds the site packages.
pub open spec fn first_site_entry(entries: Seq<LibEntry>) -> Option<LibEntry>
    decreases entries.len(),
{
    if entries.len() == 0 {
        None
    } else if site_entry(entries[0]) {
        Some(entries[0])
    } else {
        first_site_entry(entries.drop_first())
    }
}

/// The site-packages directory of a virtual environment: `Lib\site-packages`
/// on Windows; elsewhere `lib/<entry>/site-packages` for the first entry of
/// `lib` that holds it, or nothing when there is none.
pub open spec fn spec_site_packages(venv: Seq<char>, facts: VenvFacts, windows: bool) -> Option<Seq<char>> {
    if windows {
        Some(join_windows_path(join_windows_path(venv, "Lib"@), "site-packages"@))
    } else {
        match facts.lib_entries {
            None => None,
            Some(entries) => match first_site_entry(entries@) {
                Some(e) => Some(join_path(join_path(join_path(venv, "lib"@), e.name@), "site-packages"@)),
                None => None,
            },
        }
    }
}

fn starts_with_python(name: &str) -> (b: bool)
    ensures
        b == starts_with(name@, "python"@),
{
    chars_start_with(&chars_of(name), &chars_of("python"))
}

fn find_site_packages(venv: &str, facts: &VenvFacts, windows: bool) -> (r: Option<String>)
    ensures
        match r {
            Some(p) => spec_site_packages(venv@, *facts, windows) == Some(p@),
            None => spec_site_packages(venv@, *facts, windows) is None,
        },
{
    if windows {
        let d = windows_path_join(venv, "Lib");
        return Some(windows_path_join(d.as_str(), "site-packages"));
    }
    match &facts.lib_entries {
        None => None,
        Some(entries) => {
            let mut i: usize = 0;
            assert(entries@.skip(0) == entries@);
            while i < entries.len()
                invariant
                    i <= entries.len(),
                    !windows,
                    facts.lib_entries == Some(*entries),
                    first_site_entry(entries@) == first_site_entry(entries@.skip(i as int)),
                decreases entries.len() - i,
            {
                assert(entries@.skip(i as int).drop_first() == entries@.skip(i + 1));
                if starts_with_python(entries[i].name.as_str()) && entries[i].has_site_packages {
                    let lib = path_join(venv, "lib");
                    let d = path_join(lib.as_str(), entries[i].name.as_str());
                    return Some(path_join(d.as_str(), "site-packages"));
                }
                i = i + 1;
            }
            None
        },
    }
}

/// A Python virtual environment on the host.
#[derive(Debug, Clone)]
pub struct VenvManager {
    path: String,
    python_path: String,
    site_packages_path: String,
}

impl VenvManager {
    pub closed spec fn spec_path(&self) -> Seq<char> {
        self.path@
    }

    pub closed spec fn spec_python_path(&self) -> Seq<char> {
        self.python_path@
    }

    pub closed spec fn spec_site_packages_path(&self) -> Seq<char> {
        self.site_packages_path@
    }

    /// Loads the existing virtual environment at `path`; fails with
    /// `VenvNotFound` when the directory, its Python executable, or (outside
    /// Windows) its site-packages directory is missing.
    pub fn from_existing(path: &str, facts: &VenvFacts, windows: bool) -> (r: Result<VenvManager>)
        ensures
            match r {
                Ok(m) => facts.exists && facts.python_exists && spec_site_packages(
                    path@,
                    *facts,
                    windows,
                ) == Some(m.spec_site_packages_path()) && m.spec_path() == path@
                    && m.spec_python_path() == spec_python_executable(path@, windows),
                Err(e) => (!facts.exists || !facts.python_exists || spec_site_packages(
                    path@,
                    *facts,
                    windows,
                ) is None) && (e matches Error::VenvNotFound(p) && p@ == path@),
            },
    {
        if !facts.exists {
            return Err(Error::VenvNotFound(String::from_str(path)));
        }
        let python_path = python_executable(path, windows);
        if !facts.python_exists {
            return Err(Error::VenvNotFound(String::from_str(path)));
        }
        match find_site_packages(path, facts, windows) {
            None => Err(Error::VenvNotFound(String::from_str(path))),
            Some(site) => Ok(
                VenvManager { path: String::from_str(path), python_path, site_packages_path: site },
            ),
        }
    }

    /// The environment's directory.
    pub fn path(&self) -> (p: &str)
        ensures
            p@ == self.spec_path(),
    {
        self.path.as_str()
    }

    /// The environment's Python executable.
    pub fn python_path(&self) -> (p: &str)
        ensures
            p@ == self.spec_python_path(),
    {
        self.python_path.as_str()
    }

    /// The environment's site-packages directory.
    pub fn site_packages_path(&self) -> (p: &str)
        ensures
            p@ == self.spec_site_packages_path(),
    {
        self.site_packages_path.as_str()
    }

    /// Picks a runnable interpreter for host-side virtual environment setup
    /// (see `spec_select_interpreter`).
    pub fn resolve_python_interpreter(on_path: &Vec<Candidate>, known: &Vec<Candidate>) -> (r:
        Option<String>)
        ensures
            match r {
                Some(p) => spec_select_interpreter(on_path@, known@) == Some(p@),
                None => spec_select_interpreter(on_path@, known@) is None,
            },
    {
        resolve_python_interpreter(on_path, known)
    }
}

/// A program and its arguments.
#[derive(Debug, Clone)]
pub struct ToolCommand {
    pub program: String,
    pub args: Vec<String>,
}

/// The tool that creates a virtual environment and installs into it.
#[derive(Debug, Clone, Copy, PartialEq, Eq, Structural)]
pub enum VenvTool {
    /// `uv`.
    Uv,
    /// The interpreter's `venv` and `pip` modules.
    Pip,
}

/// How a virtual environment is obtained.
#[derive(Debug, Clone)]
pub enum VenvCreationPlan {
    /// The directory exists; it is loaded as it is.
    Reuse,
    /// It is created with `tool` by running `command`.
    Create { tool: VenvTool, command: ToolCommand },
}

/// `uv venv <path> [--python <python>] [--system-site-packages]`.
pub open spec fn spec_uv_venv_args(config: VenvConfig) -> Seq<Seq<char>> {
    seq!["venv"@, config.path@] + (match config.python {
        Some(p) => seq!["--python"@, p@],
        None => Seq::empty(),
    }) + (if config.system_site_packages {
        seq!["--system-site-packages"@]
    } else {
        Seq::empty()
    })
}

/// `<python> -m venv <path> [--system-site-packages]`.
pub open spec fn spec_python_venv_args(config: VenvConfig) -> Seq<Seq<char>> {
    seq!["-m"@, "venv"@, config.path@] + (if config.system_site_packages {
        seq!["--system-site-packages"@]
    } else {
        Seq::empty()
    })
}

fn push_string(v: &mut Vec<String>, s: &str)
    ensures
        strs(final(v)@) == strs(old(v)@).push(s@),
{
    v.push(String::from_str(s));
    assert(strs(v@) =~= strs(old(v)@).push(s@));
}

fn push_all_strings(v: &mut Vec<String>, items: &Vec<String>)
    ensures
        strs(final(v)@) == strs(old(v)@) + strs(items@),
{
    let mut i: usize = 0;
    while i < items.len()
        invariant
            i <= items.len(),
            strs(v@) == strs(old(v)@) + strs(items@).take(i as int),
        decreases items.len() - i,
    {
        push_string(v, items[i].as_str());
        assert(strs(items@).take(i + 1) =~= strs(items@).take(i as int).push(items@[i as int]@));
        i = i + 1;
    }
    assert(strs(items@).take(items.len() as int) =~= strs(items@));
}

/// How the virtual environment of `config` is obtained: an existing
/// directory is reused; otherwise `uv` creates it when asked for and
/// available, else the configured interpreter (or the one found on the host)
/// runs its `venv` module; without any interpreter the plan fails.
pub fn plan_venv_creation(
    config: &VenvConfig,
    exists: bool,
    uv_available: bool,
    host_python: Option<&str>,
) -> (r: Result<VenvCreationPlan>)
    ensures
        exists ==> r matches Ok(VenvCreationPlan::Reuse),
        !exists && config.use_uv && uv_available ==> (r matches Ok(
            VenvCreationPlan::Create { tool, command },
        ) && tool == VenvTool::Uv && command.program@ == "uv"@ && strs(command.args@)
            == spec_uv_venv_args(*config)),
        !exists && !(config.use_uv && uv_available) ==> match (config.python, host_python) {
            (Some(p), _) => r matches Ok(VenvCreationPlan::Create { tool, command }) && tool
                == VenvTool::Pip && command.program@ == p@ && strs(command.args@)
                == spec_python_venv_args(*config),
            (None, Some(p)) => r matches Ok(VenvCreationPlan::Create { tool, command }) && tool
                == VenvTool::Pip && command.program@ == p@ && strs(command.args@)
                == spec_python_venv_args(*config),
            (None, None) => r matches Err(e) && e == Error::PythonNotFound,
        },
{
    if exists {
        return Ok(VenvCreationPlan::Reuse);
    }
    let mut args: Vec<String> = Vec::new();
    if config.use_uv && uv_available {
        push_string(&mut args, "venv");
        push_string(&mut args, config.path.as_str());
        match &config.python {
            Some(p) => {
                push_string(&mut args, "--python");
                push_string(&mut args, p.as_str());
            },
            None => {},
        }
        if config.system_site_packages {
            push_string(&mut args, "--system-site-packages");
        }
        return Ok(
            VenvCreationPlan::Create {
                tool: VenvTool::Uv,
                command: ToolCommand { program: String::from_str("uv"), args },
            },
        );
    }
    let python = match &config.python {
        Some(p) => p.clone(),
        None => match host_python {
            Some(p) => String::from_str(p),
            None => {
                return Err(Error::PythonNotFound);
            },
        },
    };
    push_string(&mut args, "-m");
    push_string(&mut args, "venv");
    push_string(&mut args, config.path.as_str());
    if config.system_site_packages {
        push_string(&mut args, "--system-site-packages");
    }
    Ok(
        VenvCreationPlan::Create {
            tool: VenvTool::Pip,
            command: ToolCommand { program: python, args },
        },
    )
}

/// The command that installs `packages` into the environment whose
/// interpreter is `python_path`: none without packages;
/// `uv pip install --python <python> <packages>` with `uv`;
/// `<python> -m pip install <packages>` otherwise.
pub fn install_packages_command(tool: VenvTool, python_path: &str, packages: &Vec<String>) -> (r:
    Option<ToolCommand>)
    ensures
        packages@.len() == 0 ==> r is None,
        packages@.len() > 0 && tool == VenvTool::Uv ==> (r matches Some(c) && c.program@ == "uv"@
            && strs(c.args@) == seq!["pip"@, "install"@, "--python"@, python_path@] + strs(
            packages@,
        )),
        packages@.len() > 0 && tool == VenvTool::Pip ==> (r matches Some(c) && c.program@
            == python_path@ && strs(c.args@) == seq!["-m"@, "pip"@, "install"@] + strs(packages@)),
{
    if packages.len() == 0 {
        return None;
    }
    let mut args: Vec<String> = Vec::new();
    match tool {
        VenvTool::Uv => {
            push_string(&mut args, "pip");
            push_string(&mut args, "install");
            push_string(&mut args, "--python");
            push_string(&mut args, python_path);
            push_all_strings(&mut args, packages);
            Some(ToolCommand { program: String::from_str("uv"), args })
        },
        VenvTool::Pip => {
            push_string(&mut args, "-m");
            push_string(&mut args, "pip");
            push_string(&mut args, "install");
            push_all_strings(&mut args, packages);
            Some(ToolCommand { program: String::from_str(python_path), args })
        },
    }
}

/// The outcome of a creation or installation command from its exit status:
/// a failure carries the command's standard error.
pub fn venv_command_outcome(installing: bool, success: bool, stderr: &str) -> (r: Result<()>)
    ensures
        success ==> r is Ok,
        !success && !installing ==> (r matches Err(e) && e matches Error::VenvCreationFailed(m)
            && m@ == stderr@),
        !success && installing ==> (r matches Err(e) && e matches Error::PackageInstallFailed(m)
            && m@ == stderr@),
{
    if success {
        Ok(())
    } else if installing {
        Err(Error::PackageInstallFailed(String::from_str(stderr)))
    } else {
        Err(Error::VenvCreationFailed(String::from_str(stderr)))
    }
}

} // verus!

verus! {

/// Asking for the system site packages adds exactly one argument,
/// `--system-site-packages`, at the end of the command that creates the
/// environment, for `uv` and for the interpreter's `venv` module alike; the
/// other arguments do not depend on it. Without it the `venv` module gets
/// `-m venv <path>` and `uv` gets `venv <path>`, followed by `--python
/// <interpreter>` when one is named.
pub proof fn lemma_system_site_packages_flag(config: VenvConfig)
    ensures
        spec_python_venv_args(VenvConfig { system_site_packages: true, ..config })
            == spec_python_venv_args(VenvConfig { system_site_packages: false, ..config }).push(
            "--system-site-packages"@,
        ),
        spec_uv_venv_args(VenvConfig { system_site_packages: true, ..config }) == spec_uv_venv_args(
            VenvConfig { system_site_packages: false, ..config },
        ).push("--system-site-packages"@),
        !config.system_site_packages ==> spec_python_venv_args(config) == seq![
            "-m"@,
            "venv"@,
            config.path@,
        ],
        !config.system_site_packages ==> spec_uv_venv_args(config) == seq!["venv"@, config.path@]
            + match config.python {
            Some(p) => seq!["--python"@, p@],
            None => Seq::empty(),
        },
{
    let t = VenvConfig { system_site_packages: true, ..config };
    let f = VenvConfig { system_site_packages: false, ..config };
    assert(spec_python_venv_args(t) =~= spec_python_venv_args(f).push("--system-site-packages"@));
    assert(spec_uv_venv_args(t) =~= spec_uv_venv_args(f).push("--system-site-packages"@));
    assert(spec_python_venv_args(f) =~= seq!["-m"@, "venv"@, config.path@]);
    if !config.system_site_packages {
        assert(spec_uv_venv_args(config) =~= seq!["venv"@, config.path@] + match config.python {
            Some(p) => seq!["--python"@, p@],
            None => Seq::empty(),
        });
        assert(spec_python_venv_args(config) =~= seq!["-m"@, "venv"@, config.path@]);
    }
}

} // verus!
