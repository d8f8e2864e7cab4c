//! Finding the `heel` binary that IPC wrapper scripts call, and the launcher
//! script that calls it: `HEEL_BIN`, a freshly built bundled binary, or the
//! one on `PATH`.

use vstd::prelude::*;

use crate::error::{Error, Result};
use crate::text::{
    chars_of, join_path, path_join, push_str, split_at_char, split_once_from, string_of, strs,
};

verus! {

/// Characters `shell_escape::unix::escape` leaves as they are.
pub open spec fn unix_plain_char(c: char) -> bool {
    ||| ('a' <= c && c <= 'z')
    ||| ('A' <= c && c <= 'Z')
    ||| ('0' <= c && c <= '9')
    ||| c == '-' || c == '_' || c == '=' || c == '/' || c == ',' || c == '.' || c == '+'
}

/// The inside of a single-quoted word: `'` and `!` close the quote, appear
/// backslash-escaped and reopen it; other characters stay.
pub open spec fn unix_quoted_body(s: Seq<char>) -> Seq<char>
    decreases s.len(),
{
    if s.len() == 0 {
        seq![]
    } else {
        let c = s.last();
        unix_quoted_body(s.drop_last()) + if c == '\'' || c == '!' {
            seq!['\'', '\\', c, '\'']
        } else {
            seq![c]
        }
    }
}

/// What `shell_escape::unix::escape` returns: a non-empty word of plain
/// characters as it is, anything else single-quoted.
pub open spec fn spec_unix_escape(s: Seq<char>) -> Seq<char> {
    if s.len() > 0 && forall|i: int| 0 <= i < s.len() ==> unix_plain_char(#[trigger] s[i]) {
        s
    } else {
        seq!['\''] + unix_quoted_body(s) + seq!['\'']
    }
}

/// Calls `shell_escape::unix::escape`, whose result is `spec_unix_escape`:
/// the crate's source keeps a non-empty string of `[a-zA-Z0-9-_=/,.+]` as it
/// is and otherwise wraps it in single quotes, writing `'` and `!` as `'\'`
/// and `'\!'` followed by a reopening quote.
#[verifier::external_body]
fn shell_escape_unix(s: &str) -> (r: String)
    ensures
        r@ == spec_unix_escape(s@),
{
    shell_escape::unix::escape(std::borrow::Cow::Borrowed(s)).into_owned()
}

/// The launcher placed in the IPC bin directory: its path, and the binary it
/// runs, escaped for the shell.
#[derive(Debug, Clone)]
pub struct HeelLauncher {
    pub path: String,
    pub binary: String,
}

/// The launcher for `binary` in `bin_dir`: `<bin_dir>/heel`, running the
/// binary's path escaped for a Unix shell.
pub fn heel_launcher(bin_dir: &str, binary: &str) -> (l: HeelLauncher)
    ensures
        l.path@ == join_path(bin_dir@, "heel"@),
        l.binary@ == spec_unix_escape(binary@),
{
    HeelLauncher { path: path_join(bin_dir, "heel"), binary: shell_escape_unix(binary) }
}

/// The places `PATH` names for an executable `name`, in order (`PATH` split
/// at `:`, each entry joined with `name`).
pub open spec fn spec_path_candidates(path_var: Seq<char>, name: Seq<char>) -> Seq<Seq<char>> {
    split_at_char(path_var, ':').map_values(|d: Seq<char>| join_path(d, name))
}

/// The places `PATH` names for an executable `name` (see `spec_path_candidates`).
pub fn path_candidates(path_var: &str, name: &str) -> (out: Vec<String>)
    ensures
        strs(out@) == spec_path_candidates(path_var@, name@),
{
    let v = chars_of(path_var);
    let mut out: Vec<String> = Vec::new();
    let mut pos: usize = 0;
    let mut done = false;
    let ghost all = split_at_char(v@, ':');
    assert(v@.skip(0) =~= v@);
    while !done
        invariant
            pos <= v.len(),
            v@ == path_var@,
            all == split_at_char(v@, ':'),
            all.map_values(|d: Seq<char>| join_path(d, name@)) == strs(out@) + (if done {
                Seq::<Seq<char>>::empty()
            } else {
                split_at_char(v@.skip(pos as int), ':')
            }).map_values(|d: Seq<char>| join_path(d, name@)),
        decreases v.len() - pos + (if done { 0int } else { 1int }),
    {
        let (piece, next) = split_once_from(&v, ':', pos);
        let p = string_of(&piece);
        let ghost before = out@;
        out.push(path_join(p.as_str(), name));
        match next {
            Some(n) => {
                let ghost rest = split_at_char(v@.skip(n as int), ':');
                assert((seq![piece@] + rest).map_values(|d: Seq<char>| join_path(d, name@)) =~= seq![
                    join_path(piece@, name@),
                ] + rest.map_values(|d: Seq<char>| join_path(d, name@)));
                assert(strs(out@) =~= strs(before).push(join_path(piece@, name@)));
                pos = n;
            },
            None => {
                assert(seq![piece@].map_values(|d: Seq<char>| join_path(d, name@)) =~= seq![
                    join_path(piece@, name@),
                ]);
                assert(strs(out@) =~= strs(before).push(join_path(piece@, name@)));
                done = true;
            },
        }
    }
    out
}

/// Where the bundled binary is built: `<manifest>/target/debug/heel<suffix>`.
pub fn bundled_heel_path(manifest_dir: &str, exe_suffix: &str) -> (p: String)
    ensures
        p@ == join_path(join_path(join_path(manifest_dir@, "target"@), "debug"@), "heel"@ + exe_suffix@),
{
    let t = path_join(manifest_dir, "target");
    let d = path_join(t.as_str(), "debug");
    let mut name: Vec<char> = Vec::new();
    push_str(&mut name, "heel");
    push_str(&mut name, exe_suffix);
    let n = string_of(&name);
    path_join(d.as_str(), n.as_str())
}

/// The sources a bundled binary is built from; it is stale when any of them
/// changed after it.
pub open spec fn spec_heel_dependency_paths(m: Seq<char>) -> Seq<Seq<char>> {
    seq![
        join_path(m, "Cargo.toml"@),
        join_path(m, "Cargo.lock"@),
        join_path(m, "src"@),
        join_path(m, "templates"@),
        join_path(join_path(m, "cli"@), "Cargo.toml"@),
        join_path(join_path(m, "cli"@), "src"@),
    ]
}

/// The sources a bundled binary is built from (see `spec_heel_dependency_paths`).
pub fn heel_dependency_paths(manifest_dir: &str) -> (out: Vec<String>)
    ensures
        strs(out@) == spec_heel_dependency_paths(manifest_dir@),
{
    let mut out: Vec<String> = Vec::new();
    out.push(path_join(manifest_dir, "Cargo.toml"));
    out.push(path_join(manifest_dir, "Cargo.lock"));
    out.push(path_join(manifest_dir, "src"));
    out.push(path_join(manifest_dir, "templates"));
    let cli = path_join(manifest_dir, "cli");
    out.push(path_join(cli.as_str(), "Cargo.toml"));
    out.push(path_join(cli.as_str(), "src"));
    assert(strs(out@) =~= spec_heel_dependency_paths(manifest_dir@));
    out
}

/// The newest of a modification time and those below it.
pub open spec fn newest_of(own: u128, below: Seq<u128>) -> u128
    decreases below.len(),
{
    if below.len() == 0 {
        own
    } else {
        let rest = newest_of(own, below.drop_last());
        if below.last() > rest {
            below.last()
        } else {
            rest
        }
    }
}

/// The newest of a directory's modification time and its entries' newest times.
pub fn newest_modified_time(own: u128, below: &Vec<u128>) -> (t: u128)
    ensures
        t == newest_of(own, below@),
        t >= own,
        forall|i: int| 0 <= i < below@.len() ==> t >= below@[i],
{
    let mut newest = own;
    let mut i: usize = 0;
    while i < below.len()
        invariant
            i <= below.len(),
            newest == newest_of(own, below@.take(i as int)),
            newest >= own,
            forall|k: int| 0 <= k < i ==> newest >= below@[k],
        decreases below.len() - i,
    {
        assert(below@.take(i + 1).drop_last() =~= below@.take(i as int));
        if below[i] > newest {
            newest = below[i];
        }
        i = i + 1;
    }
    assert(below@.take(below.len() as int) =~= below@);
    newest
}

/// Whether the bundled binary can be used as it is: it exists and no source
/// changed after it.
pub fn bundled_heel_is_fresh(binary_is_file: bool, binary_modified: u128, sources_newest: &Vec<u128>) -> (b:
    bool)
    ensures
        b == (binary_is_file && forall|i: int|
            0 <= i < sources_newest@.len() ==> sources_newest@[i] <= binary_modified),
{
    if !binary_is_file {
        return false;
    }
    let mut i: usize = 0;
    while i < sources_newest.len()
        invariant
            i <= sources_newest.len(),
            forall|k: int| 0 <= k < i ==> sources_newest@[k] <= binary_modified,
        decreases sources_newest.len() - i,
    {
        if sources_newest[i] > binary_modified {
            return false;
        }
        i = i + 1;
    }
    true
}

/// The arguments that build the bundled binary: `build --bin heel`.
pub fn cargo_build_args() -> (args: Vec<String>)
    ensures
        strs(args@) == seq!["build"@, "--bin"@, "heel"@],
{
    let mut args: Vec<String> = Vec::new();
    args.push(String::from_str("build"));
    args.push(String::from_str("--bin"));
    args.push(String::from_str("heel"));
    assert(strs(args@) =~= seq!["build"@, "--bin"@, "heel"@]);
    args
}

/// An initialization failure with message `m`.
pub open spec fn init_failed(e: Error, m: Seq<char>) -> bool {
    e matches Error::InitFailed(x) && x@ == m
}

fn init_error(parts: &[&str]) -> (e: Error)
    ensures
        e matches Error::InitFailed(m) && m@ == concat_strs(parts@),
{
    let mut out: Vec<char> = Vec::new();
    let mut i: usize = 0;
    while i < parts.len()
        invariant
            i <= parts.len(),
            out@ == concat_strs(parts@.take(i as int)),
        decreases parts.len() - i,
    {
        assert(parts@.take(i + 1).drop_last() =~= parts@.take(i as int));
        push_str(&mut out, parts[i]);
        i = i + 1;
    }
    assert(parts@.take(parts.len() as int) =~= parts@);
    Error::InitFailed(string_of(&out))
}

/// The texts of `parts`, one after another.
pub open spec fn concat_strs(parts: Seq<&str>) -> Seq<char>
    decreases parts.len(),
{
    if parts.len() == 0 {
        seq![]
    } else {
        concat_strs(parts.drop_last()) + parts.last()@
    }
}

/// The cargo that builds the bundled binary: `CARGO`, else the one on `PATH`.
pub fn cargo_program(cargo_env: Option<&str>, on_path: Option<&str>) -> (r: Result<String>)
    ensures
        match (cargo_env, on_path) {
            (Some(c), _) => r matches Ok(p) && p@ == c@,
            (None, Some(c)) => r matches Ok(p) && p@ == c@,
            (None, None) => r matches Err(e) && init_failed(
                e,
                "failed to resolve cargo while preparing heel"@,
            ),
        },
{
    match cargo_env {
        Some(c) => Ok(String::from_str(c)),
        None => match on_path {
            Some(c) => Ok(String::from_str(c)),
            None => Err(Error::InitFailed(String::from_str("failed to resolve cargo while preparing heel"))),
        },
    }
}

/// The outcome of building the bundled binary: the binary, provided the
/// build succeeded and the binary is there.
pub fn bundled_build_outcome(build_succeeded: bool, status: &str, binary: &str, binary_is_file: bool) -> (r:
    Result<String>)
    ensures
        !build_succeeded ==> (r matches Err(e) && init_failed(
            e,
            "cargo build --bin heel exited with status "@ + status@,
        )),
        build_succeeded && binary_is_file ==> (r matches Ok(p) && p@ == binary@),
        build_succeeded && !binary_is_file ==> (r matches Err(e) && init_failed(
            e,
            "cargo reported success but heel binary is missing at "@ + binary@,
        )),
{
    if !build_succeeded {
        let e = init_error(&["cargo build --bin heel exited with status ", status]);
        proof {
            reveal_with_fuel(concat_strs, 3);
        }
        return Err(e);
    }
    if binary_is_file {
        Ok(String::from_str(binary))
    } else {
        let e = init_error(&["cargo reported success but heel binary is missing at ", binary]);
        proof {
            reveal_with_fuel(concat_strs, 3);
        }
        Err(e)
    }
}

/// The binary named by `HEEL_BIN`, when that variable is set: it must be a file.
pub fn heel_bin_from_env(value: Option<&str>, is_file: bool) -> (r: Option<Result<String>>)
    ensures
        match value {
            None => r is None,
            Some(v) => if is_file {
                r matches Some(Ok(p)) && p@ == v@
            } else {
                r matches Some(Err(e)) && init_failed(e, "HEEL_BIN points to a missing file: "@ + v@)
            },
        },
{
    match value {
        None => None,
        Some(v) => {
            if is_file {
                Some(Ok(String::from_str(v)))
            } else {
                let e = init_error(&["HEEL_BIN points to a missing file: ", v]);
                proof {
                    reveal_with_fuel(concat_strs, 3);
                }
                Some(Err(e))
            }
        },
    }
}

/// The last resort: the `heel` found on `PATH`.
pub fn heel_from_path(found: Option<&str>) -> (r: Result<String>)
    ensures
        match found {
            Some(p) => r matches Ok(q) && q@ == p@,
            None => r matches Err(e) && init_failed(e, "failed to resolve heel binary"@),
        },
{
    match found {
        Some(p) => Ok(String::from_str(p)),
        None => Err(Error::InitFailed(String::from_str("failed to resolve heel binary"))),
    }
}

} // verus!

verus! {

/// Finds the `heel` binary the IPC helpers run: `HEEL_BIN` when it is set
/// (it must name a file), else the bundled binary when it could be prepared
/// (`bundled`, the outcome of preparing it), else the `heel` found on `PATH`.
pub fn resolve_heel_binary(
    heel_bin: Option<&str>,
    heel_bin_is_file: bool,
    bundled: Option<Result<String>>,
    on_path: Option<&str>,
) -> (r: Result<String>)
    ensures
        match heel_bin {
            Some(v) => if heel_bin_is_file {
                r matches Ok(p) && p@ == v@
            } else {
                r matches Err(e) && init_failed(e, "HEEL_BIN points to a missing file: "@ + v@)
            },
            None => match bundled {
                Some(Ok(b)) => r matches Ok(p) && p@ == b@,
                _ => match on_path {
                    Some(q) => r matches Ok(p) && p@ == q@,
                    None => r matches Err(e) && init_failed(e, "failed to resolve heel binary"@),
                },
            },
        },
{
    match heel_bin_from_env(heel_bin, heel_bin_is_file) {
        Some(r) => r,
        None => match bundled {
            Some(Ok(b)) => Ok(b),
            _ => heel_from_path(on_path),
        },
    }
}

} // verus!
