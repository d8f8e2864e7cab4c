//! The environment a sandboxed process starts with. The host environment is
//! cleared; only listed variables pass through, then the command's own
//! variables are set (a later assignment overrides an earlier one).

use vstd::prelude::*;

use crate::command::{env_effective, env_view};
use crate::text::{join_path, path_join, push_str, string_of, strs};

verus! {

/// The host's value of `key`: the first entry for it, if any.
pub open spec fn host_lookup(host: Seq<(Seq<char>, Seq<char>)>, key: Seq<char>) -> Option<Seq<char>>
    decreases host.len(),
{
    if host.len() == 0 {
        None
    } else if host[0].0 == key {
        Some(host[0].1)
    } else {
        host_lookup(host.drop_first(), key)
    }
}

/// The assignments for the passed-through variables that the host sets, in the
/// order of `names`.
pub open spec fn passthrough_assignments(
    names: Seq<Seq<char>>,
    host: Seq<(Seq<char>, Seq<char>)>,
) -> Seq<(Seq<char>, Seq<char>)>
    decreases names.len(),
{
    if names.len() == 0 {
        seq![]
    } else {
        passthrough_assignments(names.drop_last(), host) + match host_lookup(host, names.last()) {
            Some(v) => seq![(names.last(), v)],
            None => seq![],
        }
    }
}

proof fn lemma_passthrough_entries(names: Seq<Seq<char>>, host: Seq<(Seq<char>, Seq<char>)>)
    ensures
        forall|i: int|
            0 <= i < passthrough_assignments(names, host).len() ==> names.contains(
                #[trigger] passthrough_assignments(names, host)[i].0,
            ) && host_lookup(host, passthrough_assignments(names, host)[i].0) == Some(
                passthrough_assignments(names, host)[i].1,
            ),
    decreases names.len(),
{
    if names.len() > 0 {
        let init = names.drop_last();
        lemma_passthrough_entries(init, host);
        let p = passthrough_assignments(init, host);
        assert forall|i: int| 0 <= i < passthrough_assignments(names, host).len() implies names.contains(
            #[trigger] passthrough_assignments(names, host)[i].0,
        ) && host_lookup(host, passthrough_assignments(names, host)[i].0) == Some(
            passthrough_assignments(names, host)[i].1,
        ) by {
            let q = passthrough_assignments(names, host);
            if i < p.len() {
                assert(q[i] == p[i]);
                let j = choose|j: int| 0 <= j < init.len() && init[j] == p[i].0;
                assert(names[j] == init[j]);
            } else {
                assert(q[i].0 == names.last());
                assert(names[names.len() - 1] == names.last());
            }
        }
    }
}

/// A sandboxed child gets nothing from the host but the passed-through
/// variables the host sets, each with the host's value; every other variable
/// it has was set on the command.
pub proof fn lemma_child_environment_isolated(
    names: Seq<Seq<char>>,
    host: Seq<(Seq<char>, Seq<char>)>,
    envs: Seq<(Seq<char>, Seq<char>)>,
    key: Seq<char>,
)
    ensures
        forall|i: int|
            0 <= i < passthrough_assignments(names, host).len() ==> names.contains(
                #[trigger] passthrough_assignments(names, host)[i].0,
            ) && host_lookup(host, passthrough_assignments(names, host)[i].0) == Some(
                passthrough_assignments(names, host)[i].1,
            ),
        (exists|i: int|
            0 <= i < (passthrough_assignments(names, host) + envs).len() && (
            passthrough_assignments(names, host) + envs)[i].0 == key) ==> names.contains(key)
            || exists|j: int| 0 <= j < envs.len() && envs[j].0 == key,
{
    lemma_passthrough_entries(names, host);
    let p = passthrough_assignments(names, host);
    if exists|i: int| 0 <= i < (p + envs).len() && (p + envs)[i].0 == key {
        let i = choose|i: int| 0 <= i < (p + envs).len() && (p + envs)[i].0 == key;
        if i < p.len() {
            assert((p + envs)[i] == p[i]);
        } else {
            assert((p + envs)[i] == envs[i - p.len()]);
        }
    }
}

/// Looks up `key` in the host environment.
pub fn lookup(host: &Vec<(String, String)>, key: &str) -> (r: Option<String>)
    ensures
        match r {
            Some(v) => host_lookup(env_view(host@), key@) == Some(v@),
            None => host_lookup(env_view(host@), key@) is None,
        },
{
    let k = String::from_str(key);
    let mut i: usize = 0;
    assert(env_view(host@).skip(0) == env_view(host@));
    while i < host.len()
        invariant
            i <= host.len(),
            k@ == key@,
            host_lookup(env_view(host@), key@) == host_lookup(env_view(host@).skip(i as int), key@),
        decreases host.len() - i,
    {
        let ghost rest = env_view(host@).skip(i as int);
        assert(rest.drop_first() == env_view(host@).skip(i + 1));
        if host[i].0 == k {
            return Some(host[i].1.clone());
        }
        i = i + 1;
    }
    None
}

fn push_pair(out: &mut Vec<(String, String)>, k: String, v: String)
    ensures
        env_view(final(out)@) == env_view(old(out)@).push((k@, v@)),
{
    out.push((k, v));
    assert(env_view(out@) == env_view(old(out)@).push((k@, v@)));
}

fn push_passthrough(out: &mut Vec<(String, String)>, names: &Vec<String>, host: &Vec<(String, String)>)
    ensures
        env_view(final(out)@) == env_view(old(out)@) + passthrough_assignments(
            strs(names@),
            env_view(host@),
        ),
{
    let mut i: usize = 0;
    while i < names.len()
        invariant
            i <= names.len(),
            env_view(out@) == env_view(old(out)@) + passthrough_assignments(
                strs(names@.take(i as int)),
                env_view(host@),
            ),
        decreases names.len() - i,
    {
        proof {
            assert(strs(names@.take(i + 1)).drop_last() == strs(names@.take(i as int)));
        }
        match lookup(host, names[i].as_str()) {
            Some(v) => push_pair(out, names[i].clone(), v),
            None => {},
        }
        i = i + 1;
    }
    assert(names@.take(names.len() as int) == names@);
}

fn push_all(out: &mut Vec<(String, String)>, envs: &Vec<(String, String)>)
    ensures
        env_view(final(out)@) == env_view(old(out)@) + env_view(envs@),
{
    let mut i: usize = 0;
    while i < envs.len()
        invariant
            i <= envs.len(),
            env_view(out@) == env_view(old(out)@) + env_view(envs@.take(i as int)),
        decreases envs.len() - i,
    {
        push_pair(out, envs[i].0.clone(), envs[i].1.clone());
        assert(env_view(envs@.take(i + 1)) == env_view(envs@.take(i as int)).push(
            (envs@[i as int].0@, envs@[i as int].1@),
        ));
        i = i + 1;
    }
    assert(envs@.take(envs.len() as int) == envs@);
}

/// The environment of a sandboxed child: the passed-through host variables,
/// then the command's variables.
pub fn child_environment(
    passthrough: &Vec<String>,
    host: &Vec<(String, String)>,
    envs: &Vec<(String, String)>,
) -> (out: Vec<(String, String)>)
    ensures
        env_view(out@) == passthrough_assignments(strs(passthrough@), env_view(host@))
            + env_view(envs@),
{
    let mut out: Vec<(String, String)> = Vec::new();
    push_passthrough(&mut out, passthrough, host);
    push_all(&mut out, envs);
    out
}

/// Terminal-related variables an interactive session passes through.
pub open spec fn pty_standard_vars() -> Seq<&'static str> {
    seq!["PATH", "TERM", "HOME", "USER", "SHELL", "LANG", "LC_ALL"]
}

/// The environment assignments of an interactive (PTY) session, in order: the
/// terminal-related host variables, `TERM=xterm-256color` when the host has no
/// `TERM`, the passed-through variables, the proxy variables when a proxy runs,
/// the session's variables, and, with IPC, `LEASH_IPC_ENDPOINT` and `PATH`
/// with `<working dir>/.leash/bin` in front.
pub open spec fn spec_pty_environment(
    host: Seq<(Seq<char>, Seq<char>)>,
    passthrough: Seq<Seq<char>>,
    proxy_url: Option<Seq<char>>,
    envs: Seq<(Seq<char>, Seq<char>)>,
    ipc_endpoint: Option<Seq<char>>,
    working_dir: Seq<char>,
) -> Seq<(Seq<char>, Seq<char>)> {
    passthrough_assignments(pty_standard_vars().map_values(|s: &str| s@), host) + (if host_lookup(
        host,
        "TERM"@,
    ) is None {
        seq![("TERM"@, "xterm-256color"@)]
    } else {
        seq![]
    }) + passthrough_assignments(passthrough, host) + (match proxy_url {
        Some(u) => seq![("HTTP_PROXY"@, u), ("HTTPS_PROXY"@, u), ("http_proxy"@, u), ("https_proxy"@, u)],
        None => seq![],
    }) + envs + match ipc_endpoint {
        Some(e) => seq![
            ("LEASH_IPC_ENDPOINT"@, e),
            (
                "PATH"@,
                join_path(join_path(working_dir, ".leash"@), "bin"@) + seq![':'] + match host_lookup(
                    host,
                    "PATH"@,
                ) {
                    Some(p) => p,
                    None => seq![],
                },
            ),
        ],
        None => seq![],
    }
}

fn leash_path(host: &Vec<(String, String)>, working_dir: &str) -> (v: String)
    ensures
        v@ == join_path(join_path(working_dir@, ".leash"@), "bin"@) + seq![':'] + match host_lookup(
            env_view(host@),
            "PATH"@,
        ) {
            Some(p) => p,
            None => seq![],
        },
{
    let leash_dir = path_join(working_dir, ".leash");
    let leash_bin = path_join(leash_dir.as_str(), "bin");
    let mut value: Vec<char> = Vec::new();
    push_str(&mut value, leash_bin.as_str());
    value.push(':');
    match lookup(host, "PATH") {
        Some(p) => push_str(&mut value, p.as_str()),
        None => {
            assert(value@ + Seq::<char>::empty() == value@);
        },
    }
    string_of(&value)
}

/// Builds the environment of an interactive session (see `spec_pty_environment`).
pub fn pty_environment(
    host: &Vec<(String, String)>,
    passthrough: &Vec<String>,
    proxy_url: Option<&str>,
    envs: &Vec<(String, String)>,
    ipc_endpoint: Option<&str>,
    working_dir: &str,
) -> (out: Vec<(String, String)>)
    ensures
        env_view(out@) == spec_pty_environment(
            env_view(host@),
            strs(passthrough@),
            match proxy_url {
                Some(u) => Some(u@),
                None => None,
            },
            env_view(envs@),
            match ipc_endpoint {
                Some(e) => Some(e@),
                None => None,
            },
            working_dir@,
        ),
{
    let mut std_vars: Vec<String> = Vec::new();
    let names: [&str; 7] = ["PATH", "TERM", "HOME", "USER", "SHELL", "LANG", "LC_ALL"];
    let mut i: usize = 0;
    while i < 7
        invariant
            i <= 7,
            names@ == pty_standard_vars(),
            strs(std_vars@) == names@.take(i as int).map_values(|s: &str| s@),
        decreases 7 - i,
    {
        let s = String::from_str(names[i]);
        std_vars.push(s);
        assert(strs(std_vars@) == strs(std_vars@.drop_last()).push(s@));
        assert(names@.take(i + 1).map_values(|s: &str| s@) == names@.take(i as int).map_values(
            |s: &str| s@,
        ).push(names@[i as int]@));
        i = i + 1;
    }
    assert(names@.take(7) == names@);
    let mut out: Vec<(String, String)> = Vec::new();
    push_passthrough(&mut out, &std_vars, host);
    let ghost a = env_view(out@);
    match lookup(host, "TERM") {
        None => push_pair(&mut out, String::from_str("TERM"), String::from_str("xterm-256color")),
        Some(_) => {},
    }
    let ghost b = env_view(out@);
    push_passthrough(&mut out, passthrough, host);
    let ghost c = env_view(out@);
    match proxy_url {
        Some(u) => {
            push_pair(&mut out, String::from_str("HTTP_PROXY"), String::from_str(u));
            push_pair(&mut out, String::from_str("HTTPS_PROXY"), String::from_str(u));
            push_pair(&mut out, String::from_str("http_proxy"), String::from_str(u));
            push_pair(&mut out, String::from_str("https_proxy"), String::from_str(u));
        },
        None => {},
    }
    let ghost d = env_view(out@);
    push_all(&mut out, envs);
    let ghost e = env_view(out@);
    match ipc_endpoint {
        Some(endpoint) => {
            push_pair(&mut out, String::from_str("LEASH_IPC_ENDPOINT"), String::from_str(endpoint));
            let value = leash_path(host, working_dir);
            push_pair(&mut out, String::from_str("PATH"), value);
        },
        None => {},
    }
    proof {
        let z: Seq<(Seq<char>, Seq<char>)> = seq![];
        assert(strs(std_vars@) == pty_standard_vars().map_values(|s: &str| s@));
        assert(a == passthrough_assignments(pty_standard_vars().map_values(|s: &str| s@), env_view(host@)));
        if host_lookup(env_view(host@), "TERM"@) is Some {
            assert(b == a + z);
        } else {
            assert(b == a + seq![("TERM"@, "xterm-256color"@)]);
        }
        match proxy_url {
            None => {
                assert(d == c + z);
            },
            Some(u) => {
                assert(d == c + seq![
                    ("HTTP_PROXY"@, u@),
                    ("HTTPS_PROXY"@, u@),
                    ("http_proxy"@, u@),
                    ("https_proxy"@, u@),
                ]);
            },
        }
        match ipc_endpoint {
            None => {
                assert(env_view(out@) == e + z);
            },
            Some(ep) => {
                let tail = env_view(out@).subrange(e.len() as int, env_view(out@).len() as int);
                assert(env_view(out@) == e + tail);
                assert(tail[0] == ("LEASH_IPC_ENDPOINT"@, ep@));
                assert(tail.len() == 2);
            },
        }
    }
    out
}

} // verus!

verus! {

/// The value of `key` after `a` then `b`: `b`'s if it sets `key`, else `a`'s.
proof fn lemma_effective_concat(
    a: Seq<(Seq<char>, Seq<char>)>,
    b: Seq<(Seq<char>, Seq<char>)>,
    key: Seq<char>,
)
    ensures
        env_effective(a + b, key) == match env_effective(b, key) {
            Some(v) => Some(v),
            None => env_effective(a, key),
        },
    decreases b.len(),
{
    if b.len() == 0 {
        assert(a + b =~= a);
    } else {
        lemma_effective_concat(a, b.drop_last(), key);
        assert((a + b).drop_last() =~= a + b.drop_last());
        assert((a + b).last() == b.last());
    }
}

/// A passed-through variable has the host's value; other variables are unset.
proof fn lemma_effective_passthrough(
    names: Seq<Seq<char>>,
    host: Seq<(Seq<char>, Seq<char>)>,
    key: Seq<char>,
)
    ensures
        env_effective(passthrough_assignments(names, host), key) == if names.contains(key) {
            host_lookup(host, key)
        } else {
            None
        },
    decreases names.len(),
{
    if names.len() > 0 {
        let init = names.drop_last();
        lemma_effective_passthrough(init, host, key);
        let tail = match host_lookup(host, names.last()) {
            Some(v) => seq![(names.last(), v)],
            None => Seq::<(Seq<char>, Seq<char>)>::empty(),
        };
        assert(passthrough_assignments(names, host) == passthrough_assignments(init, host) + tail);
        lemma_effective_concat(passthrough_assignments(init, host), tail, key);
        if tail.len() == 1 {
            assert(tail.drop_last() =~= Seq::<(Seq<char>, Seq<char>)>::empty());
            assert(tail.last().0 == names.last());
            assert(env_effective(Seq::<(Seq<char>, Seq<char>)>::empty(), key) is None);
            if names.last() == key {
                assert(env_effective(tail, key) == host_lookup(host, key));
            } else {
                assert(env_effective(tail, key) is None);
            }
        } else {
            assert(tail =~= Seq::<(Seq<char>, Seq<char>)>::empty());
            assert(env_effective(tail, key) is None);
        }
        assert(names.contains(key) == (init.contains(key) || names.last() == key)) by {
            if names.contains(key) && names.last() != key {
                let j = choose|j: int| 0 <= j < names.len() && names[j] == key;
                assert(j < init.len());
                assert(init[j] == names[j]);
            }
            if init.contains(key) {
                let j = choose|j: int| 0 <= j < init.len() && init[j] == key;
                assert(names[j] == init[j]);
            }
            if names.last() == key {
                assert(names[names.len() - 1] == key);
            }
        }
    }
}

/// No entry for `key` leaves it unset.
proof fn lemma_effective_absent(envs: Seq<(Seq<char>, Seq<char>)>, key: Seq<char>)
    requires
        forall|i: int| 0 <= i < envs.len() ==> envs[i].0 != key,
    ensures
        env_effective(envs, key) is None,
    decreases envs.len(),
{
    if envs.len() > 0 {
        lemma_effective_absent(envs.drop_last(), key);
        assert(envs.last() == envs[envs.len() - 1]);
    }
}

/// An interactive session keeps the host's terminal type: unless the session
/// sets `TERM` itself, it sees the host's `TERM` whenever the host sets one,
/// and `xterm-256color` only when the host does not.
pub proof fn lemma_pty_keeps_host_term(
    host: Seq<(Seq<char>, Seq<char>)>,
    passthrough: Seq<Seq<char>>,
    proxy_url: Option<Seq<char>>,
    envs: Seq<(Seq<char>, Seq<char>)>,
    ipc_endpoint: Option<Seq<char>>,
    working_dir: Seq<char>,
)
    requires
        forall|i: int| 0 <= i < envs.len() ==> envs[i].0 != "TERM"@,
    ensures
        env_effective(
            spec_pty_environment(host, passthrough, proxy_url, envs, ipc_endpoint, working_dir),
            "TERM"@,
        ) == Some(
            match host_lookup(host, "TERM"@) {
                Some(t) => t,
                None => "xterm-256color"@,
            },
        ),
{
    reveal_strlit("TERM");
    reveal_strlit("PATH");
    reveal_strlit("HOME");
    reveal_strlit("USER");
    reveal_strlit("SHELL");
    reveal_strlit("LANG");
    reveal_strlit("LC_ALL");
    reveal_strlit("HTTP_PROXY");
    reveal_strlit("HTTPS_PROXY");
    reveal_strlit("http_proxy");
    reveal_strlit("https_proxy");
    reveal_strlit("LEASH_IPC_ENDPOINT");
    reveal_strlit("xterm-256color");
    let t = "TERM"@;
    let std = pty_standard_vars().map_values(|s: &str| s@);
    assert(std[1] == t);
    assert(std.contains(t));
    let a = passthrough_assignments(std, host);
    let d = if host_lookup(host, t) is None {
        seq![(t, "xterm-256color"@)]
    } else {
        Seq::<(Seq<char>, Seq<char>)>::empty()
    };
    let p = passthrough_assignments(passthrough, host);
    let x = match proxy_url {
        Some(u) => seq![("HTTP_PROXY"@, u), ("HTTPS_PROXY"@, u), ("http_proxy"@, u), ("https_proxy"@, u)],
        None => Seq::<(Seq<char>, Seq<char>)>::empty(),
    };
    let i = match ipc_endpoint {
        Some(e) => seq![
            ("LEASH_IPC_ENDPOINT"@, e),
            (
                "PATH"@,
                join_path(join_path(working_dir, ".leash"@), "bin"@) + seq![':'] + match host_lookup(
                    host,
                    "PATH"@,
                ) {
                    Some(v) => v,
                    None => seq![],
                },
            ),
        ],
        None => Seq::<(Seq<char>, Seq<char>)>::empty(),
    };
    assert(spec_pty_environment(host, passthrough, proxy_url, envs, ipc_endpoint, working_dir)
        == a + d + p + x + envs + i);
    lemma_effective_passthrough(std, host, t);
    lemma_effective_passthrough(passthrough, host, t);
    if d.len() == 1 {
        assert(d.drop_last() =~= Seq::<(Seq<char>, Seq<char>)>::empty());
    }
    assert(forall|j: int| 0 <= j < x.len() ==> x[j].0 != t);
    assert("PATH"@[0] != t[0]);
    assert("LEASH_IPC_ENDPOINT"@.len() != t.len());
    assert(forall|j: int| 0 <= j < i.len() ==> i[j].0 != t);
    lemma_effective_absent(x, t);
    lemma_effective_absent(envs, t);
    lemma_effective_absent(i, t);
    lemma_effective_concat(a, d, t);
    lemma_effective_concat(a + d, p, t);
    lemma_effective_concat(a + d + p, x, t);
    lemma_effective_concat(a + d + p + x, envs, t);
    lemma_effective_concat(a + d + p + x + envs, i, t);
}

} // verus!
