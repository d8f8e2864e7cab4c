//! Child processes a sandbox has spawned, which are killed when it goes away,
//! and the command that kills a Windows process tree.

use vstd::prelude::*;

use crate::command::env_view;
use crate::text::{
    chars_eq_ignore_ascii_case, chars_of, decimal, eq_ignore_ascii_case, join_windows_path, windows_path_join,
    u64_to_decimal,
};

verus! {

/// `ECHILD` on Linux: the process is not a child of the caller.
pub const ECHILD: i32 = 10;

/// Tracks the child processes spawned within a sandbox.
#[derive(Debug, Clone)]
pub struct ProcessTracker {
    pids: Vec<u32>,
}

/// `pids` without any occurrence of `pid`.
pub open spec fn without_pid(pids: Seq<u32>, pid: u32) -> Seq<u32> {
    pids.filter(other_than(pid))
}

/// Whether a process id is not `pid`.
pub open spec fn other_than(pid: u32) -> spec_fn(u32) -> bool {
    |p: u32| p != pid
}

/// Unregistering a process forgets it and keeps every other tracked
/// process; registering a process and unregistering it again leaves the
/// tracked processes as unregistering alone would.
pub proof fn lemma_unregister_forgets(pids: Seq<u32>, pid: u32, other: u32)
    ensures
        !without_pid(pids, pid).contains(pid),
        other != pid ==> (without_pid(pids, pid).contains(other) == pids.contains(other)),
        without_pid(pids.push(pid), pid) == without_pid(pids, pid),
{
    let pred = other_than(pid);
    if without_pid(pids, pid).contains(pid) {
        let k = choose|k: int| 0 <= k < without_pid(pids, pid).len() && without_pid(pids, pid)[k] == pid;
        pids.lemma_filter_pred(pred, k);
    }
    if other != pid {
        if pids.contains(other) {
            let k = choose|k: int| 0 <= k < pids.len() && pids[k] == other;
            pids.lemma_filter_contains(pred, k);
        }
        if without_pid(pids, pid).contains(other) {
            pids.lemma_filter_contains_rev(pred, other);
        }
    }
    pids.lemma_filter_push(pid, pred);
}

impl ProcessTracker {
    /// The tracked process ids, in registration order.
    pub closed spec fn view(&self) -> Seq<u32> {
        self.pids@
    }

    /// A tracker with no process.
    pub fn new() -> (t: ProcessTracker)
        ensures
            t.view() == Seq::<u32>::empty(),
    {
        ProcessTracker { pids: Vec::new() }
    }

    /// Tracks a new child process.
    pub fn register(&mut self, pid: u32)
        ensures
            final(self).view() == old(self).view().push(pid),
    {
        self.pids.push(pid);
    }

    /// Stops tracking a process (when it exited normally).
    pub fn unregister(&mut self, pid: u32)
        ensures
            final(self).view() == without_pid(old(self).view(), pid),
    {
        let mut kept: Vec<u32> = Vec::new();
        let mut i: usize = 0;
        while i < self.pids.len()
            invariant
                i <= self.pids.len(),
                self.pids@ == old(self).pids@,
                kept@ == without_pid(self.pids@.take(i as int), pid),
            decreases self.pids.len() - i,
        {
            proof {
                assert(self.pids@.take(i + 1).drop_last() == self.pids@.take(i as int));
                reveal(Seq::filter);
            }
            if self.pids[i] != pid {
                kept.push(self.pids[i]);
            }
            i = i + 1;
        }
        assert(self.pids@.take(self.pids.len() as int) == self.pids@);
        self.pids = kept;
    }

    /// Whether `pid` is tracked.
    pub fn contains(&self, pid: u32) -> (b: bool)
        ensures
            b == self.view().contains(pid),
    {
        let mut i: usize = 0;
        while i < self.pids.len()
            invariant
                i <= self.pids.len(),
                forall|k: int| 0 <= k < i ==> self.pids@[k] != pid,
            decreases self.pids.len() - i,
        {
            if self.pids[i] == pid {
                return true;
            }
            i = i + 1;
        }
        false
    }

    /// Hands out every tracked process for killing and stops tracking them.
    pub fn take_all(&mut self) -> (pids: Vec<u32>)
        ensures
            pids@ == old(self).view(),
            final(self).view() == Seq::<u32>::empty(),
    {
        let mut out: Vec<u32> = Vec::new();
        std::mem::swap(&mut out, &mut self.pids);
        out
    }
}

/// Whether a tracked process is to be sent `SIGKILL`, given what a
/// non-blocking `waitpid` on it returned (and `errno` when it returned -1): not
/// when it was just reaped (it already exited), not when it is not a child of
/// ours (the id may have been reused), otherwise yes.
pub fn should_kill(pid: u32, wait_result: i32, errno: i32) -> (b: bool)
    ensures
        b == !(wait_result as int == pid as int || (wait_result == -1 && errno == ECHILD)),
{
    if wait_result >= 0 && wait_result as u32 == pid {
        return false;
    }
    if wait_result == -1 && errno == ECHILD {
        return false;
    }
    true
}

/// The arguments of `taskkill` that kill the tree of process `pid`.
pub fn windows_taskkill_process_tree_args(pid: u32) -> (args: [String; 4])
    ensures
        args[0]@ == "/F"@,
        args[1]@ == "/T"@,
        args[2]@ == "/PID"@,
        args[3]@ == decimal(pid as nat),
{
    [
        String::from_str("/F"),
        String::from_str("/T"),
        String::from_str("/PID"),
        u64_to_decimal(pid as u64),
    ]
}

/// A `taskkill` invocation.
#[derive(Debug, PartialEq, Eq)]
pub struct WindowsTaskkillCommand {
    pub executable: String,
    pub args: [String; 4],
}

/// The first non-empty value of a variable named `name` (ASCII case ignored).
pub open spec fn first_env_value(env: Seq<(Seq<char>, Seq<char>)>, name: Seq<char>) -> Option<Seq<char>>
    decreases env.len(),
{
    if env.len() == 0 {
        None
    } else if env[0].1.len() > 0 && eq_ignore_ascii_case(env[0].0, name) {
        Some(env[0].1)
    } else {
        first_env_value(env.drop_first(), name)
    }
}

/// The Windows directory: `SystemRoot`, or else `WINDIR` (first non-empty values).
pub open spec fn windows_root(env: Seq<(Seq<char>, Seq<char>)>) -> Option<Seq<char>> {
    match first_env_value(env, "SystemRoot"@) {
        Some(r) => Some(r),
        None => first_env_value(env, "WINDIR"@),
    }
}

fn first_value(env: &Vec<(String, String)>, name: &str) -> (r: Option<String>)
    ensures
        match r {
            Some(v) => first_env_value(env_view(env@), name@) == Some(v@),
            None => first_env_value(env_view(env@), name@) is None,
        },
{
    let mut i: usize = 0;
    assert(env_view(env@).skip(0) == env_view(env@));
    while i < env.len()
        invariant
            i <= env.len(),
            first_env_value(env_view(env@), name@) == first_env_value(
                env_view(env@).skip(i as int),
                name@,
            ),
        decreases env.len() - i,
    {
        let ghost rest = env_view(env@).skip(i as int);
        assert(rest.drop_first() == env_view(env@).skip(i + 1));
        let key = chars_of(env[i].0.as_str());
        if !env[i].1.as_str().is_empty() && chars_eq_ignore_ascii_case(&key, name) {
            return Some(env[i].1.clone());
        }
        i = i + 1;
    }
    None
}

/// The command that kills the process tree of `pid`: `taskkill.exe` in the
/// `System32` directory of the Windows root named by the environment, or
/// `None` where the environment names none.
pub fn windows_taskkill_process_tree_command_from_env(pid: u32, env: &Vec<(String, String)>) -> (r:
    Option<WindowsTaskkillCommand>)
    ensures
        match r {
            Some(c) => windows_root(env_view(env@)) matches Some(root) && c.executable@
                == join_windows_path(join_windows_path(root, "System32"@), "taskkill.exe"@) && c.args[3]@ == decimal(pid as nat) && c.args[0]@ == "/F"@ && c.args[1]@ == "/T"@
                && c.args[2]@ == "/PID"@,
            None => windows_root(env_view(env@)) is None,
        },
{
    let root = match first_value(env, "SystemRoot") {
        Some(r) => r,
        None => match first_value(env, "WINDIR") {
            Some(r) => r,
            None => {
                return None;
            },
        },
    };
    let dir = windows_path_join(root.as_str(), "System32");
    let exe = windows_path_join(dir.as_str(), "taskkill.exe");
    Some(WindowsTaskkillCommand { executable: exe, args: windows_taskkill_process_tree_args(pid) })
}

} // verus!
