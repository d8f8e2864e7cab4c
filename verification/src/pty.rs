//! Interactive commands on a pseudo-terminal: how the command is started, the
//! decisions of the loop that copies between the terminal and the PTY, and the
//! exit status.

use vstd::prelude::*;

use crate::command::env_view;
use crate::config::SandboxConfigData;
use crate::env::{pty_environment, spec_pty_environment};
use crate::error::Error;
use crate::text::{push_str, string_of, strs};

verus! {

/// Result of running a command with a PTY.
#[derive(Debug, Clone, Copy, PartialEq, Eq)]
pub struct PtyExitStatus {
    success: bool,
}

impl PtyExitStatus {
    /// The status of a command that exited successfully or not.
    pub fn new(success: bool) -> (s: PtyExitStatus)
        ensures
            s.spec_success() == success,
    {
        PtyExitStatus { success }
    }

    pub closed spec fn spec_success(&self) -> bool {
        self.success
    }

    /// Whether the command succeeded.
    pub fn success(&self) -> (b: bool)
        ensures
            b == self.spec_success(),
    {
        self.success
    }

    /// The exit code: 0 on success, 1 otherwise.
    pub fn code(&self) -> (c: i32)
        ensures
            c == (if self.spec_success() {
                0i32
            } else {
                1i32
            }),
    {
        if self.success {
            0
        } else {
            1
        }
    }
}

/// Everything an interactive command is started with on the PTY. The
/// environment is cleared first; `env` is all the child gets.
#[derive(Debug)]
pub struct PtyLaunch {
    pub program: String,
    pub args: Vec<String>,
    pub current_dir: String,
    pub env: Vec<(String, String)>,
}

/// Prepares an interactive command: `/usr/bin/sandbox-exec -p <profile>
/// <program> <args>` in `current_dir` (else the working directory), with the
/// environment of `spec_pty_environment`.
pub fn pty_launch(
    config: &SandboxConfigData,
    profile: &str,
    proxy_url: Option<&str>,
    ipc_endpoint: Option<&str>,
    program: &str,
    args: &Vec<String>,
    envs: &Vec<(String, String)>,
    current_dir: Option<&str>,
    host_env: &Vec<(String, String)>,
) -> (l: PtyLaunch)
    ensures
        l.program@ == "/usr/bin/sandbox-exec"@,
        strs(l.args@) == seq!["-p"@, profile@, program@] + strs(args@),
        l.current_dir@ == (match current_dir {
            Some(d) => d@,
            None => config.working_dir@,
        }),
        env_view(l.env@) == spec_pty_environment(
            env_view(host_env@),
            strs(config.env_passthrough@),
            match proxy_url {
                Some(u) => Some(u@),
                None => None,
            },
            env_view(envs@),
            match ipc_endpoint {
                Some(e) => Some(e@),
                None => None,
            },
            config.working_dir@,
        ),
{
    let mut out: Vec<String> = Vec::new();
    out.push(String::from_str("-p"));
    out.push(String::from_str(profile));
    out.push(String::from_str(program));
    assert(strs(out@) =~= seq!["-p"@, profile@, program@]);
    let ghost head = strs(out@);
    let mut i: usize = 0;
    while i < args.len()
        invariant
            i <= args.len(),
            strs(out@) == head + strs(args@).take(i as int),
        decreases args.len() - i,
    {
        let ghost before = out@;
        out.push(args[i].clone());
        assert(strs(out@) =~= strs(before).push(args@[i as int]@));
        assert(strs(args@).take(i + 1) =~= strs(args@).take(i as int).push(args@[i as int]@));
        i = i + 1;
    }
    assert(strs(args@).take(args.len() as int) =~= strs(args@));
    let dir = match current_dir {
        Some(d) => String::from_str(d),
        None => config.working_dir.clone(),
    };
    PtyLaunch {
        program: String::from_str("/usr/bin/sandbox-exec"),
        args: out,
        current_dir: dir,
        env: pty_environment(
            host_env,
            &config.env_passthrough,
            proxy_url,
            envs,
            ipc_endpoint,
            config.working_dir.as_str(),
        ),
    }
}

/// What a non-blocking read returned.
#[derive(Debug, Clone, Copy, PartialEq, Eq, Structural)]
pub enum ReadOutcome {
    /// Some bytes were read.
    Data(usize),
    /// End of file.
    Eof,
    /// Nothing to read now.
    WouldBlock,
    /// The read failed.
    Failed,
}

/// What the copy loop learns in one step.
#[derive(Debug, Clone)]
pub enum PtyEvent {
    /// `try_wait` reports the child exited.
    ChildExited { success: bool },
    /// `try_wait` failed, with the system's message.
    ChildStatusFailed(String),
    /// The terminal's input was readable and was read.
    StdinRead(ReadOutcome),
    /// The PTY was readable and was read.
    PtyRead(ReadOutcome),
}

/// How the loop ends.
#[derive(Debug, Clone)]
pub enum PtyFinish {
    /// Drain what the PTY still holds, then report the child's status.
    DrainThenReport { success: bool },
    /// Wait for the child, then report its status.
    WaitThenReport,
    /// Report the error.
    Fail(Error),
}

/// What the loop does after one event.
#[derive(Debug, Clone)]
pub struct PtyStep {
    /// Bytes read from the terminal to write to the PTY.
    pub to_pty: Option<usize>,
    /// Bytes read from the PTY to write to the terminal.
    pub to_stdout: Option<usize>,
    /// Whether to wait for input on the terminal again.
    pub rearm_stdin: bool,
    /// Whether to wait for output on the PTY again.
    pub rearm_pty: bool,
    /// Whether the loop ends, and how.
    pub finish: Option<PtyFinish>,
}

/// The state of the copy loop: whether the terminal's input has ended.
#[derive(Debug, Clone, Copy)]
pub struct PtyLoop {
    pub stdin_eof: bool,
}

/// The message of a failed `try_wait`.
pub open spec fn child_status_message(m: Seq<char>) -> Seq<char> {
    "Failed to check child status: "@ + m
}

impl PtyLoop {
    /// The loop before any event.
    pub fn new() -> (l: PtyLoop)
        ensures
            !l.stdin_eof,
    {
        PtyLoop { stdin_eof: false }
    }

    /// One step of the loop. A finished child ends it (after draining the
    /// PTY); a failed status check fails it. Terminal input is forwarded to the
    /// PTY and waited for again, until it ends or fails; once it has ended it
    /// is ignored. PTY output is forwarded to the terminal and waited for
    /// again; its end or failure ends the loop by waiting for the child.
    pub fn step(&mut self, event: PtyEvent) -> (s: PtyStep)
        ensures
            old(self).stdin_eof ==> final(self).stdin_eof,
            match event {
                PtyEvent::ChildExited { success } => final(self).stdin_eof == old(self).stdin_eof
                    && s.to_pty is None && s.to_stdout is None && !s.rearm_stdin && !s.rearm_pty
                    && (s.finish matches Some(PtyFinish::DrainThenReport { success: x }) && x
                    == success),
                PtyEvent::ChildStatusFailed(m) => final(self).stdin_eof == old(self).stdin_eof
                    && s.to_pty is None && s.to_stdout is None && !s.rearm_stdin && !s.rearm_pty
                    && (s.finish matches Some(PtyFinish::Fail(e)) && (e matches Error::PtyError(em)
                    && em@ == child_status_message(m@))),
                PtyEvent::StdinRead(r) => s.to_stdout is None && !s.rearm_pty && s.finish is None
                    && if old(self).stdin_eof {
                    final(self).stdin_eof && s.to_pty is None && !s.rearm_stdin
                } else {
                    match r {
                        ReadOutcome::Data(n) => !final(self).stdin_eof && s.to_pty == Some(n)
                            && s.rearm_stdin,
                        ReadOutcome::WouldBlock => !final(self).stdin_eof && s.to_pty is None
                            && s.rearm_stdin,
                        _ => final(self).stdin_eof && s.to_pty is None && !s.rearm_stdin,
                    }
                },
                PtyEvent::PtyRead(r) => final(self).stdin_eof == old(self).stdin_eof && s.to_pty is None
                    && !s.rearm_stdin && match r {
                    ReadOutcome::Data(n) => s.to_stdout == Some(n) && s.rearm_pty && s.finish is None,
                    ReadOutcome::WouldBlock => s.to_stdout is None && s.rearm_pty && s.finish is None,
                    _ => s.to_stdout is None && !s.rearm_pty && (s.finish matches Some(
                        PtyFinish::WaitThenReport,
                    )),
                },
            },
    {
        let idle = PtyStep { to_pty: None, to_stdout: None, rearm_stdin: false, rearm_pty: false, finish: None };
        match event {
            PtyEvent::ChildExited { success } => PtyStep {
                finish: Some(PtyFinish::DrainThenReport { success }),
                ..idle
            },
            PtyEvent::ChildStatusFailed(m) => {
                let mut msg: Vec<char> = Vec::new();
                push_str(&mut msg, "Failed to check child status: ");
                push_str(&mut msg, m.as_str());
                PtyStep { finish: Some(PtyFinish::Fail(Error::PtyError(string_of(&msg)))), ..idle }
            },
            PtyEvent::StdinRead(r) => {
                if self.stdin_eof {
                    return idle;
                }
                match r {
                    ReadOutcome::Data(n) => PtyStep { to_pty: Some(n), rearm_stdin: true, ..idle },
                    ReadOutcome::WouldBlock => PtyStep { rearm_stdin: true, ..idle },
                    _ => {
                        self.stdin_eof = true;
                        idle
                    },
                }
            },
            PtyEvent::PtyRead(r) => match r {
                ReadOutcome::Data(n) => PtyStep { to_stdout: Some(n), rearm_pty: true, ..idle },
                ReadOutcome::WouldBlock => PtyStep { rearm_pty: true, ..idle },
                _ => PtyStep { finish: Some(PtyFinish::WaitThenReport), ..idle },
            },
        }
    }
}

} // verus!
