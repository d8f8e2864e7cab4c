//! Decisions of the macOS `sandbox-exec` backend: the supported OS versions.

use vstd::prelude::*;

use crate::command::env_view;
use crate::env::{child_environment, passthrough_assignments};
use crate::config::SandboxConfigData;
use crate::error::{Error, Result};
use crate::linux::launch::CommandLaunch;
use crate::stdio::StdioConfig;
use crate::linux::kernel::{error_is, ErrorView};
use crate::text::{
    chars_of, decimal, parse_u32, parse_u32_chars, push_str, split_at_char, split_once_from,
    string_of, strs, trim_ws, trim_ws_chars, u64_to_decimal,
};

verus! {

/// How the output of `sw_vers -productVersion` parses: `major.minor[...]`
/// after trimming white space; on failure, the message.
pub open spec fn spec_parse_macos_version(text: Seq<char>) -> core::result::Result<
    (u32, u32),
    Seq<char>,
> {
    let parts = split_at_char(trim_ws(text), '.');
    if parts.len() < 2 {
        Err("Invalid macOS version format: "@ + text)
    } else if parse_u32(parts[0]) is None {
        Err("Invalid major version: "@ + parts[0])
    } else if parse_u32(parts[1]) is None {
        Err("Invalid minor version: "@ + parts[1])
    } else {
        Ok((parse_u32(parts[0]).unwrap(), parse_u32(parts[1]).unwrap()))
    }
}

fn init_failed(prefix: &str, detail: &Vec<char>) -> (e: Error)
    ensures
        e matches Error::InitFailed(m) && m@ == prefix@ + detail@,
{
    let mut m: Vec<char> = Vec::new();
    push_str(&mut m, prefix);
    let d = string_of(detail);
    push_str(&mut m, d.as_str());
    Error::InitFailed(string_of(&m))
}

/// Parses the output of `sw_vers -productVersion` into `(major, minor)`.
pub fn parse_macos_version(text: &str) -> (r: Result<(u32, u32)>)
    ensures
        match (r, spec_parse_macos_version(text@)) {
            (Ok(v), Ok(w)) => v == w,
            (Err(e), Err(m)) => e matches Error::InitFailed(em) && em@ == m,
            _ => false,
        },
{
    let raw = chars_of(text);
    let v = trim_ws_chars(&raw);
    proof {
        assert(v@.skip(0) == v@);
    }
    let (p0, r0) = split_once_from(&v, '.', 0);
    let next = match r0 {
        None => {
            return Err(init_failed("Invalid macOS version format: ", &raw));
        },
        Some(n) => n,
    };
    let (p1, _r1) = split_once_from(&v, '.', next);
    let major = match parse_u32_chars(&p0) {
        None => {
            return Err(init_failed("Invalid major version: ", &p0));
        },
        Some(m) => m,
    };
    let minor = match parse_u32_chars(&p1) {
        None => {
            return Err(init_failed("Invalid minor version: ", &p1));
        },
        Some(m) => m,
    };
    Ok((major, minor))
}

/// The macOS sandbox backend (`sandbox-exec` with SBPL profiles).
#[derive(Debug)]
pub struct MacOSBackend {
    pub version: (u32, u32),
}

/// Whether `(major, minor)` is older than macOS 10.15.
pub open spec fn macos_too_old(v: (u32, u32)) -> bool {
    v.0 < 10 || (v.0 == 10 && v.1 < 15)
}

impl MacOSBackend {
    /// Creates the backend from the output of `sw_vers -productVersion`; fails
    /// when it does not parse or names a version older than 10.15.
    pub fn new(product_version: &str) -> (r: Result<MacOSBackend>)
        ensures
            match spec_parse_macos_version(product_version@) {
                Err(m) => r matches Err(e) && (e matches Error::InitFailed(em) && em@ == m),
                Ok(v) => if macos_too_old(v) {
                    r matches Err(e) && error_is(
                        e,
                        ErrorView::UnsupportedVersion(
                            "macOS"@,
                            "10.15"@,
                            decimal(v.0 as nat) + "."@ + decimal(v.1 as nat),
                        ),
                    )
                } else {
                    r matches Ok(b) && b.version == v
                },
            },
    {
        let version = parse_macos_version(product_version)?;
        if version.0 < 10 || (version.0 == 10 && version.1 < 15) {
            let mut cur: Vec<char> = Vec::new();
            let a = u64_to_decimal(version.0 as u64);
            let b = u64_to_decimal(version.1 as u64);
            push_str(&mut cur, a.as_str());
            push_str(&mut cur, ".");
            push_str(&mut cur, b.as_str());
            return Err(
                Error::UnsupportedPlatformVersion {
                    platform: String::from_str("macOS"),
                    minimum: String::from_str("10.15"),
                    current: string_of(&cur),
                },
            );
        }
        Ok(MacOSBackend { version })
    }
}

/// Everything a process run under `sandbox-exec` is started with. The
/// environment is cleared first; `env` is all the child gets.
#[derive(Debug)]
pub struct MacOSLaunch {
    pub program: String,
    pub args: Vec<String>,
    pub current_dir: String,
    pub env: Vec<(String, String)>,
    pub stdin: StdioConfig,
    pub stdout: StdioConfig,
    pub stderr: StdioConfig,
}

impl MacOSBackend {
    /// Prepares a process run under `sandbox-exec -p <profile> <program>
    /// <args>`, in the command's directory (else the working directory), with
    /// the passed-through host variables followed by the command's variables.
    pub fn build_command(
        &self,
        config: &SandboxConfigData,
        profile: &str,
        launch: &CommandLaunch,
        host_env: &Vec<(String, String)>,
    ) -> (l: MacOSLaunch)
        ensures
            l.program@ == "sandbox-exec"@,
            strs(l.args@) == seq!["-p"@, profile@, launch.program@] + strs(launch.args@),
            l.current_dir@ == (match launch.current_dir {
                Some(d) => d@,
                None => config.working_dir@,
            }),
            env_view(l.env@) == passthrough_assignments(
                strs(config.env_passthrough@),
                env_view(host_env@),
            ) + env_view(launch.envs@),
            l.stdin == launch.stdin,
            l.stdout == launch.stdout,
            l.stderr == launch.stderr,
    {
        let mut args: Vec<String> = Vec::new();
        args.push(String::from_str("-p"));
        args.push(String::from_str(profile));
        args.push(String::from_str(launch.program));
        assert(strs(args@) =~= seq!["-p"@, profile@, launch.program@]);
        let ghost head = strs(args@);
        let mut i: usize = 0;
        while i < launch.args.len()
            invariant
                i <= launch.args.len(),
                strs(args@) == head + strs(launch.args@).take(i as int),
            decreases launch.args.len() - i,
        {
            let ghost before = args@;
            args.push(launch.args[i].clone());
            assert(strs(args@) =~= strs(before).push(launch.args@[i as int]@));
            assert(strs(launch.args@).take(i + 1) =~= strs(launch.args@).take(i as int).push(
                launch.args@[i as int]@,
            ));
            i = i + 1;
        }
        assert(strs(launch.args@).take(launch.args.len() as int) =~= strs(launch.args@));
        let current_dir = match launch.current_dir {
            Some(d) => String::from_str(d),
            None => config.working_dir.clone(),
        };
        MacOSLaunch {
            program: String::from_str("sandbox-exec"),
            args,
            current_dir,
            env: child_environment(&config.env_passthrough, host_env, launch.envs),
            stdin: launch.stdin,
            stdout: launch.stdout,
            stderr: launch.stderr,
        }
    }
}

} // verus!
