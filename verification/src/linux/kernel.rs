//! Kernel version parsing and the checks that decide whether the Linux backend
//! can run.

use vstd::prelude::*;

use crate::error::{Error, Result};
use crate::text::{
    chars_of, decimal, find_char, find_char_in, is_digit, lemma_decimal_digits, lemma_find_char_bounds,
    lemma_parse_decimal, lemma_split_first, lemma_split_without, parse_u32, parse_u32_chars, push_str,
    i64_to_decimal, slice_chars, split_at_char, split_once_from, string_of, u64_to_decimal,
};

verus! {

/// A kernel version.
#[derive(Debug, Clone, Copy, PartialEq, Eq, PartialOrd, Ord, Structural)]
pub struct KernelVersion {
    pub major: u32,
    pub minor: u32,
    pub patch: u32,
}

/// Whether `a` is an older version than `b` (lexicographic order).
pub open spec fn version_lt(a: KernelVersion, b: KernelVersion) -> bool {
    a.major < b.major || (a.major == b.major && (a.minor < b.minor || (a.minor == b.minor
        && a.patch < b.patch)))
}

/// The part of a release string before its first `-`.
pub open spec fn version_part(release: Seq<char>) -> Seq<char> {
    match find_char(release, '-') {
        Some(i) => release.take(i),
        None => release,
    }
}

/// How a release string parses: `major.minor[.patch]` before the first `-`;
/// a missing or unparsable patch reads as 0. On failure, the message.
pub open spec fn spec_parse_kernel(release: Seq<char>) -> core::result::Result<
    KernelVersion,
    Seq<char>,
> {
    let parts = split_at_char(version_part(release), '.');
    if parts.len() < 2 {
        Err("Invalid kernel version format: "@ + release)
    } else if parse_u32(parts[0]) is None {
        Err("Invalid major version: "@ + parts[0])
    } else if parse_u32(parts[1]) is None {
        Err("Invalid minor version: "@ + parts[1])
    } else {
        Ok(
            KernelVersion {
                major: parse_u32(parts[0]).unwrap(),
                minor: parse_u32(parts[1]).unwrap(),
                patch: if parts.len() > 2 && parse_u32(parts[2]) is Some {
                    parse_u32(parts[2]).unwrap()
                } else {
                    0
                },
            },
        )
    }
}

/// A version written `major.minor.patch` in decimal.
pub open spec fn version_text(v: KernelVersion) -> Seq<char> {
    decimal(v.major as nat) + "."@ + decimal(v.minor as nat) + "."@ + decimal(v.patch as nat)
}

/// The text of a version parses back to the version.
pub proof fn lemma_version_text_parses(v: KernelVersion)
    ensures
        spec_parse_kernel(version_text(v)) == Ok::<KernelVersion, Seq<char>>(v),
{
    reveal_strlit(".");
    let a = decimal(v.major as nat);
    let b = decimal(v.minor as nat);
    let c = decimal(v.patch as nat);
    lemma_decimal_digits(v.major as nat);
    lemma_decimal_digits(v.minor as nat);
    lemma_decimal_digits(v.patch as nat);
    let t = version_text(v);
    let tail = b + seq!['.'] + c;
    assert(t =~= a + seq!['.'] + tail);
    assert forall|j: int| 0 <= j < t.len() implies t[j] != '-' by {
        if j < a.len() {
            assert(is_digit(a[j]));
        } else if j > a.len() && j < a.len() + 1 + b.len() {
            assert(t[j] == b[j - a.len() - 1]);
            assert(is_digit(b[j - a.len() - 1]));
        } else if j > a.len() + 1 + b.len() {
            assert(t[j] == c[j - a.len() - 2 - b.len()]);
            assert(is_digit(c[j - a.len() - 2 - b.len()]));
        }
    }
    lemma_find_char_bounds(t, '-');
    assert(version_part(t) == t);
    assert forall|j: int| 0 <= j < a.len() implies a[j] != '.' by {
        assert(is_digit(a[j]));
    }
    assert forall|j: int| 0 <= j < b.len() implies b[j] != '.' by {
        assert(is_digit(b[j]));
    }
    assert forall|j: int| 0 <= j < c.len() implies c[j] != '.' by {
        assert(is_digit(c[j]));
    }
    lemma_split_first(a, tail, '.');
    lemma_split_first(b, c, '.');
    lemma_split_without(c, '.');
    assert(split_at_char(t, '.') =~= seq![a, b, c]);
    lemma_parse_decimal(v.major);
    lemma_parse_decimal(v.minor);
    lemma_parse_decimal(v.patch);
}

fn init_failed(prefix: &str, detail: &Vec<char>) -> (e: Error)
    ensures
        e matches Error::InitFailed(m) && m@ == prefix@ + detail@,
{
    let mut m: Vec<char> = Vec::new();
    push_str(&mut m, prefix);
    let d = string_of(detail);
    push_str(&mut m, d.as_str());
    Error::InitFailed(string_of(&m))
}

impl KernelVersion {
    /// The version `major.minor.patch`.
    pub fn new(major: u32, minor: u32, patch: u32) -> (v: KernelVersion)
        ensures
            v == (KernelVersion { major, minor, patch }),
    {
        KernelVersion { major, minor, patch }
    }

    /// Parses a kernel release string such as `6.8.1-generic`.
    pub fn parse(release: &str) -> (r: Result<KernelVersion>)
        ensures
            match (r, spec_parse_kernel(release@)) {
                (Ok(v), Ok(w)) => v == w,
                (Err(e), Err(m)) => e matches Error::InitFailed(em) && em@ == m,
                _ => false,
            },
    {
        let v = chars_of(release);
        proof {
            lemma_find_char_bounds(v@, '-');
            assert(v@.skip(0) == v@);
        }
        let vp = match find_char_in(&v, '-', 0) {
            Some(i) => slice_chars(&v, 0, i),
            None => slice_chars(&v, 0, v.len()),
        };
        assert(vp@ == version_part(release@));
        proof {
            assert(vp@.skip(0) == vp@);
        }
        let (p0, r0) = split_once_from(&vp, '.', 0);
        let next = match r0 {
            None => {
                return Err(init_failed("Invalid kernel version format: ", &v));
            },
            Some(n) => n,
        };
        let (p1, r1) = split_once_from(&vp, '.', next);
        let major = match parse_u32_chars(&p0) {
            None => {
                return Err(init_failed("Invalid major version: ", &p0));
            },
            Some(m) => m,
        };
        let minor = match parse_u32_chars(&p1) {
            None => {
                return Err(init_failed("Invalid minor version: ", &p1));
            },
            Some(m) => m,
        };
        let patch = match r1 {
            None => 0,
            Some(n2) => {
                let (p2, _r2) = split_once_from(&vp, '.', n2);
                match parse_u32_chars(&p2) {
                    Some(p) => p,
                    None => 0,
                }
            },
        };
        Ok(KernelVersion { major, minor, patch })
    }

    /// Whether this version is older than `other`.
    pub fn older_than(&self, other: &KernelVersion) -> (b: bool)
        ensures
            b == version_lt(*self, *other),
    {
        self.major < other.major || (self.major == other.major && (self.minor < other.minor || (
        self.minor == other.minor && self.patch < other.patch)))
    }

    /// The version written `major.minor.patch`.
    pub fn to_text(&self) -> (s: String)
        ensures
            s@ == version_text(*self),
    {
        let mut out: Vec<char> = Vec::new();
        let a = u64_to_decimal(self.major as u64);
        let b = u64_to_decimal(self.minor as u64);
        let c = u64_to_decimal(self.patch as u64);
        push_str(&mut out, a.as_str());
        push_str(&mut out, ".");
        push_str(&mut out, b.as_str());
        push_str(&mut out, ".");
        push_str(&mut out, c.as_str());
        string_of(&out)
    }
}

} // verus!

verus! {

/// Oldest kernel with Landlock ABI v4 (network rules).
pub open spec fn min_kernel() -> KernelVersion {
    KernelVersion { major: 6, minor: 7, patch: 0 }
}

/// Oldest Landlock ABI the backend accepts.
pub const MIN_LANDLOCK_ABI: i32 = 4;

/// Outcome of a trial `restrict_self` in a forked child, as the child reports it.
#[derive(Debug, Clone, Copy, PartialEq, Eq, Structural)]
pub enum RestrictOutcome {
    FullyEnforced,
    PartiallyEnforced,
    NotEnforced,
    Failed,
}

/// The exit code the probing child uses for each outcome.
pub fn probe_exit_code(outcome: RestrictOutcome) -> (code: i32)
    ensures
        code == match outcome {
            RestrictOutcome::FullyEnforced => 0i32,
            RestrictOutcome::Failed => 1i32,
            RestrictOutcome::PartiallyEnforced => 2i32,
            RestrictOutcome::NotEnforced => 3i32,
        },
{
    match outcome {
        RestrictOutcome::FullyEnforced => 0,
        RestrictOutcome::Failed => 1,
        RestrictOutcome::PartiallyEnforced => 2,
        RestrictOutcome::NotEnforced => 3,
    }
}

/// How the forked probing child ended, as the parent sees it.
#[derive(Debug, Clone, Copy, PartialEq, Eq, Structural)]
pub enum ProbeChild {
    /// `fork` failed.
    ForkFailed,
    /// The child exited with this status.
    Exited(i32),
    /// The child ended by a signal.
    Abnormal,
}

/// What probing Landlock found out.
#[derive(Debug, Clone)]
pub struct LandlockProbe {
    /// Whether a rule set handling every ABI v4 filesystem right was accepted.
    pub v4_handled: bool,
    /// Whether ABI v3, v2 and v1 rule sets were accepted (consulted when v4 was not).
    pub v3_handled: bool,
    pub v2_handled: bool,
    pub v1_handled: bool,
    /// The error text of creating the v4 rule set, if creating it failed.
    pub create_error: Option<String>,
    /// How the trial `restrict_self` in a forked child ended.
    pub child: ProbeChild,
}

/// An error by its variant and texts.
pub enum ErrorView {
    UnsupportedVersion(Seq<char>, Seq<char>, Seq<char>),
    NotEnforced(Seq<char>),
    InitFailed(Seq<char>),
}

/// Whether `e` is the error `v` describes.
pub open spec fn error_is(e: Error, v: ErrorView) -> bool {
    match v {
        ErrorView::UnsupportedVersion(p, m, c) => e matches Error::UnsupportedPlatformVersion {
            platform,
            minimum,
            current,
        } && platform@ == p && minimum@ == m && current@ == c,
        ErrorView::NotEnforced(t) => e matches Error::NotEnforced(m) && m@ == t,
        ErrorView::InitFailed(t) => e matches Error::InitFailed(m) && m@ == t,
    }
}

/// The Landlock ABI the probe establishes (4), or why Landlock cannot be used:
/// an older ABI, a rule set that cannot be created, or a trial restriction
/// that fails or is not (fully) enforced.
pub open spec fn spec_landlock_abi(p: LandlockProbe) -> core::result::Result<i32, ErrorView> {
    if !p.v4_handled {
        if p.v3_handled {
            Err(ErrorView::UnsupportedVersion("Linux (Landlock ABI)"@, "4"@, "3"@))
        } else if p.v2_handled {
            Err(ErrorView::UnsupportedVersion("Linux (Landlock ABI)"@, "4"@, "2"@))
        } else if p.v1_handled {
            Err(ErrorView::UnsupportedVersion("Linux (Landlock ABI)"@, "4"@, "1"@))
        } else {
            Err(ErrorView::NotEnforced("Landlock not available in kernel"@))
        }
    } else if p.create_error is Some {
        Err(ErrorView::NotEnforced("Landlock ruleset creation failed: "@ + p.create_error.unwrap()@))
    } else {
        match p.child {
            ProbeChild::ForkFailed => Err(ErrorView::InitFailed("fork failed for Landlock test"@)),
            ProbeChild::Exited(code) => if code == 0 {
                Ok(4)
            } else if code == 1 {
                Err(
                    ErrorView::NotEnforced(
                        "Landlock restrict_self failed - kernel may not support Landlock"@,
                    ),
                )
            } else if code == 2 {
                Err(
                    ErrorView::NotEnforced(
                        "Landlock only partially enforced - refusing to run with reduced security"@,
                    ),
                )
            } else if code == 3 {
                Err(ErrorView::NotEnforced("Landlock not enforced by kernel"@))
            } else {
                Err(ErrorView::InitFailed("Landlock test child exited with unexpected status"@))
            },
            ProbeChild::Abnormal => Err(
                ErrorView::InitFailed("Landlock test child terminated abnormally"@),
            ),
        }
    }
}

fn unsupported_version(platform: &str, minimum: &str, current: String) -> (e: Error)
    ensures
        error_is(e, ErrorView::UnsupportedVersion(platform@, minimum@, current@)),
{
    Error::UnsupportedPlatformVersion {
        platform: String::from_str(platform),
        minimum: String::from_str(minimum),
        current,
    }
}

fn not_enforced(m: &str) -> (e: Error)
    ensures
        error_is(e, ErrorView::NotEnforced(m@)),
{
    Error::NotEnforced(String::from_str(m))
}

fn init_failed_msg(m: &str) -> (e: Error)
    ensures
        error_is(e, ErrorView::InitFailed(m@)),
{
    Error::InitFailed(String::from_str(m))
}

/// Decides the Landlock ABI from a probe (see `spec_landlock_abi`).
pub fn landlock_abi_from_probe(p: &LandlockProbe) -> (r: Result<i32>)
    ensures
        match (r, spec_landlock_abi(*p)) {
            (Ok(a), Ok(b)) => a == b,
            (Err(e), Err(v)) => error_is(e, v),
            _ => false,
        },
{
    if !p.v4_handled {
        if p.v3_handled {
            return Err(unsupported_version("Linux (Landlock ABI)", "4", String::from_str("3")));
        } else if p.v2_handled {
            return Err(unsupported_version("Linux (Landlock ABI)", "4", String::from_str("2")));
        } else if p.v1_handled {
            return Err(unsupported_version("Linux (Landlock ABI)", "4", String::from_str("1")));
        } else {
            return Err(not_enforced("Landlock not available in kernel"));
        }
    }
    match &p.create_error {
        Some(msg) => {
            let mut m: Vec<char> = Vec::new();
            push_str(&mut m, "Landlock ruleset creation failed: ");
            push_str(&mut m, msg.as_str());
            return Err(Error::NotEnforced(string_of(&m)));
        },
        None => {},
    }
    match p.child {
        ProbeChild::ForkFailed => Err(init_failed_msg("fork failed for Landlock test")),
        ProbeChild::Exited(code) => {
            if code == 0 {
                Ok(4)
            } else if code == 1 {
                Err(not_enforced("Landlock restrict_self failed - kernel may not support Landlock"))
            } else if code == 2 {
                Err(
                    not_enforced(
                        "Landlock only partially enforced - refusing to run with reduced security",
                    ),
                )
            } else if code == 3 {
                Err(not_enforced("Landlock not enforced by kernel"))
            } else {
                Err(init_failed_msg("Landlock test child exited with unexpected status"))
            }
        },
        ProbeChild::Abnormal => Err(init_failed_msg("Landlock test child terminated abnormally")),
    }
}

/// Whether the kernel is recent enough: the version, or the refusal naming the
/// minimum (6.7) and the version found.
pub fn check_kernel_version(v: KernelVersion) -> (r: Result<KernelVersion>)
    ensures
        !version_lt(v, min_kernel()) ==> r == Ok::<KernelVersion, Error>(v),
        version_lt(v, min_kernel()) ==> (r matches Err(e) && error_is(
            e,
            ErrorView::UnsupportedVersion(
                "Linux"@,
                "6.7"@,
                version_text(v),
            ),
        )),
{
    let min = KernelVersion::new(6, 7, 0);
    if v.older_than(&min) {
        return Err(unsupported_version("Linux", "6.7", v.to_text()));
    }
    Ok(v)
}

/// The Linux sandbox backend (Landlock for filesystem and network, Seccomp for
/// system calls).
#[derive(Debug)]
pub struct LinuxBackend {
    pub kernel: KernelVersion,
    pub landlock_abi: i32,
}

impl LinuxBackend {
    /// Creates the backend from the kernel release string and the Landlock probe;
    /// fails when the release does not parse, the kernel is older than 6.7, or
    /// the probe does not establish Landlock ABI v4. The checks run in that order.
    pub fn new(kernel_release: &str, probe: &LandlockProbe) -> (r: Result<LinuxBackend>)
        ensures
            match spec_parse_kernel(kernel_release@) {
                Err(m) => r matches Err(e) && (e matches Error::InitFailed(em) && em@ == m),
                Ok(v) => if version_lt(v, min_kernel()) {
                    r matches Err(e) && error_is(
                        e,
                        ErrorView::UnsupportedVersion(
                            "Linux"@,
                            "6.7"@,
                            version_text(v),
                        ),
                    )
                } else {
                    match spec_landlock_abi(*probe) {
                        Ok(a) => r matches Ok(b) && b.kernel == v && b.landlock_abi == a,
                        Err(ev) => r matches Err(e) && error_is(e, ev),
                    }
                },
            },
    {
        let v = KernelVersion::parse(kernel_release)?;
        let v = check_kernel_version(v)?;
        let abi = landlock_abi_from_probe(probe)?;
        if abi < MIN_LANDLOCK_ABI {
            return Err(unsupported_version("Linux (Landlock ABI)", "4", i64_to_decimal(abi as i64)));
        }
        Ok(LinuxBackend { kernel: v, landlock_abi: abi })
    }
}

} // verus!

verus! {

/// Landlock is accepted only when everything the probe checks succeeded: the
/// ABI v4 rule set was handled and created, and the trial restriction in the
/// child was fully enforced (it exited 0). Then the ABI is 4; an older ABI is
/// refused by naming it.
pub proof fn lemma_landlock_accepted_only_when_fully_enforced(p: LandlockProbe)
    ensures
        spec_landlock_abi(p) is Ok <==> (p.v4_handled && p.create_error is None && p.child
            == ProbeChild::Exited(0)),
        spec_landlock_abi(p) is Ok ==> spec_landlock_abi(p) == Ok::<i32, ErrorView>(4),
        !p.v4_handled && p.v3_handled ==> (spec_landlock_abi(p) matches Err(
            ErrorView::UnsupportedVersion(_, _, current),
        ) && current == "3"@),
{
    reveal_strlit("3");
}

} // verus!
