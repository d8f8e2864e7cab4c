//! The Seccomp filter a sandboxed process gets: system calls that fail with
//! `EPERM`, unconditionally or when their arguments match.

use vstd::prelude::*;

use crate::config::SecurityConfig;

verus! {

/// `AF_INET` on Linux.
pub const AF_INET: u64 = 2;
/// `AF_INET6` on Linux.
pub const AF_INET6: u64 = 10;
/// `AF_PACKET` on Linux.
pub const AF_PACKET: u64 = 17;
/// `SOCK_STREAM` on Linux.
pub const SOCK_STREAM: u64 = 1;
/// `SOCK_DGRAM` on Linux.
pub const SOCK_DGRAM: u64 = 2;
/// `SOCK_RAW` on Linux.
pub const SOCK_RAW: u64 = 3;
/// `SOCK_NONBLOCK` on Linux (x86-64 and AArch64).
pub const SOCK_NONBLOCK: u64 = 0x800;
/// `SOCK_CLOEXEC` on Linux (x86-64 and AArch64).
pub const SOCK_CLOEXEC: u64 = 0x80000;

/// System calls the filter names.
#[derive(Debug, Clone, Copy, PartialEq, Eq, Structural)]
pub enum Syscall {
    Socket,
    Ptrace,
    ProcessVmReadv,
    ProcessVmWritev,
    InitModule,
    FinitModule,
    DeleteModule,
    Personality,
    Mount,
    Umount2,
    PivotRoot,
    Unshare,
    Setns,
    Reboot,
    KexecLoad,
    KexecFileLoad,
    Setuid,
    Setgid,
    Setreuid,
    Setregid,
    Setresuid,
    Setresgid,
    Setgroups,
    AddKey,
    RequestKey,
    Keyctl,
    Bpf,
    Userfaultfd,
    PerfEventOpen,
    Settimeofday,
    ClockSettime,
    Adjtimex,
    Swapon,
    Swapoff,
    Quotactl,
    Acct,
    IoUringSetup,
    IoUringEnter,
    IoUringRegister,
}

/// `argument[arg] == value`, compared as a 32-bit word.
#[derive(Debug, Clone, Copy, PartialEq, Eq, Structural)]
pub struct ArgEq {
    pub arg: u8,
    pub value: u64,
}

/// A system call and the argument conditions under which it is refused: the
/// call is refused when all conditions of any one rule hold, and always when
/// the list of rules is empty.
#[derive(Debug, Clone)]
pub struct SyscallRules {
    pub syscall: Syscall,
    pub rules: Vec<Vec<ArgEq>>,
}

pub open spec fn rules_of(r: SyscallRules) -> Seq<Seq<ArgEq>> {
    r.rules@.map_values(|c: Vec<ArgEq>| c@)
}

pub open spec fn filter_view(f: Seq<SyscallRules>) -> Seq<(Syscall, Seq<Seq<ArgEq>>)> {
    f.map_values(|r: SyscallRules| (r.syscall, rules_of(r)))
}

/// The four variants of a socket type: plain, non-blocking, close-on-exec, both.
pub open spec fn type_variants(t: u64) -> Seq<u64> {
    seq![t, t | SOCK_NONBLOCK, t | SOCK_CLOEXEC, t | SOCK_NONBLOCK | SOCK_CLOEXEC]
}

/// Rules refusing `socket(AF_INET, t)` then `socket(AF_INET6, t)` for each variant `t`.
pub open spec fn inet_rules(types: Seq<u64>) -> Seq<Seq<ArgEq>>
    decreases types.len(),
{
    if types.len() == 0 {
        seq![]
    } else {
        inet_rules(types.drop_last()) + seq![
            seq![ArgEq { arg: 0, value: AF_INET }, ArgEq { arg: 1, value: types.last() }],
            seq![ArgEq { arg: 0, value: AF_INET6 }, ArgEq { arg: 1, value: types.last() }],
        ]
    }
}

/// The socket rules: packet sockets always refused; UDP and raw IP sockets
/// refused; TCP sockets refused too when the network is denied and no IPC
/// endpoint needs them.
pub open spec fn spec_socket_rules(network_deny_all: bool, ipc_enabled: bool) -> Seq<Seq<ArgEq>> {
    seq![seq![ArgEq { arg: 0, value: AF_PACKET }]] + inet_rules(type_variants(SOCK_DGRAM))
        + inet_rules(type_variants(SOCK_RAW)) + if network_deny_all && !ipc_enabled {
        inet_rules(type_variants(SOCK_STREAM))
    } else {
        seq![]
    }
}

/// System calls refused outright: tracing other processes, kernel modules,
/// personality, mounts, namespaces, reboot and kexec, identity changes,
/// keyrings, BPF, userfaultfd, perf events, clock changes, swap, quotas and
/// process accounting.
pub open spec fn dangerous_syscalls() -> Seq<Syscall> {
    seq![
        Syscall::Ptrace,
        Syscall::ProcessVmReadv,
        Syscall::ProcessVmWritev,
        Syscall::InitModule,
        Syscall::FinitModule,
        Syscall::DeleteModule,
        Syscall::Personality,
        Syscall::Mount,
        Syscall::Umount2,
        Syscall::PivotRoot,
        Syscall::Unshare,
        Syscall::Setns,
        Syscall::Reboot,
        Syscall::KexecLoad,
        Syscall::KexecFileLoad,
        Syscall::Setuid,
        Syscall::Setgid,
        Syscall::Setreuid,
        Syscall::Setregid,
        Syscall::Setresuid,
        Syscall::Setresgid,
        Syscall::Setgroups,
        Syscall::AddKey,
        Syscall::RequestKey,
        Syscall::Keyctl,
        Syscall::Bpf,
        Syscall::Userfaultfd,
        Syscall::PerfEventOpen,
        Syscall::Settimeofday,
        Syscall::ClockSettime,
        Syscall::Adjtimex,
        Syscall::Swapon,
        Syscall::Swapoff,
        Syscall::Quotactl,
        Syscall::Acct,
    ]
}

/// `io_uring` system calls, refused unless hardware access is allowed.
pub open spec fn io_uring_syscalls() -> Seq<Syscall> {
    seq![Syscall::IoUringSetup, Syscall::IoUringEnter, Syscall::IoUringRegister]
}

pub open spec fn always_refused(calls: Seq<Syscall>) -> Seq<(Syscall, Seq<Seq<ArgEq>>)> {
    calls.map_values(|c: Syscall| (c, Seq::<Seq<ArgEq>>::empty()))
}

/// The whole filter: socket rules, the dangerous calls, and `io_uring` unless
/// hardware access is allowed.
pub open spec fn spec_filter(
    security: SecurityConfig,
    network_deny_all: bool,
    ipc_enabled: bool,
) -> Seq<(Syscall, Seq<Seq<ArgEq>>)> {
    seq![(Syscall::Socket, spec_socket_rules(network_deny_all, ipc_enabled))] + always_refused(
        dangerous_syscalls(),
    ) + if !security.allow_hardware {
        always_refused(io_uring_syscalls())
    } else {
        seq![]
    }
}

fn cond_rule(family: u64, ty: u64) -> (r: Vec<ArgEq>)
    ensures
        r@ == seq![ArgEq { arg: 0, value: family }, ArgEq { arg: 1, value: ty }],
{
    let mut r: Vec<ArgEq> = Vec::new();
    r.push(ArgEq { arg: 0, value: family });
    r.push(ArgEq { arg: 1, value: ty });
    r
}

pub open spec fn conds_view(rs: Seq<Vec<ArgEq>>) -> Seq<Seq<ArgEq>> {
    rs.map_values(|c: Vec<ArgEq>| c@)
}

fn push_rule(rules: &mut Vec<Vec<ArgEq>>, r: Vec<ArgEq>)
    ensures
        conds_view(final(rules)@) == conds_view(old(rules)@).push(r@),
{
    rules.push(r);
    assert(conds_view(rules@) == conds_view(old(rules)@).push(r@));
}

fn push_inet_rules(rules: &mut Vec<Vec<ArgEq>>, base: u64)
    requires
        base <= 3,
    ensures
        conds_view(final(rules)@) == conds_view(old(rules)@) + inet_rules(type_variants(base)),
{
    let v1 = base | SOCK_NONBLOCK;
    let v2 = base | SOCK_CLOEXEC;
    let v3 = base | SOCK_NONBLOCK | SOCK_CLOEXEC;
    let types: [u64; 4] = [base, v1, v2, v3];
    assert(types@ == type_variants(base));
    let mut i: usize = 0;
    while i < 4
        invariant
            i <= 4,
            types@ == type_variants(base),
            conds_view(rules@) == conds_view(old(rules)@) + inet_rules(types@.take(i as int)),
        decreases 4 - i,
    {
        let t = types[i];
        push_rule(rules, cond_rule(AF_INET, t));
        push_rule(rules, cond_rule(AF_INET6, t));
        proof {
            assert(types@.take(i + 1).drop_last() == types@.take(i as int));
        }
        i = i + 1;
    }
    assert(types@.take(4) == types@);
}

/// The socket rules (see `spec_socket_rules`).
pub fn socket_rules(network_deny_all: bool, ipc_enabled: bool) -> (rules: Vec<Vec<ArgEq>>)
    ensures
        conds_view(rules@) == spec_socket_rules(network_deny_all, ipc_enabled),
{
    let mut rules: Vec<Vec<ArgEq>> = Vec::new();
    let mut packet: Vec<ArgEq> = Vec::new();
    packet.push(ArgEq { arg: 0, value: AF_PACKET });
    push_rule(&mut rules, packet);
    push_inet_rules(&mut rules, SOCK_DGRAM);
    push_inet_rules(&mut rules, SOCK_RAW);
    let ghost before = conds_view(rules@);
    if network_deny_all && !ipc_enabled {
        push_inet_rules(&mut rules, SOCK_STREAM);
    } else {
        assert(before + Seq::<Seq<ArgEq>>::empty() == before);
    }
    rules
}

fn push_always(filter: &mut Vec<SyscallRules>, calls: &[Syscall])
    ensures
        filter_view(final(filter)@) == filter_view(old(filter)@) + always_refused(calls@),
{
    let mut i: usize = 0;
    while i < calls.len()
        invariant
            i <= calls.len(),
            filter_view(filter@) == filter_view(old(filter)@) + always_refused(
                calls@.take(i as int),
            ),
        decreases calls.len() - i,
    {
        let r = SyscallRules { syscall: calls[i], rules: Vec::new() };
        let ghost prev = filter@;
        filter.push(r);
        proof {
            assert(rules_of(r) == Seq::<Seq<ArgEq>>::empty());
            assert(filter_view(filter@) == filter_view(prev).push((calls@[i as int], Seq::<Seq<ArgEq>>::empty())));
            assert(always_refused(calls@.take(i + 1)) == always_refused(calls@.take(i as int)).push(
                (calls@[i as int], Seq::<Seq<ArgEq>>::empty()),
            ));
        }
        i = i + 1;
    }
    assert(calls@.take(calls.len() as int) == calls@);
}

/// Builds the Seccomp filter (see `spec_filter`).
pub fn build_filter_rules(security: &SecurityConfig, network_deny_all: bool, ipc_enabled: bool) -> (f: Vec<SyscallRules>)
    ensures
        filter_view(f@) == spec_filter(*security, network_deny_all, ipc_enabled),
{
    let mut f: Vec<SyscallRules> = Vec::new();
    let socket = SyscallRules { syscall: Syscall::Socket, rules: socket_rules(network_deny_all, ipc_enabled) };
    f.push(socket);
    assert(filter_view(f@) == seq![(Syscall::Socket, spec_socket_rules(network_deny_all, ipc_enabled))]);
    let dangerous: [Syscall; 35] = [
        Syscall::Ptrace,
        Syscall::ProcessVmReadv,
        Syscall::ProcessVmWritev,
        Syscall::InitModule,
        Syscall::FinitModule,
        Syscall::DeleteModule,
        Syscall::Personality,
        Syscall::Mount,
        Syscall::Umount2,
        Syscall::PivotRoot,
        Syscall::Unshare,
        Syscall::Setns,
        Syscall::Reboot,
        Syscall::KexecLoad,
        Syscall::KexecFileLoad,
        Syscall::Setuid,
        Syscall::Setgid,
        Syscall::Setreuid,
        Syscall::Setregid,
        Syscall::Setresuid,
        Syscall::Setresgid,
        Syscall::Setgroups,
        Syscall::AddKey,
        Syscall::RequestKey,
        Syscall::Keyctl,
        Syscall::Bpf,
        Syscall::Userfaultfd,
        Syscall::PerfEventOpen,
        Syscall::Settimeofday,
        Syscall::ClockSettime,
        Syscall::Adjtimex,
        Syscall::Swapon,
        Syscall::Swapoff,
        Syscall::Quotactl,
        Syscall::Acct,
    ];
    assert(dangerous@ == dangerous_syscalls());
    push_always(&mut f, &dangerous);
    let ghost before = filter_view(f@);
    if !security.allow_hardware {
        let io: [Syscall; 3] = [Syscall::IoUringSetup, Syscall::IoUringEnter, Syscall::IoUringRegister];
        assert(io@ == io_uring_syscalls());
        push_always(&mut f, &io);
    } else {
        assert(before + Seq::<(Syscall, Seq<Seq<ArgEq>>)>::empty() == before);
    }
    f
}

} // verus!

verus! {

/// The rules of `inet_rules(types)` come in pairs: IPv4 then IPv6, for each
/// type in turn.
proof fn lemma_inet_rules_index(types: Seq<u64>, k: int)
    requires
        0 <= k < types.len(),
    ensures
        inet_rules(types).len() == 2 * types.len(),
        inet_rules(types)[2 * k] == seq![ArgEq { arg: 0, value: AF_INET }, ArgEq { arg: 1, value: types[k] }],
        inet_rules(types)[2 * k + 1] == seq![
            ArgEq { arg: 0, value: AF_INET6 },
            ArgEq { arg: 1, value: types[k] },
        ],
    decreases types.len(),
{
    lemma_inet_rules_len(types);
    if k < types.len() - 1 {
        lemma_inet_rules_index(types.drop_last(), k);
    }
}

proof fn lemma_inet_rules_len(types: Seq<u64>)
    ensures
        inet_rules(types).len() == 2 * types.len(),
    decreases types.len(),
{
    if types.len() > 0 {
        lemma_inet_rules_len(types.drop_last());
    }
}

/// Whether `socket(family, ty, ..)` meets a condition on its first two
/// arguments.
pub open spec fn socket_call_meets(c: ArgEq, family: u64, ty: u64) -> bool {
    (c.arg == 0 && c.value == family) || (c.arg == 1 && c.value == ty)
}

/// Whether `socket(family, ty, ..)` meets every condition of a rule.
pub open spec fn socket_rule_fires(rule: Seq<ArgEq>, family: u64, ty: u64) -> bool {
    forall|j: int| 0 <= j < rule.len() ==> socket_call_meets(#[trigger] rule[j], family, ty)
}

/// Whether the socket rules refuse `socket(family, ty, ..)`: some rule fires.
pub open spec fn socket_refused(rules: Seq<Seq<ArgEq>>, family: u64, ty: u64) -> bool {
    exists|i: int| 0 <= i < rules.len() && socket_rule_fires(#[trigger] rules[i], family, ty)
}

/// With the network denied and no IPC endpoint, IPv4 and IPv6 sockets of the
/// stream, datagram and raw types are refused, with or without the
/// non-blocking and close-on-exec flags.
pub proof fn lemma_denied_network_refuses_ip_sockets(family: u64, base: u64, k: int)
    requires
        family == AF_INET || family == AF_INET6,
        base == SOCK_STREAM || base == SOCK_DGRAM || base == SOCK_RAW,
        0 <= k < 4,
    ensures
        socket_refused(spec_socket_rules(true, false), family, type_variants(base)[k]),
{
    let rules = spec_socket_rules(true, false);
    let t = type_variants(base)[k];
    let d = inet_rules(type_variants(SOCK_DGRAM));
    let r = inet_rules(type_variants(SOCK_RAW));
    let s = inet_rules(type_variants(SOCK_STREAM));
    lemma_inet_rules_len(type_variants(SOCK_DGRAM));
    lemma_inet_rules_len(type_variants(SOCK_RAW));
    lemma_inet_rules_len(type_variants(SOCK_STREAM));
    let off: int = if family == AF_INET { 0 } else { 1 };
    let i: int = if base == SOCK_DGRAM {
        1 + 2 * k + off
    } else if base == SOCK_RAW {
        9 + 2 * k + off
    } else {
        17 + 2 * k + off
    };
    lemma_inet_rules_index(type_variants(base), k);
    assert(rules =~= seq![seq![ArgEq { arg: 0, value: AF_PACKET }]] + d + r + s);
    assert(rules[i] == inet_rules(type_variants(base))[2 * k + off]);
    assert(socket_rule_fires(rules[i], family, t));
}

/// Packet sockets are refused whatever the network policy.
pub proof fn lemma_packet_sockets_refused(network_deny_all: bool, ipc_enabled: bool, ty: u64)
    ensures
        socket_refused(spec_socket_rules(network_deny_all, ipc_enabled), AF_PACKET, ty),
{
    let rules = spec_socket_rules(network_deny_all, ipc_enabled);
    assert(rules[0] == seq![ArgEq { arg: 0, value: AF_PACKET }]);
    assert(socket_rule_fires(rules[0], AF_PACKET, ty));
}

/// With the network allowed, or with an IPC endpoint to reach, TCP sockets
/// (with or without flags) are not refused.
pub proof fn lemma_tcp_allowed_when_needed(network_deny_all: bool, ipc_enabled: bool, family: u64, k: int)
    requires
        !network_deny_all || ipc_enabled,
        family == AF_INET || family == AF_INET6,
        0 <= k < 4,
    ensures
        !socket_refused(
            spec_socket_rules(network_deny_all, ipc_enabled),
            family,
            type_variants(SOCK_STREAM)[k],
        ),
{
    let rules = spec_socket_rules(network_deny_all, ipc_enabled);
    let t = type_variants(SOCK_STREAM)[k];
    let d = inet_rules(type_variants(SOCK_DGRAM));
    let r = inet_rules(type_variants(SOCK_RAW));
    lemma_inet_rules_len(type_variants(SOCK_DGRAM));
    lemma_inet_rules_len(type_variants(SOCK_RAW));
    assert(rules =~= seq![seq![ArgEq { arg: 0, value: AF_PACKET }]] + d + r);
    assert(1u64 | 0x800u64 == 0x801u64) by (bit_vector);
    assert(1u64 | 0x80000u64 == 0x80001u64) by (bit_vector);
    assert(1u64 | 0x800u64 | 0x80000u64 == 0x80801u64) by (bit_vector);
    assert(2u64 | 0x800u64 == 0x802u64) by (bit_vector);
    assert(2u64 | 0x80000u64 == 0x80002u64) by (bit_vector);
    assert(2u64 | 0x800u64 | 0x80000u64 == 0x80802u64) by (bit_vector);
    assert(3u64 | 0x800u64 == 0x803u64) by (bit_vector);
    assert(3u64 | 0x80000u64 == 0x80003u64) by (bit_vector);
    assert(3u64 | 0x800u64 | 0x80000u64 == 0x80803u64) by (bit_vector);
    if socket_refused(rules, family, t) {
        let i = choose|i: int| 0 <= i < rules.len() && socket_rule_fires(#[trigger] rules[i], family, t);
        if i == 0 {
            assert(socket_call_meets(rules[0][0], family, t));
        } else {
            let (base, m) = if i < 9 { (SOCK_DGRAM, i - 1) } else { (SOCK_RAW, i - 9) };
            lemma_inet_rules_index(type_variants(base), m / 2);
            assert(rules[i] == inet_rules(type_variants(base))[m]);
            assert(rules[i][1] == ArgEq { arg: 1, value: type_variants(base)[m / 2] });
            assert(socket_call_meets(rules[i][1], family, t));
        }
    }
}

} // verus!

verus! {

/// Whether a system call is one of the `io_uring` calls.
pub open spec fn is_io_uring(s: Syscall) -> bool {
    s == Syscall::IoUringSetup || s == Syscall::IoUringEnter || s == Syscall::IoUringRegister
}

/// `io_uring` is refused exactly when hardware access is not allowed: then
/// each of `io_uring_setup`, `io_uring_enter` and `io_uring_register` is
/// refused outright; with hardware access allowed the filter names none of
/// them.
pub proof fn lemma_io_uring_refused_iff_no_hardware(
    security: SecurityConfig,
    network_deny_all: bool,
    ipc_enabled: bool,
)
    ensures
        !security.allow_hardware ==> {
            let f = spec_filter(security, network_deny_all, ipc_enabled);
            &&& f.contains((Syscall::IoUringSetup, Seq::<Seq<ArgEq>>::empty()))
            &&& f.contains((Syscall::IoUringEnter, Seq::<Seq<ArgEq>>::empty()))
            &&& f.contains((Syscall::IoUringRegister, Seq::<Seq<ArgEq>>::empty()))
        },
        security.allow_hardware ==> forall|i: int|
            0 <= i < spec_filter(security, network_deny_all, ipc_enabled).len() ==> !is_io_uring(
                #[trigger] spec_filter(security, network_deny_all, ipc_enabled)[i].0,
            ),
{
    let f = spec_filter(security, network_deny_all, ipc_enabled);
    let head = seq![(Syscall::Socket, spec_socket_rules(network_deny_all, ipc_enabled))];
    let d = always_refused(dangerous_syscalls());
    let ds = dangerous_syscalls();
    assert forall|k: int| 0 <= k < ds.len() implies !is_io_uring(#[trigger] ds[k]) by {
        assert(ds[k] == seq![
            Syscall::Ptrace,
            Syscall::ProcessVmReadv,
            Syscall::ProcessVmWritev,
            Syscall::InitModule,
            Syscall::FinitModule,
            Syscall::DeleteModule,
            Syscall::Personality,
            Syscall::Mount,
            Syscall::Umount2,
            Syscall::PivotRoot,
            Syscall::Unshare,
            Syscall::Setns,
            Syscall::Reboot,
            Syscall::KexecLoad,
            Syscall::KexecFileLoad,
            Syscall::Setuid,
            Syscall::Setgid,
            Syscall::Setreuid,
            Syscall::Setregid,
            Syscall::Setresuid,
            Syscall::Setresgid,
            Syscall::Setgroups,
            Syscall::AddKey,
            Syscall::RequestKey,
            Syscall::Keyctl,
            Syscall::Bpf,
            Syscall::Userfaultfd,
            Syscall::PerfEventOpen,
            Syscall::Settimeofday,
            Syscall::ClockSettime,
            Syscall::Adjtimex,
            Syscall::Swapon,
            Syscall::Swapoff,
            Syscall::Quotactl,
            Syscall::Acct,
        ][k]);
    }
    if security.allow_hardware {
        assert(f =~= head + d);
        assert forall|i: int| 0 <= i < f.len() implies !is_io_uring(#[trigger] f[i].0) by {
            if i > 0 {
                assert(f[i] == d[i - 1]);
                assert(d[i - 1].0 == ds[i - 1]);
            }
        }
    } else {
        let io = always_refused(io_uring_syscalls());
        assert(f =~= head + d + io);
        let n: int = (head.len() + d.len()) as int;
        assert(f[n] == io[0]);
        assert(f[n + 1] == io[1]);
        assert(f[n + 2] == io[2]);
    }
}

} // verus!

verus! {

/// The system calls refused to every sandboxed process, whatever its
/// security settings and network policy: tracing other processes, kernel
/// modules, personality, mounts and namespaces, reboot and kexec, identity
/// changes, keyrings, BPF, userfaultfd, perf events, clock changes, swap,
/// quotas and process accounting.
pub open spec fn always_refused_calls() -> Seq<Syscall> {
    seq![
        Syscall::Ptrace,
        Syscall::ProcessVmReadv,
        Syscall::ProcessVmWritev,
        Syscall::InitModule,
        Syscall::FinitModule,
        Syscall::DeleteModule,
        Syscall::Personality,
        Syscall::Mount,
        Syscall::Umount2,
        Syscall::PivotRoot,
        Syscall::Unshare,
        Syscall::Setns,
        Syscall::Reboot,
        Syscall::KexecLoad,
        Syscall::KexecFileLoad,
        Syscall::Setuid,
        Syscall::Setgid,
        Syscall::Setreuid,
        Syscall::Setregid,
        Syscall::Setresuid,
        Syscall::Setresgid,
        Syscall::Setgroups,
        Syscall::AddKey,
        Syscall::RequestKey,
        Syscall::Keyctl,
        Syscall::Bpf,
        Syscall::Userfaultfd,
        Syscall::PerfEventOpen,
        Syscall::Settimeofday,
        Syscall::ClockSettime,
        Syscall::Adjtimex,
        Syscall::Swapon,
        Syscall::Swapoff,
        Syscall::Quotactl,
        Syscall::Acct,
    ]
}

/// Each of `always_refused_calls` is refused outright (no argument
/// condition) by every filter the library builds.
pub proof fn lemma_dangerous_calls_always_refused(
    security: SecurityConfig,
    network_deny_all: bool,
    ipc_enabled: bool,
)
    ensures
        forall|k: int|
            0 <= k < always_refused_calls().len() ==> spec_filter(security, network_deny_all, ipc_enabled).contains(
                (#[trigger] always_refused_calls()[k], Seq::<Seq<ArgEq>>::empty()),
            ),
{
    let f = spec_filter(security, network_deny_all, ipc_enabled);
    let d = always_refused(dangerous_syscalls());
    assert(dangerous_syscalls() =~= always_refused_calls());
    assert forall|k: int| 0 <= k < always_refused_calls().len() implies f.contains(
        (#[trigger] always_refused_calls()[k], Seq::<Seq<ArgEq>>::empty()),
    ) by {
        assert(f[k + 1] == d[k]);
    }
}

} // verus!
