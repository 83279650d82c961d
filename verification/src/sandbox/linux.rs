//! The `linux_native` rules: Landlock access rights per path and the seccomp
//! socket gate, as data that the caller installs in a child.
use vstd::prelude::*;
use vstd::string::*;

use crate::text::decimal_text;
#[allow(unused_imports)]
use crate::text::decimal;

use super::SandboxError;

verus! {

/// Lowest Landlock ABI that mediates `truncate(2)` (kernel 6.2). Signal
/// scoping needs ABI 6 (kernel 6.12).
pub const MIN_ABI: u32 = 3;

pub const ACCESS_FS_EXECUTE: u64 = 0x1;

pub const ACCESS_FS_WRITE_FILE: u64 = 0x2;

pub const ACCESS_FS_READ_FILE: u64 = 0x4;

pub const ACCESS_FS_READ_DIR: u64 = 0x8;

pub const ACCESS_FS_REMOVE_DIR: u64 = 0x10;

pub const ACCESS_FS_REMOVE_FILE: u64 = 0x20;

pub const ACCESS_FS_MAKE_CHAR: u64 = 0x40;

pub const ACCESS_FS_MAKE_DIR: u64 = 0x80;

pub const ACCESS_FS_MAKE_REG: u64 = 0x100;

pub const ACCESS_FS_MAKE_SOCK: u64 = 0x200;

pub const ACCESS_FS_MAKE_FIFO: u64 = 0x400;

pub const ACCESS_FS_MAKE_BLOCK: u64 = 0x800;

pub const ACCESS_FS_MAKE_SYM: u64 = 0x1000;

pub const ACCESS_FS_REFER: u64 = 0x2000;

pub const ACCESS_FS_TRUNCATE: u64 = 0x4000;

pub const ACCESS_FS_IOCTL_DEV: u64 = 0x8000;

pub const SCOPE_ABSTRACT_UNIX_SOCKET: u64 = 1;

pub const SCOPE_SIGNAL: u64 = 2;

/// Read access below a directory: execute, read files, list directories.
pub const READ_DIR: u64 = 0xd;

/// Read access to a file: execute, read.
pub const READ_FILE: u64 = 0x5;

/// The error text for an ABI below the floor.
pub open spec fn floor_text(abi: u32) -> Seq<char> {
    "Landlock ABI "@ + decimal(abi as nat) + " is below the required floor of "@ + decimal(
        MIN_ABI as nat,
    ) + " (kernel 6.2)"@
}

/// An ABI that the sandbox can rely on: at least [`MIN_ABI`].
pub fn require_abi(abi: u32) -> (r: Result<u32, SandboxError>)
    ensures
        if abi >= MIN_ABI {
            r == Ok::<u32, SandboxError>(abi)
        } else {
            r matches Err(SandboxError::Unavailable(m)) && m@ == floor_text(abi)
        },
{
    if abi < MIN_ABI {
        let have = decimal_text(abi as u64);
        let want = decimal_text(MIN_ABI as u64);
        let mut m = "Landlock ABI ".to_owned();
        m.append(have.as_str());
        m.append(" is below the required floor of ");
        m.append(want.as_str());
        m.append(" (kernel 6.2)");
        return Err(SandboxError::Unavailable(m));
    }
    Ok(abi)
}

/// The filesystem rights that an ABI handles.
pub open spec fn handled(abi: u32) -> u64 {
    if abi >= 5 {
        0xffff
    } else if abi >= 3 {
        0x7fff
    } else if abi >= 2 {
        0x3fff
    } else {
        0x1fff
    }
}

/// The filesystem rights that an ABI handles.
pub fn handled_fs(abi: u32) -> (access: u64)
    ensures
        access == handled(abi),
{
    let mut access: u64 = ACCESS_FS_EXECUTE | ACCESS_FS_WRITE_FILE | ACCESS_FS_READ_FILE
        | ACCESS_FS_READ_DIR | ACCESS_FS_REMOVE_DIR | ACCESS_FS_REMOVE_FILE | ACCESS_FS_MAKE_CHAR
        | ACCESS_FS_MAKE_DIR | ACCESS_FS_MAKE_REG | ACCESS_FS_MAKE_SOCK | ACCESS_FS_MAKE_FIFO
        | ACCESS_FS_MAKE_BLOCK | ACCESS_FS_MAKE_SYM;
    assert(0x1u64 | 0x2 | 0x4 | 0x8 | 0x10 | 0x20 | 0x40 | 0x80 | 0x100 | 0x200 | 0x400 | 0x800
        | 0x1000 == 0x1fff) by (bit_vector);
    if abi >= 2 {
        access = access | ACCESS_FS_REFER;
        assert(0x1fffu64 | 0x2000 == 0x3fff) by (bit_vector);
    }
    if abi >= 3 {
        access = access | ACCESS_FS_TRUNCATE;
        assert(0x3fffu64 | 0x4000 == 0x7fff) by (bit_vector);
    }
    if abi >= 5 {
        access = access | ACCESS_FS_IOCTL_DEV;
        assert(0x7fffu64 | 0x8000 == 0xffff) by (bit_vector);
    }
    access
}

/// The truncation right, where the ABI has it.
pub fn truncate_bit(abi: u32) -> (access: u64)
    ensures
        access == if abi >= 3 {
            ACCESS_FS_TRUNCATE
        } else {
            0
        },
{
    if abi >= 3 {
        ACCESS_FS_TRUNCATE
    } else {
        0
    }
}

/// The device ioctl right, where the ABI has it.
pub fn ioctl_bit(abi: u32) -> (access: u64)
    ensures
        access == if abi >= 5 {
            ACCESS_FS_IOCTL_DEV
        } else {
            0
        },
{
    if abi >= 5 {
        ACCESS_FS_IOCTL_DEV
    } else {
        0
    }
}

/// The scopes of a ruleset: abstract sockets and signals from ABI 6 on.
pub fn scoped(abi: u32) -> (scopes: u64)
    ensures
        scopes == if abi >= 6 {
            3u64
        } else {
            0
        },
{
    if abi >= 6 {
        assert(1u64 | 2 == 3) by (bit_vector);
        SCOPE_ABSTRACT_UNIX_SOCKET | SCOPE_SIGNAL
    } else {
        0
    }
}

/// The bytes of the ruleset attribute that an ABI understands: one, two or
/// three 64-bit fields.
pub fn ruleset_attr_size(abi: u32) -> (size: usize)
    ensures
        size == if abi >= 6 {
            24usize
        } else if abi >= 4 {
            16usize
        } else {
            8usize
        },
{
    if abi >= 6 {
        24
    } else if abi >= 4 {
        16
    } else {
        8
    }
}

/// One path of the ruleset.
pub struct PathRule {
    pub path: String,
    /// The rights below the path.
    pub access: u64,
    /// The rule is left out where the path does not exist.
    pub optional: bool,
}

/// A path that the settings add for reading.
pub struct ReadOnlyPath {
    pub path: String,
    pub is_dir: bool,
}

pub open spec fn rule_views(v: Seq<PathRule>) -> Seq<(Seq<char>, u64, bool)> {
    Seq::new(v.len(), |i: int| (v[i].path@, v[i].access, v[i].optional))
}

/// Read and write access to a device file.
pub open spec fn device_access(abi: u32) -> u64 {
    if abi >= 5 {
        0xc006
    } else if abi >= 3 {
        0x4006
    } else {
        0x6
    }
}

/// Full access below a directory but for device nodes.
pub open spec fn writable_access(abi: u32) -> u64 {
    (handled(abi) - 0x840) as u64
}

pub open spec fn system_dirs() -> Seq<Seq<char>> {
    seq![
        "/usr"@,
        "/bin"@,
        "/sbin"@,
        "/lib"@,
        "/lib64"@,
        "/lib32"@,
        "/etc/alternatives"@,
        "/etc/ssl/certs"@,
    ]
}

pub open spec fn system_files() -> Seq<Seq<char>> {
    seq![
        "/etc/ld.so.cache"@,
        "/etc/passwd"@,
        "/etc/group"@,
        "/etc/nsswitch.conf"@,
        "/etc/localtime"@,
    ]
}

pub open spec fn devices() -> Seq<Seq<char>> {
    seq!["/dev/null"@, "/dev/zero"@, "/dev/urandom"@, "/dev/random"@]
}

/// The same rights on each path of a list.
pub open spec fn each(paths: Seq<Seq<char>>, access: u64) -> Seq<(Seq<char>, u64, bool)> {
    Seq::new(paths.len(), |i: int| (paths[i], access, true))
}

/// The rules for the read-only paths of the settings.
pub open spec fn extra_rules(extra: Seq<ReadOnlyPath>) -> Seq<(Seq<char>, u64, bool)> {
    Seq::new(
        extra.len(),
        |i: int|
            (
                extra[i].path@,
                if extra[i].is_dir {
                    READ_DIR
                } else {
                    READ_FILE
                },
                false,
            ),
    )
}

/// The whole ruleset, in the order it is installed.
pub open spec fn rules_of(
    abi: u32,
    workspace: Seq<char>,
    scratch: Seq<char>,
    extra: Seq<ReadOnlyPath>,
) -> Seq<(Seq<char>, u64, bool)> {
    each(system_dirs(), READ_DIR) + each(system_files(), READ_FILE) + extra_rules(extra) + each(
        devices(),
        device_access(abi),
    ) + seq![
        (workspace, writable_access(abi), false),
        (scratch, writable_access(abi), false),
    ]
}

fn push_rule(v: &mut Vec<PathRule>, path: &str, access: u64, optional: bool)
    ensures
        rule_views(final(v)@) == rule_views(old(v)@).push((path@, access, optional)),
{
    let rule = PathRule { path: path.to_owned(), access, optional };
    v.push(rule);
    assert(rule_views(v@) =~= rule_views(old(v)@).push((path@, access, optional)));
}

/// The ruleset of a workspace: system paths and the extra paths for reading,
/// the basic devices for reading and writing, and the workspace and scratch
/// directories for everything but device nodes.
pub fn add_path_rules(abi: u32, workspace: &str, scratch: &str, extra: &Vec<ReadOnlyPath>) -> (v:
    Vec<PathRule>)
    ensures
        rule_views(v@) == rules_of(abi, workspace@, scratch@, extra@),
{
    let handled_access = handled_fs(abi);
    let write_dev: u64 = (ACCESS_FS_READ_FILE | ACCESS_FS_WRITE_FILE | truncate_bit(abi)
        | ioctl_bit(abi)) & handled_access;
    let write_dir: u64 = handled_access & !ACCESS_FS_MAKE_CHAR & !ACCESS_FS_MAKE_BLOCK;
    proof {
        assert((4u64 | 2 | 0x4000 | 0x8000) & 0xffff == 0xc006) by (bit_vector);
        assert((4u64 | 2 | 0x4000 | 0) & 0x7fff == 0x4006) by (bit_vector);
        assert((4u64 | 2 | 0 | 0) & 0x3fff == 0x6) by (bit_vector);
        assert((4u64 | 2 | 0 | 0) & 0x1fff == 0x6) by (bit_vector);
        assert(0xffffu64 & !0x40u64 & !0x800u64 == 0xf7bf) by (bit_vector);
        assert(0x7fffu64 & !0x40u64 & !0x800u64 == 0x77bf) by (bit_vector);
        assert(0x3fffu64 & !0x40u64 & !0x800u64 == 0x37bf) by (bit_vector);
        assert(0x1fffu64 & !0x40u64 & !0x800u64 == 0x17bf) by (bit_vector);
        assert(write_dev == device_access(abi));
        assert(write_dir == writable_access(abi));
    }
    let mut v: Vec<PathRule> = Vec::new();
    push_rule(&mut v, "/usr", READ_DIR, true);
    push_rule(&mut v, "/bin", READ_DIR, true);
    push_rule(&mut v, "/sbin", READ_DIR, true);
    push_rule(&mut v, "/lib", READ_DIR, true);
    push_rule(&mut v, "/lib64", READ_DIR, true);
    push_rule(&mut v, "/lib32", READ_DIR, true);
    push_rule(&mut v, "/etc/alternatives", READ_DIR, true);
    push_rule(&mut v, "/etc/ssl/certs", READ_DIR, true);
    assert(rule_views(v@) =~= each(system_dirs(), READ_DIR));
    let ghost dirs = rule_views(v@);
    push_rule(&mut v, "/etc/ld.so.cache", READ_FILE, true);
    push_rule(&mut v, "/etc/passwd", READ_FILE, true);
    push_rule(&mut v, "/etc/group", READ_FILE, true);
    push_rule(&mut v, "/etc/nsswitch.conf", READ_FILE, true);
    push_rule(&mut v, "/etc/localtime", READ_FILE, true);
    assert(rule_views(v@) =~= dirs + each(system_files(), READ_FILE));
    let ghost base = rule_views(v@);
    let mut i: usize = 0;
    assert(base =~= base + extra_rules(extra@).take(0));
    while i < extra.len()
        invariant
            i <= extra@.len(),
            rule_views(v@) == base + extra_rules(extra@).take(i as int),
        decreases extra@.len() - i,
    {
        let access: u64 = if extra[i].is_dir {
            READ_DIR
        } else {
            READ_FILE
        };
        push_rule(&mut v, extra[i].path.as_str(), access, false);
        i = i + 1;
        assert(extra_rules(extra@).take(i as int) =~= extra_rules(extra@).take(i - 1).push(
            extra_rules(extra@)[i - 1],
        ));
        assert(rule_views(v@) =~= base + extra_rules(extra@).take(i as int));
    }
    assert(extra_rules(extra@).take(extra@.len() as int) =~= extra_rules(extra@));
    let ghost middle = rule_views(v@);
    push_rule(&mut v, "/dev/null", write_dev, true);
    push_rule(&mut v, "/dev/zero", write_dev, true);
    push_rule(&mut v, "/dev/urandom", write_dev, true);
    push_rule(&mut v, "/dev/random", write_dev, true);
    assert(rule_views(v@) =~= middle + each(devices(), device_access(abi)));
    let ghost almost = rule_views(v@);
    push_rule(&mut v, workspace, write_dir, false);
    push_rule(&mut v, scratch, write_dir, false);
    assert(rule_views(v@) =~= almost + seq![
        (workspace@, writable_access(abi), false),
        (scratch@, writable_access(abi), false),
    ]);
    v
}

/// No rule of the ruleset allows making character or block devices, and none
/// allows a right that the ABI does not handle.
pub proof fn no_rule_makes_devices(
    abi: u32,
    workspace: Seq<char>,
    scratch: Seq<char>,
    extra: Seq<ReadOnlyPath>,
    i: int,
)
    requires
        0 <= i < rules_of(abi, workspace, scratch, extra).len(),
    ensures
        rules_of(abi, workspace, scratch, extra)[i].1 & (ACCESS_FS_MAKE_CHAR | ACCESS_FS_MAKE_BLOCK)
            == 0,
        rules_of(abi, workspace, scratch, extra)[i].1 & !handled(abi) == 0,
{
    let a = rules_of(abi, workspace, scratch, extra)[i].1;
    assert(a == READ_DIR || a == READ_FILE || a == device_access(abi) || a == writable_access(abi));
    let h = handled(abi);
    assert(a & (0x40u64 | 0x800) == 0 && a & !h == 0) by (bit_vector)
        requires
            a == 0xd && (h == 0xffff || h == 0x7fff || h == 0x3fff || h == 0x1fff) || a == 0x5 && (h
                == 0xffff || h == 0x7fff || h == 0x3fff || h == 0x1fff) || a == 0xc006 && h
                == 0xffff || a == 0x4006 && h == 0x7fff || a == 0x6 && (h == 0x3fff || h == 0x1fff)
                || a == 0xf7bf && h == 0xffff || a == 0x77bf && h == 0x7fff || a == 0x37bf && h
                == 0x3fff || a == 0x17bf && h == 0x1fff,
    ;
}

// ---------------------------------------------------------------------------
// The socket filter
// ---------------------------------------------------------------------------

/// One instruction of a classic BPF program.
#[derive(Debug, Clone, Copy, PartialEq, Eq, Structural)]
pub struct SockFilter {
    pub code: u16,
    pub jt: u8,
    pub jf: u8,
    pub k: u32,
}

/// `BPF_LD | BPF_W | BPF_ABS`.
pub const LOAD: u16 = 0x20;

/// `BPF_ALU | BPF_AND | BPF_K`.
pub const AND: u16 = 0x54;

/// `BPF_JMP | BPF_JEQ | BPF_K`.
pub const JUMP_EQUAL: u16 = 0x15;

/// `BPF_JMP | BPF_JGE | BPF_K`.
pub const JUMP_GREATER_EQUAL: u16 = 0x35;

/// `BPF_RET | BPF_K`.
pub const RETURN: u16 = 0x06;

pub const SECCOMP_RET_ALLOW: u32 = 0x7fff_0000;

/// `SECCOMP_RET_ERRNO` with `EPERM`.
pub const SECCOMP_RET_ERRNO_EPERM: u32 = 0x0005_0001;

/// x32 syscalls share the x86-64 audit architecture but set this bit in `nr`.
pub const X32_SYSCALL_BIT: u32 = 0x4000_0000;

/// The length of the fixed program buffer.
pub const FILTER_LEN: usize = 64;

/// What the filter has to know of the host: the audit architecture, the socket
/// constants and the syscall numbers.
pub struct FilterHost {
    pub audit_arch: u32,
    pub af_unix: u32,
    pub sock_stream: u32,
    pub socket: u32,
    pub socketpair: u32,
    pub pidfd_send_signal: u32,
    pub rt_sigqueueinfo: u32,
    pub rt_tgsigqueueinfo: u32,
    pub io_uring_setup: u32,
    pub io_uring_enter: u32,
    pub io_uring_register: u32,
    pub setpgid: u32,
    pub setsid: u32,
    pub setns: u32,
    pub unshare: u32,
}

impl FilterHost {
    /// The alternate socket, signal and identity-change routes.
    pub open spec fn closed_routes(self) -> Seq<u32> {
        seq![
            self.pidfd_send_signal,
            self.rt_sigqueueinfo,
            self.rt_tgsigqueueinfo,
            self.io_uring_setup,
            self.io_uring_enter,
            self.io_uring_register,
            self.setpgid,
            self.setsid,
            self.setns,
            self.unshare,
        ]
    }
}

/// What the kernel shows a filter of one syscall.
pub struct Syscall {
    pub nr: u32,
    pub arch: u32,
    /// The low word of the first argument.
    pub arg0: u32,
    /// The low word of the second argument.
    pub arg1: u32,
}

/// The word at an offset of the syscall data.
pub open spec fn load(call: Syscall, offset: u32) -> u32 {
    if offset == 0 {
        call.nr
    } else if offset == 4 {
        call.arch
    } else if offset == 16 {
        call.arg0
    } else if offset == 24 {
        call.arg1
    } else {
        0
    }
}

/// What a program returns for a syscall when it is entered at `pc` with `acc`
/// in the accumulator.
pub open spec fn run_filter(program: Seq<SockFilter>, pc: int, acc: u32, call: Syscall) -> Option<
    u32,
>
    decreases if pc < program.len() { program.len() - pc } else { 0 },
{
    if pc < 0 || pc >= program.len() {
        None
    } else {
        let i = program[pc];
        if i.code == RETURN {
            Some(i.k)
        } else if i.code == LOAD {
            run_filter(program, pc + 1, load(call, i.k), call)
        } else if i.code == AND {
            run_filter(program, pc + 1, acc & i.k, call)
        } else if i.code == JUMP_EQUAL {
            run_filter(
                program,
                pc + 1 + (if acc == i.k {
                    i.jt as int
                } else {
                    i.jf as int
                }),
                acc,
                call,
            )
        } else if i.code == JUMP_GREATER_EQUAL {
            run_filter(
                program,
                pc + 1 + (if acc >= i.k {
                    i.jt as int
                } else {
                    i.jf as int
                }),
                acc,
                call,
            )
        } else {
            None
        }
    }
}

/// Which syscalls the socket gate denies: those of another architecture or of
/// the x32 table, `socket`, every `socketpair` but a Unix stream pair, and the
/// closed routes.
pub open spec fn denied(host: FilterHost, call: Syscall) -> bool {
    ||| call.arch != host.audit_arch
    ||| call.nr >= X32_SYSCALL_BIT
    ||| call.nr == host.socket
    ||| call.nr == host.socketpair && !(call.arg0 == host.af_unix && (call.arg1 & 0xf)
        == host.sock_stream)
    ||| host.closed_routes().contains(call.nr)
}

/// The two instructions that deny one syscall number.
pub open spec fn deny_pair(nr: u32) -> Seq<SockFilter> {
    seq![
        SockFilter { code: JUMP_EQUAL, jt: 0, jf: 1, k: nr },
        SockFilter { code: RETURN, jt: 0, jf: 0, k: SECCOMP_RET_ERRNO_EPERM },
    ]
}

/// The denials of a list of syscall numbers, one after the other.
pub open spec fn deny_all(numbers: Seq<u32>) -> Seq<SockFilter>
    decreases numbers.len(),
{
    if numbers.len() == 0 {
        Seq::empty()
    } else {
        deny_all(numbers.drop_last()) + deny_pair(numbers.last())
    }
}

fn stmt(code: u16, k: u32) -> (i: SockFilter)
    ensures
        i == (SockFilter { code, jt: 0, jf: 0, k }),
{
    SockFilter { code, jt: 0, jf: 0, k }
}

fn jump(code: u16, k: u32, jt: u8, jf: u8) -> (i: SockFilter)
    ensures
        i == (SockFilter { code, jt, jf, k }),
{
    SockFilter { code, jt, jf, k }
}

/// The part of the program before the closed routes.
pub open spec fn gate_head(host: FilterHost) -> Seq<SockFilter> {
    let deny = SockFilter { code: RETURN, jt: 0, jf: 0, k: SECCOMP_RET_ERRNO_EPERM };
    seq![
        SockFilter { code: LOAD, jt: 0, jf: 0, k: 4 },
        SockFilter { code: JUMP_EQUAL, jt: 1, jf: 0, k: host.audit_arch },
        deny,
        SockFilter { code: LOAD, jt: 0, jf: 0, k: 0 },
        SockFilter { code: JUMP_GREATER_EQUAL, jt: 0, jf: 1, k: X32_SYSCALL_BIT },
        deny,
        SockFilter { code: JUMP_EQUAL, jt: 0, jf: 1, k: host.socket },
        deny,
        SockFilter { code: JUMP_EQUAL, jt: 0, jf: 7, k: host.socketpair },
        SockFilter { code: LOAD, jt: 0, jf: 0, k: 16 },
        SockFilter { code: JUMP_EQUAL, jt: 1, jf: 0, k: host.af_unix },
        deny,
        SockFilter { code: LOAD, jt: 0, jf: 0, k: 24 },
        SockFilter { code: AND, jt: 0, jf: 0, k: 0xf },
        SockFilter { code: JUMP_EQUAL, jt: 1, jf: 0, k: host.sock_stream },
        deny,
        SockFilter { code: LOAD, jt: 0, jf: 0, k: 0 },
    ]
}

/// The whole program: the head, the closed routes, and the permission of what is left.
pub open spec fn gate_program(host: FilterHost) -> Seq<SockFilter> {
    gate_head(host) + deny_all(host.closed_routes()) + seq![allow()]
}

/// The instruction that allows a syscall.
pub open spec fn allow() -> SockFilter {
    SockFilter { code: RETURN, jt: 0, jf: 0, k: SECCOMP_RET_ALLOW }
}

proof fn deny_all_shape(numbers: Seq<u32>)
    ensures
        deny_all(numbers).len() == 2 * numbers.len(),
        forall|i: int|
            0 <= i < numbers.len() ==> deny_all(numbers)[2 * i] == deny_pair(#[trigger] numbers[i])[0]
                && deny_all(numbers)[2 * i + 1] == deny_pair(numbers[i])[1],
    decreases numbers.len(),
{
    if numbers.len() > 0 {
        let rest = numbers.drop_last();
        deny_all_shape(rest);
        assert forall|i: int| 0 <= i < numbers.len() implies deny_all(numbers)[2 * i] == deny_pair(
            #[trigger] numbers[i],
        )[0] && deny_all(numbers)[2 * i + 1] == deny_pair(numbers[i])[1] by {
            if i < rest.len() {
                assert(rest[i] == numbers[i]);
                assert(deny_all(numbers)[2 * i] == deny_all(rest)[2 * i]);
                assert(deny_all(numbers)[2 * i + 1] == deny_all(rest)[2 * i + 1]);
            }
        }
    }
}

/// From the `i`-th denial on, the program denies exactly the numbers that are
/// still to be compared.
proof fn closed_tail(program: Seq<SockFilter>, numbers: Seq<u32>, i: int, call: Syscall)
    requires
        0 <= i <= numbers.len(),
        program.len() > 17 + 2 * numbers.len(),
        forall|j: int|
            0 <= j < numbers.len() ==> program[17 + 2 * j] == deny_pair(#[trigger] numbers[j])[0]
                && program[17 + 2 * j + 1] == deny_pair(numbers[j])[1],
        program[17 + 2 * (numbers.len() as int)] == (SockFilter {
            code: RETURN,
            jt: 0,
            jf: 0,
            k: SECCOMP_RET_ALLOW,
        }),
    ensures
        run_filter(program, 17 + 2 * i, call.nr, call) == Some(
            if exists|j: int| i <= j < numbers.len() && numbers[j] == call.nr {
                SECCOMP_RET_ERRNO_EPERM
            } else {
                SECCOMP_RET_ALLOW
            },
        ),
    decreases numbers.len() - i,
{
    if i < numbers.len() {
        closed_tail(program, numbers, i + 1, call);
        let n = numbers[i];
        assert(program[17 + 2 * i] == deny_pair(n)[0]);
        assert(program[17 + 2 * i + 1] == deny_pair(n)[1]);
        if n == call.nr {
            assert(run_filter(program, 17 + 2 * i + 1, call.nr, call) == Some(
                SECCOMP_RET_ERRNO_EPERM,
            ));
        } else {
            assert(run_filter(program, 17 + 2 * i, call.nr, call) == run_filter(
                program,
                17 + 2 * (i + 1),
                call.nr,
                call,
            ));
            if exists|j: int| i <= j < numbers.len() && numbers[j] == call.nr {
                let j = choose|j: int| i <= j < numbers.len() && numbers[j] == call.nr;
                assert(i + 1 <= j < numbers.len() && numbers[j] == call.nr);
            }
        }
    }
}

proof fn gate_decides(program: Seq<SockFilter>, host: FilterHost, call: Syscall)
    requires
        program.len() >= 38,
        program.take(38) == gate_program(host),
    ensures
        run_filter(program, 0, 0, call) == Some(
            if denied(host, call) {
                SECCOMP_RET_ERRNO_EPERM
            } else {
                SECCOMP_RET_ALLOW
            },
        ),
{
    let numbers = host.closed_routes();
    let head = gate_head(host);
    let t = program.take(38);
    deny_all_shape(numbers);
    assert forall|i: int| 0 <= i < 17 implies program[i] == #[trigger] head[i] by {
        assert(t[i] == head[i]);
    }
    assert forall|j: int| 0 <= j < numbers.len() implies program[17 + 2 * j] == deny_pair(
        #[trigger] numbers[j],
    )[0] && program[17 + 2 * j + 1] == deny_pair(numbers[j])[1] by {
        assert(t[17 + 2 * j] == deny_all(numbers)[2 * j]);
        assert(t[17 + 2 * j + 1] == deny_all(numbers)[2 * j + 1]);
    }
    assert(t[37] == program[37]);
    closed_tail(program, numbers, 0, call);
    let p = program;
    assert(p[16] == head[16]);
    assert(run_filter(p, 16, call.nr, call) == run_filter(p, 17, call.nr, call));
    assert(p[16] == head[16] && p[15] == head[15] && p[14] == head[14] && p[13] == head[13]);
    let masked = call.arg1 & 0xf;
    assert(run_filter(p, 16, masked, call) == run_filter(p, 17, call.nr, call));
    assert(run_filter(p, 15, masked, call) == Some(SECCOMP_RET_ERRNO_EPERM));
    assert(run_filter(p, 14, masked, call) == if masked == host.sock_stream {
        run_filter(p, 16, masked, call)
    } else {
        run_filter(p, 15, masked, call)
    });
    assert(run_filter(p, 13, call.arg1, call) == run_filter(p, 14, masked, call));
    assert(p[12] == head[12] && p[11] == head[11] && p[10] == head[10] && p[9] == head[9] && p[8]
        == head[8]);
    assert(run_filter(p, 12, call.arg0, call) == run_filter(p, 13, call.arg1, call));
    assert(run_filter(p, 11, call.arg0, call) == Some(SECCOMP_RET_ERRNO_EPERM));
    assert(run_filter(p, 10, call.arg0, call) == if call.arg0 == host.af_unix {
        run_filter(p, 12, call.arg0, call)
    } else {
        run_filter(p, 11, call.arg0, call)
    });
    assert(run_filter(p, 9, call.nr, call) == run_filter(p, 10, call.arg0, call));
    assert(run_filter(p, 8, call.nr, call) == if call.nr == host.socketpair {
        run_filter(p, 9, call.nr, call)
    } else {
        run_filter(p, 16, call.nr, call)
    });
    assert(p[7] == head[7] && p[6] == head[6] && p[5] == head[5] && p[4] == head[4] && p[3]
        == head[3]);
    assert(run_filter(p, 7, call.nr, call) == Some(SECCOMP_RET_ERRNO_EPERM));
    assert(run_filter(p, 6, call.nr, call) == if call.nr == host.socket {
        run_filter(p, 7, call.nr, call)
    } else {
        run_filter(p, 8, call.nr, call)
    });
    assert(run_filter(p, 5, call.nr, call) == Some(SECCOMP_RET_ERRNO_EPERM));
    assert(run_filter(p, 4, call.nr, call) == if call.nr >= X32_SYSCALL_BIT {
        run_filter(p, 5, call.nr, call)
    } else {
        run_filter(p, 6, call.nr, call)
    });
    assert(p[2] == head[2] && p[1] == head[1] && p[0] == head[0]);
    assert(run_filter(p, 3, call.arch, call) == run_filter(p, 4, call.nr, call));
    assert(run_filter(p, 2, call.arch, call) == Some(SECCOMP_RET_ERRNO_EPERM));
    assert(run_filter(p, 1, call.arch, call) == if call.arch == host.audit_arch {
        run_filter(p, 3, call.arch, call)
    } else {
        run_filter(p, 2, call.arch, call)
    });
    assert(run_filter(p, 0, 0, call) == run_filter(p, 1, call.arch, call));
    if exists|j: int| 0 <= j < numbers.len() && numbers[j] == call.nr {
        let j = choose|j: int| 0 <= j < numbers.len() && numbers[j] == call.nr;
        assert(numbers[j] == call.nr);
        assert(numbers.contains(call.nr));
    }
}

/// The socket gate: a buffer of fixed length whose first `len` instructions are the
/// program that is installed. That program ends by allowing, decides every syscall,
/// denies with `EPERM` exactly the syscalls that [`denied`] names and allows the others.
/// The rest of the buffer allows.
pub fn socket_filter(abi: u32, self_pid: u32, host: &FilterHost) -> (r: (Vec<SockFilter>, u16))
    ensures
        r.0@.len() == FILTER_LEN,
        r.1 == 38,
        r.0@.take(r.1 as int) == gate_program(*host),
        forall|i: int| r.1 <= i < FILTER_LEN ==> #[trigger] r.0@[i] == allow(),
        r.0@[r.1 - 1] == allow(),
        forall|call: Syscall|
            #[trigger] run_filter(r.0@.take(r.1 as int), 0, 0, call) == Some(
                if denied(*host, call) {
                    SECCOMP_RET_ERRNO_EPERM
                } else {
                    SECCOMP_RET_ALLOW
                },
            ),
{
    let deny = stmt(RETURN, SECCOMP_RET_ERRNO_EPERM);
    let mut filter: Vec<SockFilter> = Vec::new();
    filter.push(stmt(LOAD, 4));
    filter.push(jump(JUMP_EQUAL, host.audit_arch, 1, 0));
    filter.push(deny);
    filter.push(stmt(LOAD, 0));
    filter.push(jump(JUMP_GREATER_EQUAL, X32_SYSCALL_BIT, 0, 1));
    filter.push(deny);
    filter.push(jump(JUMP_EQUAL, host.socket, 0, 1));
    filter.push(deny);
    // Only Unix stream pairs: a datagram pair can send to a host pathname
    // socket such as /dev/log.
    filter.push(jump(JUMP_EQUAL, host.socketpair, 0, 7));
    filter.push(stmt(LOAD, 16));
    filter.push(jump(JUMP_EQUAL, host.af_unix, 1, 0));
    filter.push(deny);
    filter.push(stmt(LOAD, 24));
    filter.push(stmt(AND, 0xf));
    filter.push(jump(JUMP_EQUAL, host.sock_stream, 1, 0));
    filter.push(deny);
    filter.push(stmt(LOAD, 0));
    assert(filter@ =~= gate_head(*host));
    let mut closed: Vec<u32> = Vec::new();
    closed.push(host.pidfd_send_signal);
    closed.push(host.rt_sigqueueinfo);
    closed.push(host.rt_tgsigqueueinfo);
    closed.push(host.io_uring_setup);
    closed.push(host.io_uring_enter);
    closed.push(host.io_uring_register);
    closed.push(host.setpgid);
    closed.push(host.setsid);
    closed.push(host.setns);
    closed.push(host.unshare);
    assert(closed@ =~= host.closed_routes());
    let mut i: usize = 0;
    assert(closed@.take(0) =~= Seq::<u32>::empty());
    assert(filter@ =~= gate_head(*host) + deny_all(closed@.take(0)));
    while i < closed.len()
        invariant
            i <= closed@.len(),
            filter@ == gate_head(*host) + deny_all(closed@.take(i as int)),
            deny == (SockFilter { code: RETURN, jt: 0, jf: 0, k: SECCOMP_RET_ERRNO_EPERM }),
        decreases closed@.len() - i,
    {
        filter.push(jump(JUMP_EQUAL, closed[i], 0, 1));
        filter.push(deny);
        i = i + 1;
        assert(closed@.take(i as int).drop_last() =~= closed@.take(i - 1));
        assert(filter@ =~= gate_head(*host) + deny_all(closed@.take(i as int)));
    }
    assert(closed@.take(10) =~= closed@);
    proof {
        deny_all_shape(closed@);
    }
    let len: u16 = filter.len() as u16 + 1;
    let ghost body = filter@;
    while filter.len() < FILTER_LEN
        invariant
            37 <= filter@.len() <= FILTER_LEN,
            body.len() == 37,
            filter@.take(37) == body,
            forall|j: int|
                37 <= j < filter@.len() ==> #[trigger] filter@[j] == (SockFilter {
                    code: RETURN,
                    jt: 0,
                    jf: 0,
                    k: SECCOMP_RET_ALLOW,
                }),
        decreases FILTER_LEN - filter@.len(),
    {
        let ghost before = filter@;
        filter.push(stmt(RETURN, SECCOMP_RET_ALLOW));
        assert(filter@.take(37) =~= before.take(37));
    }
    proof {
        assert(filter@[37] == (SockFilter { code: RETURN, jt: 0, jf: 0, k: SECCOMP_RET_ALLOW }));
        assert forall|j: int| 0 <= j < 37 implies filter@[j] == body[j] by {
            assert(filter@.take(37)[j] == body[j]);
        }
        let installed = filter@.take(38);
        assert(installed =~= body + seq![allow()]);
        assert(installed.take(38) =~= installed);
        assert forall|call: Syscall| #[trigger] run_filter(installed, 0, 0, call) == Some(
            if denied(*host, call) {
                SECCOMP_RET_ERRNO_EPERM
            } else {
                SECCOMP_RET_ALLOW
            },
        ) by {
            gate_decides(installed, *host, call);
        }
    }
    (filter, len)
}

/// Another architecture, the x32 table, a plain `socket` and every closed route
/// are denied whatever the arguments are; a Unix stream pair is allowed unless
/// its number is one of those.
pub proof fn gate_closes_alternate_routes(host: FilterHost, call: Syscall)
    ensures
        call.nr == host.socket ==> denied(host, call),
        call.nr == host.io_uring_setup ==> denied(host, call),
        call.nr == host.setpgid || call.nr == host.setsid ==> denied(host, call),
        call.arch != host.audit_arch ==> denied(host, call),
        call.nr >= X32_SYSCALL_BIT ==> denied(host, call),
        call.arch == host.audit_arch && call.nr < X32_SYSCALL_BIT && call.nr == host.socketpair
            && call.nr != host.socket && !host.closed_routes().contains(call.nr) && call.arg0
            == host.af_unix && (call.arg1 & 0xf) == host.sock_stream ==> !denied(host, call),
{
    assert(host.closed_routes()[3] == host.io_uring_setup);
    assert(host.closed_routes()[6] == host.setpgid);
    assert(host.closed_routes()[7] == host.setsid);
}

/// What a version of the interface handles: always the first thirteen accesses, linking from
/// its second version on, truncation from its third and device control from its fifth.
pub proof fn later_interfaces_handle_more(abi: u32)
    ensures
        handled(abi) & 0x1fff == 0x1fff,
        handled(abi) & ACCESS_FS_REFER != 0 <==> abi >= 2,
        handled(abi) & ACCESS_FS_TRUNCATE != 0 <==> abi >= 3,
        handled(abi) & ACCESS_FS_IOCTL_DEV != 0 <==> abi >= 5,
        handled(abi) <= 0xffff,
{
    let h = handled(abi);
    assert(h & 0x1fff == 0x1fff && (h & 0x2000 != 0 <==> h != 0x1fff) && (h & 0x4000 != 0 <==> h
        >= 0x7fff) && (h & 0x8000 != 0 <==> h == 0xffff)) by (bit_vector)
        requires
            h == 0x1fff || h == 0x3fff || h == 0x7fff || h == 0xffff,
    ;
}

/// Workspace and scratch may be used in every way that is handled, but for making devices.
pub proof fn workspace_is_writable(
    abi: u32,
    workspace: Seq<char>,
    scratch: Seq<char>,
    extra: Seq<ReadOnlyPath>,
)
    ensures
        writable_access(abi) == handled(abi) & !(ACCESS_FS_MAKE_CHAR | ACCESS_FS_MAKE_BLOCK),
        rules_of(abi, workspace, scratch, extra).contains((workspace, writable_access(abi), false)),
        rules_of(abi, workspace, scratch, extra).contains((scratch, writable_access(abi), false)),
{
    let h = handled(abi);
    let w = writable_access(abi);
    assert(w == h & !(0x40u64 | 0x800)) by (bit_vector)
        requires
            h == 0x1fff && w == 0x17bf || h == 0x3fff && w == 0x37bf || h == 0x7fff && w == 0x77bf
                || h == 0xffff && w == 0xf7bf,
    ;
    let rules = rules_of(abi, workspace, scratch, extra);
    assert(rules[rules.len() - 2] == (workspace, w, false));
    assert(rules[rules.len() - 1] == (scratch, w, false));
}

/// Nothing but the workspace, the scratch directory and a few devices may be written, and
/// nothing but the first two may have files made or removed in it.
pub proof fn only_the_workspace_is_written(
    abi: u32,
    workspace: Seq<char>,
    scratch: Seq<char>,
    extra: Seq<ReadOnlyPath>,
    i: int,
)
    requires
        0 <= i < rules_of(abi, workspace, scratch, extra).len(),
    ensures
        ({
            let rule = rules_of(abi, workspace, scratch, extra)[i];
            let made = ACCESS_FS_MAKE_REG | ACCESS_FS_MAKE_DIR | ACCESS_FS_REMOVE_FILE
                | ACCESS_FS_REMOVE_DIR;
            &&& rule.1 & ACCESS_FS_WRITE_FILE != 0 ==> rule.0 == workspace || rule.0 == scratch
                || devices().contains(rule.0)
            &&& rule.1 & made != 0 ==> rule.0 == workspace || rule.0 == scratch
        }),
{
    let rules = rules_of(abi, workspace, scratch, extra);
    let a = rules[i].1;
    let n = rules.len();
    let dirs = each(system_dirs(), READ_DIR);
    let files = each(system_files(), READ_FILE);
    let more = extra_rules(extra);
    let devs = each(devices(), device_access(abi));
    let before = dirs.len() + files.len() + more.len();
    if i < before {
        assert(a == READ_DIR || a == READ_FILE);
        assert(a & 0x2 == 0 && a & (0x100u64 | 0x80 | 0x20 | 0x10) == 0) by (bit_vector)
            requires
                a == 0xd || a == 0x5,
        ;
    } else if i < before + devs.len() {
        assert(rules[i] == devs[i - before]);
        assert(devices()[i - before] == rules[i].0);
        assert(a == device_access(abi));
        assert(a & (0x100u64 | 0x80 | 0x20 | 0x10) == 0) by (bit_vector)
            requires
                a == 0xc006 || a == 0x4006 || a == 0x6,
        ;
    }
}

/// Each path that is configured as readable has a rule of its own: it may be read, and a
/// directory be listed, and nothing more.
pub proof fn configured_paths_are_read_only(
    abi: u32,
    workspace: Seq<char>,
    scratch: Seq<char>,
    extra: Seq<ReadOnlyPath>,
    i: int,
)
    requires
        0 <= i < extra.len(),
    ensures
        rules_of(abi, workspace, scratch, extra).contains(
            (
                extra[i].path@,
                if extra[i].is_dir {
                    ACCESS_FS_EXECUTE | ACCESS_FS_READ_FILE | ACCESS_FS_READ_DIR
                } else {
                    ACCESS_FS_EXECUTE | ACCESS_FS_READ_FILE
                },
                false,
            ),
        ),
{
    assert(0x1u64 | 0x4 | 0x8 == 0xd && 0x1u64 | 0x4 == 0x5) by (bit_vector);
    let rules = rules_of(abi, workspace, scratch, extra);
    let at = system_dirs().len() + system_files().len() + i;
    assert(rules[at] == extra_rules(extra)[i]);
}

/// A call is let through just where it is of this machine, is none of the closed ones, and
/// opens no socket but a local stream pair.
pub proof fn gate_lets_the_rest_through(host: FilterHost, call: Syscall)
    ensures
        !denied(host, call) <==> call.arch == host.audit_arch && call.nr < X32_SYSCALL_BIT
            && call.nr != host.socket && (call.nr == host.socketpair ==> call.arg0 == host.af_unix
            && call.arg1 & 0xf == host.sock_stream) && call.nr != host.pidfd_send_signal && call.nr
            != host.rt_sigqueueinfo && call.nr != host.rt_tgsigqueueinfo && call.nr
            != host.io_uring_setup && call.nr != host.io_uring_enter && call.nr
            != host.io_uring_register && call.nr != host.setpgid && call.nr != host.setsid
            && call.nr != host.setns && call.nr != host.unshare,
{
    let r = host.closed_routes();
    assert(r[0] == host.pidfd_send_signal && r[1] == host.rt_sigqueueinfo && r[2]
        == host.rt_tgsigqueueinfo && r[3] == host.io_uring_setup && r[4] == host.io_uring_enter
        && r[5] == host.io_uring_register && r[6] == host.setpgid && r[7] == host.setsid && r[8]
        == host.setns && r[9] == host.unshare);
}

} // verus!
