//! OS-level child process isolation.
//!
//! Backends:
//! - `none`: no isolation (local development; the doctor warns).
//! - `rlimit`: Unix resource limits and a process group.
//! - `linux_native`: Landlock filesystem rules plus a seccomp socket gate.
//!
//! What the host offers is handed in as a [`HostProbe`]; applying limits and
//! filters to a child is left to the caller.
use vstd::prelude::*;
use vstd::string::*;

use crate::config::{SandboxBackend, SandboxSettings};
use crate::text::decimal_text;
#[allow(unused_imports)]
use crate::text::{
    contains, decimal, field_added, text_holds_a_field, text_holds_what_is_added,
    text_keeps_what_it_holds,
};

pub mod linux;

verus! {

/// Why a sandbox could not be set up.
#[derive(Debug)]
pub enum SandboxError {
    Unsupported(SandboxBackend),
    Unavailable(String),
    Invalid(String),
}

/// The name of a backend, as diagnostics print it.
pub open spec fn backend_name(b: SandboxBackend) -> Seq<char> {
    match b {
        SandboxBackend::Disabled => "None"@,
        SandboxBackend::Rlimit => "Rlimit"@,
        SandboxBackend::LinuxNative => "LinuxNative"@,
    }
}

impl SandboxError {
    /// The text of the error.
    pub open spec fn text(self) -> Seq<char> {
        match self {
            SandboxError::Unsupported(b) => "sandbox backend `"@ + backend_name(b)
                + "` is unavailable on this platform"@,
            SandboxError::Unavailable(m) => "sandbox unavailable: "@ + m@,
            SandboxError::Invalid(m) => "sandbox configuration: "@ + m@,
        }
    }

    /// The text of the error.
    pub fn message(&self) -> (s: String)
        ensures
            s@ == self.text(),
    {
        match self {
            SandboxError::Unsupported(b) => {
                let mut s = "sandbox backend `".to_owned();
                match b {
                    SandboxBackend::Disabled => s.append("None"),
                    SandboxBackend::Rlimit => s.append("Rlimit"),
                    SandboxBackend::LinuxNative => s.append("LinuxNative"),
                }
                s.append("` is unavailable on this platform");
                s
            },
            SandboxError::Unavailable(m) => {
                let mut s = "sandbox unavailable: ".to_owned();
                s.append(m.as_str());
                s
            },
            SandboxError::Invalid(m) => {
                let mut s = "sandbox configuration: ".to_owned();
                s.append(m.as_str());
                s
            },
        }
    }
}

/// Doctor-facing health of the configured sandbox backend.
#[derive(Debug, Clone, PartialEq, Eq)]
pub enum SandboxHealth {
    Healthy(String),
    Warning(String),
    Error(String),
}

/// What the host offers to the sandbox.
pub struct HostProbe {
    /// The host is a Unix.
    pub unix: bool,
    /// The host is a Linux.
    pub linux: bool,
    /// The Landlock ABI that the kernel enforces, or why it enforces none.
    pub landlock: Result<u32, SandboxError>,
}

/// An optional number as diagnostics print it: `None` or `Some(n)`.
pub open spec fn option_text(o: Option<u64>) -> Seq<char> {
    match o {
        Some(n) => "Some("@ + decimal(n as nat) + ")"@,
        None => "None"@,
    }
}

fn push_option(s: &mut String, o: Option<u64>)
    ensures
        final(s)@ == old(s)@ + option_text(o),
{
    match o {
        Some(n) => {
            let digits = decimal_text(n);
            s.append("Some(");
            s.append(digits.as_str());
            s.append(")");
            assert(s@ =~= old(s)@ + option_text(o));
        },
        None => s.append("None"),
    }
}

/// The health line of the `rlimit` backend.
pub open spec fn limits_line(s: SandboxSettings) -> Seq<char> {
    "sandbox:   backend=limits cpu="@ + option_text(s.cpu_time_secs) + " memory_mb="@ + option_text(
        s.memory_mb,
    ) + " user_processes="@ + option_text(s.user_processes) + " (no OS isolation)"@
}

/// The health line of the `linux_native` backend on a Landlock ABI.
pub open spec fn native_line(s: SandboxSettings, abi: u32) -> Seq<char> {
    "sandbox:   backend=linux_native abi="@ + decimal(abi as nat)
        + " tool_sockets=deny signal_scoping="@ + (if abi >= 6 {
        "landlock"@
    } else {
        "none"@
    }) + " writable=workspace+scratch cpu="@ + option_text(s.cpu_time_secs) + " memory_mb="@
        + option_text(s.memory_mb) + " user_processes="@ + option_text(s.user_processes)
        + " read_only_paths="@ + decimal(s.read_only_paths@.len())
}

/// Whether a health report is the one that the settings have on the host.
pub open spec fn health_of(s: SandboxSettings, host: HostProbe, report: SandboxHealth) -> bool {
    match s.backend {
        SandboxBackend::Disabled => report matches SandboxHealth::Warning(m) && m@
            == "sandbox:   backend=none — no OS isolation for tool children"@,
        SandboxBackend::Rlimit => if host.unix {
            report matches SandboxHealth::Healthy(m) && m@ == limits_line(s)
        } else {
            report matches SandboxHealth::Error(m) && m@
                == "sandbox.backend=rlimit is supported only on Unix"@
        },
        SandboxBackend::LinuxNative => if !host.linux {
            report matches SandboxHealth::Error(m) && m@
                == "sandbox.backend=linux_native is supported only on Linux"@
        } else {
            match host.landlock {
                Ok(abi) => report matches SandboxHealth::Healthy(m) && m@ == native_line(s, abi),
                Err(e) => report matches SandboxHealth::Error(m) && m@ == e.text(),
            }
        },
    }
}

/// The health of the configured backend on the probed host.
pub fn health(settings: &SandboxSettings, host: &HostProbe) -> (report: SandboxHealth)
    ensures
        health_of(*settings, *host, report),
{
    match settings.backend {
        SandboxBackend::Disabled => SandboxHealth::Warning(
            "sandbox:   backend=none — no OS isolation for tool children".to_owned(),
        ),
        SandboxBackend::Rlimit => {
            if host.unix {
                let mut s = "sandbox:   backend=limits cpu=".to_owned();
                push_option(&mut s, settings.cpu_time_secs);
                s.append(" memory_mb=");
                push_option(&mut s, settings.memory_mb);
                s.append(" user_processes=");
                push_option(&mut s, settings.user_processes);
                s.append(" (no OS isolation)");
                SandboxHealth::Healthy(s)
            } else {
                SandboxHealth::Error(
                    "sandbox.backend=rlimit is supported only on Unix".to_owned(),
                )
            }
        },
        SandboxBackend::LinuxNative => linux_native_health(settings, host),
    }
}

fn linux_native_health(settings: &SandboxSettings, host: &HostProbe) -> (report: SandboxHealth)
    requires
        settings.backend == SandboxBackend::LinuxNative,
    ensures
        health_of(*settings, *host, report),
{
    if !host.linux {
        return SandboxHealth::Error(
            "sandbox.backend=linux_native is supported only on Linux".to_owned(),
        );
    }
    match &host.landlock {
        Ok(abi) => {
            let abi: u32 = *abi;
            let digits = decimal_text(abi as u64);
            let paths = decimal_text(settings.read_only_paths.len() as u64);
            let mut s = "sandbox:   backend=linux_native abi=".to_owned();
            s.append(digits.as_str());
            s.append(" tool_sockets=deny signal_scoping=");
            if abi >= 6 {
                s.append("landlock");
            } else {
                s.append("none");
            }
            s.append(" writable=workspace+scratch cpu=");
            push_option(&mut s, settings.cpu_time_secs);
            s.append(" memory_mb=");
            push_option(&mut s, settings.memory_mb);
            s.append(" user_processes=");
            push_option(&mut s, settings.user_processes);
            s.append(" read_only_paths=");
            s.append(paths.as_str());
            SandboxHealth::Healthy(s)
        },
        Err(error) => SandboxHealth::Error(error.message()),
    }
}

/// A sandbox that was admitted on a host.
#[derive(Debug, Clone)]
pub struct Sandbox {
    pub settings: SandboxSettings,
    /// The private scratch directory of a prepared `linux_native` sandbox.
    pub scratch: Option<String>,
}

/// What has to be done to a child before it runs.
#[derive(Debug, Clone, Copy, PartialEq, Eq, Structural)]
pub enum Isolation {
    /// Nothing.
    Nothing,
    /// A process group of its own and the resource limits.
    Limits,
    /// A process group, the resource limits, the Landlock ruleset and the
    /// socket filter.
    Native,
}

/// A resource that `setrlimit` bounds.
#[derive(Debug, Clone, Copy, PartialEq, Eq, Structural)]
pub enum Resource {
    CpuSeconds,
    AddressSpace,
    Processes,
    FileSize,
    OpenFiles,
}

/// Megabytes as bytes, at most `u64::MAX`.
pub open spec fn megabytes(n: u64) -> int {
    if n * 1048576 > u64::MAX {
        u64::MAX as int
    } else {
        n * 1048576
    }
}

/// The limits that the settings name, in the order they are applied.
pub open spec fn limits_of(s: SandboxSettings) -> Seq<(Resource, int)> {
    let one = |r: Resource, o: Option<int>|
        match o {
            Some(n) => seq![(r, n)],
            None => Seq::<(Resource, int)>::empty(),
        };
    one(Resource::CpuSeconds, plain(s.cpu_time_secs)) + one(
        Resource::AddressSpace,
        scaled(s.memory_mb),
    ) + one(Resource::Processes, plain(s.user_processes)) + one(
        Resource::FileSize,
        scaled(s.file_size_mb),
    ) + one(Resource::OpenFiles, plain(s.open_files))
}

pub open spec fn plain(o: Option<u64>) -> Option<int> {
    match o {
        Some(n) => Some(n as int),
        None => None,
    }
}

pub open spec fn scaled(o: Option<u64>) -> Option<int> {
    match o {
        Some(n) => Some(megabytes(n)),
        None => None,
    }
}

/// The values of a list of limits.
pub open spec fn limit_values(v: Seq<(Resource, u64)>) -> Seq<(Resource, int)> {
    Seq::new(v.len(), |i: int| (v[i].0, v[i].1 as int))
}

fn push_limit(v: &mut Vec<(Resource, u64)>, r: Resource, o: Option<u64>)
    ensures
        limit_values(final(v)@) == limit_values(old(v)@) + (match o {
            Some(n) => seq![(r, n as int)],
            None => Seq::<(Resource, int)>::empty(),
        }),
{
    match o {
        Some(n) => {
            v.push((r, n));
            assert(limit_values(v@) =~= limit_values(old(v)@) + seq![(r, n as int)]);
        },
        None => {
            assert(limit_values(v@) =~= limit_values(old(v)@) + Seq::<(Resource, int)>::empty());
        },
    }
}

fn bytes_of(o: Option<u64>) -> (r: Option<u64>)
    ensures
        plain(r) == scaled(o),
{
    match o {
        Some(n) => match n.checked_mul(1024 * 1024) {
            Some(bytes) => Some(bytes),
            None => Some(u64::MAX),
        },
        None => None,
    }
}

/// The resource limits of the settings, in the order they are applied.
pub fn limits(settings: &SandboxSettings) -> (v: Vec<(Resource, u64)>)
    ensures
        limit_values(v@) == limits_of(*settings),
{
    let mut v: Vec<(Resource, u64)> = Vec::new();
    push_limit(&mut v, Resource::CpuSeconds, settings.cpu_time_secs);
    push_limit(&mut v, Resource::AddressSpace, bytes_of(settings.memory_mb));
    push_limit(&mut v, Resource::Processes, settings.user_processes);
    push_limit(&mut v, Resource::FileSize, bytes_of(settings.file_size_mb));
    push_limit(&mut v, Resource::OpenFiles, settings.open_files);
    v
}

/// Whether the settings can be honoured: the error that refuses them, if any.
/// `workspace` tells whether a workspace root is at hand.
pub open spec fn refused(s: SandboxSettings, workspace: bool, host: HostProbe) -> Option<
    (bool, Seq<char>),
> {
    match s.backend {
        SandboxBackend::Disabled => None,
        SandboxBackend::Rlimit => if host.unix {
            None
        } else if host.linux {
            Some((false, "sandbox.backend=rlimit is supported only on Unix"@))
        } else {
            Some((true, Seq::empty()))
        },
        SandboxBackend::LinuxNative => if !host.linux {
            Some((true, Seq::empty()))
        } else {
            match host.landlock {
                Err(e) => Some((false, e.text())),
                Ok(_) => None,
            }
        },
    }
}

impl Sandbox {
    /// A sandbox without a workspace.
    pub fn new(settings: SandboxSettings, host: &HostProbe) -> (r: Result<Self, SandboxError>)
        ensures
            match refused(settings, false, *host) {
                Some((true, _)) => r matches Err(SandboxError::Unsupported(b)) && b
                    == settings.backend,
                Some((false, m)) => r matches Err(SandboxError::Unavailable(t)) && t@ == m,
                None => if settings.backend == SandboxBackend::LinuxNative {
                    r matches Err(SandboxError::Invalid(t)) && t@
                        == "linux_native requires a workspace root to build Landlock rules"@
                } else {
                    r matches Ok(s) && s.settings == settings && s.scratch is None
                },
            },
    {
        Self::for_workspace(settings, None, host, Ok(String::new()))
    }

    /// A sandbox for a workspace. `prepared` is what preparing the Landlock
    /// ruleset for that workspace gave: the scratch directory, or the failure.
    /// It is read only for `linux_native` on a host that enforces it.
    pub fn for_workspace(
        settings: SandboxSettings,
        workspace: Option<&str>,
        host: &HostProbe,
        prepared: Result<String, SandboxError>,
    ) -> (r: Result<Self, SandboxError>)
        ensures
            match refused(settings, workspace is Some, *host) {
                Some((true, _)) => r matches Err(SandboxError::Unsupported(b)) && b
                    == settings.backend,
                Some((false, m)) => r matches Err(SandboxError::Unavailable(t)) && t@ == m,
                None => if settings.backend != SandboxBackend::LinuxNative {
                    r matches Ok(s) && s.settings == settings && s.scratch is None
                } else if workspace is None {
                    r matches Err(SandboxError::Invalid(t)) && t@
                        == "linux_native requires a workspace root to build Landlock rules"@
                } else {
                    match prepared {
                        Ok(d) => r matches Ok(s) && s.settings == settings && s.scratch == Some(d),
                        Err(e) => r == Err::<Sandbox, SandboxError>(e),
                    }
                },
            },
    {
        match health(&settings, host) {
            SandboxHealth::Error(message) => {
                let unsupported = settings.backend != SandboxBackend::Disabled && !host.linux && !(
                host.unix && settings.backend == SandboxBackend::Rlimit);
                return Err(
                    if unsupported {
                        SandboxError::Unsupported(settings.backend)
                    } else {
                        SandboxError::Unavailable(message)
                    },
                );
            },
            _ => {},
        }
        if settings.backend == SandboxBackend::LinuxNative {
            if workspace.is_none() {
                return Err(
                    SandboxError::Invalid(
                        "linux_native requires a workspace root to build Landlock rules".to_owned(),
                    ),
                );
            }
            match prepared {
                Ok(d) => Ok(Sandbox { settings, scratch: Some(d) }),
                Err(e) => Err(e),
            }
        } else {
            Ok(Sandbox { settings, scratch: None })
        }
    }

    /// What has to be done to a child of this sandbox.
    pub fn apply(&self, host: &HostProbe) -> (r: Result<Isolation, SandboxError>)
        ensures
            match self.settings.backend {
                SandboxBackend::Disabled => r == Ok::<Isolation, SandboxError>(Isolation::Nothing),
                SandboxBackend::Rlimit => if host.unix {
                    r == Ok::<Isolation, SandboxError>(Isolation::Limits)
                } else {
                    r == Err::<Isolation, SandboxError>(
                        SandboxError::Unsupported(SandboxBackend::Rlimit),
                    )
                },
                SandboxBackend::LinuxNative => if !host.linux {
                    r == Err::<Isolation, SandboxError>(
                        SandboxError::Unsupported(SandboxBackend::LinuxNative),
                    )
                } else if self.scratch is None {
                    r matches Err(SandboxError::Invalid(t)) && t@
                        == "linux_native ruleset was not prepared"@
                } else {
                    r == Ok::<Isolation, SandboxError>(Isolation::Native)
                },
            },
    {
        match self.settings.backend {
            SandboxBackend::Disabled => Ok(Isolation::Nothing),
            SandboxBackend::Rlimit => {
                if host.unix {
                    Ok(Isolation::Limits)
                } else {
                    Err(SandboxError::Unsupported(SandboxBackend::Rlimit))
                }
            },
            SandboxBackend::LinuxNative => {
                if !host.linux {
                    Err(SandboxError::Unsupported(SandboxBackend::LinuxNative))
                } else if self.scratch.is_none() {
                    Err(SandboxError::Invalid("linux_native ruleset was not prepared".to_owned()))
                } else {
                    Ok(Isolation::Native)
                }
            },
        }
    }

    /// The process group to kill for a child, on a Unix: the child's own group,
    /// where the backend made one. Process ids 0 and 1 are never targeted.
    pub fn kill_process_group(&self, pid: Option<u32>) -> (r: Option<u32>)
        ensures
            match r {
                Some(p) => pid == Some(p) && p > 1 && self.settings.backend != SandboxBackend::Disabled,
                None => self.settings.backend == SandboxBackend::Disabled || pid is None || pid->0 <= 1,
            },
    {
        match pid {
            Some(p) => if self.settings.backend != SandboxBackend::Disabled && p > 1 {
                Some(p)
            } else {
                None
            },
            None => None,
        }
    }

    /// The private scratch directory of a prepared sandbox.
    pub fn scratch_dir(&self) -> (r: Option<&str>)
        ensures
            match r {
                Some(d) => self.scratch is Some && d@ == self.scratch->0@,
                None => self.scratch is None,
            },
    {
        match &self.scratch {
            Some(d) => Some(d.as_str()),
            None => None,
        }
    }
}

/// Each limit that is set is imposed with its value, memory and file size in bytes, and no
/// other is.
pub proof fn limits_are_imposed_as_set(s: SandboxSettings)
    ensures
        limited(s, Resource::CpuSeconds, plain(s.cpu_time_secs)),
        limited(s, Resource::AddressSpace, scaled(s.memory_mb)),
        limited(s, Resource::Processes, plain(s.user_processes)),
        limited(s, Resource::FileSize, scaled(s.file_size_mb)),
        limited(s, Resource::OpenFiles, plain(s.open_files)),
{
    let a = one_limit(Resource::CpuSeconds, plain(s.cpu_time_secs));
    let b = one_limit(Resource::AddressSpace, scaled(s.memory_mb));
    let c = one_limit(Resource::Processes, plain(s.user_processes));
    let d = one_limit(Resource::FileSize, scaled(s.file_size_mb));
    let e = one_limit(Resource::OpenFiles, plain(s.open_files));
    let v = limits_of(s);
    assert(v =~= a + b + c + d + e);
    if a.len() > 0 {
        assert(v[0] == a[0]);
    }
    if b.len() > 0 {
        assert(v[a.len() as int] == b[0]);
    }
    if c.len() > 0 {
        assert(v[(a.len() + b.len()) as int] == c[0]);
    }
    if d.len() > 0 {
        assert(v[(a.len() + b.len() + c.len()) as int] == d[0]);
    }
    if e.len() > 0 {
        assert(v[(a.len() + b.len() + c.len() + d.len()) as int] == e[0]);
    }
}

/// Whether a resource is limited to a value, or not at all.
pub open spec fn limited(s: SandboxSettings, r: Resource, value: Option<int>) -> bool {
    &&& value is Some ==> limits_of(s).contains((r, value->0))
    &&& forall|i: int|
        0 <= i < limits_of(s).len() && (#[trigger] limits_of(s)[i]).0 == r ==> value == Some(
            limits_of(s)[i].1,
        )
}

spec fn one_limit(r: Resource, o: Option<int>) -> Seq<(Resource, int)> {
    match o {
        Some(n) => seq![(r, n)],
        None => Seq::empty(),
    }
}

/// A number of megabytes is that many times 1024 times 1024 bytes, up to the largest number.
pub proof fn megabytes_are_binary(n: u64)
    ensures
        n * 1024 * 1024 <= u64::MAX ==> megabytes(n) == n * 1024 * 1024,
        n * 1024 * 1024 > u64::MAX ==> megabytes(n) == u64::MAX,
{
}

/// A sandbox is refused just where the host cannot give it: resource limits need Unix, the
/// native backend needs Linux with Landlock. Without isolation nothing is refused.
pub proof fn sandbox_is_refused_where_the_host_cannot(s: SandboxSettings, workspace: bool, host: HostProbe)
    ensures
        s.backend == SandboxBackend::Disabled ==> refused(s, workspace, host) is None,
        s.backend == SandboxBackend::Rlimit ==> (refused(s, workspace, host) is None
            <==> host.unix),
        s.backend == SandboxBackend::LinuxNative ==> (refused(s, workspace, host) is None
            <==> host.linux && host.landlock is Ok),
{
}

/// A sandbox that would be refused is not reported as healthy, one that is given is, and one
/// that isolates nothing is warned of.
pub proof fn health_tells_what_can_be_given(s: SandboxSettings, host: HostProbe, report: SandboxHealth)
    requires
        health_of(s, host, report),
    ensures
        report is Warning <==> s.backend == SandboxBackend::Disabled,
        report is Healthy <==> s.backend != SandboxBackend::Disabled && refused(s, true, host)
            is None,
        report is Error <==> refused(s, true, host) is Some,
{
}

/// The report on resource limits names each limit.
pub proof fn limits_line_tells_the_limits(s: SandboxSettings)
    ensures
        contains(limits_line(s), "cpu="@ + option_text(s.cpu_time_secs)),
        contains(limits_line(s), " memory_mb="@ + option_text(s.memory_mb)),
        contains(limits_line(s), " user_processes="@ + option_text(s.user_processes)),
{
    reveal_strlit("sandbox:   backend=limits cpu=");
    reveal_strlit("sandbox:   backend=limits ");
    reveal_strlit("cpu=");
    assert("sandbox:   backend=limits cpu="@ =~= "sandbox:   backend=limits "@ + "cpu="@);
    let s0 = "sandbox:   backend=limits "@ + "cpu="@ + option_text(s.cpu_time_secs);
    text_holds_a_field("sandbox:   backend=limits "@, "cpu="@, option_text(s.cpu_time_secs));
    let s1 = field_added(s0, " memory_mb="@, option_text(s.memory_mb));
    let s2 = field_added(s1, " user_processes="@, option_text(s.user_processes));
    text_keeps_what_it_holds(s2, " (no OS isolation)"@);
}

/// The report on the native backend names the version of the interface, how signals are
/// confined, and each limit.
pub proof fn native_line_tells_the_limits(s: SandboxSettings, abi: u32)
    ensures
        contains(
            native_line(s, abi),
            "sandbox:   backend=linux_native abi="@ + decimal(abi as nat),
        ),
        abi >= 6 ==> contains(
            native_line(s, abi),
            " tool_sockets=deny signal_scoping="@ + "landlock"@,
        ),
        abi < 6 ==> contains(native_line(s, abi), " tool_sockets=deny signal_scoping="@ + "none"@),
        contains(
            native_line(s, abi),
            " writable=workspace+scratch cpu="@ + option_text(s.cpu_time_secs),
        ),
        contains(native_line(s, abi), " memory_mb="@ + option_text(s.memory_mb)),
        contains(native_line(s, abi), " user_processes="@ + option_text(s.user_processes)),
        contains(native_line(s, abi), " read_only_paths="@ + decimal(s.read_only_paths@.len())),
{
    let s0 = "sandbox:   backend=linux_native abi="@ + decimal(abi as nat);
    text_holds_what_is_added(Seq::empty(), s0);
    assert(Seq::<char>::empty() + s0 =~= s0);
    let scoping = if abi >= 6 {
        "landlock"@
    } else {
        "none"@
    };
    let s1 = field_added(s0, " tool_sockets=deny signal_scoping="@, scoping);
    let s2 = field_added(s1, " writable=workspace+scratch cpu="@, option_text(s.cpu_time_secs));
    let s3 = field_added(s2, " memory_mb="@, option_text(s.memory_mb));
    let s4 = field_added(s3, " user_processes="@, option_text(s.user_processes));
    let s5 = field_added(s4, " read_only_paths="@, decimal(s.read_only_paths@.len()));
}

} // verus!
