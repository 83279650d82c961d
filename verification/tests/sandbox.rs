use shikigami::config::{SandboxBackend, SandboxSettings};
use shikigami::prompts::{body_digest, matches_asset, versioned_id, PromptAsset};
use shikigami::sandbox::linux::{
    add_path_rules, handled_fs, require_abi, ruleset_attr_size, scoped, socket_filter, FilterHost,
    ReadOnlyPath, SockFilter, ACCESS_FS_MAKE_BLOCK, ACCESS_FS_MAKE_CHAR, ACCESS_FS_TRUNCATE,
    MIN_ABI, SECCOMP_RET_ALLOW, SECCOMP_RET_ERRNO_EPERM,
};
use shikigami::sandbox::{
    health, limits, HostProbe, Isolation, Resource, Sandbox, SandboxError, SandboxHealth,
};

fn linux_host() -> HostProbe {
    HostProbe { unix: true, linux: true, landlock: Ok(4) }
}

fn old_linux_host() -> HostProbe {
    HostProbe {
        unix: true,
        linux: true,
        landlock: Err(SandboxError::Unavailable("Landlock ABI 2".into())),
    }
}

fn other_host() -> HostProbe {
    HostProbe {
        unix: false,
        linux: false,
        landlock: Err(SandboxError::Unavailable("no Landlock".into())),
    }
}

#[test]
fn default_sandbox_is_a_noop() {
    let sandbox = Sandbox::new(SandboxSettings::default(), &linux_host()).unwrap();
    assert_eq!(sandbox.apply(&linux_host()).unwrap(), Isolation::Nothing);
    assert!(sandbox.scratch_dir().is_none());
}

#[test]
fn none_backend_is_a_doctor_warning() {
    assert!(matches!(
        health(&SandboxSettings::default(), &linux_host()),
        SandboxHealth::Warning(message) if message.contains("backend=none")
    ));
}

#[test]
fn linux_native_health_matches_the_host() {
    let settings =
        SandboxSettings { backend: SandboxBackend::LinuxNative, ..SandboxSettings::default() };
    let report = health(&settings, &linux_host());
    assert!(
        matches!(report, SandboxHealth::Healthy(ref message) if message.contains("linux_native")),
        "{report:?}"
    );
    let report = health(&settings, &old_linux_host());
    assert!(matches!(report, SandboxHealth::Error(_)), "{report:?}");
    let report = health(&settings, &other_host());
    assert!(
        matches!(report, SandboxHealth::Error(ref message) if message.contains("Linux")),
        "{report:?}"
    );
}

#[test]
fn health_lines_spell_out_the_limits() {
    let settings = SandboxSettings {
        backend: SandboxBackend::Rlimit,
        cpu_time_secs: Some(30),
        memory_mb: None,
        user_processes: Some(8),
        ..SandboxSettings::default()
    };
    assert_eq!(
        health(&settings, &linux_host()),
        SandboxHealth::Healthy(
            "sandbox:   backend=limits cpu=Some(30) memory_mb=None user_processes=Some(8) (no OS isolation)"
                .into()
        )
    );
    assert_eq!(
        health(&settings, &other_host()),
        SandboxHealth::Error("sandbox.backend=rlimit is supported only on Unix".into())
    );
    let native = SandboxSettings { backend: SandboxBackend::LinuxNative, ..settings };
    let host = HostProbe { unix: true, linux: true, landlock: Ok(6) };
    assert_eq!(
        health(&native, &host),
        SandboxHealth::Healthy(
            "sandbox:   backend=linux_native abi=6 tool_sockets=deny signal_scoping=landlock writable=workspace+scratch cpu=Some(30) memory_mb=None user_processes=Some(8) read_only_paths=0"
                .into()
        )
    );
}

#[test]
fn linux_native_construction_without_workspace_fails() {
    let settings =
        SandboxSettings { backend: SandboxBackend::LinuxNative, ..SandboxSettings::default() };
    for host in [linux_host(), old_linux_host()] {
        let error = Sandbox::new(settings.clone(), &host).unwrap_err();
        let text = error.message();
        assert!(
            text.contains("workspace") || text.contains("unavailable") || text.contains("Landlock"),
            "{text}"
        );
    }
    let error = Sandbox::new(settings, &other_host()).unwrap_err();
    assert!(matches!(error, SandboxError::Unsupported(SandboxBackend::LinuxNative)));
    assert_eq!(
        error.message(),
        "sandbox backend `LinuxNative` is unavailable on this platform"
    );
}

#[test]
fn a_prepared_workspace_is_isolated() {
    let settings =
        SandboxSettings { backend: SandboxBackend::LinuxNative, ..SandboxSettings::default() };
    let sandbox = Sandbox::for_workspace(
        settings,
        Some("/srv/ws"),
        &linux_host(),
        Ok("/tmp/scratch".to_string()),
    )
    .unwrap();
    assert_eq!(sandbox.scratch_dir(), Some("/tmp/scratch"));
    assert_eq!(sandbox.apply(&linux_host()).unwrap(), Isolation::Native);
}

#[test]
fn limits_scale_megabytes() {
    let settings = SandboxSettings {
        backend: SandboxBackend::Rlimit,
        cpu_time_secs: Some(3),
        memory_mb: Some(2),
        open_files: Some(9),
        ..SandboxSettings::default()
    };
    assert_eq!(
        limits(&settings),
        vec![
            (Resource::CpuSeconds, 3),
            (Resource::AddressSpace, 2 * 1024 * 1024),
            (Resource::OpenFiles, 9),
        ]
    );
}

#[test]
fn abi_floor_rejects_truncate_unmediated_kernels() {
    assert!(require_abi(1).is_err());
    assert!(require_abi(2).is_err());
    assert_eq!(require_abi(3).unwrap(), 3);
    assert_eq!(require_abi(6).unwrap(), 6);
}

#[test]
fn probe_reports_a_usable_abi_on_this_host() {
    for probed in 0..8 {
        if let Ok(abi) = require_abi(probed) {
            assert!(abi >= MIN_ABI, "abi={abi}");
        }
    }
}

fn x86_64() -> FilterHost {
    FilterHost {
        audit_arch: 0xc000_003e,
        af_unix: 1,
        sock_stream: 1,
        socket: 41,
        socketpair: 53,
        pidfd_send_signal: 424,
        rt_sigqueueinfo: 129,
        rt_tgsigqueueinfo: 297,
        io_uring_setup: 425,
        io_uring_enter: 426,
        io_uring_register: 427,
        setpgid: 109,
        setsid: 112,
        setns: 308,
        unshare: 272,
    }
}

#[test]
fn socket_filter_fits_the_fixed_program() {
    let (_filter, len) = socket_filter(3, 1000, &x86_64());
    assert!(len > 8 && len <= 64, "abi3 len={len}");
    let (_filter, len) = socket_filter(6, 1000, &x86_64());
    assert!(len > 4 && len <= 64, "abi6 len={len}");
}

#[test]
fn the_filter_ends_by_allowing() {
    let (filter, len) = socket_filter(6, 1000, &x86_64());
    let last = filter[len as usize - 1];
    assert_eq!(last.k, SECCOMP_RET_ALLOW);
    assert!(filter.iter().any(|f| f.k == SECCOMP_RET_ERRNO_EPERM));
}

/// What a program answers to a syscall, or nothing where it runs out.
fn answer(program: &[SockFilter], nr: u32, arch: u32, arg0: u32, arg1: u32) -> Option<u32> {
    let mut pc = 0;
    let mut acc = 0;
    loop {
        let step = program.get(pc)?;
        pc += 1;
        match step.code {
            0x06 => return Some(step.k),
            0x20 => {
                acc = match step.k {
                    0 => nr,
                    4 => arch,
                    16 => arg0,
                    24 => arg1,
                    _ => return None,
                }
            }
            0x54 => acc &= step.k,
            0x15 => pc += usize::from(if acc == step.k { step.jt } else { step.jf }),
            0x35 => pc += usize::from(if acc >= step.k { step.jt } else { step.jf }),
            _ => return None,
        }
    }
}

#[test]
fn the_installed_instructions_decide_every_syscall() {
    let host = x86_64();
    let (filter, len) = socket_filter(6, 1000, &host);
    assert_eq!(len, 38);
    let program = &filter[..len as usize];
    let deny = Some(SECCOMP_RET_ERRNO_EPERM);
    let allow = Some(SECCOMP_RET_ALLOW);
    let arch = host.audit_arch;
    for nr in [
        host.socket,
        host.pidfd_send_signal,
        host.rt_sigqueueinfo,
        host.rt_tgsigqueueinfo,
        host.io_uring_setup,
        host.io_uring_enter,
        host.io_uring_register,
        host.setpgid,
        host.setsid,
        host.setns,
        host.unshare,
    ] {
        assert_eq!(answer(program, nr, arch, host.af_unix, host.sock_stream), deny, "{nr}");
    }
    for nr in [0, 1, 59, 231, 0x3fff_ffff] {
        assert_eq!(answer(program, nr, arch, 0, 0), allow, "{nr}");
        assert_eq!(answer(program, nr, arch ^ 1, 0, 0), deny, "{nr}");
        assert_eq!(answer(program, nr | 0x4000_0000, arch, 0, 0), deny, "{nr}");
    }
    let pair = host.socketpair;
    assert_eq!(answer(program, pair, arch, host.af_unix, host.sock_stream), allow);
    assert_eq!(answer(program, pair, arch, host.af_unix, host.sock_stream | 0o2000000), allow);
    assert_eq!(answer(program, pair, arch, host.af_unix, 2), deny);
    assert_eq!(answer(program, pair, arch, host.af_unix + 1, host.sock_stream), deny);
    // One instruction less leaves the allowed calls undecided.
    assert_eq!(answer(&program[..37], 0, arch, 0, 0), None);
}

#[test]
fn rules_never_make_devices() {
    let extra = vec![ReadOnlyPath { path: "/opt/data".into(), is_dir: true }];
    let rules = add_path_rules(6, "/srv/ws", "/tmp/scratch", &extra);
    assert!(rules.iter().any(|r| r.path == "/srv/ws" && !r.optional));
    assert!(rules.iter().any(|r| r.path == "/opt/data"));
    assert!(rules
        .iter()
        .all(|r| r.access & (ACCESS_FS_MAKE_CHAR | ACCESS_FS_MAKE_BLOCK) == 0));
    assert!(handled_fs(3) & ACCESS_FS_TRUNCATE != 0);
    assert!(handled_fs(2) & ACCESS_FS_TRUNCATE == 0);
    assert_eq!(scoped(5), 0);
    assert_eq!(scoped(6), 3);
    assert!(ruleset_attr_size(3) <= ruleset_attr_size(6));
}

#[test]
fn harness_v1_id_scheme() {
    let asset = PromptAsset { id: "harness-v1".into(), body: "You are a careful agent.\n".into() };
    let id = versioned_id(&asset);
    assert!(id.starts_with("harness-v1:"), "{id}");
    let digest = id.strip_prefix("harness-v1:").unwrap();
    assert_eq!(digest.len(), 64);
    assert!(digest.chars().all(|c| c.is_ascii_hexdigit()));
}

#[test]
fn digest_stable_and_content_sensitive() {
    let a = body_digest("hello\n");
    let b = body_digest("hello\r\n");
    let c = body_digest("hello!\n");
    assert_eq!(a, b, "CRLF vs LF must normalize");
    assert_ne!(a, c);
    assert_eq!(
        body_digest("hello"),
        "2cf24dba5fb0a30e26e83b2ac5b9e29e1b161e5c1fa7425e73043362938b9824"
    );
}

#[test]
fn changing_content_changes_versioned_id() {
    let base = PromptAsset { id: "test".into(), body: "alpha".into() };
    let changed = PromptAsset { id: "test".into(), body: "beta".into() };
    assert_ne!(versioned_id(&base), versioned_id(&changed));
    assert!(matches_asset(&versioned_id(&base), &base));
    assert!(!matches_asset(&versioned_id(&base), &changed));
}
