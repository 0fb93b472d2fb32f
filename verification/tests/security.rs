use crate_runtime::host::{HostOp, OnError};
use crate_runtime::security::capabilities::{CapSet, Capability};
use crate_runtime::security::paths::PathFacts;
use crate_runtime::security::seccomp::{build_filter, SockFilter};
use crate_runtime::security::{
    apply_capabilities, apply_seccomp_filter, drop_capabilities, validate_path,
    DEFAULT_CAPABILITIES,
};
use std::path::Path;

fn canonical(path: &Path) -> Option<Result<String, String>> {
    if !path.exists() {
        return None;
    }
    Some(match path.canonicalize() {
        Ok(resolved) => Ok(resolved.to_str().unwrap().to_string()),
        Err(error) => Err(error.to_string()),
    })
}

/// What this machine makes of a path.
fn facts(path: &str) -> PathFacts {
    let path = Path::new(path);
    PathFacts { canonical: canonical(path), parent: path.parent().and_then(canonical) }
}

#[test]
fn validate_path_accepts_absolute_path() {
    // A simple absolute path with no traversal should pass.
    // Where it does not exist there are no links to follow; where it does, it
    // stays in its directory.
    let path = "/usr/bin/env";
    let missing = PathFacts { canonical: None, parent: None };
    let result = validate_path(path, "test binary", &missing);
    assert!(result.is_ok(), "expected Ok, got: {:?}", result);
    let result = validate_path(path, "test binary", &facts(path));
    assert!(result.is_ok(), "expected Ok, got: {:?}", result);
}

#[test]
fn validate_path_rejects_relative_path() {
    let path = "relative/path";
    let result = validate_path(path, "relative", &facts(path));
    assert!(result.is_err());
    let msg = result.unwrap_err().to_string();
    assert!(msg.contains("must be absolute"), "unexpected error message: {}", msg);
}

#[test]
fn validate_path_rejects_traversal() {
    let path = "/var/lib/../../etc/shadow";
    let result = validate_path(path, "shadow", &facts(path));
    assert!(result.is_err());
    let msg = result.unwrap_err().to_string();
    assert!(msg.contains("directory traversal"), "unexpected error message: {}", msg);
}

#[test]
fn validate_path_rejects_dot_dot_at_start() {
    let path = "/../etc/passwd";
    let result = validate_path(path, "passwd", &facts(path));
    assert!(result.is_err());
    let msg = result.unwrap_err().to_string();
    assert!(msg.contains("directory traversal"), "unexpected error message: {}", msg);
}

#[test]
fn validate_path_accepts_existing_absolute_path() {
    // Use a path that exists on virtually all unix-like systems.
    let path = "/tmp";
    let result = validate_path(path, "tmpdir", &facts(path));
    assert!(result.is_ok(), "expected Ok, got: {:?}", result);
}

#[test]
fn validate_path_accepts_nonexistent_absolute_path() {
    let path = "/nonexistent/path/that/does/not/exist";
    let result = validate_path(path, "missing", &facts(path));
    assert!(result.is_ok(), "expected Ok for non-existent path, got: {:?}", result);
}

#[test]
fn validate_path_says_where_a_link_leads() {
    let ok = |text: &str| Some(Ok(text.to_string()));
    let message = |canonical, parent| {
        validate_path("/data/x", "data", &PathFacts { canonical, parent }).unwrap_err().to_string()
    };
    assert_eq!(
        message(ok("/etc"), ok("/data")),
        "Security error: data path /data/x resolves to /etc which escapes its parent directory /data"
    );
    assert_eq!(
        message(Some(Err("loop".to_string())), ok("/data")),
        "Security error: failed to canonicalize data path /data/x: loop"
    );
    assert_eq!(
        message(ok("/data/x"), Some(Err("loop".to_string()))),
        "Security error: failed to canonicalize parent of data path /data: loop"
    );
    let inside = PathFacts { canonical: ok("/data/y"), parent: ok("/data") };
    assert!(validate_path("/data/x", "data", &inside).is_ok());
    let beside = PathFacts { canonical: ok("/data2/y"), parent: ok("/data") };
    assert!(validate_path("/data/x", "data", &beside).is_err());
}

#[test]
fn default_capabilities_contains_expected_set() {
    assert_eq!(DEFAULT_CAPABILITIES.len(), 14, "expected 14 default capabilities");

    // Spot-check a few critical ones.
    assert!(DEFAULT_CAPABILITIES.contains(&Capability::CAP_NET_BIND_SERVICE));
    assert!(DEFAULT_CAPABILITIES.contains(&Capability::CAP_CHOWN));
    assert!(DEFAULT_CAPABILITIES.contains(&Capability::CAP_SETUID));
    assert!(DEFAULT_CAPABILITIES.contains(&Capability::CAP_SETGID));
    assert!(DEFAULT_CAPABILITIES.contains(&Capability::CAP_KILL));
}

#[test]
fn default_capabilities_excludes_dangerous_caps() {
    // These should never be in the default set.
    assert!(!DEFAULT_CAPABILITIES.contains(&Capability::CAP_SYS_ADMIN));
    assert!(!DEFAULT_CAPABILITIES.contains(&Capability::CAP_SYS_PTRACE));
    assert!(!DEFAULT_CAPABILITIES.contains(&Capability::CAP_SYS_RAWIO));
    assert!(!DEFAULT_CAPABILITIES.contains(&Capability::CAP_SYS_MODULE));
    assert!(!DEFAULT_CAPABILITIES.contains(&Capability::CAP_SYS_BOOT));
    assert!(!DEFAULT_CAPABILITIES.contains(&Capability::CAP_NET_ADMIN));
}

#[test]
fn default_capabilities_has_no_duplicates() {
    for (i, capability) in DEFAULT_CAPABILITIES.iter().enumerate() {
        assert!(
            !DEFAULT_CAPABILITIES[..i].contains(capability),
            "default capabilities list contains duplicates"
        );
    }
}

#[test]
fn capability_names_are_those_of_the_kernel() {
    let all = Capability::all();
    assert_eq!(all.len(), 41);
    for (i, capability) in all.iter().enumerate() {
        let known: caps::Capability = capability.name().parse().unwrap();
        assert_eq!(known.to_string(), capability.name());
        assert_eq!(known.index() as usize, i);
    }
}

#[test]
fn everything_but_the_kept_capabilities_is_dropped() {
    let extra = [Capability::CAP_NET_ADMIN];
    let plan = apply_capabilities(&extra, "linux").unwrap();
    assert_eq!(plan.steps.len(), 3 * (41 - 15));
    for step in &plan.steps {
        match &step.op {
            HostOp::DropCapability { capability, .. } => {
                assert!(!DEFAULT_CAPABILITIES.contains(capability));
                assert!(*capability != Capability::CAP_NET_ADMIN);
            }
            other => panic!("unexpected operation: {other:?}"),
        }
    }
    let plan = drop_capabilities("linux").unwrap();
    assert_eq!(plan.steps.len(), 3 * (41 - 14));
    assert!(matches!(
        &plan.steps[0].op,
        HostOp::DropCapability { set: CapSet::Effective, capability: Capability::CAP_DAC_READ_SEARCH }
    ));
    assert!(matches!(&plan.steps[0].on_error, OnError::Report(_, text)
        if text == "failed to drop capability CAP_DAC_READ_SEARCH from Effective: "));
    assert_eq!(
        drop_capabilities("macos").unwrap_err().to_string(),
        "Security error: capability management is only supported on Linux"
    );
}

/// Runs a filter for a system call, as the kernel does.
fn judge(filter: &[SockFilter], number: u32) -> u32 {
    let mut value = 0;
    let mut pc = 0;
    loop {
        let op = filter[pc];
        pc += 1;
        match op.code {
            0x20 => value = number,
            0x15 if value == op.k => pc += op.jt as usize,
            0x15 => pc += op.jf as usize,
            0x06 => return op.k,
            other => panic!("unknown instruction: {other}"),
        }
    }
}

#[test]
fn filter_denies_what_is_listed() {
    let filter = build_filter(&vec![5, 9, 700]);
    for number in 0..1000 {
        let denied = number == 5 || number == 9 || number == 700;
        assert_eq!(judge(&filter, number), if denied { 0x0005_0001 } else { 0x7fff_0000 });
    }
}

#[test]
fn seccomp_plan_denies_dangerous_system_calls() {
    let plan = apply_seccomp_filter("linux").unwrap();
    assert_eq!(plan.steps.len(), 2);
    assert!(matches!(&plan.steps[0].op, HostOp::SetNoNewPrivs));
    match &plan.steps[1].op {
        HostOp::InstallSeccomp(filter) => {
            let denied = [
                libc::SYS_reboot,
                libc::SYS_kexec_load,
                libc::SYS_kexec_file_load,
                libc::SYS_mount,
                libc::SYS_ptrace,
                libc::SYS_add_key,
                libc::SYS_request_key,
                libc::SYS_keyctl,
                libc::SYS_perf_event_open,
                libc::SYS_bpf,
                libc::SYS_userfaultfd,
                libc::SYS_init_module,
                libc::SYS_finit_module,
                libc::SYS_delete_module,
                libc::SYS_acct,
                libc::SYS_settimeofday,
                libc::SYS_clock_settime,
                libc::SYS_swapon,
                libc::SYS_swapoff,
            ];
            assert_eq!(filter.len(), denied.len() + 3);
            for number in 0..1000u32 {
                let expected = if denied.contains(&(number as libc::c_long)) { 0x0005_0001 } else { 0x7fff_0000 };
                assert_eq!(judge(filter, number), expected);
            }
        }
        other => panic!("unexpected operation: {other:?}"),
    }
    assert_eq!(
        apply_seccomp_filter("macos").unwrap_err().to_string(),
        "Security error: seccomp filtering is only supported on Linux"
    );
}
