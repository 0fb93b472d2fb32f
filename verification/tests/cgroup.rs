use crate_runtime::cgroup::{
    format_cpu_max, format_memory_value, format_pid_max, verify_cgroup_v2, CgroupManager, CpuLimit,
    MemoryLimit, PidLimit,
};
use crate_runtime::host::{HostOp, OnError, Plan, PlanRun, Verdict};

const MOUNTS: &str = "proc /proc proc rw 0 0\ncgroup2 /sys/fs/cgroup cgroup2 rw,nosuid 0 0\n";

fn mounted() -> Result<String, String> {
    Ok(MOUNTS.to_string())
}

/// What a plan does, with the text that each failure is reported with.
fn script(plan: &Plan) -> Vec<(String, String)> {
    plan.steps
        .iter()
        .map(|step| {
            let op = match &step.op {
                HostOp::CreateDirAll(path) => format!("mkdir {path}"),
                HostOp::RemoveDir(path) => format!("rmdir {path}"),
                HostOp::WriteFile { path, contents } => format!("write {path} {contents}"),
                other => format!("{other:?}"),
            };
            let rule = match &step.on_error {
                OnError::Report(_, text) => text.clone(),
                other => format!("{other:?}"),
            };
            (op, rule)
        })
        .collect()
}

#[test]
fn test_builder_defaults() {
    let mgr = CgroupManager::new("test-container");
    assert_eq!(mgr.container_id(), "test-container");
    assert!(mgr.memory_limit().max_bytes.is_none());
    assert!(mgr.memory_limit().high_bytes.is_none());
    assert!(mgr.cpu_limit().is_none());
    assert!(mgr.pid_limit().max.is_none());
}

#[test]
fn test_builder_with_all_limits() {
    let mgr = CgroupManager::new("abc123")
        .with_memory_max(512 * 1024 * 1024)
        .with_memory_high(400 * 1024 * 1024)
        .with_cpu_quota(25_000, 100_000)
        .with_pid_max(64);

    assert_eq!(mgr.memory_limit().max_bytes, Some(512 * 1024 * 1024));
    assert_eq!(mgr.memory_limit().high_bytes, Some(400 * 1024 * 1024));

    let cpu = mgr.cpu_limit().unwrap();
    assert_eq!(cpu.quota_us, 25_000);
    assert_eq!(cpu.period_us, 100_000);

    assert_eq!(mgr.pid_limit().max, Some(64));
}

#[test]
fn test_builder_chaining_overwrites() {
    let mgr = CgroupManager::new("c1").with_memory_max(100).with_memory_max(200);
    assert_eq!(mgr.memory_limit().max_bytes, Some(200));
}

#[test]
fn mod_test_cgroup_path_construction() {
    let mgr = CgroupManager::new("my-container");
    let expected = "/sys/fs/cgroup/crate/my-container";
    assert_eq!(mgr.cgroup_path(), expected);
}

#[test]
fn lifecycle_test_cgroup_path_construction() {
    let mgr = CgroupManager::new("integ-test")
        .with_memory_max(128 * 1024 * 1024)
        .with_pid_max(64);

    assert!(mgr.cgroup_path().ends_with("crate/integ-test"));
    assert_eq!(mgr.memory_limit().max_bytes, Some(128 * 1024 * 1024));
    assert_eq!(mgr.pid_limit().max, Some(64));
}

#[test]
fn test_cgroup_path_with_complex_id() {
    let mgr = CgroupManager::new("abc-123-def-456");
    assert!(mgr.cgroup_path().ends_with("crate/abc-123-def-456"));
    assert!(mgr.cgroup_path().starts_with("/sys/fs/cgroup"));
}

#[test]
fn test_format_memory_value_some() {
    assert_eq!(format_memory_value(Some(1024)), "1024");
    assert_eq!(format_memory_value(Some(0)), "0");
    assert_eq!(format_memory_value(Some(256 * 1024 * 1024)), "268435456");
}

#[test]
fn test_format_memory_value_none() {
    assert_eq!(format_memory_value(None), "max");
}

#[test]
fn test_format_cpu_max() {
    let cpu = CpuLimit { quota_us: 50_000, period_us: 100_000 };
    assert_eq!(format_cpu_max(&cpu), "50000 100000");
}

#[test]
fn test_format_cpu_max_full_core() {
    let cpu = CpuLimit { quota_us: 100_000, period_us: 100_000 };
    assert_eq!(format_cpu_max(&cpu), "100000 100000");
}

#[test]
fn test_format_pid_max_some() {
    assert_eq!(format_pid_max(Some(128)), "128");
    assert_eq!(format_pid_max(Some(1)), "1");
}

#[test]
fn test_format_pid_max_none() {
    assert_eq!(format_pid_max(None), "max");
}

#[test]
fn test_cpu_limit_default() {
    let cpu = CpuLimit::default();
    assert_eq!(cpu.quota_us, 100_000);
    assert_eq!(cpu.period_us, 100_000);
}

#[test]
fn test_memory_limit_default() {
    let mem = MemoryLimit::default();
    assert!(mem.max_bytes.is_none());
    assert!(mem.high_bytes.is_none());
}

#[test]
fn test_pid_limit_default() {
    let pid = PidLimit::default();
    assert!(pid.max.is_none());
}

#[test]
fn test_cgroup_apply_requires_root() {
    let mgr = CgroupManager::new("integ-cgroup-test")
        .with_memory_max(64 * 1024 * 1024)
        .with_pid_max(32);

    let plan = mgr.apply(&mounted()).unwrap();
    let mut run = PlanRun::new(plan);
    assert!(matches!(run.current(), Some(HostOp::CreateDirAll(path)) if path == "/sys/fs/cgroup/crate"));
    match run.record(Some("permission denied".to_string())) {
        Verdict::Fail(error) => assert_eq!(
            error.to_string(),
            "Cgroup error: failed to create runtime cgroup prefix /sys/fs/cgroup/crate: permission denied"
        ),
        other => panic!("expected a failure: {other:?}"),
    }
}

#[test]
fn apply_writes_each_configured_limit() {
    let mgr = CgroupManager::new("c")
        .with_memory_max(4096)
        .with_memory_high(2048)
        .with_cpu_quota(50_000, 100_000)
        .with_pid_max(7);
    let script = script(&mgr.apply(&mounted()).unwrap());
    let ops: Vec<&str> = script.iter().map(|(op, _)| op.as_str()).collect();
    assert_eq!(
        ops,
        vec![
            "mkdir /sys/fs/cgroup/crate",
            "mkdir /sys/fs/cgroup/crate/c",
            "write /sys/fs/cgroup/crate/c/memory.max 4096",
            "write /sys/fs/cgroup/crate/c/memory.high 2048",
            "write /sys/fs/cgroup/crate/c/cpu.max 50000 100000",
            "write /sys/fs/cgroup/crate/c/pids.max 7",
        ]
    );
    assert_eq!(
        script[4].1,
        "failed to write '50000 100000' to /sys/fs/cgroup/crate/c/cpu.max: "
    );
}

#[test]
fn apply_without_limits_only_creates_directories() {
    let script = script(&CgroupManager::new("c").apply(&mounted()).unwrap());
    assert_eq!(script.len(), 2);
}

#[test]
fn add_process_writes_the_pid() {
    let script = script(&CgroupManager::new("c").add_process(4711));
    assert_eq!(script.len(), 1);
    assert_eq!(script[0].0, "write /sys/fs/cgroup/crate/c/cgroup.procs 4711");
}

#[test]
fn cleanup_removes_only_what_exists() {
    let mgr = CgroupManager::new("c");
    assert!(mgr.cleanup(false).steps.is_empty());
    let script = script(&mgr.cleanup(true));
    assert_eq!(script[0].0, "rmdir /sys/fs/cgroup/crate/c");
    assert_eq!(
        script[0].1,
        "failed to remove cgroup directory /sys/fs/cgroup/crate/c (are all processes terminated?): "
    );
}

#[test]
fn unified_hierarchy_must_be_mounted() {
    assert!(verify_cgroup_v2(&mounted()).is_ok());
    let hybrid = Ok("cgroup /sys/fs/cgroup cgroup rw 0 0\ncgroup2 /mnt cgroup2 rw 0 0".to_string());
    let error = verify_cgroup_v2(&hybrid).unwrap_err().to_string();
    assert!(error.contains("cgroups v2 is not mounted at /sys/fs/cgroup"));
    let unread = Err("no such file".to_string());
    assert_eq!(
        verify_cgroup_v2(&unread).unwrap_err().to_string(),
        "Cgroup error: failed to read /proc/mounts: no such file"
    );
    let short = Ok("cgroup2 /sys/fs/cgroup".to_string());
    assert!(verify_cgroup_v2(&short).is_err());
}

#[test]
fn cgroup_path_ends_with_the_id_whatever_it_is() {
    for id in ["c", "a/b", "..", ""] {
        assert_eq!(CgroupManager::new(id).cgroup_path(), format!("/sys/fs/cgroup/crate/{id}"));
    }
    let mgr = CgroupManager::new("/etc");
    assert_eq!(mgr.cgroup_path(), "/sys/fs/cgroup/crate//etc");
    let script = script(&mgr.apply(&mounted()).unwrap());
    assert_eq!(script[0].0, "mkdir /sys/fs/cgroup/crate");
    assert_eq!(script[1].0, "mkdir /sys/fs/cgroup/crate//etc");
    assert!(CgroupManager::new("/").apply(&mounted()).is_ok());
}
