use crate_runtime::host::{HostOp, MountFlag, OnError, PlanRun, Verdict};
use crate_runtime::namespace::mount::{bind_mount, setup_mount_namespace};
use crate_runtime::namespace::pid::PidNamespace;
use crate_runtime::namespace::uts::{get_hostname, set_hostname, validate_hostname, HostnameAnswer};

#[test]
fn test_validate_hostname_valid() {
    assert!(validate_hostname("my-host").is_ok());
    assert!(validate_hostname("host.local").is_ok());
    assert!(validate_hostname("a").is_ok());
}

#[test]
fn test_validate_hostname_empty() {
    assert!(validate_hostname("").is_err());
}

#[test]
fn test_validate_hostname_too_long() {
    let long = "a".repeat(256);
    assert!(validate_hostname(&long).is_err());
}

#[test]
fn test_validate_hostname_invalid_chars() {
    assert!(validate_hostname("host name").is_err());
    assert!(validate_hostname("host!name").is_err());
    assert!(validate_hostname("host_name").is_err());
}

#[test]
fn test_validate_hostname_max_length() {
    let max = "a".repeat(255);
    assert!(validate_hostname(&max).is_ok());
}

#[test]
fn hostname_errors_say_what_is_wrong() {
    let message = |name: &str| validate_hostname(name).unwrap_err().to_string();
    assert_eq!(message(""), "Namespace error: Hostname cannot be empty");
    assert_eq!(message(&"a".repeat(256)), "Namespace error: Hostname too long");
    assert_eq!(message("é"), "Namespace error: Hostname contains invalid characters");
    // 200 characters, but 400 bytes.
    assert_eq!(message(&"é".repeat(200)), "Namespace error: Hostname too long");
}

#[test]
fn hostname_is_set_and_read() {
    let plan = set_hostname("box");
    assert!(matches!(&plan.steps[0].op, HostOp::SetHostname(name) if name == "box"));
    let mut run = PlanRun::new(plan);
    match run.record(Some("EPERM".to_string())) {
        Verdict::Fail(error) => {
            assert_eq!(error.to_string(), "Namespace error: Failed to set hostname: EPERM")
        }
        other => panic!("expected a failure: {other:?}"),
    }
    assert_eq!(get_hostname(HostnameAnswer::Name("box".into())).unwrap(), "box");
    assert_eq!(
        get_hostname(HostnameAnswer::Failed("EIO".into())).unwrap_err().to_string(),
        "Namespace error: Failed to get hostname: EIO"
    );
    assert_eq!(
        get_hostname(HostnameAnswer::NotUnicode("\"\\xFF\"".into())).unwrap_err().to_string(),
        "Namespace error: Invalid hostname encoding: \"\\xFF\""
    );
}

#[test]
fn pid_namespace_knows_its_init_process() {
    assert_eq!(PidNamespace::new(1).init_pid, 1);
    assert!(PidNamespace::is_init_pid(1));
    assert!(!PidNamespace::is_init_pid(2));
    let pid = PidNamespace::current_pid();
    assert!(pid > 0);
    assert_eq!(PidNamespace::is_init(), pid == 1);
}

#[test]
fn mount_namespace_pivots_before_it_mounts() {
    let plan = setup_mount_namespace("/newroot");
    let position = |wanted: &dyn Fn(&HostOp) -> bool| {
        plan.steps.iter().position(|step| wanted(&step.op)).unwrap()
    };
    let pivot = position(&|op| {
        matches!(op, HostOp::PivotRoot { new_root, put_old }
            if new_root == "/newroot" && put_old == "/newroot/.pivot_root")
    });
    let proc_mount = position(
        &|op| matches!(op, HostOp::Mount { target, .. } if target == "/proc"),
    );
    let detach = position(&|op| matches!(op, HostOp::DetachMount(path) if path == "/.pivot_root"));
    assert!(pivot < proc_mount && proc_mount < detach);
    assert_eq!(detach, plan.steps.len() - 2);
    let devices = plan
        .steps
        .iter()
        .filter(|step| matches!(&step.op, HostOp::MakeCharDevice { .. }))
        .count();
    assert_eq!(devices, 7);
    let sys = position(&|op| {
        matches!(op, HostOp::Mount { target, flags, .. }
            if target == "/sys" && flags.contains(&MountFlag::ReadOnly))
    });
    assert!(matches!(&plan.steps[sys].on_error, OnError::Report(_, text) if text == "Failed to mount /sys: "));
}

#[test]
fn bind_mount_of_a_file_creates_an_empty_file() {
    let plan = bind_mount("/etc/hosts", "/r/etc/hosts", false, false);
    assert_eq!(plan.steps.len(), 3);
    assert!(matches!(&plan.steps[0].op, HostOp::CreateDirAll(path) if path == "/r/etc"));
    assert!(matches!(&plan.steps[1].op, HostOp::WriteFile { path, contents }
        if path == "/r/etc/hosts" && contents.is_empty()));
    assert!(matches!(&plan.steps[2].op, HostOp::Mount { flags, .. }
        if *flags == vec![MountFlag::Bind]));
    assert!(matches!(&plan.steps[2].on_error, OnError::Report(_, text)
        if text == "Failed to bind mount \"/etc/hosts\": "));
}

#[test]
fn read_only_bind_mount_is_remounted() {
    let plan = bind_mount("/data", "/r/data", true, true);
    assert_eq!(plan.steps.len(), 3);
    assert!(matches!(&plan.steps[0].op, HostOp::CreateDirAll(path) if path == "/r/data"));
    assert!(matches!(&plan.steps[2].op, HostOp::Mount { source: None, flags, .. }
        if *flags == vec![MountFlag::Bind, MountFlag::ReadOnly, MountFlag::Remount]));
    assert!(matches!(&plan.steps[2].on_error, OnError::Report(_, text)
        if text == "Failed to remount \"/r/data\" readonly: "));
}
