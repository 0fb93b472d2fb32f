use crate_runtime::container::builder::ContainerConfig;
use crate_runtime::container::host::{CONTAINER_NAMESPACES, ContainerCall, ContainerReply};
use crate_runtime::container::init::{container_init, exec_command, InitCall, InitReply};
use crate_runtime::container::process::ExitCode;
use crate_runtime::container::{init_container, Container};
use crate_runtime::dialogue::Next;
use crate_runtime::host::HostOp;
use crate_runtime::ContainerBuilder;

#[test]
fn test_default_builder() {
    let builder = ContainerBuilder::new();
    let container = builder.build().unwrap();
    assert_eq!(container.config.command, vec!["/bin/sh"]);
    assert_eq!(container.config.hostname, "container");
    assert!(container.config.rootfs.is_none());
    assert_eq!(container.config.id.len(), 12);
}

#[test]
fn test_builder_chaining() {
    let container = ContainerBuilder::new()
        .command(vec!["echo".into(), "hello".into()])
        .hostname("test-host".into())
        .id("test-id".into())
        .env("FOO".into(), "bar".into())
        .build()
        .unwrap();

    assert_eq!(container.config.command, vec!["echo", "hello"]);
    assert_eq!(container.config.hostname, "test-host");
    assert_eq!(container.config.id, "test-id");
    assert!(container.config.env.iter().any(|(k, v)| k == "FOO" && v == "bar"));
}

#[test]
fn test_empty_command_uses_default() {
    // Empty vec passed to .command() should keep the default
    let container = ContainerBuilder::new().command(vec![]).build().unwrap();
    assert_eq!(container.config.command, vec!["/bin/sh"]);
}

#[test]
fn test_all_empty_strings_rejected() {
    let result = ContainerBuilder::new().command(vec!["".into()]).build();
    assert!(result.is_err());
}

#[test]
fn test_hostname_too_long() {
    let long_name = "a".repeat(256);
    let result = ContainerBuilder::new().hostname(long_name).build();
    assert!(result.is_err());
}

#[test]
fn test_hostname_invalid_chars() {
    let result = ContainerBuilder::new().hostname("host name!".into()).build();
    assert!(result.is_err());
}

#[test]
fn test_hostname_valid() {
    let result = ContainerBuilder::new().hostname("my-host.local".into()).build();
    assert!(result.is_ok());
}

#[test]
fn test_rootfs_relative_path_rejected() {
    let result = ContainerBuilder::new().rootfs("relative/path".into()).build();
    assert!(result.is_err());
}

#[test]
fn test_rootfs_traversal_rejected() {
    let result = ContainerBuilder::new().rootfs("/some/../etc/shadow".into()).build();
    assert!(result.is_err());
}

#[test]
fn test_rootfs_absolute_path_accepted() {
    let result = ContainerBuilder::new().rootfs("/var/lib/containers/rootfs".into()).build();
    assert!(result.is_ok());
}

#[test]
fn test_empty_hostname_ignored() {
    let container = ContainerBuilder::new().hostname("".into()).build().unwrap();
    assert_eq!(container.config.hostname, "container");
}

#[test]
fn test_default_env() {
    let config = ContainerConfig::default();
    assert!(config.env.iter().any(|(k, _)| k == "PATH"));
    assert!(config.env.iter().any(|(k, _)| k == "TERM"));
}

#[test]
fn test_builder_produces_valid_container() {
    let container = ContainerBuilder::new()
        .command(vec!["/bin/echo".into(), "hello".into()])
        .hostname("integration-test".into())
        .id("integ-001".into())
        .build()
        .unwrap();

    assert_eq!(container.config.id, "integ-001");
    assert_eq!(container.config.hostname, "integration-test");
    assert_eq!(container.config.command, vec!["/bin/echo", "hello"]);
}

#[test]
fn test_builder_rejects_invalid_rootfs() {
    let result = ContainerBuilder::new().rootfs("../escape".into()).build();
    assert!(result.is_err());
}

#[test]
fn test_builder_rejects_bad_hostname() {
    let result = ContainerBuilder::new().hostname("bad host!".into()).build();
    assert!(result.is_err());
}

fn config_error(config: ContainerConfig) -> String {
    ContainerBuilder::from_config(config).build().unwrap_err().to_string()
}

#[test]
fn build_says_what_is_wrong() {
    let base = || ContainerConfig::with_id("c".to_string());
    let mut config = base();
    config.command = vec![];
    assert_eq!(config_error(config), "Invalid configuration: Command cannot be empty");
    let mut config = base();
    config.command = vec!["".to_string(), "".to_string()];
    assert_eq!(
        config_error(config),
        "Invalid configuration: Command must contain at least one non-empty argument"
    );
    let mut config = base();
    config.hostname = String::new();
    assert_eq!(config_error(config), "Invalid configuration: Hostname cannot be empty");
    let mut config = base();
    config.hostname = "a".repeat(256);
    assert_eq!(
        config_error(config),
        "Invalid configuration: Hostname exceeds maximum length of 255 characters"
    );
    let mut config = base();
    config.hostname = "a_b".to_string();
    assert_eq!(
        config_error(config),
        "Invalid configuration: Hostname contains invalid characters (only alphanumeric, hyphens, and dots allowed)"
    );
    let mut config = base();
    config.rootfs = Some(String::new());
    assert_eq!(config_error(config), "Invalid configuration: Root filesystem path cannot be empty");
    let mut config = base();
    config.rootfs = Some("a".to_string());
    assert_eq!(config_error(config), "Invalid configuration: Root filesystem path must be absolute");
    let mut config = base();
    config.rootfs = Some("/a..b".to_string());
    assert_eq!(
        config_error(config),
        "Invalid configuration: Root filesystem path must not contain '..' components"
    );
}

#[test]
fn temporary_root_is_named_after_the_id() {
    let container = Container::new(ContainerConfig::with_id("abc".to_string()));
    assert_eq!(container.rootfs_path, "/tmp/crate-abc");
    assert!(container.owns_rootfs);
    let container = ContainerBuilder::new().rootfs("/srv/root".into()).build().unwrap();
    assert_eq!(container.rootfs_path, "/srv/root");
    assert!(!container.owns_rootfs);
}

/// A host with a few files that runs the container process to its end.
struct Machine {
    files: Vec<String>,
    log: Vec<String>,
    end: Vec<ContainerReply>,
    /// What to answer when asked for paths without symbolic links, where it is not Unicode.
    found: Option<fn() -> ContainerReply>,
}

impl Machine {
    fn new(end: Vec<ContainerReply>) -> Machine {
        let files = ["/bin/sh", "/lib/x86_64-linux-gnu", "/lib/x86_64-linux-gnu/libc.so.6"];
        Machine {
            files: files.iter().map(|file| file.to_string()).collect(),
            log: Vec::new(),
            end,
            found: None,
        }
    }

    fn perform(&mut self, call: ContainerCall) -> ContainerReply {
        match call {
            ContainerCall::Exists(path) => return ContainerReply::Exists(self.files.contains(&path)),
            ContainerCall::CreateDirAll(path) => {
                self.log.push(format!("mkdir {path}"));
                self.files.push(path);
            }
            ContainerCall::Copy { from, to } => {
                self.log.push(format!("copy {from} {to}"));
                self.files.push(to);
            }
            ContainerCall::Canonicalize(_) if self.found.is_some() => {
                return self.found.map(|reply| reply()).unwrap();
            }
            ContainerCall::CopyFound { to } => {
                self.log.push(format!("copy found {to}"));
                self.files.push(to);
            }
            ContainerCall::FoundNameIn(dir) => {
                return ContainerReply::Exists(self.files.contains(&format!("{dir}/odd")));
            }
            ContainerCall::CopyFoundInto(dir) => {
                self.log.push(format!("copy found into {dir}"));
                self.files.push(format!("{dir}/odd"));
            }
            ContainerCall::Canonicalize(path) => {
                return ContainerReply::Path(path.replace("libc.so.6", "libc-2.31.so"));
            }
            ContainerCall::Symlink { target, link } => {
                self.log.push(format!("link {target} {link}"));
                self.files.push(link);
            }
            ContainerCall::Clone { config, rootfs, namespaces } => {
                assert_eq!(namespaces, CONTAINER_NAMESPACES);
                self.log.push(format!("clone {} {rootfs}", config.hostname));
                return ContainerReply::Pid(77);
            }
            ContainerCall::WaitChild(pid) => {
                self.log.push(format!("wait {pid}"));
                return self.end.remove(0);
            }
            ContainerCall::DetachMount(path) => self.log.push(format!("detach {path}")),
            ContainerCall::RemoveDirAll(path) => self.log.push(format!("remove {path}")),
        }
        ContainerReply::Done
    }

    fn run(&mut self, container: &Container) -> Next<ContainerCall, ExitCode> {
        let mut replies = Vec::new();
        loop {
            match container.run("linux", "x86_64", &replies) {
                Next::Ask(call) => replies.push(self.perform(call)),
                end => return end,
            }
        }
    }
}

#[test]
fn test_namespace_isolation_requires_root() {
    let container = ContainerBuilder::new()
        .command(vec!["/bin/echo".into(), "hello".into()])
        .hostname("test-ns".into())
        .build()
        .unwrap();

    let mut machine = Machine::new(vec![ContainerReply::Exited(0)]);
    match machine.run(&container) {
        Next::Done(exit) => assert_eq!(exit.code, 0),
        other => panic!("expected an exit code: {other:?}"),
    }
}

#[test]
fn run_sets_up_and_tears_down_a_temporary_root() {
    let container = ContainerBuilder::new().id("c1".into()).build().unwrap();
    let mut machine =
        Machine::new(vec![ContainerReply::Interrupted, ContainerReply::Changed, ContainerReply::Exited(3)]);
    match machine.run(&container) {
        Next::Done(exit) => assert_eq!(exit.code, 3),
        other => panic!("expected an exit code: {other:?}"),
    }
    // Nothing stands at the path of the root itself, so it is not removed.
    assert_eq!(
        machine.log,
        vec![
            "mkdir /tmp/crate-c1/bin",
            "mkdir /tmp/crate-c1/dev",
            "mkdir /tmp/crate-c1/etc",
            "mkdir /tmp/crate-c1/lib",
            "mkdir /tmp/crate-c1/lib64",
            "mkdir /tmp/crate-c1/proc",
            "mkdir /tmp/crate-c1/sys",
            "mkdir /tmp/crate-c1/tmp",
            "mkdir /tmp/crate-c1/usr/bin",
            "mkdir /tmp/crate-c1/usr/lib",
            "mkdir /tmp/crate-c1/bin",
            "copy /bin/sh /tmp/crate-c1/bin/sh",
            "mkdir /tmp/crate-c1/lib/x86_64-linux-gnu",
            "copy /lib/x86_64-linux-gnu/libc-2.31.so /tmp/crate-c1/lib/x86_64-linux-gnu/libc-2.31.so",
            "link libc-2.31.so /tmp/crate-c1/lib/x86_64-linux-gnu/libc.so.6",
            "clone container /tmp/crate-c1",
            "wait 77",
            "wait 77",
            "wait 77",
        ]
    );
    let mut machine = Machine::new(vec![ContainerReply::Signaled(9)]);
    machine.files.push("/tmp/crate-c1".to_string());
    match machine.run(&container) {
        Next::Done(exit) => assert_eq!(exit.code, 137),
        other => panic!("expected an exit code: {other:?}"),
    }
    assert_eq!(machine.log[machine.log.len() - 2..], ["detach /tmp/crate-c1", "remove /tmp/crate-c1"]);
}

#[test]
fn libraries_need_unicode_names_but_no_unicode_paths() {
    let container = ContainerBuilder::new().id("c1".into()).build().unwrap();
    let to = "/tmp/crate-c1/lib/x86_64-linux-gnu";
    let end = || vec![ContainerReply::Exited(0)];

    let mut machine = Machine::new(end());
    machine.files.push("/lib64/ld-linux-x86-64.so.2".to_string());
    machine.found = Some(|| ContainerReply::Named("libc-2.31.so".to_string()));
    assert!(matches!(machine.run(&container), Next::Done(exit) if exit.code == 0));
    let copied = machine.log.iter().position(|line| line == &format!("copy found {to}/libc-2.31.so"));
    let rest = &machine.log[copied.unwrap() + 1..];
    assert_eq!(
        rest[..3],
        [
            format!("link libc-2.31.so {to}/libc.so.6"),
            "mkdir /tmp/crate-c1/lib64".to_string(),
            "copy found /tmp/crate-c1/lib64/ld-linux-x86-64.so.2".to_string(),
        ]
    );

    let mut machine = Machine::new(end());
    machine.found = Some(|| ContainerReply::Named("libc.so.6".to_string()));
    assert!(matches!(machine.run(&container), Next::Done(_)));
    assert!(machine.log.contains(&format!("copy found {to}/libc.so.6")));
    assert!(!machine.log.iter().any(|line| line.starts_with("link")));

    for present in [false, true] {
        let mut machine = Machine::new(end());
        machine.found = Some(|| ContainerReply::NotUnicode("\"libc\\xFF\"".to_string()));
        if present {
            machine.files.push(format!("{to}/odd"));
        }
        match machine.run(&container) {
            Next::Fail(error) => assert_eq!(
                error.to_string(),
                "Filesystem error: Non-UTF8 filename: \"libc\\xFF\""
            ),
            other => panic!("expected a failure: {other:?}"),
        }
        assert_eq!(machine.log.contains(&format!("copy found into {to}")), !present);
    }
}

#[test]
fn run_leaves_a_configured_root_alone() {
    let container = ContainerBuilder::new().rootfs("/srv/root".into()).build().unwrap();
    let mut machine = Machine::new(vec![ContainerReply::Exited(1)]);
    assert!(matches!(machine.run(&container), Next::Done(exit) if exit.code == 1));
    assert_eq!(machine.log, vec!["clone container /srv/root", "wait 77"]);
}

#[test]
fn run_reports_failures() {
    let container = ContainerBuilder::new().rootfs("/srv/root".into()).build().unwrap();
    let message = |os: &str, replies: Vec<ContainerReply>| match container.run(os, "x86_64", &replies) {
        Next::Fail(error) => error.to_string(),
        other => panic!("expected a failure: {other:?}"),
    };
    assert_eq!(
        message("macos", vec![]),
        "Process error: Container runtime only supported on Linux"
    );
    assert_eq!(
        message("linux", vec![ContainerReply::Failed("EPERM".into())]),
        "Process error: Failed to clone: EPERM"
    );
    assert_eq!(
        message("linux", vec![ContainerReply::Pid(7), ContainerReply::Failed("ECHILD".into())]),
        "Process error: Failed to wait for child: ECHILD"
    );
    let stray = vec![ContainerReply::Done];
    assert!(matches!(container.run("linux", "x86_64", &stray), Next::Stray));

    let owner = ContainerBuilder::new().id("c".into()).build().unwrap();
    let replies = vec![ContainerReply::Failed("disk full".into())];
    match owner.run("linux", "x86_64", &replies) {
        Next::Fail(error) => assert_eq!(
            error.to_string(),
            "Filesystem error: Failed to create bin: disk full"
        ),
        other => panic!("expected a failure: {other:?}"),
    }
}

#[test]
fn commands_are_checked_before_execution() {
    let request = exec_command(&vec!["/bin/echo".to_string(), "a \"b\"".to_string()]).unwrap();
    assert_eq!(request.program, "/bin/echo");
    assert_eq!(request.args, vec!["/bin/echo", "a \"b\""]);
    assert_eq!(request.failure, "Failed to exec [\"/bin/echo\", \"a \\\"b\\\"\"]: ");
    let error = exec_command(&vec!["a\0b".to_string()]).unwrap_err().to_string();
    assert_eq!(
        error,
        "Process error: Invalid command: nul byte found in provided data at position: 1"
    );
    let error = exec_command(&vec!["a".to_string(), "é\0".to_string()]).unwrap_err().to_string();
    assert_eq!(
        error,
        "Process error: Invalid argument \"é\\0\": nul byte found in provided data at position: 2"
    );
}

/// Goes through an initialisation on a host on which those calls fail that `fails`
/// accepts, and the execution of the command. Gives the calls and the error at the end.
fn initialise(
    turn: impl Fn(&Vec<InitReply>) -> Next<InitCall, ()>,
    fails: impl Fn(&InitCall) -> bool,
) -> (Vec<String>, String) {
    let mut replies = Vec::new();
    let mut calls = Vec::new();
    loop {
        match turn(&replies) {
            Next::Ask(call) => {
                calls.push(match &call {
                    InitCall::Perform(HostOp::SetHostname(name)) => format!("hostname {name}"),
                    InitCall::Perform(HostOp::PivotRoot { .. }) => "pivot".to_string(),
                    InitCall::Perform(HostOp::ChangeDir(dir)) => format!("chdir {dir}"),
                    InitCall::Perform(HostOp::DropCapability { .. }) => "drop".to_string(),
                    InitCall::Perform(HostOp::SetNoNewPrivs) => "restrict".to_string(),
                    InitCall::Perform(HostOp::InstallSeccomp(_)) => "seccomp".to_string(),
                    InitCall::Perform(_) => "mount".to_string(),
                    InitCall::SetEnv(env) => format!("env {}", env.len()),
                    InitCall::Exec { program, args } => format!("exec {program} {args:?}"),
                });
                let exec = matches!(&call, InitCall::Exec { .. });
                replies.push(if exec || fails(&call) {
                    InitReply::Failed("EPERM".to_string())
                } else {
                    InitReply::Done
                });
            }
            Next::Fail(error) => return (calls, error.to_string()),
            other => panic!("an initialisation ends with an error: {other:?}"),
        }
    }
}

fn without_repetitions(mut calls: Vec<String>) -> Vec<String> {
    calls.retain(|call| call != "mount");
    calls.dedup();
    calls
}

#[test]
fn initialisation_goes_from_hostname_to_command() {
    let mut config = ContainerConfig::with_id("c".to_string());
    config.hostname = "box".to_string();
    let (calls, error) =
        initialise(|replies| container_init(&config, "/r", "linux", replies), |_| false);
    assert_eq!(error, "Process error: Failed to exec [\"/bin/sh\"]: EPERM");
    assert_eq!(calls.iter().filter(|call| *call == "drop").count() % 3, 0);
    let env = format!("env {}", config.env.len());
    let calls = without_repetitions(calls);
    let end = [
        "drop",
        "restrict",
        "seccomp",
        env.as_str(),
        "exec /bin/sh [\"/bin/sh\"]",
    ];
    assert_eq!(calls[0], "hostname box");
    assert!(calls.contains(&"pivot".to_string()));
    assert_eq!(calls[calls.len() - 6], "chdir /");
    assert_eq!(calls[calls.len() - 5..], end);
}

#[test]
fn failed_restrictions_are_passed_over() {
    let config = ContainerConfig::with_id("c".to_string());
    let restricts = |call: &InitCall| {
        matches!(
            call,
            InitCall::Perform(HostOp::DropCapability { .. } | HostOp::SetNoNewPrivs)
        )
    };
    let (calls, error) =
        initialise(|replies| container_init(&config, "/r", "linux", replies), restricts);
    assert_eq!(error, "Process error: Failed to exec [\"/bin/sh\"]: EPERM");
    // Each of the two ends at its first failure.
    assert_eq!(calls.iter().filter(|call| *call == "drop").count(), 1);
    assert_eq!(calls.iter().filter(|call| *call == "restrict").count(), 1);
    assert!(!calls.contains(&"seccomp".to_string()));
    assert!(calls.last().unwrap().starts_with("exec"));
}

#[test]
fn failed_setup_ends_an_initialisation() {
    let config = ContainerConfig::with_id("c".to_string());
    let turn = |replies: &Vec<InitReply>| container_init(&config, "/r", "linux", replies);
    let (calls, error) =
        initialise(turn, |call| matches!(call, InitCall::Perform(HostOp::SetHostname(_))));
    assert_eq!(calls.len(), 1);
    assert_eq!(error, "Namespace error: Failed to set hostname: EPERM");
    let (calls, error) = initialise(
        turn,
        |call| matches!(call, InitCall::Perform(HostOp::ChangeDir(dir)) if dir == "/"),
    );
    assert_eq!(calls.last().unwrap(), "chdir /");
    assert!(error.ends_with("EPERM"));
    assert!(!calls.contains(&"drop".to_string()));
}

#[test]
fn command_is_looked_at_after_the_environment_is_set() {
    let mut config = ContainerConfig::with_id("c".to_string());
    config.command = vec!["a\0b".to_string()];
    let (calls, error) =
        initialise(|replies| container_init(&config, "/r", "linux", replies), |_| false);
    assert!(calls.last().unwrap().starts_with("env"));
    assert_eq!(
        error,
        "Process error: Invalid command: nul byte found in provided data at position: 1"
    );
}

#[test]
fn initialisation_notices_stray_answers() {
    let config = ContainerConfig::with_id("c".to_string());
    let mut replies = Vec::new();
    loop {
        match container_init(&config, "/r", "linux", &replies) {
            Next::Ask(_) => replies.push(InitReply::Done),
            Next::Stray => break,
            other => panic!("unexpected turn: {other:?}"),
        }
    }
    // The command cannot say that it was executed.
    replies.pop();
    assert!(matches!(
        container_init(&config, "/r", "linux", &replies),
        Next::Ask(InitCall::Exec { .. })
    ));
}

#[test]
fn nested_initialisation_needs_linux() {
    let command = vec!["/bin/sh".to_string()];
    match init_container(&command, "box", "/r", "macos", &Vec::new()) {
        Next::Fail(error) => assert_eq!(
            error.to_string(),
            "Process error: Container runtime only supported on Linux"
        ),
        other => panic!("expected a failure: {other:?}"),
    }
    let (calls, _) =
        initialise(|replies| init_container(&command, "box", "/r", "linux", replies), |_| false);
    assert_eq!(calls[0], "hostname box");
    // The default PATH and TERM.
    assert!(calls.contains(&"env 2".to_string()));
    assert_eq!(calls.last().unwrap(), "exec /bin/sh [\"/bin/sh\"]");
}
