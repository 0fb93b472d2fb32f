use crate_runtime::dialogue::Next;
use crate_runtime::runtime::calendar::rfc3339;
use crate_runtime::runtime::lifecycle::StatusList;
use crate_runtime::runtime::oci::{
    container_config_from_spec, parse_variables, Hook, OciHooks, OciProcess, OciSpec,
};
use crate_runtime::runtime::process::Span;
use crate_runtime::runtime::status::{DirEntry, RuntimeCall, RuntimeReply};
use crate_runtime::runtime::table::status_table;
use crate_runtime::runtime::{
    days_to_ymd, load_oci_spec, now_rfc3339, run_hooks, ContainerState, ContainerStatus,
    RuntimeManager,
};
use std::collections::{BTreeMap, HashMap};
use std::path::Path;

/// Minimal OCI config.json for testing.
fn mock_config_json() -> &'static str {
    r#"{
        "ociVersion": "1.0.2",
        "process": {
            "terminal": false,
            "user": { "uid": 0, "gid": 0 },
            "args": ["/bin/sh"],
            "cwd": "/"
        },
        "root": {
            "path": "rootfs",
            "readonly": true
        }
    }"#
}

fn paths(hooks: &[oci_spec::runtime::Hook]) -> Vec<Hook> {
    hooks
        .iter()
        .map(|hook| Hook {
            path: hook.path().to_str().unwrap().to_string(),
            args: hook.args().clone(),
            env: hook.env().clone(),
            timeout: hook.timeout(),
        })
        .collect()
}

fn parse_spec(text: &str) -> Result<OciSpec, String> {
    let spec: oci_spec::runtime::Spec =
        serde_json::from_str(text).map_err(|error| error.to_string())?;
    Ok(OciSpec {
        version: spec.version().clone(),
        process: spec.process().as_ref().map(|process| OciProcess {
            args: process.args().clone(),
            env: process.env().clone(),
        }),
        root_path: spec.root().as_ref().map(|root| root.path().to_str().unwrap().to_string()),
        hostname: spec.hostname().clone(),
        hooks: spec.hooks().as_ref().map(|hooks| OciHooks {
            prestart: hooks.prestart().as_ref().map(|list| paths(list)),
            poststart: hooks.poststart().as_ref().map(|list| paths(list)),
            poststop: hooks.poststop().as_ref().map(|list| paths(list)),
        }),
        annotations: spec.annotations().clone(),
    })
}

/// A host whose files are in memory.
struct Host {
    /// The texts of configuration files.
    files: BTreeMap<String, String>,
    /// Configurations that need no parsing.
    specs: BTreeMap<String, OciSpec>,
    /// The status records.
    records: BTreeMap<String, ContainerStatus>,
    /// What was done, apart from reading.
    log: Vec<String>,
    /// How a hook ends.
    hook: RuntimeReply,
    /// What the looks at a process that is stopping say.
    looks: Vec<RuntimeReply>,
    /// Whether container processes can be started.
    spawns: bool,
}

impl Host {
    fn new() -> Host {
        Host {
            files: BTreeMap::new(),
            specs: BTreeMap::new(),
            records: BTreeMap::new(),
            log: Vec::new(),
            hook: RuntimeReply::Exited { success: true, text: "exit status: 0".to_string() },
            looks: Vec::new(),
            spawns: true,
        }
    }

    /// A host with a bundle in the directory `bundle`.
    fn with_bundle(bundle: &str) -> Host {
        let mut host = Host::new();
        host.files.insert(format!("{bundle}/config.json"), mock_config_json().to_string());
        host
    }

    fn has(&self, path: &str) -> bool {
        let dir = format!("{path}/");
        let mut all = self.files.keys().chain(self.specs.keys()).chain(self.records.keys());
        all.any(|file| file == path || file.starts_with(&dir))
    }

    fn perform(&mut self, call: RuntimeCall) -> RuntimeReply {
        match call {
            RuntimeCall::Exists(path) => return RuntimeReply::Exists(self.has(&path)),
            RuntimeCall::LoadStatus(path) => {
                return match self.records.get(&path) {
                    Some(status) => RuntimeReply::Status(status.clone()),
                    None => RuntimeReply::Failed("No such file".to_string()),
                };
            }
            RuntimeCall::SaveStatus { path, status, .. } => {
                self.log.push(format!("save {} {:?}", status.state.to_string(), status.pid));
                self.records.insert(path, status);
            }
            RuntimeCall::LoadSpec(path) => {
                if let Some(spec) = self.specs.get(&path) {
                    return RuntimeReply::Spec(spec.clone());
                }
                return match parse_spec(&self.files[&path]) {
                    Ok(spec) => RuntimeReply::Spec(spec),
                    Err(error) => RuntimeReply::Failed(error),
                };
            }
            RuntimeCall::ReadClock => return RuntimeReply::Text(now_rfc3339()),
            RuntimeCall::OwnPid => return RuntimeReply::Pid(4711),
            RuntimeCall::EncodeStatus(status) => {
                return RuntimeReply::Text(format!("{} {}", status.id, status.state.to_string()));
            }
            RuntimeCall::SpawnHook { path, args, env, input } => {
                self.log.push(format!("hook {path} {args:?} {env:?} {input}"));
            }
            RuntimeCall::WaitHook | RuntimeCall::PollHook => {
                return match &self.hook {
                    RuntimeReply::Exited { success, text } => {
                        RuntimeReply::Exited { success: *success, text: text.clone() }
                    }
                    RuntimeReply::Running { secs, nanos } => {
                        RuntimeReply::Running { secs: *secs, nanos: *nanos }
                    }
                    other => panic!("unexpected end of a hook: {other:?}"),
                };
            }
            RuntimeCall::KillHook => self.log.push("kill hook".to_string()),
            RuntimeCall::Sleep(millis) => self.log.push(format!("sleep {millis}")),
            RuntimeCall::SpawnContainer { .. } if !self.spawns => {
                return RuntimeReply::Failed("EPERM".to_string());
            }
            RuntimeCall::SpawnContainer { config, rootfs, .. } => {
                self.log.push(format!("spawn {:?} in {rootfs}", config.command));
                return RuntimeReply::Pid(100);
            }
            RuntimeCall::SendSignal { pid, signal } => {
                self.log.push(format!("signal {pid} {signal}"));
            }
            RuntimeCall::PollProcess(_) => {
                return if self.looks.is_empty() { RuntimeReply::Ended } else { self.looks.remove(0) };
            }
            RuntimeCall::ForceKill(pid) => self.log.push(format!("kill {pid}")),
            RuntimeCall::RemoveDirAll(path) => {
                let dir = format!("{path}/");
                self.records.retain(|file, _| !file.starts_with(&dir));
            }
            RuntimeCall::ListDir(path) => {
                let dir = format!("{path}/");
                let mut names: Vec<String> = self
                    .records
                    .keys()
                    .filter_map(|file| file.strip_prefix(&dir))
                    .map(|rest| rest.split('/').next().unwrap().to_string())
                    .collect();
                names.dedup();
                let entries = names.into_iter().map(|name| DirEntry { name, is_dir: true });
                return RuntimeReply::Entries(entries.collect());
            }
        }
        RuntimeReply::Done
    }

    /// Carries a dialogue to its end.
    fn drive<T: std::fmt::Debug>(
        &mut self,
        ask: impl Fn(&Vec<RuntimeReply>) -> Next<RuntimeCall, T>,
    ) -> Result<T, String> {
        let mut replies = Vec::new();
        loop {
            match ask(&replies) {
                Next::Ask(call) => replies.push(self.perform(call)),
                Next::Done(value) => return Ok(value),
                Next::Fail(error) => return Err(error.to_string()),
                Next::Rethrow => return Err(format!("{:?}", replies.last())),
                Next::Stray => panic!("the last answer does not fit: {replies:?}"),
            }
        }
    }

    fn create(&mut self, mgr: &RuntimeManager, id: &str, bundle: &str) -> Result<ContainerStatus, String> {
        self.drive(|replies| mgr.create(id, bundle, replies))
    }

    fn start(&mut self, mgr: &RuntimeManager, id: &str) -> Result<(), String> {
        self.drive(|replies| mgr.start(id, "linux", replies))
    }

    fn stop(&mut self, mgr: &RuntimeManager, id: &str) -> Result<(), String> {
        self.drive(|replies| mgr.stop(id, None, None, "linux", replies))
    }

    fn delete(&mut self, mgr: &RuntimeManager, id: &str) -> Result<(), String> {
        self.drive(|replies| mgr.delete(id, replies))
    }

    fn state(&mut self, mgr: &RuntimeManager, id: &str) -> Result<ContainerStatus, String> {
        self.drive(|replies| mgr.state(id, replies))
    }

    fn list(&mut self, mgr: &RuntimeManager) -> Result<StatusList, String> {
        self.drive(|replies| mgr.list(replies))
    }
}

fn manager() -> RuntimeManager {
    RuntimeManager::new("/run/runtime".to_string())
}

#[test]
fn test_valid_transitions() {
    assert!(ContainerState::Creating.can_transition_to(&ContainerState::Created));
    assert!(ContainerState::Created.can_transition_to(&ContainerState::Running));
    assert!(ContainerState::Running.can_transition_to(&ContainerState::Stopped));
}

#[test]
fn test_invalid_transitions() {
    assert!(!ContainerState::Creating.can_transition_to(&ContainerState::Running));
    assert!(!ContainerState::Creating.can_transition_to(&ContainerState::Stopped));
    assert!(!ContainerState::Created.can_transition_to(&ContainerState::Stopped));
    assert!(!ContainerState::Created.can_transition_to(&ContainerState::Creating));
    assert!(!ContainerState::Running.can_transition_to(&ContainerState::Created));
    assert!(!ContainerState::Stopped.can_transition_to(&ContainerState::Running));
    assert!(!ContainerState::Stopped.can_transition_to(&ContainerState::Creating));
}

#[test]
fn test_state_display() {
    assert_eq!(ContainerState::Creating.to_string(), "creating");
    assert_eq!(ContainerState::Created.to_string(), "created");
    assert_eq!(ContainerState::Running.to_string(), "running");
    assert_eq!(ContainerState::Stopped.to_string(), "stopped");
}

#[test]
fn test_load_oci_spec_valid() {
    let mut host = Host::with_bundle("/b");
    let spec = host.drive(|replies| load_oci_spec("/b", replies)).unwrap();
    assert_eq!(spec.version, "1.0.2");
}

#[test]
fn test_load_oci_spec_missing_config() {
    let tmp = tempfile::tempdir().unwrap();
    let bundle = tmp.path().to_str().unwrap();
    let result = Host::new().drive(|replies| load_oci_spec(bundle, replies));
    assert!(result.is_err());
    let err = result.unwrap_err();
    assert!(err.contains("config.json not found"));
}

#[test]
fn test_load_oci_spec_invalid_json() {
    let mut host = Host::new();
    host.files.insert("/b/config.json".to_string(), "{ invalid json }".to_string());
    let result = host.drive(|replies| load_oci_spec("/b", replies));
    assert!(result.is_err());
    assert!(result.unwrap_err().starts_with("Runtime error: failed to parse config.json: "));
}

#[test]
fn test_create_and_state() {
    let mut host = Host::with_bundle("/bundle");
    let mgr = manager();
    let status = host.create(&mgr, "c1", "/bundle").unwrap();
    assert_eq!(status.state, ContainerState::Created);
    assert_eq!(status.id, "c1");

    let queried = host.state(&mgr, "c1").unwrap();
    assert_eq!(queried.state, ContainerState::Created);
}

#[test]
fn test_create_duplicate_fails() {
    let mut host = Host::with_bundle("/bundle");
    let mgr = manager();
    host.create(&mgr, "dup", "/bundle").unwrap();
    let result = host.create(&mgr, "dup", "/bundle");
    assert_eq!(result.unwrap_err(), "Runtime error: container 'dup' already exists");
}

#[test]
fn test_full_lifecycle() {
    for os in ["linux", "macos"] {
        let mut host = Host::with_bundle("/bundle");
        let mgr = manager();

        // Create
        host.create(&mgr, "lifecycle", "/bundle").unwrap();

        // Start
        host.drive(|replies| mgr.start("lifecycle", os, replies)).unwrap();
        let status = host.state(&mgr, "lifecycle").unwrap();
        assert_eq!(status.state, ContainerState::Running);
        assert!(status.pid.is_some());

        // Stop
        host.drive(|replies| mgr.stop("lifecycle", None, None, os, replies)).unwrap();
        let status = host.state(&mgr, "lifecycle").unwrap();
        assert_eq!(status.state, ContainerState::Stopped);
        assert!(status.pid.is_none());

        // Delete
        host.delete(&mgr, "lifecycle").unwrap();
        let result = host.state(&mgr, "lifecycle");
        assert!(result.is_err());
    }
}

#[test]
fn test_delete_non_stopped_fails() {
    let mut host = Host::with_bundle("/bundle");
    let mgr = manager();
    host.create(&mgr, "running", "/bundle").unwrap();
    host.start(&mgr, "running").unwrap();

    let result = host.delete(&mgr, "running");
    assert!(result.is_err());
    assert!(result.unwrap_err().contains("must be stopped"));
}

#[test]
fn test_invalid_start_transition() {
    let mut host = Host::with_bundle("/bundle");
    let mgr = manager();
    host.create(&mgr, "c", "/bundle").unwrap();
    host.start(&mgr, "c").unwrap();

    // Starting an already-running container should fail.
    let result = host.start(&mgr, "c");
    assert!(result.is_err());
    let err = result.unwrap_err();
    assert!(err.contains("running") && err.contains("Invalid state transition"));
}

#[test]
fn test_list_containers() {
    let mut host = Host::with_bundle("/bundle");
    let mgr = manager();
    assert_eq!(host.list(&mgr).unwrap().list.len(), 0);

    host.create(&mgr, "a", "/bundle").unwrap();
    host.create(&mgr, "b", "/bundle").unwrap();

    let list = host.list(&mgr).unwrap().list;
    assert_eq!(list.len(), 2);

    let ids: Vec<&str> = list.iter().map(|s| s.id.as_str()).collect();
    assert!(ids.contains(&"a"));
    assert!(ids.contains(&"b"));
}

#[test]
fn test_state_not_found() {
    let result = Host::new().state(&manager(), "nonexistent");
    assert!(result.is_err());
    assert!(result.unwrap_err().contains("not found"));
}

#[test]
fn test_now_rfc3339_format() {
    let ts = now_rfc3339();
    // Should match YYYY-MM-DDTHH:MM:SSZ pattern.
    assert!(ts.ends_with('Z'));
    assert_eq!(ts.len(), 20);
    assert_eq!(&ts[4..5], "-");
    assert_eq!(&ts[10..11], "T");
}

#[test]
fn test_state_persistence_on_disk() {
    let mut host = Host::with_bundle("/bundle");
    let mgr = manager();
    host.create(&mgr, "persist", "/bundle").unwrap();

    // Verify the file exists.
    let state_file = "/run/runtime/containers/persist/state.json";
    assert!(host.records.contains_key(state_file));

    // Read it back with a fresh manager to confirm persistence.
    let mgr2 = manager();
    let status = host.state(&mgr2, "persist").unwrap();
    assert_eq!(status.id, "persist");
    assert_eq!(status.state, ContainerState::Created);
}

#[test]
fn test_runtime_create_and_state() {
    let mut host = Host::new();
    let rt = manager();

    // Create a bundle with a configuration
    let spec = OciSpec {
        version: "1.0.0".to_string(),
        process: Some(OciProcess { args: Some(vec!["/bin/sh".to_string()]), env: None }),
        root_path: Some("/tmp/rootfs".to_string()),
        hostname: None,
        hooks: None,
        annotations: None,
    };
    host.specs.insert("/bundle/config.json".to_string(), spec);

    let status = host.create(&rt, "test-lifecycle", "/bundle").unwrap();
    assert_eq!(status.id, "test-lifecycle");

    let state = host.state(&rt, "test-lifecycle").unwrap();
    assert_eq!(state.id, "test-lifecycle");

    // Clean up
    host.delete(&rt, "test-lifecycle").ok();
}

#[test]
fn test_runtime_list_empty() {
    let list = Host::new().list(&manager()).unwrap();
    assert!(list.list.is_empty());
}

#[test]
fn test_runtime_state_not_found() {
    let result = Host::new().state(&manager(), "nonexistent");
    assert!(result.is_err());
}

fn hook(timeout: Option<i64>) -> Hook {
    Hook {
        path: "/bin/hook".to_string(),
        args: Some(vec!["hook".to_string(), "now".to_string()]),
        env: Some(vec!["A=b=c".to_string(), "odd".to_string()]),
        timeout,
    }
}

fn status(id: &str, state: ContainerState, pid: Option<u32>) -> ContainerStatus {
    ContainerStatus {
        id: id.to_string(),
        state,
        pid,
        bundle: "/bundle".to_string(),
        created: "2026-04-11T12:00:00Z".to_string(),
        annotations: HashMap::new(),
    }
}

fn run_one(host: &mut Host, timeout: Option<i64>) -> Result<(), String> {
    let hooks = vec![hook(timeout)];
    let status = status("c", ContainerState::Creating, None);
    host.drive(|replies| run_hooks(&hooks, &status, replies))
}

#[test]
fn hooks_get_the_status_as_their_input() {
    let mut host = Host::new();
    run_one(&mut host, None).unwrap();
    assert_eq!(
        host.log,
        vec!["hook /bin/hook [\"now\"] [(\"A\", \"b=c\")] c creating"]
    );
}

#[test]
fn failing_hooks_are_reported() {
    let mut host = Host::new();
    host.hook = RuntimeReply::Exited { success: false, text: "exit status: 3".to_string() };
    assert_eq!(
        run_one(&mut host, None).unwrap_err(),
        "Runtime error: hook '/bin/hook' exited with status: exit status: 3"
    );
    host.hook = RuntimeReply::Running { secs: 5, nanos: 1 };
    assert_eq!(
        run_one(&mut host, Some(5)).unwrap_err(),
        "Runtime error: hook '/bin/hook' timed out after 5s"
    );
    assert_eq!(host.log.last().unwrap(), "kill hook");
    host.hook = RuntimeReply::Running { secs: 0, nanos: 1 };
    assert_eq!(
        run_one(&mut host, Some(-1)).unwrap_err(),
        "Runtime error: hook '/bin/hook' timed out after 0ns"
    );
    let hooks = vec![hook(None)];
    let replies =
        vec![RuntimeReply::Text("{}".to_string()), RuntimeReply::Failed("no such file".to_string())];
    match run_hooks(&hooks, &status("c", ContainerState::Creating, None), &replies) {
        Next::Fail(error) => assert_eq!(
            error.to_string(),
            "Runtime error: failed to spawn hook '/bin/hook': no such file"
        ),
        other => panic!("expected a failure: {other:?}"),
    }
}

#[test]
fn hooks_in_time_are_looked_at_again() {
    let hooks = vec![hook(Some(1))];
    let status = status("c", ContainerState::Creating, None);
    let mut replies = vec![
        RuntimeReply::Text("{}".to_string()),
        RuntimeReply::Done,
        RuntimeReply::Running { secs: 1, nanos: 0 },
    ];
    assert!(matches!(run_hooks(&hooks, &status, &replies), Next::Ask(RuntimeCall::Sleep(50))));
    replies.push(RuntimeReply::Done);
    assert!(matches!(run_hooks(&hooks, &status, &replies), Next::Ask(RuntimeCall::PollHook)));
    replies.push(RuntimeReply::Exited { success: true, text: "exit status: 0".to_string() });
    assert!(matches!(run_hooks(&hooks, &status, &replies), Next::Done(())));
}

#[test]
fn process_is_asked_to_stop_before_it_is_killed() {
    let mut host = Host::with_bundle("/bundle");
    let mgr = manager();
    host.create(&mgr, "c", "/bundle").unwrap();
    host.start(&mgr, "c").unwrap();
    host.log.clear();
    host.looks = vec![
        RuntimeReply::Running { secs: 9, nanos: 999_999_999 },
        RuntimeReply::Running { secs: 10, nanos: 0 },
        RuntimeReply::Running { secs: 10, nanos: 1 },
    ];
    host.stop(&mgr, "c").unwrap();
    assert_eq!(
        host.log,
        vec![
            "signal 100 15",
            "sleep 100",
            "sleep 100",
            "kill 100",
            "save stopped Some(100)",
            "save stopped None",
        ]
    );
}

#[test]
fn chosen_signal_and_limit_are_used() {
    let mut host = Host::with_bundle("/bundle");
    let mgr = manager();
    host.create(&mgr, "c", "/bundle").unwrap();
    host.start(&mgr, "c").unwrap();
    let limit = Some(Span { secs: 0, nanos: 5 });
    host.log.clear();
    host.looks = vec![RuntimeReply::Running { secs: 0, nanos: 6 }];
    host.drive(|replies| mgr.stop("c", Some(9), limit, "linux", replies)).unwrap();
    assert_eq!(host.log[..2], ["signal 100 9", "kill 100"]);
}

#[test]
fn signal_numbers_are_checked() {
    let mut host = Host::with_bundle("/bundle");
    let mgr = manager();
    host.create(&mgr, "c", "/bundle").unwrap();
    host.start(&mgr, "c").unwrap();
    for signal in [i32::MIN, -3, 0, 32, 64, 999, i32::MAX] {
        let error =
            host.drive(|replies| mgr.stop("c", Some(signal), None, "linux", replies)).unwrap_err();
        assert_eq!(
            error,
            format!("Runtime error: invalid signal {signal}: EINVAL: Invalid argument")
        );
    }
    for signal in [1, 2, 3, 4, 5, 6, 8, 9, 11, 13, 14, 15] {
        let replies = vec![
            RuntimeReply::Exists(true),
            RuntimeReply::Status(status("c", ContainerState::Running, Some(5))),
        ];
        match mgr.stop("c", Some(signal), None, "linux", &replies) {
            Next::Ask(RuntimeCall::SendSignal { pid, signal: sent }) => {
                assert_eq!((pid, sent), (5, signal));
            }
            other => panic!("unexpected turn: {other:?}"),
        }
    }
}

#[test]
fn stop_needs_a_running_container() {
    let mut host = Host::with_bundle("/bundle");
    let mgr = manager();
    host.create(&mgr, "c", "/bundle").unwrap();
    assert_eq!(
        host.stop(&mgr, "c").unwrap_err(),
        "Invalid state transition: created -> stopped"
    );
    assert_eq!(host.state(&mgr, "c").unwrap().state, ContainerState::Created);
}

#[test]
fn start_runs_the_configured_command() {
    let mut host = Host::with_bundle("/bundle");
    let mgr = manager();
    host.create(&mgr, "c", "/bundle").unwrap();
    host.log.clear();
    host.start(&mgr, "c").unwrap();
    assert_eq!(
        host.log,
        vec![
            "spawn [\"/bin/sh\"] in /bundle/rootfs",
            "save running Some(100)",
        ]
    );
}

#[test]
fn failed_start_leaves_the_container_created() {
    let mut host = Host::with_bundle("/bundle");
    let mgr = manager();
    host.create(&mgr, "c", "/bundle").unwrap();
    host.log.clear();

    host.spawns = false;
    assert!(host.start(&mgr, "c").unwrap_err().contains("EPERM"));
    assert_eq!(host.state(&mgr, "c").unwrap().state, ContainerState::Created);

    host.spawns = true;
    let mut spec = parse_spec(mock_config_json()).unwrap();
    spec.process = None;
    host.specs.insert("/bundle/config.json".to_string(), spec);
    assert_eq!(
        host.start(&mgr, "c").unwrap_err(),
        "Runtime error: OCI spec is missing the 'process' section"
    );
    let record = host.state(&mgr, "c").unwrap();
    assert_eq!(record.state, ContainerState::Created);
    assert_eq!(record.pid, None);
    assert!(host.log.is_empty());

    host.specs.clear();
    host.start(&mgr, "c").unwrap();
    assert_eq!(host.state(&mgr, "c").unwrap().state, ContainerState::Running);
}

#[test]
fn deletion_takes_one_container_from_the_list() {
    let mut host = Host::with_bundle("/bundle");
    let mgr = manager();
    for id in ["a", "ab", "b"] {
        host.create(&mgr, id, "/bundle").unwrap();
    }
    host.start(&mgr, "a").unwrap();
    assert_eq!(
        host.delete(&mgr, "a").unwrap_err(),
        "Runtime error: cannot delete container 'a' in state 'running'; must be stopped"
    );
    assert_eq!(host.list(&mgr).unwrap().list.len(), 3);
    host.stop(&mgr, "a").unwrap();
    host.delete(&mgr, "a").unwrap();
    let left: Vec<String> = host.list(&mgr).unwrap().list.into_iter().map(|found| found.id).collect();
    assert_eq!(left, vec!["ab", "b"]);
    for error in [
        host.state(&mgr, "a").unwrap_err(),
        host.delete(&mgr, "a").unwrap_err(),
        host.start(&mgr, "a").unwrap_err(),
        host.stop(&mgr, "a").unwrap_err(),
    ] {
        assert_eq!(error, "Container not found: a");
    }
}

#[test]
fn records_stay_below_the_root() {
    let mgr = manager();
    match mgr.save_status(&status("/etc", ContainerState::Created, None)) {
        RuntimeCall::SaveStatus { dir, path, .. } => {
            assert_eq!(dir, "/run/runtime/containers//etc");
            assert_eq!(path, "/run/runtime/containers//etc/state.json");
        }
        other => panic!("unexpected call: {other:?}"),
    }
}

#[test]
fn unreadable_records_are_left_out_of_a_listing() {
    let mgr = manager();
    let entry = |name: &str, is_dir| DirEntry { name: name.to_string(), is_dir };
    let replies = vec![
        RuntimeReply::Exists(true),
        RuntimeReply::Entries(vec![entry("file", false), entry("bad", true), entry("good", true)]),
        RuntimeReply::Exists(true),
        RuntimeReply::Failed("bad json".to_string()),
        RuntimeReply::Exists(true),
        RuntimeReply::Status(status("good", ContainerState::Stopped, None)),
    ];
    match mgr.list(&replies) {
        Next::Done(found) => {
            assert_eq!(found.list.len(), 1);
            assert_eq!(found.list[0].id, "good");
        }
        other => panic!("unexpected turn: {other:?}"),
    }
}

#[test]
fn stray_answers_are_noticed() {
    let mgr = manager();
    assert!(matches!(mgr.state("c", &vec![RuntimeReply::Ended]), Next::Stray));
    let failed = vec![RuntimeReply::Exists(true), RuntimeReply::Failed("x".to_string())];
    assert!(matches!(mgr.state("c", &failed), Next::Rethrow));
}

#[test]
fn configuration_follows_the_bundle() {
    let mut spec = parse_spec(mock_config_json()).unwrap();
    let (config, rootfs) = container_config_from_spec("c", "/b", &spec).unwrap();
    assert_eq!(rootfs, "/b/rootfs");
    assert_eq!(config.rootfs.as_deref(), Some("/b/rootfs"));
    assert_eq!(config.hostname, "c");
    assert_eq!(config.command, vec!["/bin/sh"]);

    spec.hostname = Some("box".to_string());
    spec.root_path = Some("/abs".to_string());
    let (config, rootfs) = container_config_from_spec("c", "/b", &spec).unwrap();
    assert_eq!(rootfs, "/abs");
    assert_eq!(config.hostname, "box");

    let message = |spec: &OciSpec| {
        container_config_from_spec("c", "/b", spec).unwrap_err().to_string()
    };
    spec.root_path = None;
    assert_eq!(message(&spec), "Runtime error: OCI spec is missing the 'root' section");
    spec.process = Some(OciProcess { args: Some(vec![]), env: None });
    assert_eq!(message(&spec), "Runtime error: OCI process.args is empty");
    spec.process = None;
    assert_eq!(message(&spec), "Runtime error: OCI spec is missing the 'process' section");
}

#[test]
fn variables_are_split_at_the_first_equals_sign() {
    let list = ["A=1", "B=", "=x", "odd", "C=d=e"].map(|text| text.to_string());
    let pairs = parse_variables(&list.to_vec());
    let pairs: Vec<(&str, &str)> = pairs.iter().map(|(k, v)| (k.as_str(), v.as_str())).collect();
    assert_eq!(pairs, vec![("A", "1"), ("B", ""), ("", "x"), ("C", "d=e")]);
}

#[test]
fn dates_follow_the_gregorian_calendar() {
    assert_eq!(days_to_ymd(0), (1970, 1, 1));
    assert_eq!(days_to_ymd(58), (1970, 2, 28));
    assert_eq!(days_to_ymd(59), (1970, 3, 1));
    assert_eq!(days_to_ymd(11_016), (2000, 2, 29));
    assert_eq!(days_to_ymd(47_540), (2100, 2, 28));
    assert_eq!(days_to_ymd(47_541), (2100, 3, 1));
    // Day by day through eight hundred years.
    let (mut year, mut month, mut day) = (1970, 1, 1);
    for days in 0..292_194 {
        assert_eq!(days_to_ymd(days), (year, month, day));
        let leap = year % 4 == 0 && (year % 100 != 0 || year % 400 == 0);
        let length = match month {
            4 | 6 | 9 | 11 => 30,
            2 if leap => 29,
            2 => 28,
            _ => 31,
        };
        day += 1;
        if day > length {
            day = 1;
            month += 1;
        }
        if month > 12 {
            month = 1;
            year += 1;
        }
    }
}

#[test]
fn timestamps_are_in_utc() {
    assert_eq!(rfc3339(0), "1970-01-01T00:00:00Z");
    assert_eq!(rfc3339(951_868_799), "2000-02-29T23:59:59Z");
    assert_eq!(rfc3339(1_775_908_800), "2026-04-11T12:00:00Z");
    assert_eq!(rfc3339(253_402_300_800), "10000-01-01T00:00:00Z");
    assert!(now_rfc3339().as_str() > "2024-01-01T00:00:00Z");
}

#[test]
fn containers_are_shown_in_a_table() {
    let empty = StatusList { list: vec![] };
    assert_eq!(status_table(&empty), vec!["No containers found."]);
    let some = StatusList {
        list: vec![
            status("c1", ContainerState::Running, Some(42)),
            status("a-very-long-container-identifier", ContainerState::Stopped, None),
        ],
    };
    let bundle = Path::new("/bundle").display();
    let line = |id: &str, state: &str, pid: &str| format!("{id:<14} {state:<10} {pid:<8} {bundle}");
    assert_eq!(
        status_table(&some),
        vec![
            format!("{:<14} {:<10} {:<8} {}", "ID", "STATE", "PID", "BUNDLE"),
            line("c1", "running", "42"),
            line("a-very-long-container-identifier", "stopped", "-"),
        ]
    );
}

#[test]
fn transitions_are_saved_or_refused() {
    let mgr = manager();
    let mut record = status("c", ContainerState::Created, None);
    mgr.transition(&mut record, ContainerState::Running).unwrap();
    assert_eq!(record.state, ContainerState::Running);
    match mgr.save_status(&record) {
        RuntimeCall::SaveStatus { dir, path, status } => {
            assert_eq!(dir, "/run/runtime/containers/c");
            assert_eq!(path, "/run/runtime/containers/c/state.json");
            assert_eq!(status.state, ContainerState::Running);
        }
        other => panic!("unexpected call: {other:?}"),
    }
    let error = mgr.transition(&mut record, ContainerState::Created).unwrap_err();
    assert_eq!(error.to_string(), "Invalid state transition: running -> created");
    assert_eq!(record.state, ContainerState::Running);
}
