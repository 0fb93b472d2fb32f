//! Container states, status records, and the manager that keeps them.

use std::collections::HashMap;

use vstd::prelude::*;
use vstd::string::*;

use crate::container::builder::{Config, ContainerConfig};
use crate::container::host::Namespace;
use crate::dialogue::{halt_of, Halt, Progress, Stop};
use crate::error::{fails_with, ContainerError, Failure};
use crate::path::{enter, entry_path};
use crate::runtime::oci::{OciSpec, SpecModel};
use crate::text::{pair_views, views};

verus! {

/// Container lifecycle states.
///
/// The state machine follows: Creating -> Created -> Running -> Stopped.
#[derive(Clone, Copy, Debug, PartialEq, Eq, Structural)]
pub enum ContainerState {
    /// The container is being set up.
    Creating,
    /// The container has been created but its user process has not started.
    Created,
    /// The container's user process is running.
    Running,
    /// The container's user process has exited.
    Stopped,
}

/// The name of a state.
pub open spec fn state_name(state: ContainerState) -> Seq<char> {
    match state {
        ContainerState::Creating => "creating"@,
        ContainerState::Created => "created"@,
        ContainerState::Running => "running"@,
        ContainerState::Stopped => "stopped"@,
    }
}

/// The state that follows a state, if any.
pub open spec fn successor(state: ContainerState) -> Option<ContainerState> {
    match state {
        ContainerState::Creating => Some(ContainerState::Created),
        ContainerState::Created => Some(ContainerState::Running),
        ContainerState::Running => Some(ContainerState::Stopped),
        ContainerState::Stopped => None,
    }
}

impl ContainerState {
    /// The name of this state.
    pub fn to_string(&self) -> (r: String)
        ensures
            r@ == state_name(*self),
    {
        match self {
            ContainerState::Creating => "creating".to_owned(),
            ContainerState::Created => "created".to_owned(),
            ContainerState::Running => "running".to_owned(),
            ContainerState::Stopped => "stopped".to_owned(),
        }
    }

    /// Whether a container may go from this state to `next`.
    pub fn can_transition_to(&self, next: &ContainerState) -> (r: bool)
        ensures
            r == (successor(*self) == Some(*next)),
    {
        match (self, next) {
            (ContainerState::Creating, ContainerState::Created) => true,
            (ContainerState::Created, ContainerState::Running) => true,
            (ContainerState::Running, ContainerState::Stopped) => true,
            _ => false,
        }
    }
}

/// The status record of a managed container.
#[derive(Debug)]
pub struct ContainerStatus {
    /// Unique container identifier.
    pub id: String,
    /// Current lifecycle state.
    pub state: ContainerState,
    /// Process id of the container's init process, if running.
    pub pid: Option<u32>,
    /// Path of the OCI bundle directory.
    pub bundle: String,
    /// RFC 3339 timestamp of when the container was created.
    pub created: String,
    /// Annotations from the OCI configuration.
    pub annotations: HashMap<String, String>,
}

/// What a [`ContainerStatus`] says, with texts as characters.
pub struct Status {
    pub id: Seq<char>,
    pub state: ContainerState,
    pub pid: Option<u32>,
    pub bundle: Seq<char>,
    pub created: Seq<char>,
    pub annotations: Map<String, String>,
}

impl View for ContainerStatus {
    type V = Status;

    open spec fn view(&self) -> Status {
        Status {
            id: self.id@,
            state: self.state,
            pid: self.pid,
            bundle: self.bundle@,
            created: self.created@,
            annotations: self.annotations@,
        }
    }
}

impl Clone for ContainerStatus {
    fn clone(&self) -> (r: ContainerStatus)
        ensures
            r@ == self@,
    {
        ContainerStatus {
            id: self.id.clone(),
            state: self.state,
            pid: self.pid,
            bundle: self.bundle.clone(),
            created: self.created.clone(),
            annotations: self.annotations.clone(),
        }
    }
}

/// A question of a lifecycle operation to the host.
#[derive(Debug)]
pub enum RuntimeCall {
    /// Does this path exist?
    Exists(String),
    /// Read the status record in this file.
    LoadStatus(String),
    /// Create the directory with its parents, and write the status record to the
    /// file.
    SaveStatus { dir: String, path: String, status: ContainerStatus },
    /// Read the OCI configuration in this file.
    LoadSpec(String),
    /// The current time as an RFC 3339 timestamp.
    ReadClock,
    /// The id of the runtime's own process.
    OwnPid,
    /// The status record as a line of JSON.
    EncodeStatus(ContainerStatus),
    /// Start a hook and write the input to it.
    SpawnHook { path: String, args: Vec<String>, env: Vec<(String, String)>, input: String },
    /// Wait for the hook to exit.
    WaitHook,
    /// Has the hook exited?
    PollHook,
    /// Kill the hook.
    KillHook,
    /// Sleep for this many milliseconds.
    Sleep(u64),
    /// Start the container process in new namespaces of these kinds.
    SpawnContainer { config: ContainerConfig, rootfs: String, namespaces: [Namespace; 5] },
    /// Send a signal to a process.
    SendSignal { pid: i32, signal: i32 },
    /// Has the process exited?
    PollProcess(i32),
    /// Kill a process.
    ForceKill(i32),
    /// Remove a directory with everything in it.
    RemoveDirAll(String),
    /// The entries of a directory.
    ListDir(String),
}

/// What a [`RuntimeCall`] asks, with texts as characters.
pub enum RuntimeAsk {
    Exists(Seq<char>),
    LoadStatus(Seq<char>),
    SaveStatus { dir: Seq<char>, path: Seq<char>, status: Status },
    LoadSpec(Seq<char>),
    ReadClock,
    OwnPid,
    EncodeStatus(Status),
    SpawnHook {
        path: Seq<char>,
        args: Seq<Seq<char>>,
        env: Seq<(Seq<char>, Seq<char>)>,
        input: Seq<char>,
    },
    WaitHook,
    PollHook,
    KillHook,
    Sleep(u64),
    SpawnContainer { config: Config, rootfs: Seq<char>, namespaces: Seq<Namespace> },
    SendSignal { pid: i32, signal: i32 },
    PollProcess(i32),
    ForceKill(i32),
    RemoveDirAll(Seq<char>),
    ListDir(Seq<char>),
}

impl View for RuntimeCall {
    type V = RuntimeAsk;

    open spec fn view(&self) -> RuntimeAsk {
        match *self {
            RuntimeCall::Exists(path) => RuntimeAsk::Exists(path@),
            RuntimeCall::LoadStatus(path) => RuntimeAsk::LoadStatus(path@),
            RuntimeCall::SaveStatus { dir, path, status } => RuntimeAsk::SaveStatus {
                dir: dir@,
                path: path@,
                status: status@,
            },
            RuntimeCall::LoadSpec(path) => RuntimeAsk::LoadSpec(path@),
            RuntimeCall::ReadClock => RuntimeAsk::ReadClock,
            RuntimeCall::OwnPid => RuntimeAsk::OwnPid,
            RuntimeCall::EncodeStatus(status) => RuntimeAsk::EncodeStatus(status@),
            RuntimeCall::SpawnHook { path, args, env, input } => RuntimeAsk::SpawnHook {
                path: path@,
                args: views(args@),
                env: pair_views(env@),
                input: input@,
            },
            RuntimeCall::WaitHook => RuntimeAsk::WaitHook,
            RuntimeCall::PollHook => RuntimeAsk::PollHook,
            RuntimeCall::KillHook => RuntimeAsk::KillHook,
            RuntimeCall::Sleep(millis) => RuntimeAsk::Sleep(millis),
            RuntimeCall::SpawnContainer { config, rootfs, namespaces } => RuntimeAsk::SpawnContainer {
                config: config@,
                rootfs: rootfs@,
                namespaces: namespaces@,
            },
            RuntimeCall::SendSignal { pid, signal } => RuntimeAsk::SendSignal { pid, signal },
            RuntimeCall::PollProcess(pid) => RuntimeAsk::PollProcess(pid),
            RuntimeCall::ForceKill(pid) => RuntimeAsk::ForceKill(pid),
            RuntimeCall::RemoveDirAll(path) => RuntimeAsk::RemoveDirAll(path@),
            RuntimeCall::ListDir(path) => RuntimeAsk::ListDir(path@),
        }
    }
}

/// An entry of a directory.
#[derive(Debug)]
pub struct DirEntry {
    pub name: String,
    pub is_dir: bool,
}

/// What a [`DirEntry`] says, with its name as characters.
pub struct Entry {
    pub name: Seq<char>,
    pub is_dir: bool,
}

impl View for DirEntry {
    type V = Entry;

    open spec fn view(&self) -> Entry {
        Entry { name: self.name@, is_dir: self.is_dir }
    }
}

/// What the entries of a directory say.
pub open spec fn entries(list: Seq<DirEntry>) -> Seq<Entry> {
    list.map_values(|entry: DirEntry| entry@)
}

/// The host's answer to a [`RuntimeCall`].
#[derive(Debug)]
pub enum RuntimeReply {
    /// It is done.
    Done,
    /// It failed with this text.
    Failed(String),
    /// Whether the path exists.
    Exists(bool),
    /// The status record.
    Status(ContainerStatus),
    /// The OCI configuration.
    Spec(OciSpec),
    /// The text that was asked for.
    Text(String),
    /// The process id.
    Pid(u32),
    /// The hook has exited; this says how.
    Exited { success: bool, text: String },
    /// The hook or process is running; so much time has passed since it was
    /// started or signalled.
    Running { secs: u64, nanos: u32 },
    /// The process has ended.
    Ended,
    /// There is no such child process.
    Gone,
    /// The entries of the directory.
    Entries(Vec<DirEntry>),
}

/// What a [`RuntimeReply`] says, with texts as characters.
pub enum RuntimeAnswer {
    Done,
    Failed(Seq<char>),
    Exists(bool),
    Status(Status),
    Spec(SpecModel),
    Text(Seq<char>),
    Pid(u32),
    Exited { success: bool, text: Seq<char> },
    Running { secs: u64, nanos: u32 },
    Ended,
    Gone,
    Entries(Seq<Entry>),
}

impl View for RuntimeReply {
    type V = RuntimeAnswer;

    open spec fn view(&self) -> RuntimeAnswer {
        match *self {
            RuntimeReply::Done => RuntimeAnswer::Done,
            RuntimeReply::Failed(text) => RuntimeAnswer::Failed(text@),
            RuntimeReply::Exists(exists) => RuntimeAnswer::Exists(exists),
            RuntimeReply::Status(status) => RuntimeAnswer::Status(status@),
            RuntimeReply::Spec(spec) => RuntimeAnswer::Spec(spec@),
            RuntimeReply::Text(text) => RuntimeAnswer::Text(text@),
            RuntimeReply::Pid(pid) => RuntimeAnswer::Pid(pid),
            RuntimeReply::Exited { success, text } => RuntimeAnswer::Exited {
                success,
                text: text@,
            },
            RuntimeReply::Running { secs, nanos } => RuntimeAnswer::Running { secs, nanos },
            RuntimeReply::Ended => RuntimeAnswer::Ended,
            RuntimeReply::Gone => RuntimeAnswer::Gone,
            RuntimeReply::Entries(list) => RuntimeAnswer::Entries(entries(list@)),
        }
    }
}

/// How far a part of a lifecycle operation has come.
pub type RuntimeProgress = Progress<RuntimeAsk, RuntimeAnswer>;

/// Whether an answer to a question without a result ends the operation.
pub open spec fn must_work(answer: RuntimeAnswer) -> Option<Halt> {
    match answer {
        RuntimeAnswer::Done => None,
        RuntimeAnswer::Failed(_) => Some(Halt::Rethrow),
        _ => Some(Halt::Stray),
    }
}

/// Whether an answer to a question without a result ends the operation.
pub fn check_done(reply: &RuntimeReply) -> (r: Option<Stop>)
    ensures
        halt_of(r) == must_work(reply@),
{
    match reply {
        RuntimeReply::Done => None,
        RuntimeReply::Failed(_) => Some(Stop::Rethrow),
        _ => Some(Stop::Stray),
    }
}

/// Manages container lifecycles, with the status records kept in
/// `{root}/containers/{id}/state.json`.
#[derive(Debug)]
pub struct RuntimeManager {
    pub root: String,
}

/// The directory that holds the directories of all containers.
pub open spec fn containers_path(root: Seq<char>) -> Seq<char> {
    entry_path(root, "containers"@)
}

/// The directory of a container.
pub open spec fn container_path(root: Seq<char>, id: Seq<char>) -> Seq<char> {
    entry_path(containers_path(root), id)
}

/// The file with the status record of a container.
pub open spec fn record_path(root: Seq<char>, id: Seq<char>) -> Seq<char> {
    entry_path(container_path(root, id), "state.json"@)
}

/// The question that saves a status record.
pub open spec fn save_ask(root: Seq<char>, status: Status) -> RuntimeAsk {
    RuntimeAsk::SaveStatus {
        dir: container_path(root, status.id),
        path: record_path(root, status.id),
        status,
    }
}

/// What is wrong with a transition between states, if anything.
pub open spec fn transition_fault(from: ContainerState, to: ContainerState) -> Option<Failure> {
    if successor(from) == Some(to) {
        None
    } else {
        Some(Failure::InvalidStateTransition { from: state_name(from), to: state_name(to) })
    }
}

impl RuntimeManager {
    /// Create a new manager with the given root directory (e.g. `/run/crate`).
    pub fn new(root: String) -> (r: RuntimeManager)
        ensures
            r.root == root,
    {
        RuntimeManager { root }
    }

    /// The directory that holds the directories of all containers.
    pub fn containers_dir(&self) -> (r: String)
        ensures
            r@ == containers_path(self.root@),
    {
        enter(self.root.as_str(), "containers")
    }

    /// The directory of a container.
    pub fn container_dir(&self, id: &str) -> (r: String)
        ensures
            r@ == container_path(self.root@, id@),
    {
        enter(self.containers_dir().as_str(), id)
    }

    /// The file with the status record of a container.
    pub fn state_path(&self, id: &str) -> (r: String)
        ensures
            r@ == record_path(self.root@, id@),
    {
        enter(self.container_dir(id).as_str(), "state.json")
    }

    /// The question that saves a status record.
    pub fn save_status(&self, status: &ContainerStatus) -> (r: RuntimeCall)
        ensures
            r@ == save_ask(self.root@, status@),
    {
        RuntimeCall::SaveStatus {
            dir: self.container_dir(status.id.as_str()),
            path: self.state_path(status.id.as_str()),
            status: status.clone(),
        }
    }

    /// Move a container to a new state, if it may go there. The record has to be
    /// saved afterwards.
    pub fn transition(&self, status: &mut ContainerStatus, to: ContainerState) -> (r: Result<
        (),
        ContainerError,
    >)
        ensures
            fails_with(r, transition_fault(old(status)@.state, to)),
            final(status)@ == (if r is Ok {
                Status { state: to, ..old(status)@ }
            } else {
                old(status)@
            }),
    {
        if !status.state.can_transition_to(&to) {
            return Err(
                ContainerError::InvalidStateTransition {
                    from: status.state.to_string(),
                    to: to.to_string(),
                },
            );
        }
        status.state = to;
        Ok(())
    }
}

} // verus!
