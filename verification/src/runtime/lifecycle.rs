//! The lifecycle operations.
//!
//! Each operation is a dialogue: a function from the host's answers so far to the
//! next turn.

use std::collections::HashMap;

use vstd::prelude::*;
use vstd::string::*;

use crate::container::host::CONTAINER_NAMESPACES;
use crate::dialogue::{end_with, halted, heard, progress_of, Halt, Next, Part, Stop, Turn};
use crate::error::{labelled, ContainerError, Failure};
use crate::host::text_of;
use crate::runtime::hooks::{hooks_part, run_progress};
use crate::runtime::oci::{
    config_of, container_config_from_spec, hooks_of, load_spec_part, spec_fault, spec_progress,
    spec_rootfs, Hook, HookModel, OciSpec, SpecModel,
};
use crate::runtime::process::{
    linux_stop_process, signal_fault, signal_verdict, stop_progress, SIGTERM, STOP_SECS, Span,
};
use crate::runtime::status::{
    check_done, container_path, containers_path, entries, must_work, record_path, save_ask,
    state_name, transition_fault, ContainerState, ContainerStatus, DirEntry, Entry, RuntimeAnswer,
    RuntimeAsk, RuntimeCall, RuntimeManager, RuntimeProgress, RuntimeReply, Status,
};
use crate::util::is_linux;

verus! {

/// How far the reading of a container's status record has come. The answer to the
/// second question is the record.
pub open spec fn status_progress(
    root: Seq<char>,
    id: Seq<char>,
    answers: Seq<RuntimeAnswer>,
) -> RuntimeProgress {
    if answers.len() == 0 {
        RuntimeProgress::Ask(RuntimeAsk::Exists(record_path(root, id)))
    } else {
        match answers[0] {
            RuntimeAnswer::Exists(false) => RuntimeProgress::Halt(Halt::Fail(Failure::NotFound(id))),
            RuntimeAnswer::Exists(true) => if answers.len() == 1 {
                RuntimeProgress::Ask(RuntimeAsk::LoadStatus(record_path(root, id)))
            } else {
                match answers[1] {
                    RuntimeAnswer::Status(_) => RuntimeProgress::Passed(answers.skip(2)),
                    RuntimeAnswer::Failed(_) => RuntimeProgress::Halt(Halt::Rethrow),
                    _ => RuntimeProgress::Halt(Halt::Stray),
                }
            },
            _ => RuntimeProgress::Halt(Halt::Stray),
        }
    }
}

/// The turn of an operation that has nothing left to do once a part of it has
/// passed, and whose result does not depend on how the part failed.
pub open spec fn ignoring_failure(progress: RuntimeProgress) -> Turn<RuntimeAsk, ()> {
    match progress {
        RuntimeProgress::Ask(ask) => Turn::Ask(ask),
        RuntimeProgress::Halt(Halt::Stray) => Turn::Stray,
        _ => Turn::Done(()),
    }
}

/// The turn of a save that is the last step of an operation.
pub open spec fn last_save<T>(
    root: Seq<char>,
    status: Status,
    result: T,
    answers: Seq<RuntimeAnswer>,
) -> Turn<RuntimeAsk, T> {
    if answers.len() == 0 {
        Turn::Ask(save_ask(root, status))
    } else {
        match must_work(answers[0]) {
            Some(halt) => halted(halt),
            None => Turn::Done(result),
        }
    }
}

/// The prestart hooks of a configuration.
pub open spec fn prestart_of(spec: SpecModel) -> Option<Seq<HookModel>> {
    match spec.hooks {
        Some(hooks) => hooks.prestart,
        None => None,
    }
}

/// The poststart hooks of a configuration.
pub open spec fn poststart_of(spec: SpecModel) -> Option<Seq<HookModel>> {
    match spec.hooks {
        Some(hooks) => hooks.poststart,
        None => None,
    }
}

/// The poststop hooks of a configuration.
pub open spec fn poststop_of(spec: SpecModel) -> Option<Seq<HookModel>> {
    match spec.hooks {
        Some(hooks) => hooks.poststop,
        None => None,
    }
}

/// The status record of a container that is being created.
pub open spec fn new_status(
    id: Seq<char>,
    bundle: Seq<char>,
    spec: SpecModel,
    now: Seq<char>,
) -> Status {
    Status {
        id,
        state: ContainerState::Creating,
        pid: None,
        bundle,
        created: now,
        annotations: match spec.annotations {
            Some(annotations) => annotations,
            None => Map::empty(),
        },
    }
}

/// The last part of a creation: the container goes to the state `Created`.
pub open spec fn finish_creation(
    root: Seq<char>,
    status: Status,
    answers: Seq<RuntimeAnswer>,
) -> Turn<RuntimeAsk, Status> {
    let created = Status { state: ContainerState::Created, ..status };
    last_save(root, created, created, answers)
}

/// A creation once the configuration is known.
pub open spec fn create_from_spec(
    root: Seq<char>,
    id: Seq<char>,
    bundle: Seq<char>,
    spec: SpecModel,
    answers: Seq<RuntimeAnswer>,
) -> Turn<RuntimeAsk, Status> {
    if answers.len() == 0 {
        Turn::Ask(RuntimeAsk::ReadClock)
    } else if answers[0] is Text {
        let status = new_status(id, bundle, spec, answers[0]->Text_0);
        if answers.len() == 1 {
            Turn::Ask(save_ask(root, status))
        } else {
            match must_work(answers[1]) {
                Some(halt) => halted(halt),
                None => match prestart_of(spec) {
                    None => finish_creation(root, status, answers.skip(2)),
                    Some(hooks) => match run_progress(hooks, status, answers.skip(2)) {
                        RuntimeProgress::Ask(ask) => Turn::Ask(ask),
                        RuntimeProgress::Halt(halt) => halted(halt),
                        RuntimeProgress::Passed(rest) => finish_creation(root, status, rest),
                    },
                },
            }
        }
    } else {
        Turn::Stray
    }
}

/// The turn of a creation after the answers so far.
pub open spec fn create_turn(
    root: Seq<char>,
    id: Seq<char>,
    bundle: Seq<char>,
    answers: Seq<RuntimeAnswer>,
) -> Turn<RuntimeAsk, Status> {
    if answers.len() == 0 {
        Turn::Ask(RuntimeAsk::Exists(record_path(root, id)))
    } else {
        match answers[0] {
            RuntimeAnswer::Exists(true) => Turn::Fail(
                Failure::Runtime("container '"@ + id + "' already exists"@),
            ),
            RuntimeAnswer::Exists(false) => match spec_progress(bundle, answers.skip(1)) {
                RuntimeProgress::Ask(ask) => Turn::Ask(ask),
                RuntimeProgress::Halt(halt) => halted(halt),
                RuntimeProgress::Passed(rest) => create_from_spec(
                    root,
                    id,
                    bundle,
                    answers[2]->Spec_0,
                    rest,
                ),
            },
            _ => Turn::Stray,
        }
    }
}

/// The status record of a container whose process was started.
pub open spec fn started(status: Status, pid: u32) -> Status {
    Status { state: ContainerState::Running, pid: Some(pid), ..status }
}

/// A start once the process runs: the record goes to `Running` with the process id.
pub open spec fn record_start(
    root: Seq<char>,
    status: Status,
    spec: SpecModel,
    pid: u32,
    answers: Seq<RuntimeAnswer>,
) -> Turn<RuntimeAsk, ()> {
    let running = started(status, pid);
    if answers.len() == 0 {
        Turn::Ask(save_ask(root, running))
    } else {
        match must_work(answers[0]) {
            Some(halt) => halted(halt),
            None => match poststart_of(spec) {
                None => Turn::Done(()),
                Some(hooks) => ignoring_failure(run_progress(hooks, running, answers.skip(1))),
            },
        }
    }
}

/// A start once the record and the configuration are known. The record is left alone
/// until the process runs.
pub open spec fn start_from_spec(
    root: Seq<char>,
    id: Seq<char>,
    status: Status,
    spec: SpecModel,
    os: Seq<char>,
    answers: Seq<RuntimeAnswer>,
) -> Turn<RuntimeAsk, ()> {
    if let Some(fault) = transition_fault(status.state, ContainerState::Running) {
        Turn::Fail(fault)
    } else if os == "linux"@ && spec_fault(spec) is Some {
        Turn::Fail(spec_fault(spec)->Some_0)
    } else if answers.len() == 0 {
        Turn::Ask(
            if os == "linux"@ {
                RuntimeAsk::SpawnContainer {
                    config: config_of(id, status.bundle, spec),
                    rootfs: spec_rootfs(status.bundle, spec),
                    namespaces: CONTAINER_NAMESPACES@,
                }
            } else {
                RuntimeAsk::OwnPid
            },
        )
    } else {
        match answers[0] {
            RuntimeAnswer::Pid(pid) => record_start(root, status, spec, pid, answers.skip(1)),
            RuntimeAnswer::Failed(_) if os == "linux"@ => Turn::Rethrow,
            _ => Turn::Stray,
        }
    }
}

/// The turn of a start after the answers so far.
pub open spec fn start_turn(
    root: Seq<char>,
    id: Seq<char>,
    os: Seq<char>,
    answers: Seq<RuntimeAnswer>,
) -> Turn<RuntimeAsk, ()> {
    match status_progress(root, id, answers) {
        RuntimeProgress::Ask(ask) => Turn::Ask(ask),
        RuntimeProgress::Halt(halt) => halted(halt),
        RuntimeProgress::Passed(rest) => {
            let status = answers[1]->Status_0;
            match spec_progress(status.bundle, rest) {
                RuntimeProgress::Ask(ask) => Turn::Ask(ask),
                RuntimeProgress::Halt(halt) => halted(halt),
                RuntimeProgress::Passed(left) => start_from_spec(
                    root,
                    id,
                    status,
                    rest[1]->Spec_0,
                    os,
                    left,
                ),
            }
        },
    }
}

/// The last part of a stop: the poststop hooks of the configuration.
pub open spec fn run_poststop(status: Status, answers: Seq<RuntimeAnswer>) -> Turn<
    RuntimeAsk,
    (),
> {
    match spec_progress(status.bundle, answers) {
        RuntimeProgress::Ask(ask) => Turn::Ask(ask),
        RuntimeProgress::Halt(halt) => halted(halt),
        RuntimeProgress::Passed(rest) => match poststop_of(answers[1]->Spec_0) {
            None => Turn::Done(()),
            Some(hooks) => ignoring_failure(run_progress(hooks, status, rest)),
        },
    }
}

/// A stop once the process is gone: the record goes to `Stopped`, first with the
/// process id and then without it.
pub open spec fn record_stop(
    root: Seq<char>,
    status: Status,
    answers: Seq<RuntimeAnswer>,
) -> Turn<RuntimeAsk, ()> {
    let stopped = Status { state: ContainerState::Stopped, ..status };
    let cleared = Status { pid: None, ..stopped };
    if let Some(fault) = transition_fault(status.state, ContainerState::Stopped) {
        Turn::Fail(fault)
    } else if answers.len() == 0 {
        Turn::Ask(save_ask(root, stopped))
    } else if let Some(halt) = must_work(answers[0]) {
        halted(halt)
    } else if answers.len() == 1 {
        Turn::Ask(save_ask(root, cleared))
    } else if let Some(halt) = must_work(answers[1]) {
        halted(halt)
    } else {
        run_poststop(cleared, answers.skip(2))
    }
}

/// The turn of a stop after the answers so far. `fault` says what is wrong with the
/// signal, if anything.
pub open spec fn stop_turn(
    root: Seq<char>,
    id: Seq<char>,
    signal: i32,
    fault: Option<Seq<char>>,
    limit: Span,
    os: Seq<char>,
    answers: Seq<RuntimeAnswer>,
) -> Turn<RuntimeAsk, ()> {
    match status_progress(root, id, answers) {
        RuntimeProgress::Ask(ask) => Turn::Ask(ask),
        RuntimeProgress::Halt(halt) => halted(halt),
        RuntimeProgress::Passed(rest) => {
            let status = answers[1]->Status_0;
            if os == "linux"@ && status.pid is Some {
                match stop_progress(status.pid->Some_0, signal, fault, limit, rest) {
                    RuntimeProgress::Ask(ask) => Turn::Ask(ask),
                    RuntimeProgress::Halt(halt) => halted(halt),
                    RuntimeProgress::Passed(left) => record_stop(root, status, left),
                }
            } else {
                record_stop(root, status, rest)
            }
        },
    }
}

/// The signal that a stop sends: SIGTERM unless another one is chosen.
pub open spec fn chosen_signal(signal: Option<i32>) -> i32 {
    match signal {
        Some(signal) => signal,
        None => SIGTERM,
    }
}

/// The time that a stop gives the process: 10 seconds unless another one is chosen.
pub open spec fn chosen_limit(timeout: Option<Span>) -> Span {
    match timeout {
        Some(timeout) => timeout,
        None => Span { secs: STOP_SECS, nanos: 0 },
    }
}

/// The turn of a deletion after the answers so far.
pub open spec fn delete_turn(
    root: Seq<char>,
    id: Seq<char>,
    answers: Seq<RuntimeAnswer>,
) -> Turn<RuntimeAsk, ()> {
    let dir = container_path(root, id);
    match status_progress(root, id, answers) {
        RuntimeProgress::Ask(ask) => Turn::Ask(ask),
        RuntimeProgress::Halt(halt) => halted(halt),
        RuntimeProgress::Passed(rest) => {
            let state = answers[1]->Status_0.state;
            if state != ContainerState::Stopped {
                Turn::Fail(
                    Failure::Runtime(
                        "cannot delete container '"@ + id + "' in state '"@ + state_name(state)
                            + "'; must be stopped"@,
                    ),
                )
            } else if rest.len() == 0 {
                Turn::Ask(RuntimeAsk::Exists(dir))
            } else {
                match rest[0] {
                    RuntimeAnswer::Exists(false) => Turn::Done(()),
                    RuntimeAnswer::Exists(true) => if rest.len() == 1 {
                        Turn::Ask(RuntimeAsk::RemoveDirAll(dir))
                    } else {
                        match must_work(rest[1]) {
                            Some(halt) => halted(halt),
                            None => Turn::Done(()),
                        }
                    },
                    _ => Turn::Stray,
                }
            }
        },
    }
}

/// The turn of a query after the answers so far.
pub open spec fn state_turn(
    root: Seq<char>,
    id: Seq<char>,
    answers: Seq<RuntimeAnswer>,
) -> Turn<RuntimeAsk, Status> {
    match status_progress(root, id, answers) {
        RuntimeProgress::Ask(ask) => Turn::Ask(ask),
        RuntimeProgress::Halt(halt) => halted(halt),
        RuntimeProgress::Passed(_) => Turn::Done(answers[1]->Status_0),
    }
}

/// The turn of a listing that has the entries `left` to go through and has found
/// the records `found`. Entries that are no directories, and containers whose
/// record is missing or cannot be read, are passed over.
pub open spec fn list_rest(
    root: Seq<char>,
    left: Seq<Entry>,
    found: Seq<Status>,
    answers: Seq<RuntimeAnswer>,
) -> Turn<RuntimeAsk, Seq<Status>>
    decreases left.len(),
{
    if left.len() == 0 {
        Turn::Done(found)
    } else if !left[0].is_dir {
        list_rest(root, left.skip(1), found, answers)
    } else if answers.len() == 0 {
        Turn::Ask(RuntimeAsk::Exists(record_path(root, left[0].name)))
    } else {
        match answers[0] {
            RuntimeAnswer::Exists(false) => list_rest(
                root,
                left.skip(1),
                found,
                answers.skip(1),
            ),
            RuntimeAnswer::Exists(true) => if answers.len() == 1 {
                Turn::Ask(RuntimeAsk::LoadStatus(record_path(root, left[0].name)))
            } else {
                match answers[1] {
                    RuntimeAnswer::Status(status) => list_rest(
                        root,
                        left.skip(1),
                        found.push(status),
                        answers.skip(2),
                    ),
                    RuntimeAnswer::Failed(_) => list_rest(
                        root,
                        left.skip(1),
                        found,
                        answers.skip(2),
                    ),
                    _ => Turn::Stray,
                }
            },
            _ => Turn::Stray,
        }
    }
}

/// The turn of a listing after the answers so far.
pub open spec fn list_turn(root: Seq<char>, answers: Seq<RuntimeAnswer>) -> Turn<
    RuntimeAsk,
    Seq<Status>,
> {
    if answers.len() == 0 {
        Turn::Ask(RuntimeAsk::Exists(containers_path(root)))
    } else {
        match answers[0] {
            RuntimeAnswer::Exists(false) => Turn::Done(Seq::empty()),
            RuntimeAnswer::Exists(true) => if answers.len() == 1 {
                Turn::Ask(RuntimeAsk::ListDir(containers_path(root)))
            } else {
                match answers[1] {
                    RuntimeAnswer::Entries(list) => list_rest(
                        root,
                        list,
                        Seq::empty(),
                        answers.skip(2),
                    ),
                    RuntimeAnswer::Failed(_) => Turn::Rethrow,
                    _ => Turn::Stray,
                }
            },
            _ => Turn::Stray,
        }
    }
}

/// A list of status records.
#[derive(Debug)]
pub struct StatusList {
    pub list: Vec<ContainerStatus>,
}

impl View for StatusList {
    type V = Seq<Status>;

    open spec fn view(&self) -> Seq<Status> {
        self.list@.map_values(|status: ContainerStatus| status@)
    }
}

impl RuntimeManager {
    /// How far the reading of a container's status record has come, with its answers
    /// starting at the first.
    fn load_status(&self, id: &str, replies: &Vec<RuntimeReply>) -> (r: Part<RuntimeCall>)
        ensures
            progress_of(r, replies@) == status_progress(self.root@, id@, heard(replies@)),
            r is Passed ==> {
                &&& r->Passed_0 == 2
                &&& replies@.len() >= 2
                &&& replies@[1] is Status
            },
    {
        let ghost answers = heard(replies@);
        let path = self.state_path(id);
        let len = replies.len();
        if len == 0 {
            return Part::Ask(RuntimeCall::Exists(path));
        }
        assert(answers[0] == replies@[0]@);
        match &replies[0] {
            RuntimeReply::Exists(true) => {},
            RuntimeReply::Exists(false) => {
                return Part::Stop(Stop::Fail(ContainerError::NotFound(id.to_owned())));
            },
            _ => return Part::Stop(Stop::Stray),
        }
        if len == 1 {
            return Part::Ask(RuntimeCall::LoadStatus(path));
        }
        assert(answers[1] == replies@[1]@);
        match &replies[1] {
            RuntimeReply::Status(_) => Part::Passed(2),
            RuntimeReply::Failed(_) => Part::Stop(Stop::Rethrow),
            _ => Part::Stop(Stop::Stray),
        }
    }

    /// The dialogue that queries the status of a container. `replies` holds the
    /// answers so far.
    pub fn state(&self, id: &str, replies: &Vec<RuntimeReply>) -> (r: Next<
        RuntimeCall,
        ContainerStatus,
    >)
        ensures
            r@ == state_turn(self.root@, id@, heard(replies@)),
    {
        match self.load_status(id, replies) {
            Part::Ask(call) => Next::Ask(call),
            Part::Stop(stop) => end_with(stop),
            Part::Passed(_) => match &replies[1] {
                RuntimeReply::Status(status) => Next::Done(status.clone()),
                _ => Next::Stray,
            },
        }
    }

    /// The dialogue that deletes a stopped container: its directory is removed.
    /// `replies` holds the answers so far.
    pub fn delete(&self, id: &str, replies: &Vec<RuntimeReply>) -> (r: Next<RuntimeCall, ()>)
        ensures
            r@ == delete_turn(self.root@, id@, heard(replies@)),
    {
        let ghost answers = heard(replies@);
        match self.load_status(id, replies) {
            Part::Ask(call) => return Next::Ask(call),
            Part::Stop(stop) => return end_with(stop),
            Part::Passed(_) => {},
        }
        let ghost rest = answers.skip(2);
        let status = match &replies[1] {
            RuntimeReply::Status(status) => status,
            _ => return Next::Stray,
        };
        if status.state != ContainerState::Stopped {
            let mut text = labelled("cannot delete container '", id);
            text.append("' in state '");
            text.append(status.state.to_string().as_str());
            text.append("'; must be stopped");
            return Next::Fail(ContainerError::Runtime(text));
        }
        let dir = self.container_dir(id);
        let len = replies.len();
        if len == 2 {
            return Next::Ask(RuntimeCall::Exists(dir));
        }
        assert(rest[0] == replies@[2]@);
        match &replies[2] {
            RuntimeReply::Exists(true) => {},
            RuntimeReply::Exists(false) => return Next::Done(()),
            _ => return Next::Stray,
        }
        if len == 3 {
            return Next::Ask(RuntimeCall::RemoveDirAll(dir));
        }
        assert(rest[1] == replies@[3]@);
        match check_done(&replies[3]) {
            Some(stop) => end_with(stop),
            None => Next::Done(()),
        }
    }

    /// The question that saves a record, or the end of the operation, or `None` when
    /// the record was saved: the answer is at `at`.
    fn save_at(&self, status: &ContainerStatus, replies: &Vec<RuntimeReply>, at: usize) -> (r:
        Option<Part<RuntimeCall>>)
        requires
            at <= replies@.len(),
        ensures
            match r {
                Some(part) => !(part is Passed),
                None => true,
            },
            r matches Some(Part::Ask(call)) ==> at == replies@.len() && call@ == save_ask(
                self.root@,
                status@,
            ),
            r matches Some(Part::Stop(stop)) ==> at < replies@.len() && must_work(
                replies@[at as int]@,
            ) == Some(stop@),
            r is None ==> at < replies@.len() && must_work(replies@[at as int]@) is None,
    {
        if at == replies.len() {
            return Some(Part::Ask(self.save_status(status)));
        }
        match check_done(&replies[at]) {
            Some(stop) => Some(Part::Stop(stop)),
            None => None,
        }
    }

    fn finish_create(&self, status: ContainerStatus, replies: &Vec<RuntimeReply>, at: usize) -> (r:
        Next<RuntimeCall, ContainerStatus>)
        requires
            at <= replies@.len(),
            status@.state == ContainerState::Creating,
        ensures
            r@ == finish_creation(self.root@, status@, heard(replies@).skip(at as int)),
    {
        let ghost answers = heard(replies@).skip(at as int);
        let mut created = status;
        match self.transition(&mut created, ContainerState::Created) {
            Err(error) => return Next::Fail(error),
            Ok(()) => {},
        }
        assert(at < replies@.len() ==> answers[0] == replies@[at as int]@);
        match self.save_at(&created, replies, at) {
            Some(Part::Ask(call)) => Next::Ask(call),
            Some(Part::Stop(stop)) => end_with(stop),
            Some(Part::Passed(_)) => Next::Stray,
            None => Next::Done(created),
        }
    }

    fn create_with(
        &self,
        id: &str,
        bundle: &str,
        spec: &OciSpec,
        replies: &Vec<RuntimeReply>,
        at: usize,
    ) -> (r: Next<RuntimeCall, ContainerStatus>)
        requires
            at <= replies@.len(),
        ensures
            r@ == create_from_spec(
                self.root@,
                id@,
                bundle@,
                spec@,
                heard(replies@).skip(at as int),
            ),
    {
        let ghost answers = heard(replies@).skip(at as int);
        let len = replies.len();
        if at == len {
            return Next::Ask(RuntimeCall::ReadClock);
        }
        assert(answers[0] == replies@[at as int]@);
        let created = match &replies[at] {
            RuntimeReply::Text(now) => now.clone(),
            _ => return Next::Stray,
        };
        let annotations = match &spec.annotations {
            Some(annotations) => annotations.clone(),
            None => HashMap::new(),
        };
        let status = ContainerStatus {
            id: id.to_owned(),
            state: ContainerState::Creating,
            pid: None,
            bundle: bundle.to_owned(),
            created,
            annotations,
        };
        assert(status@ == new_status(id@, bundle@, spec@, answers[0]->Text_0));
        assert(at + 1 < len ==> answers[1] == replies@[at + 1]@);
        match self.save_at(&status, replies, at + 1) {
            Some(Part::Ask(call)) => return Next::Ask(call),
            Some(Part::Stop(stop)) => return end_with(stop),
            Some(Part::Passed(_)) => return Next::Stray,
            None => {},
        }
        assert(answers.skip(2) =~= heard(replies@).skip(at + 2));
        let hooks = match &spec.hooks {
            Some(hooks) => &hooks.prestart,
            None => &None,
        };
        match hooks {
            None => self.finish_create(status, replies, at + 2),
            Some(list) => match hooks_part(list, &status, replies, at + 2) {
                Part::Ask(call) => Next::Ask(call),
                Part::Stop(stop) => end_with(stop),
                Part::Passed(left) => self.finish_create(status, replies, left),
            },
        }
    }

    /// The dialogue that creates a new container from an OCI bundle. `replies` holds
    /// the answers so far.
    ///
    /// The bundle's configuration is read, a record with the state `Creating` is
    /// saved, the prestart hooks are run, and the record goes to `Created`.
    pub fn create(&self, id: &str, bundle: &str, replies: &Vec<RuntimeReply>) -> (r: Next<
        RuntimeCall,
        ContainerStatus,
    >)
        ensures
            r@ == create_turn(self.root@, id@, bundle@, heard(replies@)),
    {
        let ghost answers = heard(replies@);
        if replies.len() == 0 {
            return Next::Ask(RuntimeCall::Exists(self.state_path(id)));
        }
        assert(answers[0] == replies@[0]@);
        match &replies[0] {
            RuntimeReply::Exists(false) => {},
            RuntimeReply::Exists(true) => {
                let mut text = labelled("container '", id);
                text.append("' already exists");
                return Next::Fail(ContainerError::Runtime(text));
            },
            _ => return Next::Stray,
        }
        match load_spec_part(bundle, replies, 1) {
            Part::Ask(call) => Next::Ask(call),
            Part::Stop(stop) => end_with(stop),
            Part::Passed(left) => {
                assert(answers[2] == replies@[2]@);
                match &replies[2] {
                    RuntimeReply::Spec(spec) => self.create_with(id, bundle, spec, replies, left),
                    _ => Next::Stray,
                }
            },
        }
    }

    /// The turn of an operation whose last part runs hooks that may fail.
    fn run_last_hooks(
        &self,
        hooks: &Option<Vec<Hook>>,
        status: &ContainerStatus,
        replies: &Vec<RuntimeReply>,
        at: usize,
    ) -> (r: Next<RuntimeCall, ()>)
        requires
            at <= replies@.len(),
        ensures
            r@ == (match hooks_of(*hooks) {
                None => Turn::Done(()),
                Some(list) => ignoring_failure(
                    run_progress(list, status@, heard(replies@).skip(at as int)),
                ),
            }),
    {
        match hooks {
            None => Next::Done(()),
            Some(list) => match hooks_part(list, status, replies, at) {
                Part::Ask(call) => Next::Ask(call),
                Part::Stop(Stop::Stray) => Next::Stray,
                Part::Stop(_) => Next::Done(()),
                Part::Passed(_) => Next::Done(()),
            },
        }
    }

    fn start_with(
        &self,
        id: &str,
        status: &ContainerStatus,
        spec: &OciSpec,
        os: &str,
        replies: &Vec<RuntimeReply>,
        at: usize,
    ) -> (r: Next<RuntimeCall, ()>)
        requires
            at <= replies@.len(),
        ensures
            r@ == start_from_spec(
                self.root@,
                id@,
                status@,
                spec@,
                os@,
                heard(replies@).skip(at as int),
            ),
    {
        let ghost answers = heard(replies@).skip(at as int);
        let len = replies.len();
        let mut running = status.clone();
        match self.transition(&mut running, ContainerState::Running) {
            Err(error) => return Next::Fail(error),
            Ok(()) => {},
        }
        let linux = is_linux(os);
        if linux {
            match container_config_from_spec(id, running.bundle.as_str(), spec) {
                Err(error) => return Next::Fail(error),
                Ok((config, rootfs)) => {
                    if at == len {
                        return Next::Ask(
                            RuntimeCall::SpawnContainer {
                                config,
                                rootfs,
                                namespaces: CONTAINER_NAMESPACES,
                            },
                        );
                    }
                },
            }
        } else if at == len {
            return Next::Ask(RuntimeCall::OwnPid);
        }
        assert(answers[0] == replies@[at as int]@);
        match &replies[at] {
            RuntimeReply::Pid(pid) => {
                running.pid = Some(*pid);
            },
            RuntimeReply::Failed(_) => {
                if linux {
                    return Next::Rethrow;
                }
                return Next::Stray;
            },
            _ => return Next::Stray,
        }
        let ghost rest = answers.skip(1);
        assert(at + 1 < len ==> rest[0] == replies@[at + 1]@);
        match self.save_at(&running, replies, at + 1) {
            Some(Part::Ask(call)) => return Next::Ask(call),
            Some(Part::Stop(stop)) => return end_with(stop),
            Some(Part::Passed(_)) => return Next::Stray,
            None => {},
        }
        assert(rest.skip(1) =~= heard(replies@).skip(at + 2));
        let hooks = match &spec.hooks {
            Some(hooks) => &hooks.poststart,
            None => &None,
        };
        self.run_last_hooks(hooks, &running, replies, at + 2)
    }

    /// The dialogue that starts a created container. `replies` holds the answers so
    /// far.
    ///
    /// On Linux the container process is started in new namespaces; elsewhere the
    /// runtime's own process stands for it. Then the record goes from `Created` to
    /// `Running`, with the process id, so that a start that fails leaves it as it was.
    /// Last the poststart hooks are run; their failure does not stop the container.
    pub fn start(&self, id: &str, os: &str, replies: &Vec<RuntimeReply>) -> (r: Next<
        RuntimeCall,
        (),
    >)
        ensures
            r@ == start_turn(self.root@, id@, os@, heard(replies@)),
    {
        let ghost answers = heard(replies@);
        match self.load_status(id, replies) {
            Part::Ask(call) => return Next::Ask(call),
            Part::Stop(stop) => return end_with(stop),
            Part::Passed(_) => {},
        }
        let ghost rest = answers.skip(2);
        let status = match &replies[1] {
            RuntimeReply::Status(status) => status,
            _ => return Next::Stray,
        };
        match load_spec_part(status.bundle.as_str(), replies, 2) {
            Part::Ask(call) => Next::Ask(call),
            Part::Stop(stop) => end_with(stop),
            Part::Passed(left) => {
                assert(rest[1] == replies@[3]@);
                match &replies[3] {
                    RuntimeReply::Spec(spec) => self.start_with(
                        id,
                        status,
                        spec,
                        os,
                        replies,
                        left,
                    ),
                    _ => Next::Stray,
                }
            },
        }
    }

    fn finish_stop(&self, status: &ContainerStatus, replies: &Vec<RuntimeReply>, at: usize) -> (r:
        Next<RuntimeCall, ()>)
        requires
            at <= replies@.len(),
        ensures
            r@ == record_stop(self.root@, status@, heard(replies@).skip(at as int)),
    {
        let ghost answers = heard(replies@).skip(at as int);
        let len = replies.len();
        let mut stopped = status.clone();
        match self.transition(&mut stopped, ContainerState::Stopped) {
            Err(error) => return Next::Fail(error),
            Ok(()) => {},
        }
        assert(at < len ==> answers[0] == replies@[at as int]@);
        match self.save_at(&stopped, replies, at) {
            Some(Part::Ask(call)) => return Next::Ask(call),
            Some(Part::Stop(stop)) => return end_with(stop),
            Some(Part::Passed(_)) => return Next::Stray,
            None => {},
        }
        stopped.pid = None;
        assert(at + 1 < len ==> answers[1] == replies@[at + 1]@);
        match self.save_at(&stopped, replies, at + 1) {
            Some(Part::Ask(call)) => return Next::Ask(call),
            Some(Part::Stop(stop)) => return end_with(stop),
            Some(Part::Passed(_)) => return Next::Stray,
            None => {},
        }
        let ghost rest = answers.skip(2);
        assert(rest =~= heard(replies@).skip(at + 2));
        match load_spec_part(stopped.bundle.as_str(), replies, at + 2) {
            Part::Ask(call) => Next::Ask(call),
            Part::Stop(stop) => end_with(stop),
            Part::Passed(left) => {
                assert(rest[1] == replies@[at + 3]@);
                match &replies[at + 3] {
                    RuntimeReply::Spec(spec) => {
                        let hooks = match &spec.hooks {
                            Some(hooks) => &hooks.poststop,
                            None => &None,
                        };
                        self.run_last_hooks(hooks, &stopped, replies, left)
                    },
                    _ => Next::Stray,
                }
            },
        }
    }

    /// The dialogue that stops a running container, given what is wrong with the
    /// signal, if anything. `replies` holds the answers so far.
    pub fn stop_with(
        &self,
        id: &str,
        signal: i32,
        fault: &Option<String>,
        limit: Span,
        os: &str,
        replies: &Vec<RuntimeReply>,
    ) -> (r: Next<RuntimeCall, ()>)
        ensures
            r@ == stop_turn(
                self.root@,
                id@,
                signal,
                text_of(*fault),
                limit,
                os@,
                heard(replies@),
            ),
    {
        let ghost answers = heard(replies@);
        match self.load_status(id, replies) {
            Part::Ask(call) => return Next::Ask(call),
            Part::Stop(stop) => return end_with(stop),
            Part::Passed(_) => {},
        }
        let status = match &replies[1] {
            RuntimeReply::Status(status) => status,
            _ => return Next::Stray,
        };
        if is_linux(os) {
            if let Some(pid) = status.pid {
                return match linux_stop_process(pid, signal, fault, limit, replies, 2) {
                    Part::Ask(call) => Next::Ask(call),
                    Part::Stop(stop) => end_with(stop),
                    Part::Passed(left) => self.finish_stop(status, replies, left),
                };
            }
        }
        self.finish_stop(status, replies, 2)
    }

    /// The dialogue that stops a running container. `replies` holds the answers so
    /// far.
    ///
    /// On Linux `signal` (by default SIGTERM) is sent to the container process, which
    /// is killed when it does not exit within `timeout` (by default 10 seconds). The
    /// record goes from `Running` to `Stopped`, and the poststop hooks are run; their
    /// failure does not matter.
    pub fn stop(
        &self,
        id: &str,
        signal: Option<i32>,
        timeout: Option<Span>,
        os: &str,
        replies: &Vec<RuntimeReply>,
    ) -> (r: Next<RuntimeCall, ()>)
        ensures
            exists|fault: Option<Seq<char>>| #[trigger]
                signal_verdict(chosen_signal(signal), fault) && r@ == stop_turn(
                    self.root@,
                    id@,
                    chosen_signal(signal),
                    fault,
                    chosen_limit(timeout),
                    os@,
                    heard(replies@),
                ),
    {
        let number: i32 = match signal {
            Some(signal) => signal,
            None => SIGTERM,
        };
        let limit = match timeout {
            Some(timeout) => timeout,
            None => Span { secs: STOP_SECS, nanos: 0 },
        };
        let fault = signal_fault(number);
        assert(signal_verdict(chosen_signal(signal), text_of(fault)));
        self.stop_with(id, number, &fault, limit, os, replies)
    }

    /// The dialogue that lists all known containers. `replies` holds the answers so
    /// far.
    pub fn list(&self, replies: &Vec<RuntimeReply>) -> (r: Next<RuntimeCall, StatusList>)
        ensures
            r@ == list_turn(self.root@, heard(replies@)),
    {
        let ghost answers = heard(replies@);
        let dir = self.containers_dir();
        let len = replies.len();
        if len == 0 {
            return Next::Ask(RuntimeCall::Exists(dir));
        }
        assert(answers[0] == replies@[0]@);
        match &replies[0] {
            RuntimeReply::Exists(true) => {},
            RuntimeReply::Exists(false) => {
                let none = StatusList { list: Vec::new() };
                assert(none@ =~= Seq::empty());
                return Next::Done(none);
            },
            _ => return Next::Stray,
        }
        if len == 1 {
            return Next::Ask(RuntimeCall::ListDir(dir));
        }
        assert(answers[1] == replies@[1]@);
        match &replies[1] {
            RuntimeReply::Entries(list) => self.list_from(list, replies, 2),
            RuntimeReply::Failed(_) => Next::Rethrow,
            _ => Next::Stray,
        }
    }

    fn list_from(&self, list: &Vec<DirEntry>, replies: &Vec<RuntimeReply>, from: usize) -> (r: Next<
        RuntimeCall,
        StatusList,
    >)
        requires
            from <= replies@.len(),
        ensures
            r@ == list_rest(
                self.root@,
                entries(list@),
                Seq::empty(),
                heard(replies@).skip(from as int),
            ),
    {
        let ghost whole = list_rest(
            self.root@,
            entries(list@),
            Seq::empty(),
            heard(replies@).skip(from as int),
        );
        let len = replies.len();
        let mut found = StatusList { list: Vec::new() };
        let mut at: usize = from;
        let mut i: usize = 0;
        assert(found@ =~= Seq::empty());
        assert(entries(list@).skip(0) =~= entries(list@));
        while i < list.len()
            invariant
                i <= list@.len(),
                len == replies@.len(),
                at <= len,
                whole == list_rest(
                    self.root@,
                    entries(list@),
                    Seq::empty(),
                    heard(replies@).skip(from as int),
                ),
                whole == list_rest(
                    self.root@,
                    entries(list@).skip(i as int),
                    found@,
                    heard(replies@).skip(at as int),
                ),
            decreases list@.len() - i,
        {
            let ghost left = entries(list@).skip(i as int);
            let ghost answers = heard(replies@).skip(at as int);
            assert(left[0] == list@[i as int]@);
            assert(left.skip(1) =~= entries(list@).skip(i + 1));
            if list[i].is_dir {
                let path = self.state_path(list[i].name.as_str());
                if at == len {
                    return Next::Ask(RuntimeCall::Exists(path));
                }
                assert(answers[0] == replies@[at as int]@);
                assert(answers.skip(1) =~= heard(replies@).skip(at + 1));
                match &replies[at] {
                    RuntimeReply::Exists(true) => {
                        if at + 1 == len {
                            return Next::Ask(RuntimeCall::LoadStatus(path));
                        }
                        assert(answers[1] == replies@[at + 1]@);
                        assert(answers.skip(2) =~= heard(replies@).skip(at + 2));
                        match &replies[at + 1] {
                            RuntimeReply::Status(status) => {
                                let ghost before = found@;
                                let copy = status.clone();
                                found.list.push(copy);
                                assert(found@ =~= before.push(status@));
                            },
                            RuntimeReply::Failed(_) => {},
                            _ => return Next::Stray,
                        }
                        at = at + 2;
                    },
                    RuntimeReply::Exists(false) => {
                        at = at + 1;
                    },
                    _ => return Next::Stray,
                }
            }
            i = i + 1;
        }
        assert(entries(list@).skip(i as int).len() == 0);
        Next::Done(found)
    }
}

} // verus!
