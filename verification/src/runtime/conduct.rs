//! What starting and stopping containers is for.

use vstd::prelude::*;
use vstd::string::*;

use crate::container::builder::Config;
use crate::container::host::Namespace;
use crate::dialogue::{answered, answered_at, asked, given_at, Turn};
use crate::path::{
    components, entry_adds_components, entry_path, joined_path, plain_entry_adds_its_name,
    plain_name, siblings_are_not_within_each_other, within,
};
use crate::runtime::hooks::{
    executed_hooks_have_exited, exits, hooks_are_started_in_order, hooks_only_concern_hooks,
    run_progress, starts_hook,
};
use crate::runtime::lifecycle::{
    chosen_limit, chosen_signal, create_turn, delete_turn, new_status, poststart_of, poststop_of,
    prestart_of, start_turn, started, state_turn, stop_turn,
};
use crate::runtime::oci::{
    container_is_as_configured, sets_environment, spec_progress, HookModel, SpecModel,
};
use crate::runtime::process::{await_progress, overdue, stop_progress, Span};
use crate::runtime::status::{
    container_path, record_path, successor, transition_fault, ContainerState, RuntimeAnswer,
    RuntimeAsk, RuntimeProgress, Status,
};

verus! {

/// The turns of a start.
pub open spec fn start_turns(root: Seq<char>, id: Seq<char>, os: Seq<char>) -> spec_fn(
    Seq<RuntimeAnswer>,
) -> Turn<RuntimeAsk, ()> {
    |said: Seq<RuntimeAnswer>| start_turn(root, id, os, said)
}

/// The file with the record of a container.
pub open spec fn state_file(root: Seq<char>, id: Seq<char>) -> Seq<char> {
    entry_path(entry_path(entry_path(root, "containers"@), id), "state.json"@)
}

/// Whether these are the namespaces that isolate a container, each of them once.
pub open spec fn isolating(namespaces: Seq<Namespace>) -> bool {
    &&& namespaces.len() == 5
    &&& namespaces.contains(Namespace::Pid)
    &&& namespaces.contains(Namespace::Mount)
    &&& namespaces.contains(Namespace::Uts)
    &&& namespaces.contains(Namespace::Ipc)
    &&& namespaces.contains(Namespace::Network)
}

/// Whether a container is the one that the configuration of its bundle describes.
pub open spec fn described_by(
    config: Config,
    rootfs: Seq<char>,
    id: Seq<char>,
    bundle: Seq<char>,
    spec: SpecModel,
) -> bool {
    &&& spec.process is Some
    &&& spec.process->Some_0.args is Some
    &&& spec.root_path is Some
    &&& config.id == id
    &&& config.command == spec.process->Some_0.args->Some_0
    &&& config.command.len() > 0
    &&& spec.process->Some_0.env is Some ==> sets_environment(
        spec.process->Some_0.env->Some_0,
        config.env,
    )
    &&& spec.process->Some_0.env is None ==> config.env.len() == 0
    &&& spec.hostname is Some ==> config.hostname == spec.hostname->Some_0
    &&& spec.hostname is None ==> config.hostname == id
    &&& config.rootfs == Some(rootfs)
    &&& rootfs == if spec.root_path->Some_0.len() > 0 && spec.root_path->Some_0[0] == '/' {
        spec.root_path->Some_0
    } else {
        entry_path(bundle, spec.root_path->Some_0)
    }
}

/// Whether a record and a configuration are those that were read in a start: the record of
/// the container, and the configuration of the bundle that the record names.
pub open spec fn read_for_start(
    root: Seq<char>,
    id: Seq<char>,
    os: Seq<char>,
    said: Seq<RuntimeAnswer>,
    status: Status,
    spec: SpecModel,
) -> bool {
    let turns = start_turns(root, id, os);
    &&& answered(
        turns,
        said,
        RuntimeAsk::LoadStatus(state_file(root, id)),
        RuntimeAnswer::Status(status),
    )
    &&& answered(
        turns,
        said,
        RuntimeAsk::LoadSpec(joined_path(status.bundle, "config.json"@)),
        RuntimeAnswer::Spec(spec),
    )
}

proof fn start_reads(root: Seq<char>, id: Seq<char>, os: Seq<char>, said: Seq<RuntimeAnswer>)
    requires
        said.len() >= 4,
        said[0] == RuntimeAnswer::Exists(true),
        said[1] is Status,
        said[2] == RuntimeAnswer::Exists(true),
        said[3] is Spec,
    ensures
        read_for_start(root, id, os, said, said[1]->Status_0, said[3]->Spec_0),
{
    let turns = start_turns(root, id, os);
    let one = said.take(1);
    let three = said.take(3);
    assert(one[0] == said[0]);
    assert(three[0] == said[0] && three[1] == said[1] && three[2] == said[2]);
    assert(three.skip(2)[0] == said[2]);
    let status = said[1]->Status_0;
    assert(said[1] == RuntimeAnswer::Status(status));
    assert(said[3] == RuntimeAnswer::Spec(said[3]->Spec_0));
    assert(answered_at(turns, said, 1, RuntimeAsk::LoadStatus(state_file(root, id)), said[1]));
    assert(answered_at(
        turns,
        said,
        3,
        RuntimeAsk::LoadSpec(joined_path(status.bundle, "config.json"@)),
        said[3],
    ));
}

/// The container process that a start asks for is the one that the configuration in the
/// bundle of the container describes, in namespaces of its own. The container was created
/// and not started before.
pub proof fn start_runs_what_the_bundle_says(
    root: Seq<char>,
    id: Seq<char>,
    os: Seq<char>,
    said: Seq<RuntimeAnswer>,
    config: Config,
    rootfs: Seq<char>,
    namespaces: Seq<Namespace>,
)
    requires
        start_turn(root, id, os, said) == Turn::<RuntimeAsk, ()>::Ask(
            RuntimeAsk::SpawnContainer { config, rootfs, namespaces },
        ),
    ensures
        isolating(namespaces),
        exists|status: Status, spec: SpecModel|
            {
                &&& #[trigger] read_for_start(root, id, os, said, status, spec)
                &&& status.state == ContainerState::Created
                &&& described_by(config, rootfs, id, status.bundle, spec)
            },
{
    start_spawns(root, id, os, said);
    let status = said[1]->Status_0;
    let spec = said[3]->Spec_0;
    start_reads(root, id, os, said);
    container_is_as_configured(id, status.bundle, spec);
    let all = namespaces;
    assert(all[0] == Namespace::Pid && all[1] == Namespace::Mount && all[2] == Namespace::Uts
        && all[3] == Namespace::Ipc && all[4] == Namespace::Network);
}

proof fn start_spawns(root: Seq<char>, id: Seq<char>, os: Seq<char>, said: Seq<RuntimeAnswer>)
    requires
        start_turn(root, id, os, said) is Ask,
        start_turn(root, id, os, said)->Ask_0 is SpawnContainer,
    ensures
        said.len() == 4,
        said[0] == RuntimeAnswer::Exists(true),
        said[1] is Status,
        said[2] == RuntimeAnswer::Exists(true),
        said[3] is Spec,
        said[1]->Status_0.state == ContainerState::Created,
        os == "linux"@,
{
    let rest = said.skip(2);
    if said.len() > 2 {
        assert(rest[0] == said[2]);
    }
    if said.len() > 3 {
        assert(rest[1] == said[3]);
        let left = rest.skip(2);
        if said.len() > 4 {
            assert(left[0] == said[4]);
            if let Some(hooks) = poststart_of(said[3]->Spec_0) {
                let running = started(said[1]->Status_0, said[4]->Pid_0);
                hooks_only_concern_hooks(hooks, running, left.skip(1).skip(1));
            }
        }
    }
}

/// Whether a host started the process of a container and recorded that it runs.
pub open spec fn was_started(
    root: Seq<char>,
    id: Seq<char>,
    said: Seq<RuntimeAnswer>,
    status: Status,
    config: Config,
    rootfs: Seq<char>,
    namespaces: Seq<Namespace>,
    pid: u32,
) -> bool {
    let turns = start_turns(root, id, "linux"@);
    let running = Status { state: ContainerState::Running, pid: Some(pid), ..status };
    &&& answered(
        turns,
        said,
        RuntimeAsk::SpawnContainer { config, rootfs, namespaces },
        RuntimeAnswer::Pid(pid),
    )
    &&& answered(
        turns,
        said,
        RuntimeAsk::SaveStatus {
            dir: entry_path(entry_path(root, "containers"@), status.id),
            path: state_file(root, status.id),
            status: running,
        },
        RuntimeAnswer::Done,
    )
}

/// When a start is done, the host has started the process that the bundle describes, in
/// namespaces of its own, and the record of the container says that it runs, with the id
/// of that process, and is otherwise as it was.
pub proof fn started_container_runs_its_process(
    root: Seq<char>,
    id: Seq<char>,
    said: Seq<RuntimeAnswer>,
)
    requires
        start_turn(root, id, "linux"@, said) is Done,
    ensures
        exists|
            status: Status,
            spec: SpecModel,
            config: Config,
            rootfs: Seq<char>,
            namespaces: Seq<Namespace>,
            pid: u32,
        |
            {
                &&& #[trigger] read_for_start(root, id, "linux"@, said, status, spec)
                &&& #[trigger] was_started(
                    root,
                    id,
                    said,
                    status,
                    config,
                    rootfs,
                    namespaces,
                    pid,
                )
                &&& described_by(config, rootfs, id, status.bundle, spec)
                &&& isolating(namespaces)
            },
{
    let os = "linux"@;
    let turns = start_turns(root, id, os);
    let rest = said.skip(2);
    assert(rest[0] == said[2] && rest[1] == said[3]);
    let left = rest.skip(2);
    assert(left[0] == said[4]);
    assert(left.skip(1)[0] == said[5]);
    let status = said[1]->Status_0;
    let spec = said[3]->Spec_0;
    let pid = said[4]->Pid_0;
    start_reads(root, id, os, said);
    let four = said.take(4);
    assert(four[0] == said[0] && four[1] == said[1] && four[2] == said[2] && four[3] == said[3]);
    assert(four.skip(2)[0] == said[2] && four.skip(2)[1] == said[3]);
    assert(four.skip(2).skip(2).len() == 0);
    let five = said.take(5);
    assert(five[0] == said[0] && five[1] == said[1] && five[2] == said[2] && five[3] == said[3]);
    assert(five.skip(2)[0] == said[2] && five.skip(2)[1] == said[3]);
    assert(five.skip(2).skip(2)[0] == said[4]);
    assert(five.skip(2).skip(2).skip(1).len() == 0);
    let spawn = start_turn(root, id, os, four)->Ask_0;
    let config = spawn->SpawnContainer_config;
    let rootfs = spawn->SpawnContainer_rootfs;
    let namespaces = spawn->SpawnContainer_namespaces;
    container_is_as_configured(id, status.bundle, spec);
    assert(namespaces[0] == Namespace::Pid && namespaces[1] == Namespace::Mount && namespaces[2]
        == Namespace::Uts && namespaces[3] == Namespace::Ipc && namespaces[4]
        == Namespace::Network);
    assert(answered_at(
        turns,
        said,
        4,
        RuntimeAsk::SpawnContainer { config, rootfs, namespaces },
        RuntimeAnswer::Pid(pid),
    ));
    let running = Status { state: ContainerState::Running, pid: Some(pid), ..status };
    assert(answered_at(
        turns,
        said,
        5,
        RuntimeAsk::SaveStatus {
            dir: entry_path(entry_path(root, "containers"@), status.id),
            path: state_file(root, status.id),
            status: running,
        },
        RuntimeAnswer::Done,
    ));
    assert(was_started(root, id, said, status, config, rootfs, namespaces, pid));
}

/// The turns of a creation.
pub open spec fn create_turns(root: Seq<char>, id: Seq<char>, bundle: Seq<char>) -> spec_fn(
    Seq<RuntimeAnswer>,
) -> Turn<RuntimeAsk, Status> {
    |said: Seq<RuntimeAnswer>| create_turn(root, id, bundle, said)
}

/// Whether a configuration and a time are those that were read in a creation.
pub open spec fn read_for_creation(
    root: Seq<char>,
    id: Seq<char>,
    bundle: Seq<char>,
    said: Seq<RuntimeAnswer>,
    spec: SpecModel,
    now: Seq<char>,
) -> bool {
    let turns = create_turns(root, id, bundle);
    &&& answered(
        turns,
        said,
        RuntimeAsk::Exists(state_file(root, id)),
        RuntimeAnswer::Exists(false),
    )
    &&& answered(
        turns,
        said,
        RuntimeAsk::LoadSpec(joined_path(bundle, "config.json"@)),
        RuntimeAnswer::Spec(spec),
    )
    &&& answered(turns, said, RuntimeAsk::ReadClock, RuntimeAnswer::Text(now))
}

proof fn creation_reads(root: Seq<char>, id: Seq<char>, bundle: Seq<char>, said: Seq<RuntimeAnswer>)
    requires
        said.len() >= 4,
        said[0] == RuntimeAnswer::Exists(false),
        said[1] == RuntimeAnswer::Exists(true),
        said[2] is Spec,
        said[3] is Text,
    ensures
        read_for_creation(root, id, bundle, said, said[2]->Spec_0, said[3]->Text_0),
{
    let turns = create_turns(root, id, bundle);
    let two = said.take(2);
    assert(two[0] == said[0] && two.skip(1)[0] == said[1]);
    let three = said.take(3);
    assert(three[0] == said[0] && three[2] == said[2]);
    assert(three.skip(1)[0] == said[1] && three.skip(1)[1] == said[2]);
    assert(three.skip(1).skip(2).len() == 0);
    assert(said[2] == RuntimeAnswer::Spec(said[2]->Spec_0));
    assert(said[3] == RuntimeAnswer::Text(said[3]->Text_0));
    assert(answered_at(turns, said, 0, RuntimeAsk::Exists(state_file(root, id)), said[0]));
    assert(answered_at(
        turns,
        said,
        2,
        RuntimeAsk::LoadSpec(joined_path(bundle, "config.json"@)),
        said[2],
    ));
    assert(answered_at(turns, said, 3, RuntimeAsk::ReadClock, said[3]));
}

/// A container that was created has the id and the bundle that were given, the time that
/// the clock showed, and the annotations of the configuration in the bundle. There was no
/// container with this id. All prestart hooks of the configuration have exited with
/// success.
pub proof fn created_container_comes_from_its_bundle(
    root: Seq<char>,
    id: Seq<char>,
    bundle: Seq<char>,
    said: Seq<RuntimeAnswer>,
    status: Status,
)
    requires
        create_turn(root, id, bundle, said) == Turn::<RuntimeAsk, Status>::Done(status),
    ensures
        status.id == id,
        status.bundle == bundle,
        status.state == ContainerState::Created,
        status.pid is None,
        exists|spec: SpecModel, now: Seq<char>|
            {
                &&& #[trigger] read_for_creation(root, id, bundle, said, spec, now)
                &&& status.created == now
                &&& status.annotations == match spec.annotations {
                    Some(annotations) => annotations,
                    None => Map::empty(),
                }
                &&& spec.hooks is Some && spec.hooks->Some_0.prestart is Some ==> exits(said, true)
                    >= spec.hooks->Some_0.prestart->Some_0.len()
            },
{
    let rest = said.skip(1);
    assert(rest[0] == said[1] && rest[1] == said[2]);
    let tail = rest.skip(2);
    assert(tail[0] == said[3] && tail[1] == said[4]);
    creation_reads(root, id, bundle, said);
    let spec = said[2]->Spec_0;
    if let Some(hooks) = prestart_of(spec) {
        let end = tail.skip(2);
        let fresh = new_status(id, bundle, spec, said[3]->Text_0);
        executed_hooks_have_exited(hooks, fresh, end);
        reveal_with_fuel(exits, 6);
        assert(said.skip(1).skip(1).skip(1).skip(1).skip(1) =~= end);
        assert(said.skip(1)[0] == said[1]);
        assert(said.skip(1).skip(1)[0] == said[2]);
        assert(said.skip(1).skip(1).skip(1)[0] == said[3]);
        assert(said.skip(1).skip(1).skip(1).skip(1)[0] == said[4]);
    }
}

/// Whether a question starts one of the hooks of a list, as its configuration says.
pub open spec fn starts_one_of(ask: RuntimeAsk, hooks: Seq<HookModel>) -> bool {
    exists|j: int, input: Seq<char>|
        0 <= j < hooks.len() && #[trigger] starts_hook(ask, hooks[j], input)
}

proof fn started_hook_is_one_of(
    hooks: Seq<HookModel>,
    status: Status,
    said: Seq<RuntimeAnswer>,
    ask: RuntimeAsk,
)
    requires
        run_progress(hooks, status, said) == RuntimeProgress::Ask(ask),
        ask is SpawnHook,
    ensures
        starts_one_of(ask, hooks),
{
    hooks_are_started_in_order(hooks, status, said, ask);
}

/// The hooks that a creation runs are the prestart hooks of the configuration in the
/// bundle.
pub proof fn creation_runs_the_prestart_hooks(
    root: Seq<char>,
    id: Seq<char>,
    bundle: Seq<char>,
    said: Seq<RuntimeAnswer>,
    ask: RuntimeAsk,
)
    requires
        create_turn(root, id, bundle, said) == Turn::<RuntimeAsk, Status>::Ask(ask),
        ask is SpawnHook,
    ensures
        exists|spec: SpecModel, now: Seq<char>|
            {
                &&& #[trigger] read_for_creation(root, id, bundle, said, spec, now)
                &&& spec.hooks is Some
                &&& spec.hooks->Some_0.prestart is Some
                &&& starts_one_of(ask, spec.hooks->Some_0.prestart->Some_0)
            },
{
    let rest = said.skip(1);
    if said.len() > 1 {
        assert(rest[0] == said[1]);
    }
    assert(said.len() > 2);
    assert(rest[1] == said[2]);
    let tail = rest.skip(2);
    assert(said.len() > 4);
    assert(tail[0] == said[3] && tail[1] == said[4]);
    creation_reads(root, id, bundle, said);
    let spec = said[2]->Spec_0;
    let hooks = prestart_of(spec)->Some_0;
    let fresh = new_status(id, bundle, spec, said[3]->Text_0);
    started_hook_is_one_of(hooks, fresh, tail.skip(2), ask);
}

/// The hooks that a start runs are the poststart hooks of the configuration in the bundle,
/// and they are run only when the process runs.
pub proof fn start_runs_the_poststart_hooks(
    root: Seq<char>,
    id: Seq<char>,
    said: Seq<RuntimeAnswer>,
    ask: RuntimeAsk,
)
    requires
        start_turn(root, id, "linux"@, said) == Turn::<RuntimeAsk, ()>::Ask(ask),
        ask is SpawnHook,
    ensures
        said.contains(RuntimeAnswer::Pid(said[4]->Pid_0)),
        exists|status: Status, spec: SpecModel|
            {
                &&& #[trigger] read_for_start(root, id, "linux"@, said, status, spec)
                &&& spec.hooks is Some
                &&& spec.hooks->Some_0.poststart is Some
                &&& starts_one_of(ask, spec.hooks->Some_0.poststart->Some_0)
            },
{
    let rest = said.skip(2);
    assert(said.len() > 3);
    assert(rest[0] == said[2] && rest[1] == said[3]);
    let left = rest.skip(2);
    assert(said.len() > 5);
    assert(left[0] == said[4]);
    assert(left.skip(1)[0] == said[5]);
    start_reads(root, id, "linux"@, said);
    let running = started(said[1]->Status_0, said[4]->Pid_0);
    let hooks = poststart_of(said[3]->Spec_0)->Some_0;
    started_hook_is_one_of(hooks, running, left.skip(1).skip(1), ask);
    assert(said[4] == RuntimeAnswer::Pid(said[4]->Pid_0));
}

/// The turns of a query.
pub open spec fn state_turns(root: Seq<char>, id: Seq<char>) -> spec_fn(
    Seq<RuntimeAnswer>,
) -> Turn<RuntimeAsk, Status> {
    |said: Seq<RuntimeAnswer>| state_turn(root, id, said)
}

/// The state of a container that a query gives is what its record says.
pub proof fn query_gives_the_record(
    root: Seq<char>,
    id: Seq<char>,
    said: Seq<RuntimeAnswer>,
    status: Status,
)
    requires
        state_turn(root, id, said) == Turn::<RuntimeAsk, Status>::Done(status),
    ensures
        answered(
            state_turns(root, id),
            said,
            RuntimeAsk::LoadStatus(state_file(root, id)),
            RuntimeAnswer::Status(status),
        ),
{
    assert(said.take(1)[0] == said[0]);
    assert(answered_at(
        state_turns(root, id),
        said,
        1,
        RuntimeAsk::LoadStatus(state_file(root, id)),
        RuntimeAnswer::Status(status),
    ));
}

/// The turns of a deletion.
pub open spec fn delete_turns(root: Seq<char>, id: Seq<char>) -> spec_fn(
    Seq<RuntimeAnswer>,
) -> Turn<RuntimeAsk, ()> {
    |said: Seq<RuntimeAnswer>| delete_turn(root, id, said)
}

/// A deletion removes only the directory of the container, and only when the record of the
/// container says that it is stopped.
pub proof fn deletion_removes_the_directory_of_the_container(
    root: Seq<char>,
    id: Seq<char>,
    said: Seq<RuntimeAnswer>,
    dir: Seq<char>,
)
    requires
        delete_turn(root, id, said) == Turn::<RuntimeAsk, ()>::Ask(RuntimeAsk::RemoveDirAll(dir)),
    ensures
        dir == entry_path(entry_path(root, "containers"@), id),
        exists|status: Status|
            {
                &&& #[trigger] answered(
                    delete_turns(root, id),
                    said,
                    RuntimeAsk::LoadStatus(state_file(root, id)),
                    RuntimeAnswer::Status(status),
                )
                &&& status.state == ContainerState::Stopped
            },
{
    let status = said[1]->Status_0;
    assert(said.take(1)[0] == said[0]);
    assert(answered_at(
        delete_turns(root, id),
        said,
        1,
        RuntimeAsk::LoadStatus(state_file(root, id)),
        RuntimeAnswer::Status(status),
    ));
    assert(answered(
        delete_turns(root, id),
        said,
        RuntimeAsk::LoadStatus(state_file(root, id)),
        RuntimeAnswer::Status(status),
    ));
}

/// A container is created, then runs, then is stopped: there are no other transitions.
pub proof fn containers_go_through_their_states_in_order(from: ContainerState, to: ContainerState)
    ensures
        (transition_fault(from, to) is None) == {
            ||| from == ContainerState::Creating && to == ContainerState::Created
            ||| from == ContainerState::Created && to == ContainerState::Running
            ||| from == ContainerState::Running && to == ContainerState::Stopped
        },
        (successor(from) == Some(to)) == (transition_fault(from, to) is None),
{
}

/// The turns of a stop on Linux with a signal that is accepted.
pub open spec fn stop_turns(
    root: Seq<char>,
    id: Seq<char>,
    signal: i32,
    limit: Span,
) -> spec_fn(Seq<RuntimeAnswer>) -> Turn<RuntimeAsk, ()> {
    |said: Seq<RuntimeAnswer>| stop_turn(root, id, signal, None, limit, "linux"@, said)
}

/// Whether a process was asked about and is gone, or was killed.
pub open spec fn is_gone(
    turns: spec_fn(Seq<RuntimeAnswer>) -> Turn<RuntimeAsk, ()>,
    said: Seq<RuntimeAnswer>,
    pid: i32,
) -> bool {
    ||| answered(turns, said, RuntimeAsk::PollProcess(pid), RuntimeAnswer::Ended)
    ||| answered(turns, said, RuntimeAsk::PollProcess(pid), RuntimeAnswer::Gone)
    ||| asked(turns, said, RuntimeAsk::ForceKill(pid))
}

spec fn await_of(pid: u32, limit: Span) -> spec_fn(Seq<RuntimeAnswer>) -> RuntimeProgress {
    |s: Seq<RuntimeAnswer>| await_progress(pid, limit, s)
}

/// Where in the answers the wait for a process ends.
proof fn awaited(pid: u32, limit: Span, said: Seq<RuntimeAnswer>) -> (r: (int, RuntimeAsk))
    requires
        await_progress(pid, limit, said) is Passed,
    ensures
        given_at(await_of(pid, limit), said, r.0, r.1, said[r.0]),
        r.1 == RuntimeAsk::ForceKill(pid as i32) || (r.1 == RuntimeAsk::PollProcess(pid as i32) && (
        said[r.0] == RuntimeAnswer::Ended || said[r.0] == RuntimeAnswer::Gone)),
    decreases said.len(),
{
    assert(said.take(0).len() == 0);
    match said[0] {
        RuntimeAnswer::Running { secs, nanos } => {
            assert(said.take(1)[0] == said[0]);
            if overdue(secs, nanos, limit) {
                (1, RuntimeAsk::ForceKill(pid as i32))
            } else {
                let rest = said.skip(2);
                let (i, ask) = awaited(pid, limit, rest);
                let s = said.take(i + 2);
                assert(s[0] == said[0] && s[1] == said[1]);
                assert(s.skip(2) =~= rest.take(i));
                assert(rest[i] == said[i + 2]);
                (i + 2, ask)
            }
        },
        _ => (0, RuntimeAsk::PollProcess(pid as i32)),
    }
}

/// When a stop of a container whose process is recorded is done, the chosen signal was
/// sent to that process, and to no other, and the process is gone or was killed.
pub proof fn stopped_container_has_no_process(
    root: Seq<char>,
    id: Seq<char>,
    signal: i32,
    limit: Span,
    said: Seq<RuntimeAnswer>,
)
    requires
        stop_turn(root, id, signal, None, limit, "linux"@, said) is Done,
    ensures
        exists|status: Status|
            {
                let turns = stop_turns(root, id, signal, limit);
                &&& #[trigger] answered(
                    stop_turns(root, id, signal, limit),
                    said,
                    RuntimeAsk::LoadStatus(state_file(root, id)),
                    RuntimeAnswer::Status(status),
                )
                &&& status.state == ContainerState::Running
                &&& status.pid is Some ==> {
                    &&& answered(
                        turns,
                        said,
                        RuntimeAsk::SendSignal { pid: status.pid->Some_0 as i32, signal },
                        RuntimeAnswer::Done,
                    )
                    &&& is_gone(turns, said, status.pid->Some_0 as i32)
                }
            },
{
    let turns = stop_turns(root, id, signal, limit);
    let status = said[1]->Status_0;
    assert(said.take(1)[0] == said[0]);
    assert(said[1] == RuntimeAnswer::Status(status));
    assert(answered_at(
        turns,
        said,
        1,
        RuntimeAsk::LoadStatus(state_file(root, id)),
        RuntimeAnswer::Status(status),
    ));
    assert(answered(
        turns,
        said,
        RuntimeAsk::LoadStatus(state_file(root, id)),
        RuntimeAnswer::Status(status),
    ));
    if let Some(pid) = status.pid {
        let rest = said.skip(2);
        let two = said.take(2);
        assert(two[0] == said[0] && two[1] == said[1]);
        assert(two.skip(2).len() == 0);
        assert(rest[0] == said[2]);
        let left = rest.skip(1);
        assert(answered_at(
            turns,
            said,
            2,
            RuntimeAsk::SendSignal { pid: pid as i32, signal },
            RuntimeAnswer::Done,
        ));
        let (i, ask) = awaited(pid, limit, left);
        let s = said.take(i + 3);
        assert(s[0] == said[0] && s[1] == said[1]);
        assert(s.skip(2)[0] == said[2]);
        assert(s.skip(2).skip(1) =~= left.take(i));
        assert(left[i] == said[i + 3]);
        assert(answered_at(turns, said, i + 3, ask, said[i + 3]));
        assert(answered(turns, said, ask, said[i + 3]));
    }
}

proof fn awaiting_sends_nothing(pid: u32, limit: Span, said: Seq<RuntimeAnswer>)
    ensures
        await_progress(pid, limit, said) matches RuntimeProgress::Ask(ask) ==> {
            ||| ask == RuntimeAsk::PollProcess(pid as i32)
            ||| ask == RuntimeAsk::ForceKill(pid as i32)
            ||| ask is Sleep
        },
    decreases said.len(),
{
    if said.len() > 1 {
        awaiting_sends_nothing(pid, limit, said.skip(2));
    }
}

/// A stop signals and kills only the process that the record of the container names.
pub proof fn stop_concerns_only_the_own_process(
    root: Seq<char>,
    id: Seq<char>,
    signal: i32,
    limit: Span,
    said: Seq<RuntimeAnswer>,
    ask: RuntimeAsk,
)
    requires
        stop_turn(root, id, signal, None, limit, "linux"@, said) == Turn::<RuntimeAsk, ()>::Ask(
            ask,
        ),
        ask is SendSignal || ask is ForceKill || ask is PollProcess,
    ensures
        exists|status: Status|
            {
                &&& #[trigger] answered(
                    stop_turns(root, id, signal, limit),
                    said,
                    RuntimeAsk::LoadStatus(state_file(root, id)),
                    RuntimeAnswer::Status(status),
                )
                &&& status.pid is Some
                &&& {
                    let pid = status.pid->Some_0 as i32;
                    ||| ask == RuntimeAsk::SendSignal { pid, signal }
                    ||| ask == RuntimeAsk::ForceKill(pid)
                    ||| ask == RuntimeAsk::PollProcess(pid)
                }
            },
{
    let turns = stop_turns(root, id, signal, limit);
    assert(said.len() >= 2);
    let status = said[1]->Status_0;
    assert(said.take(1)[0] == said[0]);
    assert(said[1] == RuntimeAnswer::Status(status));
    assert(answered_at(
        turns,
        said,
        1,
        RuntimeAsk::LoadStatus(state_file(root, id)),
        RuntimeAnswer::Status(status),
    ));
    assert(answered(
        turns,
        said,
        RuntimeAsk::LoadStatus(state_file(root, id)),
        RuntimeAnswer::Status(status),
    ));
    let rest = said.skip(2);
    let recorded = if let Some(pid) = status.pid {
        awaiting_sends_nothing(pid, limit, rest.skip(1));
        match stop_progress(pid, signal, None, limit, rest) {
            RuntimeProgress::Passed(left) => left,
            _ => rest,
        }
    } else {
        rest
    };
    let cleared = Status { state: ContainerState::Stopped, pid: None, ..status };
    let tail = recorded.skip(2);
    if let RuntimeProgress::Passed(end) = spec_progress(status.bundle, tail) {
        if let Some(hooks) = poststop_of(tail[1]->Spec_0) {
            hooks_only_concern_hooks(hooks, cleared, end);
        }
    }
}

/// A process that is asked to stop is killed when it runs for longer than the limit after
/// that.
pub proof fn process_that_runs_too_long_is_killed(pid: u32, limit: Span, secs: u64, nanos: u32)
    requires
        secs > limit.secs || (secs == limit.secs && nanos > limit.nanos),
    ensures
        await_progress(pid, limit, seq![RuntimeAnswer::Running { secs, nanos }])
            == RuntimeProgress::Ask(RuntimeAsk::ForceKill(pid as i32)),
{
}

proof fn await_leaves_a_rest(pid: u32, limit: Span, said: Seq<RuntimeAnswer>) -> (k: int)
    requires
        await_progress(pid, limit, said) is Passed,
    ensures
        0 <= k <= said.len(),
        await_progress(pid, limit, said) == RuntimeProgress::Passed(said.skip(k)),
    decreases said.len(),
{
    match said[0] {
        RuntimeAnswer::Running { secs, nanos } => if overdue(secs, nanos, limit) {
            2
        } else {
            let k = await_leaves_a_rest(pid, limit, said.skip(2));
            assert(said.skip(2).skip(k) =~= said.skip(k + 2));
            k + 2
        },
        _ => 1,
    }
}

/// The hooks that a stop runs are the poststop hooks of the configuration that was read
/// from the bundle of the container.
pub proof fn stop_runs_the_poststop_hooks(
    root: Seq<char>,
    id: Seq<char>,
    signal: i32,
    limit: Span,
    said: Seq<RuntimeAnswer>,
    ask: RuntimeAsk,
)
    requires
        stop_turn(root, id, signal, None, limit, "linux"@, said) == Turn::<RuntimeAsk, ()>::Ask(
            ask,
        ),
        ask is SpawnHook,
    ensures
        exists|spec: SpecModel|
            {
                &&& #[trigger] said.contains(RuntimeAnswer::Spec(spec))
                &&& spec.hooks is Some
                &&& spec.hooks->Some_0.poststop is Some
                &&& starts_one_of(ask, spec.hooks->Some_0.poststop->Some_0)
            },
{
    assert(said.len() >= 2);
    let status = said[1]->Status_0;
    let rest = said.skip(2);
    let k: int = if let Some(pid) = status.pid {
        awaiting_sends_nothing(pid, limit, rest.skip(1));
        let l = await_leaves_a_rest(pid, limit, rest.skip(1));
        assert(rest.skip(1).skip(l) =~= rest.skip(l + 1));
        l + 1
    } else {
        assert(rest.skip(0) =~= rest);
        0
    };
    let recorded = rest.skip(k);
    let cleared = Status { state: ContainerState::Stopped, pid: None, ..status };
    let tail = recorded.skip(2);
    let spec = tail[1]->Spec_0;
    let hooks = poststop_of(spec)->Some_0;
    started_hook_is_one_of(hooks, cleared, tail.skip(2), ask);
    assert(tail[1] == RuntimeAnswer::Spec(spec));
    assert(said[k + 5] == tail[1]);
    assert(said.contains(RuntimeAnswer::Spec(spec)));
}

/// A process that was asked to stop is asked about every 100 milliseconds until it has run
/// for longer than the limit, and is killed then.
pub proof fn process_is_polled_until_the_limit(
    pid: u32,
    limit: Span,
    said: Seq<RuntimeAnswer>,
    secs: u64,
    nanos: u32,
)
    requires
        await_progress(pid, limit, said) == RuntimeProgress::Ask(
            RuntimeAsk::PollProcess(pid as i32),
        ),
    ensures
        await_progress(pid, limit, said.push(RuntimeAnswer::Running { secs, nanos }))
            == RuntimeProgress::Ask(
            if secs > limit.secs || (secs == limit.secs && nanos > limit.nanos) {
                RuntimeAsk::ForceKill(pid as i32)
            } else {
                RuntimeAsk::Sleep(100)
            },
        ),
        await_progress(pid, limit, said.push(RuntimeAnswer::Ended)) is Passed,
        await_progress(pid, limit, said.push(RuntimeAnswer::Gone)) is Passed,
    decreases said.len(),
{
    let running = RuntimeAnswer::Running { secs, nanos };
    let next = said.push(running);
    let ended = said.push(RuntimeAnswer::Ended);
    let gone = said.push(RuntimeAnswer::Gone);
    if said.len() == 0 {
        assert(next.len() == 1 && next[0] == running);
        assert(ended[0] == RuntimeAnswer::Ended && gone[0] == RuntimeAnswer::Gone);
    } else {
        assert(said.len() >= 2);
        let rest = said.skip(2);
        process_is_polled_until_the_limit(pid, limit, rest, secs, nanos);
        assert(next[0] == said[0] && next[1] == said[1]);
        assert(ended[0] == said[0] && ended[1] == said[1]);
        assert(gone[0] == said[0] && gone[1] == said[1]);
        assert(next.skip(2) =~= rest.push(running));
        assert(ended.skip(2) =~= rest.push(RuntimeAnswer::Ended));
        assert(gone.skip(2) =~= rest.push(RuntimeAnswer::Gone));
    }
}

/// Whether a turn ends an operation without success.
pub open spec fn is_refused<C, T>(turn: Turn<C, T>) -> bool {
    turn is Fail || turn is Rethrow
}

/// Once a container is recorded as running its start does not fail any more, whatever its
/// poststart hooks do.
pub proof fn poststart_hooks_do_not_fail_the_start(
    root: Seq<char>,
    id: Seq<char>,
    said: Seq<RuntimeAnswer>,
)
    requires
        said.len() > 5,
        start_turn(root, id, "linux"@, said.take(5)) is Ask,
        start_turn(root, id, "linux"@, said.take(5))->Ask_0 is SaveStatus,
        said[5] == RuntimeAnswer::Done,
    ensures
        !is_refused(start_turn(root, id, "linux"@, said)),
{
    let s = said.take(5);
    assert(forall|i: int| 0 <= i < 5 ==> s[i] == said[i]);
    assert(s.skip(2)[0] == said[2] && s.skip(2)[1] == said[3]);
    assert(said.skip(2)[0] == said[2] && said.skip(2)[1] == said[3]);
    assert(s.skip(2).skip(2)[0] == said[4]);
    assert(said.skip(2).skip(2)[0] == said[4]);
    assert(said.skip(2).skip(2).skip(1)[0] == said[5]);
}

/// Whether a turn asks to save a record.
pub open spec fn asks_to_save(turn: Turn<RuntimeAsk, Status>) -> bool {
    turn matches Turn::Ask(ask) && ask is SaveStatus
}

/// An answer of the host that something failed ends a lifecycle operation when the
/// question was to save a record: nothing goes on with a record that was not saved.
pub proof fn unsaved_records_end_the_operation(
    root: Seq<char>,
    id: Seq<char>,
    bundle: Seq<char>,
    said: Seq<RuntimeAnswer>,
    text: Seq<char>,
)
    requires
        said.len() == 4,
        asks_to_save(create_turn(root, id, bundle, said)),
    ensures
        create_turn(root, id, bundle, said.push(RuntimeAnswer::Failed(text))) is Rethrow,
        create_turn(root, id, bundle, said.push(RuntimeAnswer::Done)) is Ask,
{
    let failed = said.push(RuntimeAnswer::Failed(text));
    let done = said.push(RuntimeAnswer::Done);
    assert(forall|i: int| 0 <= i < 4 ==> failed[i] == said[i] && done[i] == said[i]);
    assert(failed.skip(1)[0] == said[1] && failed.skip(1)[1] == said[2]);
    assert(done.skip(1)[0] == said[1] && done.skip(1)[1] == said[2]);
    assert(said.skip(1)[0] == said[1] && said.skip(1)[1] == said[2]);
    assert(said.skip(1).skip(2)[0] == said[3]);
    assert(failed.skip(1).skip(2)[0] == said[3]);
    assert(failed.skip(1).skip(2)[1] == failed[4]);
    assert(done.skip(1).skip(2)[0] == said[3]);
    assert(done.skip(1).skip(2)[1] == done[4]);
}

/// A stop sends the signal that it is given, or else `SIGTERM`, and waits for the time that
/// it is given, or else for ten seconds.
pub proof fn stops_are_gentle_by_default(signal: i32, limit: Span)
    ensures
        chosen_signal(Some(signal)) == signal,
        chosen_signal(None) == 15,
        chosen_limit(Some(limit)) == limit,
        chosen_limit(None) == (Span { secs: 10, nanos: 0 }),
{
}

/// Every container has a directory of its own below the root of the runtime, and its record
/// is in it.
pub proof fn containers_have_directories_of_their_own(root: Seq<char>, a: Seq<char>, b: Seq<char>)
    requires
        plain_name(a),
        plain_name(b),
        a != b,
        root.len() > 0,
    ensures
        container_path(root, a) == entry_path(entry_path(root, "containers"@), a),
        record_path(root, a) == entry_path(container_path(root, a), "state.json"@),
        within(container_path(root, a), root),
        !within(container_path(root, a), container_path(root, b)),
        !within(record_path(root, a), container_path(root, b)),
{
    reveal_strlit("/");
    let all = entry_path(root, "containers"@);
    reveal_strlit("containers");
    assert(all.len() > 0);
    entry_adds_components(root, "containers"@);
    entry_adds_components(all, a);
    siblings_are_not_within_each_other(all, a, b);
    plain_entry_adds_its_name(all, a);
    plain_entry_adds_its_name(all, b);
    let own = container_path(root, a);
    assert(own.len() > 0);
    entry_adds_components(own, "state.json"@);
    let n = components(all).len() as int;
    assert(components(record_path(root, a))[n] == a);
    assert(components(container_path(root, b))[n] == b);
}

/// When the process of a container is killed the stop goes on, whether or not the kill
/// succeeded: the process may have ended by itself.
pub proof fn stop_goes_on_after_the_kill(
    pid: u32,
    limit: Span,
    said: Seq<RuntimeAnswer>,
    answer: RuntimeAnswer,
)
    requires
        await_progress(pid, limit, said) == RuntimeProgress::Ask(
            RuntimeAsk::ForceKill(pid as i32),
        ),
        answer is Done || answer is Failed,
    ensures
        await_progress(pid, limit, said.push(answer)) is Passed,
    decreases said.len(),
{
    let next = said.push(answer);
    assert(said.len() > 0);
    assert(next[0] == said[0]);
    if said.len() == 1 {
        assert(next[1] == answer);
    } else {
        let rest = said.skip(2);
        assert(next[1] == said[1]);
        stop_goes_on_after_the_kill(pid, limit, rest, answer);
        assert(next.skip(2) =~= rest.push(answer));
    }
}

} // verus!
