//! What the lifecycle operations do to the status records, whatever the host
//! answers.

use vstd::prelude::*;

use crate::dialogue::Turn;
use crate::error::Failure;
use crate::path::{components, entry_path, plain_entry_adds_its_name, plain_name, within};
use crate::runtime::hooks::{
    hook_limit, hook_progress, hooks_progress, poll_progress, run_progress, wait_progress,
};
use crate::runtime::lifecycle::{
    create_turn, delete_turn, list_rest, list_turn, new_status, poststart_of, poststop_of,
    prestart_of, run_poststop, start_turn, started, state_turn, stop_turn,
};
use crate::runtime::oci::{spec_progress, HookModel};
use crate::runtime::process::{await_progress, overdue, stop_progress, Span};
use crate::runtime::status::{
    container_path, containers_path, must_work, record_path, save_ask, state_name, ContainerState,
    Entry, RuntimeAnswer, RuntimeAsk, RuntimeProgress, Status,
};

verus! {

/// A lifecycle operation.
pub enum Operation {
    Create { id: Seq<char>, bundle: Seq<char> },
    Start { id: Seq<char>, os: Seq<char> },
    Stop { id: Seq<char>, signal: i32, fault: Option<Seq<char>>, limit: Span, os: Seq<char> },
    Delete { id: Seq<char> },
    State { id: Seq<char> },
    List,
}

/// The question of a turn, if it is one.
pub open spec fn question<T>(turn: Turn<RuntimeAsk, T>) -> Option<RuntimeAsk> {
    match turn {
        Turn::Ask(ask) => Some(ask),
        _ => None,
    }
}

/// The question that an operation asks after the answers so far, if it asks one.
pub open spec fn asks(
    operation: Operation,
    root: Seq<char>,
    answers: Seq<RuntimeAnswer>,
) -> Option<RuntimeAsk> {
    match operation {
        Operation::Create { id, bundle } => question(create_turn(root, id, bundle, answers)),
        Operation::Start { id, os } => question(start_turn(root, id, os, answers)),
        Operation::Stop { id, signal, fault, limit, os } => question(
            stop_turn(root, id, signal, fault, limit, os, answers),
        ),
        Operation::Delete { id } => question(delete_turn(root, id, answers)),
        Operation::State { id } => question(state_turn(root, id, answers)),
        Operation::List => question(list_turn(root, answers)),
    }
}

/// Whether every answer was given to a question.
pub open spec fn conversed(
    operation: Operation,
    root: Seq<char>,
    answers: Seq<RuntimeAnswer>,
) -> bool
    decreases answers.len(),
{
    answers.len() == 0 || (asks(operation, root, answers.drop_last()) is Some && conversed(
        operation,
        root,
        answers.drop_last(),
    ))
}

/// Whether a file is the status record of a directory or lies within it.
pub open spec fn in_dir(file: Seq<char>, dir: Seq<char>) -> bool {
    file == entry_path(dir, "state.json"@) || within(file, dir)
}

/// The status records by file, after an answer to a question. A question that is
/// answered with a failure changes nothing.
pub open spec fn effect(
    records: Map<Seq<char>, Status>,
    ask: Option<RuntimeAsk>,
    answer: RuntimeAnswer,
) -> Map<Seq<char>, Status> {
    match (ask, answer) {
        (Some(RuntimeAsk::SaveStatus { path, status, .. }), RuntimeAnswer::Done) => records.insert(
            path,
            status,
        ),
        (Some(RuntimeAsk::RemoveDirAll(dir)), RuntimeAnswer::Done) => records.restrict(
            Set::new(|file: Seq<char>| !in_dir(file, dir)),
        ),
        _ => records,
    }
}

/// The status records by file, after the answers to an operation's questions.
pub open spec fn records_after(
    operation: Operation,
    root: Seq<char>,
    records: Map<Seq<char>, Status>,
    answers: Seq<RuntimeAnswer>,
) -> Map<Seq<char>, Status>
    decreases answers.len(),
{
    if answers.len() == 0 {
        records
    } else {
        let front = answers.drop_last();
        effect(
            records_after(operation, root, records, front),
            asks(operation, root, front),
            answers.last(),
        )
    }
}

/// Whether two sets of records are the same but for one file.
pub open spec fn same_elsewhere(
    before: Map<Seq<char>, Status>,
    after: Map<Seq<char>, Status>,
    file: Seq<char>,
) -> bool {
    forall|other: Seq<char>|
        other != file ==> {
            &&& #[trigger] after.contains_key(other) == before.contains_key(other)
            &&& after.contains_key(other) ==> after[other] == before[other]
        }
}

/// Whether a question changes no record, whatever the answer.
spec fn harmless(ask: RuntimeAsk) -> bool {
    !(ask is SaveStatus) && !(ask is RemoveDirAll)
}

proof fn waits_are_harmless(path: Seq<char>, limit: nat, answers: Seq<RuntimeAnswer>)
    ensures
        poll_progress(path, limit, answers) matches RuntimeProgress::Ask(ask) ==> harmless(ask),
        wait_progress(path, answers) matches RuntimeProgress::Ask(ask) ==> harmless(ask),
    decreases answers.len(),
{
    if answers.len() > 1 {
        waits_are_harmless(path, limit, answers.skip(2));
    }
}

proof fn hooks_are_harmless(
    hooks: Seq<HookModel>,
    input: Seq<char>,
    answers: Seq<RuntimeAnswer>,
)
    ensures
        hooks_progress(hooks, input, answers) matches RuntimeProgress::Ask(ask) ==> harmless(ask),
    decreases hooks.len(),
{
    if hooks.len() > 0 {
        let hook = hooks[0];
        if answers.len() > 0 {
            waits_are_harmless(hook.path, 0, answers.skip(1));
            if let Some(timeout) = hook.timeout {
                waits_are_harmless(
                    hook.path,
                    hook_limit(timeout),
                    answers.skip(1),
                );
            }
        }
        if let RuntimeProgress::Passed(rest) = hook_progress(hook, input, answers) {
            hooks_are_harmless(hooks.skip(1), input, rest);
        }
    }
}

/// Running hooks changes no record.
proof fn running_is_harmless(hooks: Seq<HookModel>, status: Status, answers: Seq<RuntimeAnswer>)
    ensures
        run_progress(hooks, status, answers) matches RuntimeProgress::Ask(ask) ==> harmless(ask),
{
    if answers.len() > 0 && answers[0] is Text {
        hooks_are_harmless(hooks, answers[0]->Text_0, answers.skip(1));
    }
}

/// What a creation asks to save is the record of the container that is being
/// created, and it removes nothing.
proof fn creation_saves_its_own_record(
    root: Seq<char>,
    id: Seq<char>,
    bundle: Seq<char>,
    answers: Seq<RuntimeAnswer>,
)
    ensures
        create_turn(root, id, bundle, answers) matches Turn::Ask(ask) ==> match ask {
            RuntimeAsk::SaveStatus { path, status, .. } => path == record_path(root, id)
                && status.id == id,
            RuntimeAsk::RemoveDirAll(_) => false,
            _ => true,
        },
{
    if answers.len() > 0 && answers[0] == RuntimeAnswer::Exists(false) {
        if let RuntimeProgress::Passed(rest) = spec_progress(bundle, answers.skip(1)) {
            let spec = answers[2]->Spec_0;
            if rest.len() > 1 && rest[0] is Text {
                let status = new_status(
                    id,
                    bundle,
                    spec,
                    rest[0]->Text_0,
                );
                if let Some(hooks) = prestart_of(spec) {
                    running_is_harmless(hooks, status, rest.skip(2));
                }
            }
        }
    }
}

proof fn creation_touches_one_record(
    root: Seq<char>,
    id: Seq<char>,
    bundle: Seq<char>,
    records: Map<Seq<char>, Status>,
    answers: Seq<RuntimeAnswer>,
)
    ensures
        same_elsewhere(
            records,
            records_after(Operation::Create { id, bundle }, root, records, answers),
            record_path(root, id),
        ),
    decreases answers.len(),
{
    if answers.len() > 0 {
        creation_touches_one_record(root, id, bundle, records, answers.drop_last());
        creation_saves_its_own_record(root, id, bundle, answers.drop_last());
    }
}

proof fn poll_keeps_the_rest(path: Seq<char>, limit: nat, answers: Seq<RuntimeAnswer>)
    requires
        poll_progress(path, limit, answers) is Passed,
    ensures
        ({
            let rest = poll_progress(path, limit, answers)->Passed_0;
            &&& rest.len() < answers.len()
            &&& rest.len() > 0 ==> rest.last() == answers.last()
            &&& rest.len() > 0 ==> poll_progress(path, limit, answers.drop_last())
                == RuntimeProgress::Passed(rest.drop_last())
        }),
    decreases answers.len(),
{
    let front = answers.drop_last();
    let rest = poll_progress(path, limit, answers)->Passed_0;
    if answers[0] is Running {
        poll_keeps_the_rest(path, limit, answers.skip(2));
        if rest.len() > 0 {
            assert(front.skip(2) =~= answers.skip(2).drop_last());
            assert(front[0] == answers[0] && front[1] == answers[1]);
        }
    } else if rest.len() > 0 {
        assert(front[0] == answers[0]);
        assert(front.skip(1) =~= rest.drop_last());
    }
}

proof fn hook_keeps_the_rest(hook: HookModel, input: Seq<char>, answers: Seq<RuntimeAnswer>)
    requires
        hook_progress(hook, input, answers) is Passed,
    ensures
        ({
            let rest = hook_progress(hook, input, answers)->Passed_0;
            &&& rest.len() < answers.len()
            &&& rest.len() > 0 ==> rest.last() == answers.last()
            &&& rest.len() > 0 ==> hook_progress(hook, input, answers.drop_last())
                == RuntimeProgress::Passed(rest.drop_last())
        }),
{
    let front = answers.drop_last();
    let rest = hook_progress(hook, input, answers)->Passed_0;
    let inner = answers.skip(1);
    match hook.timeout {
        Some(timeout) => {
            poll_keeps_the_rest(hook.path, hook_limit(timeout), inner);
        },
        None => {
            if rest.len() > 0 {
                assert(inner.drop_last()[0] == inner[0]);
                assert(inner.drop_last().skip(1) =~= rest.drop_last());
            }
        },
    }
    if rest.len() > 0 {
        assert(front[0] == answers[0]);
        assert(front.skip(1) =~= inner.drop_last());
    }
}

proof fn hooks_keep_the_rest(
    hooks: Seq<HookModel>,
    input: Seq<char>,
    answers: Seq<RuntimeAnswer>,
)
    requires
        hooks_progress(hooks, input, answers) is Passed,
    ensures
        ({
            let rest = hooks_progress(hooks, input, answers)->Passed_0;
            &&& rest.len() <= answers.len()
            &&& rest.len() > 0 ==> rest.last() == answers.last()
            &&& rest.len() > 0 ==> hooks_progress(hooks, input, answers.drop_last())
                == RuntimeProgress::Passed(rest.drop_last())
        }),
    decreases hooks.len(),
{
    if hooks.len() > 0 {
        hook_keeps_the_rest(hooks[0], input, answers);
        let middle = hook_progress(hooks[0], input, answers)->Passed_0;
        hooks_keep_the_rest(hooks.skip(1), input, middle);
    }
}

proof fn running_keeps_the_rest(
    hooks: Seq<HookModel>,
    status: Status,
    answers: Seq<RuntimeAnswer>,
)
    requires
        run_progress(hooks, status, answers) is Passed,
    ensures
        ({
            let rest = run_progress(hooks, status, answers)->Passed_0;
            &&& rest.len() < answers.len()
            &&& rest.len() > 0 ==> rest.last() == answers.last()
            &&& rest.len() > 0 ==> run_progress(hooks, status, answers.drop_last())
                == RuntimeProgress::Passed(rest.drop_last())
        }),
{
    let front = answers.drop_last();
    let inner = answers.skip(1);
    let rest = run_progress(hooks, status, answers)->Passed_0;
    hooks_keep_the_rest(hooks, answers[0]->Text_0, inner);
    if rest.len() > 0 {
        assert(front[0] == answers[0]);
        assert(front.skip(1) =~= inner.drop_last());
    }
}

/// The last question of a creation saves the record that the creation returns.
proof fn creation_last_question(
    root: Seq<char>,
    id: Seq<char>,
    bundle: Seq<char>,
    answers: Seq<RuntimeAnswer>,
    status: Status,
)
    requires
        answers.len() > 0,
        create_turn(root, id, bundle, answers) == Turn::<RuntimeAsk, Status>::Done(status),
        create_turn(root, id, bundle, answers.drop_last()) is Ask,
    ensures
        status.id == id,
        status.bundle == bundle,
        status.state == ContainerState::Created,
        status.pid is None,
        create_turn(root, id, bundle, answers.drop_last()) == Turn::<RuntimeAsk, Status>::Ask(
            save_ask(root, status),
        ),
        answers.last() == RuntimeAnswer::Done,
{
    let front = answers.drop_last();
    let inner = answers.skip(1);
    let tail = answers.skip(3);
    assert(inner.skip(2) =~= tail);
    assert(inner[0] == answers[1] && inner[1] == answers[2]);
    assert(spec_progress(bundle, inner) == RuntimeProgress::Passed(tail));
    let spec = answers[2]->Spec_0;
    let fresh = new_status(id, bundle, spec, tail[0]->Text_0);
    let end = tail.skip(2);
    match prestart_of(spec) {
        None => {
            assert(end.len() > 0);
        },
        Some(hooks) => {
            running_keeps_the_rest(hooks, fresh, end);
        },
    }
    assert(front[0] == answers[0]);
    assert(front.skip(1)[0] == inner[0] && front.skip(1)[1] == inner[1]);
    assert(front[2] == answers[2]);
    assert(front.skip(1).skip(2) =~= tail.drop_last());
    assert(tail.drop_last()[0] == tail[0] && tail.drop_last()[1] == tail[1]);
    assert(tail.drop_last().skip(2) =~= end.drop_last());
    let last = match prestart_of(spec) {
        None => end,
        Some(hooks) => run_progress(hooks, fresh, end)->Passed_0,
    };
    assert(last.len() > 0 && must_work(last[0]) is None);
    if last.len() > 1 {
        assert(last.drop_last()[0] == last[0]);
        assert(create_turn(root, id, bundle, front) is Done);
    }
    assert(last.last() == answers.last());
}

/// A creation that is done has left a record with the state `Created` for the
/// container, the very record that it returns, and has changed no other record.
pub proof fn creation_leaves_a_created_record(
    root: Seq<char>,
    id: Seq<char>,
    bundle: Seq<char>,
    records: Map<Seq<char>, Status>,
    answers: Seq<RuntimeAnswer>,
    status: Status,
)
    requires
        conversed(Operation::Create { id, bundle }, root, answers),
        create_turn(root, id, bundle, answers) == Turn::<RuntimeAsk, Status>::Done(status),
    ensures
        status.id == id,
        status.bundle == bundle,
        status.state == ContainerState::Created,
        status.pid is None,
        records_after(Operation::Create { id, bundle }, root, records, answers)
            == records.insert(record_path(root, id), status),
{
    let operation = Operation::Create { id, bundle };
    let front = answers.drop_last();
    creation_touches_one_record(root, id, bundle, records, answers);
    creation_last_question(root, id, bundle, answers, status);
    assert(records_after(operation, root, records, answers) =~= records.insert(
        record_path(root, id),
        status,
    ));
}

/// The records at each point of a start.
spec fn start_records(
    root: Seq<char>,
    records: Map<Seq<char>, Status>,
    answers: Seq<RuntimeAnswer>,
) -> Map<Seq<char>, Status> {
    let running = started(answers[1]->Status_0, answers[4]->Pid_0);
    if answers.len() <= 5 {
        records
    } else if answers.len() == 6 {
        effect(records, Some(save_ask(root, running)), answers[5])
    } else {
        records.insert(record_path(root, running.id), running)
    }
}

proof fn start_follows_its_records(
    root: Seq<char>,
    id: Seq<char>,
    os: Seq<char>,
    records: Map<Seq<char>, Status>,
    answers: Seq<RuntimeAnswer>,
)
    requires
        conversed(Operation::Start { id, os }, root, answers),
    ensures
        records_after(Operation::Start { id, os }, root, records, answers) == start_records(
            root,
            records,
            answers,
        ),
    decreases answers.len(),
{
    if answers.len() > 0 {
        let front = answers.drop_last();
        let n = answers.len();
        start_follows_its_records(root, id, os, records, front);
        assert(forall|i: int| 0 <= i < n - 1 ==> front[i] == answers[i]);
        let rest = front.skip(2);
        let left = rest.skip(2);
        if n > 3 {
            assert(rest[0] == front[2]);
        }
        if n > 4 {
            assert(rest[1] == front[3]);
        }
        if n > 5 {
            assert(left[0] == front[4]);
        }
        if n > 6 {
            let running = started(front[1]->Status_0, front[4]->Pid_0);
            assert(left.skip(1)[0] == front[5]);
            if let Some(hooks) = poststart_of(front[3]->Spec_0) {
                running_is_harmless(hooks, running, left.skip(1).skip(1));
            }
        }
    }
}

/// A start that is done has found a record with the state `Created`, and has left
/// it with the state `Running` and the id of the process that was started. It has
/// changed no other record.
pub proof fn start_leaves_a_running_record(
    root: Seq<char>,
    id: Seq<char>,
    os: Seq<char>,
    records: Map<Seq<char>, Status>,
    answers: Seq<RuntimeAnswer>,
)
    requires
        conversed(Operation::Start { id, os }, root, answers),
        start_turn(root, id, os, answers) is Done,
    ensures
        answers[1] is Status,
        answers[4] is Pid,
        answers[1]->Status_0.state == ContainerState::Created,
        records_after(Operation::Start { id, os }, root, records, answers) == records.insert(
            record_path(root, answers[1]->Status_0.id),
            started(answers[1]->Status_0, answers[4]->Pid_0),
        ),
{
    start_follows_its_records(root, id, os, records, answers);
    let rest = answers.skip(2);
    let left = rest.skip(2);
    assert(rest[1] == answers[3]);
    assert(left[0] == answers[4]);
    assert(left.skip(1)[0] == answers[5]);
}

/// A start that fails, for whatever reason, changes no record: a container is in the
/// state `Running` afterwards only if it was before.
pub proof fn failed_start_changes_nothing(
    root: Seq<char>,
    id: Seq<char>,
    os: Seq<char>,
    records: Map<Seq<char>, Status>,
    answers: Seq<RuntimeAnswer>,
)
    requires
        conversed(Operation::Start { id, os }, root, answers),
        start_turn(root, id, os, answers) is Fail || start_turn(root, id, os, answers) is Rethrow,
    ensures
        records_after(Operation::Start { id, os }, root, records, answers) == records,
{
    start_follows_its_records(root, id, os, records, answers);
    let rest = answers.skip(2);
    let left = rest.skip(2);
    if answers.len() > 3 {
        assert(rest[1] == answers[3]);
    }
    if answers.len() > 4 {
        assert(left[0] == answers[4]);
    }
    if answers.len() > 5 {
        assert(left.skip(1)[0] == answers[5]);
        conversed_at(Operation::Start { id, os }, root, answers, 5);
        let five = answers.take(5);
        assert(five[0] == answers[0] && five[1] == answers[1]);
        assert(five.skip(2)[0] == answers[2] && five.skip(2)[1] == answers[3]);
        assert(five.skip(2).skip(2)[0] == answers[4]);
    }
}

/// A container that is not in the state `Created` cannot be started: the error
/// names the transition that is not allowed, and no record changes.
pub proof fn start_is_refused_unless_created(
    root: Seq<char>,
    id: Seq<char>,
    os: Seq<char>,
    records: Map<Seq<char>, Status>,
    answers: Seq<RuntimeAnswer>,
)
    requires
        conversed(Operation::Start { id, os }, root, answers),
        answers.len() >= 4,
        answers[1] is Status,
        answers[3] is Spec,
        answers[1]->Status_0.state != ContainerState::Created,
    ensures
        start_turn(root, id, os, answers) == Turn::<RuntimeAsk, ()>::Fail(
            Failure::InvalidStateTransition {
                from: state_name(answers[1]->Status_0.state),
                to: "running"@,
            },
        ),
        records_after(Operation::Start { id, os }, root, records, answers) == records,
{
    let operation = Operation::Start { id, os };
    let rest = answers.skip(2);
    conversed_at(operation, root, answers, 1);
    conversed_at(operation, root, answers, 3);
    assert(rest[0] == answers[2] && rest[1] == answers[3]);
    assert(answers.take(3).skip(2)[0] == answers[2]);
    assert(answers.take(3)[0] == answers[0] && answers.take(3)[1] == answers[1]);
    if answers.len() > 4 {
        conversed_at(operation, root, answers, 4);
        let four = answers.take(4);
        assert(four[0] == answers[0] && four[1] == answers[1]);
        assert(four.skip(2)[0] == answers[2] && four.skip(2)[1] == answers[3]);
    }
    start_follows_its_records(root, id, os, records, answers);
}

/// Every prefix of the answers but the whole ends in a question.
proof fn conversed_at(
    operation: Operation,
    root: Seq<char>,
    answers: Seq<RuntimeAnswer>,
    at: int,
)
    requires
        conversed(operation, root, answers),
        0 <= at < answers.len(),
    ensures
        asks(operation, root, answers.take(at)) is Some,
    decreases answers.len(),
{
    let front = answers.drop_last();
    if at == answers.len() - 1 {
        assert(answers.take(at) =~= front);
    } else {
        assert(answers.take(at) =~= front.take(at));
        conversed_at(operation, root, front, at);
    }
}

/// The id of a container whose record exists is taken: a creation is refused and
/// changes no record.
pub proof fn creation_is_refused_for_a_taken_id(
    root: Seq<char>,
    id: Seq<char>,
    bundle: Seq<char>,
    records: Map<Seq<char>, Status>,
    answers: Seq<RuntimeAnswer>,
)
    requires
        conversed(Operation::Create { id, bundle }, root, answers),
        answers.len() > 0,
        answers[0] == RuntimeAnswer::Exists(true),
    ensures
        create_turn(root, id, bundle, answers) == Turn::<RuntimeAsk, Status>::Fail(
            Failure::Runtime("container '"@ + id + "' already exists"@),
        ),
        records_after(Operation::Create { id, bundle }, root, records, answers) == records,
{
    let operation = Operation::Create { id, bundle };
    if answers.len() > 1 {
        conversed_at(operation, root, answers, 1);
        assert(answers.take(1)[0] == answers[0]);
    }
    assert(answers.drop_last().len() == 0);
    assert(records_after(operation, root, records, answers.drop_last()) == records);
}

/// A query changes no record, whatever the host answers.
pub proof fn query_changes_nothing(
    root: Seq<char>,
    id: Seq<char>,
    records: Map<Seq<char>, Status>,
    answers: Seq<RuntimeAnswer>,
)
    ensures
        records_after(Operation::State { id }, root, records, answers) == records,
    decreases answers.len(),
{
    if answers.len() > 0 {
        query_changes_nothing(root, id, records, answers.drop_last());
    }
}

proof fn listing_is_harmless(
    root: Seq<char>,
    left: Seq<Entry>,
    found: Seq<Status>,
    answers: Seq<RuntimeAnswer>,
)
    ensures
        list_rest(root, left, found, answers) matches Turn::Ask(ask) ==> harmless(ask),
    decreases left.len(),
{
    if left.len() > 0 {
        listing_is_harmless(root, left.skip(1), found, answers);
        if answers.len() > 0 {
            listing_is_harmless(root, left.skip(1), found, answers.skip(1));
        }
        if answers.len() > 1 {
            listing_is_harmless(root, left.skip(1), found, answers.skip(2));
            if let RuntimeAnswer::Status(status) = answers[1] {
                listing_is_harmless(root, left.skip(1), found.push(status), answers.skip(2));
            }
        }
    }
}

/// A listing changes no record, whatever the host answers.
pub proof fn listing_changes_nothing(
    root: Seq<char>,
    records: Map<Seq<char>, Status>,
    answers: Seq<RuntimeAnswer>,
)
    ensures
        records_after(Operation::List, root, records, answers) == records,
    decreases answers.len(),
{
    if answers.len() > 0 {
        let front = answers.drop_last();
        listing_changes_nothing(root, records, front);
        if front.len() > 1 && front[1] is Entries {
            listing_is_harmless(root, front[1]->Entries_0, Seq::empty(), front.skip(2));
        }
    }
}

/// A container that is not in the state `Stopped` cannot be deleted: the error says
/// so, and no record changes.
pub proof fn deletion_is_refused_unless_stopped(
    root: Seq<char>,
    id: Seq<char>,
    records: Map<Seq<char>, Status>,
    answers: Seq<RuntimeAnswer>,
)
    requires
        conversed(Operation::Delete { id }, root, answers),
        answers.len() >= 2,
        answers[1] is Status,
        answers[1]->Status_0.state != ContainerState::Stopped,
    ensures
        delete_turn(root, id, answers) == Turn::<RuntimeAsk, ()>::Fail(
            Failure::Runtime(
                "cannot delete container '"@ + id + "' in state '"@ + state_name(
                    answers[1]->Status_0.state,
                ) + "'; must be stopped"@,
            ),
        ),
        records_after(Operation::Delete { id }, root, records, answers) == records,
{
    let operation = Operation::Delete { id };
    conversed_at(operation, root, answers, 1);
    assert(answers.take(1)[0] == answers[0]);
    if answers.len() > 2 {
        conversed_at(operation, root, answers, 2);
        assert(answers.take(2)[0] == answers[0] && answers.take(2)[1] == answers[1]);
    }
    reveal_with_fuel(records_after, 3);
    let one = answers.drop_last();
    assert(one[0] == answers[0]);
    assert(one.drop_last().len() == 0);
}

/// A deletion that is done has found a record with the state `Stopped`. When the
/// container's directory exists, it and every record in it is gone; no other record
/// changes.
pub proof fn deletion_removes_a_stopped_record(
    root: Seq<char>,
    id: Seq<char>,
    records: Map<Seq<char>, Status>,
    answers: Seq<RuntimeAnswer>,
)
    requires
        conversed(Operation::Delete { id }, root, answers),
        delete_turn(root, id, answers) is Done,
    ensures
        answers[1] is Status,
        answers[1]->Status_0.state == ContainerState::Stopped,
        records_after(Operation::Delete { id }, root, records, answers) == (if answers[2]
            == RuntimeAnswer::Exists(true) {
            records.restrict(Set::new(|file: Seq<char>| !in_dir(file, container_path(root, id))))
        } else {
            records
        }),
{
    let operation = Operation::Delete { id };
    let rest = answers.skip(2);
    assert(rest[0] == answers[2]);
    if answers.len() > 3 {
        assert(rest[1] == answers[3]);
        conversed_at(operation, root, answers, 3);
        let three = answers.take(3);
        assert(three[0] == answers[0] && three[1] == answers[1]);
        assert(three.skip(2)[0] == answers[2]);
    }
    if answers.len() > 4 {
        conversed_at(operation, root, answers, 4);
        let four = answers.take(4);
        assert(four[0] == answers[0] && four[1] == answers[1]);
        assert(four.skip(2)[0] == answers[2] && four.skip(2)[1] == answers[3]);
    }
    reveal_with_fuel(records_after, 5);
    let a = answers.drop_last();
    assert(a[0] == answers[0] && a[1] == answers[1]);
    if answers.len() == 4 {
        assert(a[2] == answers[2]);
        assert(a.skip(2)[0] == answers[2]);
        assert(a.skip(2).len() == 1);
    }
    let b = a.drop_last();
    assert(b[0] == answers[0]);
    let c = b.drop_last();
    assert(answers.len() == 4 ==> b[1] == answers[1] && c[0] == answers[0]);
}

proof fn await_is_harmless(pid: u32, limit: Span, answers: Seq<RuntimeAnswer>)
    ensures
        await_progress(pid, limit, answers) matches RuntimeProgress::Ask(ask) ==> harmless(ask),
    decreases answers.len(),
{
    if answers.len() > 1 {
        await_is_harmless(pid, limit, answers.skip(2));
    }
}

proof fn await_passes_on(pid: u32, limit: Span, answers: Seq<RuntimeAnswer>, answer: RuntimeAnswer)
    requires
        await_progress(pid, limit, answers) is Passed,
    ensures
        await_progress(pid, limit, answers.push(answer)) == RuntimeProgress::Passed(
            (await_progress(pid, limit, answers)->Passed_0).push(answer),
        ),
    decreases answers.len(),
{
    let longer = answers.push(answer);
    assert(longer[0] == answers[0]);
    assert(longer.skip(1) =~= answers.skip(1).push(answer));
    if answers[0] is Running {
        assert(longer[1] == answers[1]);
        assert(longer.skip(2) =~= answers.skip(2).push(answer));
        if let RuntimeAnswer::Running { secs, nanos } = answers[0] {
            if !overdue(secs, nanos, limit) {
                await_passes_on(pid, limit, answers.skip(2), answer);
            }
        }
    }
}

proof fn await_keeps_the_rest(pid: u32, limit: Span, answers: Seq<RuntimeAnswer>)
    requires
        await_progress(pid, limit, answers) is Passed,
    ensures
        ({
            let rest = await_progress(pid, limit, answers)->Passed_0;
            &&& rest.len() < answers.len()
            &&& rest.len() > 0 ==> await_progress(pid, limit, answers.drop_last()) is Passed
        }),
    decreases answers.len(),
{
    let front = answers.drop_last();
    let rest = await_progress(pid, limit, answers)->Passed_0;
    if let RuntimeAnswer::Running { secs, nanos } = answers[0] {
        if !overdue(secs, nanos, limit) {
            await_keeps_the_rest(pid, limit, answers.skip(2));
        }
        if rest.len() > 0 {
            assert(front.skip(2) =~= answers.skip(2).drop_last());
            assert(front[0] == answers[0] && front[1] == answers[1]);
        }
    } else if rest.len() > 0 {
        assert(front[0] == answers[0]);
    }
}

/// How far a stop has come up to the point where the process is gone.
spec fn gone(
    signal: i32,
    fault: Option<Seq<char>>,
    limit: Span,
    os: Seq<char>,
    answers: Seq<RuntimeAnswer>,
) -> RuntimeProgress {
    let status = answers[1]->Status_0;
    if os == "linux"@ && status.pid is Some {
        stop_progress(status.pid->Some_0, signal, fault, limit, answers.skip(2))
    } else {
        RuntimeProgress::Passed(answers.skip(2))
    }
}

proof fn gone_passes_on(
    signal: i32,
    fault: Option<Seq<char>>,
    limit: Span,
    os: Seq<char>,
    answers: Seq<RuntimeAnswer>,
    answer: RuntimeAnswer,
)
    requires
        answers.len() >= 2,
        gone(signal, fault, limit, os, answers) is Passed,
    ensures
        gone(signal, fault, limit, os, answers.push(answer)) == RuntimeProgress::Passed(
            (gone(signal, fault, limit, os, answers)->Passed_0).push(answer),
        ),
{
    let longer = answers.push(answer);
    let status = answers[1]->Status_0;
    assert(longer[1] == answers[1]);
    assert(longer.skip(2) =~= answers.skip(2).push(answer));
    if os == "linux"@ && status.pid is Some {
        let inner = answers.skip(2);
        assert(inner.push(answer)[0] == inner[0]);
        assert(inner.push(answer).skip(1) =~= inner.skip(1).push(answer));
        await_passes_on(status.pid->Some_0, limit, inner.skip(1), answer);
    }
}

proof fn gone_keeps_the_rest(
    signal: i32,
    fault: Option<Seq<char>>,
    limit: Span,
    os: Seq<char>,
    answers: Seq<RuntimeAnswer>,
)
    requires
        answers.len() > 2,
        gone(signal, fault, limit, os, answers) is Passed,
        (gone(signal, fault, limit, os, answers)->Passed_0).len() > 0,
    ensures
        gone(signal, fault, limit, os, answers.drop_last()) is Passed,
{
    let front = answers.drop_last();
    let status = answers[1]->Status_0;
    assert(front[1] == answers[1]);
    if os == "linux"@ && status.pid is Some {
        let inner = answers.skip(2);
        await_keeps_the_rest(status.pid->Some_0, limit, inner.skip(1));
        assert(front.skip(2)[0] == inner[0]);
        assert(front.skip(2).skip(1) =~= inner.skip(1).drop_last());
    }
}

/// The record of a container that was loaded, as the state `Stopped` leaves it at
/// first.
pub open spec fn as_stopped(status: Status) -> Status {
    Status { state: ContainerState::Stopped, ..status }
}

/// The records at each point of a stop, when `rest` holds the answers since the
/// process was gone.
spec fn stop_records(
    root: Seq<char>,
    records: Map<Seq<char>, Status>,
    status: Status,
    rest: Seq<RuntimeAnswer>,
) -> Map<Seq<char>, Status> {
    let stopped = as_stopped(status);
    let cleared = Status { pid: None, ..stopped };
    let file = record_path(root, status.id);
    if rest.len() == 0 {
        records
    } else if rest.len() == 1 {
        effect(records, Some(save_ask(root, stopped)), rest[0])
    } else if rest.len() == 2 {
        effect(records.insert(file, stopped), Some(save_ask(root, cleared)), rest[1])
    } else {
        records.insert(file, cleared)
    }
}

proof fn poststop_is_harmless(status: Status, answers: Seq<RuntimeAnswer>)
    ensures
        run_poststop(status, answers) matches Turn::Ask(ask) ==> harmless(ask),
{
    if let RuntimeProgress::Passed(rest) = spec_progress(status.bundle, answers) {
        if let Some(hooks) = poststop_of(answers[1]->Spec_0) {
            running_is_harmless(hooks, status, rest);
        }
    }
}

proof fn stop_follows_its_records(
    root: Seq<char>,
    id: Seq<char>,
    signal: i32,
    fault: Option<Seq<char>>,
    limit: Span,
    os: Seq<char>,
    records: Map<Seq<char>, Status>,
    answers: Seq<RuntimeAnswer>,
)
    requires
        conversed(Operation::Stop { id, signal, fault, limit, os }, root, answers),
    ensures
        records_after(Operation::Stop { id, signal, fault, limit, os }, root, records, answers)
            == (if answers.len() >= 2 && gone(signal, fault, limit, os, answers) is Passed {
            stop_records(
                root,
                records,
                answers[1]->Status_0,
                gone(signal, fault, limit, os, answers)->Passed_0,
            )
        } else {
            records
        }),
    decreases answers.len(),
{
    if answers.len() > 0 {
        let front = answers.drop_last();
        let last = answers.last();
        stop_follows_its_records(root, id, signal, fault, limit, os, records, front);
        assert(front.push(last) =~= answers);
        if front.len() >= 2 {
            let status = front[1]->Status_0;
            assert(answers[1] == front[1]);
            assert(answers.skip(2) =~= front.skip(2).push(last));
            if gone(signal, fault, limit, os, front) is Passed {
                gone_passes_on(signal, fault, limit, os, front, last);
                let rest = gone(signal, fault, limit, os, front)->Passed_0;
                let longer = rest.push(last);
                let stopped = as_stopped(status);
                let cleared = Status { pid: None, ..stopped };
                let file = record_path(root, status.id);
                if rest.len() > 0 {
                    assert(longer[0] == rest[0]);
                }
                if rest.len() > 1 {
                    assert(longer[1] == rest[1]);
                    poststop_is_harmless(cleared, rest.skip(2));
                    assert(records.insert(file, stopped).insert(file, cleared) =~= records.insert(
                        file,
                        cleared,
                    ));
                }
            } else {
                if gone(signal, fault, limit, os, answers) is Passed {
                    let rest = gone(signal, fault, limit, os, answers)->Passed_0;
                    if rest.len() > 0 {
                        gone_keeps_the_rest(signal, fault, limit, os, answers);
                    }
                }
                if front.skip(2).len() > 0 {
                    await_is_harmless(status.pid->Some_0, limit, front.skip(2).skip(1));
                }
            }
        } else if answers.len() == 2 {
            assert(answers.skip(2).len() == 0);
        }
    }
}

/// A stop that is done has found a record with the state `Running`, and has left it
/// with the state `Stopped` and without a process id. It has changed no other
/// record.
pub proof fn stop_leaves_a_stopped_record(
    root: Seq<char>,
    id: Seq<char>,
    signal: i32,
    fault: Option<Seq<char>>,
    limit: Span,
    os: Seq<char>,
    records: Map<Seq<char>, Status>,
    answers: Seq<RuntimeAnswer>,
)
    requires
        conversed(Operation::Stop { id, signal, fault, limit, os }, root, answers),
        stop_turn(root, id, signal, fault, limit, os, answers) is Done,
    ensures
        answers[1] is Status,
        answers[1]->Status_0.state == ContainerState::Running,
        records_after(Operation::Stop { id, signal, fault, limit, os }, root, records, answers)
            == records.insert(
            record_path(root, answers[1]->Status_0.id),
            Status { state: ContainerState::Stopped, pid: None, ..answers[1]->Status_0 },
        ),
{
    stop_follows_its_records(root, id, signal, fault, limit, os, records, answers);
    let rest = gone(signal, fault, limit, os, answers)->Passed_0;
    let stopped = as_stopped(answers[1]->Status_0);
    let cleared = Status { pid: None, ..stopped };
    let file = record_path(root, stopped.id);
    assert(rest.len() > 2);
}

/// A container that is not in the state `Running` cannot be stopped: a stop of it is
/// never done, and no record changes.
pub proof fn stop_is_refused_unless_running(
    root: Seq<char>,
    id: Seq<char>,
    signal: i32,
    fault: Option<Seq<char>>,
    limit: Span,
    os: Seq<char>,
    records: Map<Seq<char>, Status>,
    answers: Seq<RuntimeAnswer>,
)
    requires
        conversed(Operation::Stop { id, signal, fault, limit, os }, root, answers),
        answers.len() >= 2,
        answers[1] is Status,
        answers[1]->Status_0.state != ContainerState::Running,
    ensures
        !(stop_turn(root, id, signal, fault, limit, os, answers) is Done),
        records_after(Operation::Stop { id, signal, fault, limit, os }, root, records, answers)
            == records,
{
    let operation = Operation::Stop { id, signal, fault, limit, os };
    stop_follows_its_records(root, id, signal, fault, limit, os, records, answers);
    conversed_at(operation, root, answers, 1);
    assert(answers.take(1)[0] == answers[0]);
    if gone(signal, fault, limit, os, answers) is Passed {
        let rest = gone(signal, fault, limit, os, answers)->Passed_0;
        if rest.len() > 0 {
            gone_leaves_fewer(signal, fault, limit, os, answers);
            gone_keeps_the_rest(signal, fault, limit, os, answers);
            conversed_at(operation, root, answers, answers.len() - 1);
            let front = answers.drop_last();
            assert(answers.take(answers.len() - 1) =~= front);
            assert(front[0] == answers[0] && front[1] == answers[1]);
        }
    }
}

proof fn gone_leaves_fewer(
    signal: i32,
    fault: Option<Seq<char>>,
    limit: Span,
    os: Seq<char>,
    answers: Seq<RuntimeAnswer>,
)
    requires
        answers.len() >= 2,
        gone(signal, fault, limit, os, answers) is Passed,
    ensures
        (gone(signal, fault, limit, os, answers)->Passed_0).len() <= answers.len() - 2,
{
    let status = answers[1]->Status_0;
    if os == "linux"@ && status.pid is Some {
        await_keeps_the_rest(status.pid->Some_0, limit, answers.skip(2).skip(1));
    }
}

/// Whether a container has an entry among those of the directory of all containers.
pub open spec fn has_entry(list: Seq<Entry>, id: Seq<char>) -> bool {
    exists|i: int| 0 <= i < list.len() && (#[trigger] list[i]).name == id && list[i].is_dir
}

/// Whether the entries of the directory of all containers fit the records: they have
/// names, each a different one, and every container whose record exists is among
/// them.
pub open spec fn entries_fit(
    root: Seq<char>,
    records: Map<Seq<char>, Status>,
    list: Seq<Entry>,
) -> bool {
    &&& forall|i: int| 0 <= i < list.len() ==> plain_name((#[trigger] list[i]).name)
    &&& forall|i: int, j: int|
        0 <= i < j < list.len() ==> (#[trigger] list[i]).name != (#[trigger] list[j]).name
    &&& forall|id: Seq<char>|
        plain_name(id) && records.contains_key(#[trigger] record_path(root, id)) ==> has_entry(
            list,
            id,
        )
}

/// Whether an answer fits the records. A record that exists is found and read as it
/// is, and one that does not exist is not found. The directory of a record exists and
/// is listed. What the answer to any other question is does not matter.
pub open spec fn fits(
    root: Seq<char>,
    records: Map<Seq<char>, Status>,
    ask: Option<RuntimeAsk>,
    answer: RuntimeAnswer,
) -> bool {
    match ask {
        Some(RuntimeAsk::LoadStatus(file)) => answer is Status ==> records.contains_key(file)
            && answer->Status_0 == records[file],
        Some(RuntimeAsk::Exists(file)) => {
            &&& forall|id: Seq<char>|
                file == #[trigger] record_path(root, id) ==> answer == RuntimeAnswer::Exists(
                    records.contains_key(file),
                )
            &&& forall|id: Seq<char>|
                file == #[trigger] container_path(root, id) && records.contains_key(
                    record_path(root, id),
                ) ==> answer == RuntimeAnswer::Exists(true)
            &&& forall|id: Seq<char>|
                file == containers_path(root) && plain_name(id) && records.contains_key(
                    #[trigger] record_path(root, id),
                ) ==> answer == RuntimeAnswer::Exists(true)
        },
        Some(RuntimeAsk::ListDir(dir)) => dir == containers_path(root) && answer is Entries
            ==> entries_fit(root, records, answer->Entries_0),
        _ => true,
    }
}

/// Whether every answer was given to a question and fits the records as they were
/// when it was given.
pub open spec fn faithful(
    operation: Operation,
    root: Seq<char>,
    records: Map<Seq<char>, Status>,
    answers: Seq<RuntimeAnswer>,
) -> bool
    decreases answers.len(),
{
    if answers.len() == 0 {
        true
    } else {
        let front = answers.drop_last();
        &&& asks(operation, root, front) is Some
        &&& fits(
            root,
            records_after(operation, root, records, front),
            asks(operation, root, front),
            answers.last(),
        )
        &&& faithful(operation, root, records, front)
    }
}

proof fn faithful_conversed(
    operation: Operation,
    root: Seq<char>,
    records: Map<Seq<char>, Status>,
    answers: Seq<RuntimeAnswer>,
)
    requires
        faithful(operation, root, records, answers),
    ensures
        conversed(operation, root, answers),
    decreases answers.len(),
{
    if answers.len() > 0 {
        faithful_conversed(operation, root, records, answers.drop_last());
    }
}

proof fn faithful_at(
    operation: Operation,
    root: Seq<char>,
    records: Map<Seq<char>, Status>,
    answers: Seq<RuntimeAnswer>,
    at: int,
)
    requires
        faithful(operation, root, records, answers),
        0 <= at < answers.len(),
    ensures
        asks(operation, root, answers.take(at)) is Some,
        fits(
            root,
            records_after(operation, root, records, answers.take(at)),
            asks(operation, root, answers.take(at)),
            answers[at],
        ),
    decreases answers.len(),
{
    let front = answers.drop_last();
    if at == answers.len() - 1 {
        assert(answers.take(at) =~= front);
    } else {
        assert(answers.take(at) =~= front.take(at));
        assert(front[at] == answers[at]);
        faithful_at(operation, root, records, front, at);
    }
}

/// The operation reads the status record of its container first.
pub open spec fn reads_first(operation: Operation) -> bool {
    operation is Start || operation is Stop || operation is Delete || operation is State
}

/// The container of an operation; a listing has none.
pub open spec fn subject(operation: Operation) -> Seq<char> {
    match operation {
        Operation::Create { id, .. } => id,
        Operation::Start { id, .. } => id,
        Operation::Stop { id, .. } => id,
        Operation::Delete { id } => id,
        Operation::State { id } => id,
        Operation::List => Seq::empty(),
    }
}

/// What a host that answers from the records says to the first two questions.
proof fn first_answers_come_from_the_records(
    operation: Operation,
    root: Seq<char>,
    records: Map<Seq<char>, Status>,
    answers: Seq<RuntimeAnswer>,
)
    requires
        reads_first(operation),
        faithful(operation, root, records, answers),
        answers.len() > 0,
    ensures
        answers[0] == RuntimeAnswer::Exists(
            records.contains_key(record_path(root, subject(operation))),
        ),
        answers.len() > 1 && answers[1] is Status ==> answers[1]->Status_0 == records[record_path(
            root,
            subject(operation),
        )],
{
    let file = record_path(root, subject(operation));
    faithful_at(operation, root, records, answers, 0);
    assert(answers.take(0).len() == 0);
    assert(asks(operation, root, answers.take(0)) == Some(RuntimeAsk::Exists(file)));
    assert(records_after(operation, root, records, answers.take(0)) == records);
    if answers.len() > 1 {
        faithful_at(operation, root, records, answers, 1);
        let one = answers.take(1);
        assert(one[0] == answers[0]);
        assert(one.drop_last().len() == 0);
        assert(asks(operation, root, one) == Some(RuntimeAsk::LoadStatus(file)));
        reveal_with_fuel(records_after, 2);
        assert(one.drop_last() =~= answers.take(0));
        assert(records_after(operation, root, records, one) == records);
    }
}

/// A query that is done returns the record as it is. A container without a record is
/// not found.
pub proof fn query_reads_the_record_back(
    root: Seq<char>,
    id: Seq<char>,
    records: Map<Seq<char>, Status>,
    answers: Seq<RuntimeAnswer>,
)
    requires
        faithful(Operation::State { id }, root, records, answers),
    ensures
        state_turn(root, id, answers) is Done ==> records.contains_key(record_path(root, id))
            && state_turn(root, id, answers) == Turn::<RuntimeAsk, Status>::Done(
            records[record_path(root, id)],
        ),
        answers.len() > 0 && !records.contains_key(record_path(root, id)) ==> state_turn(
            root,
            id,
            answers,
        ) == Turn::<RuntimeAsk, Status>::Fail(Failure::NotFound(id)),
{
    if answers.len() > 0 {
        first_answers_come_from_the_records(Operation::State { id }, root, records, answers);
    }
}

/// After a creation that is done, a query that is done returns the record that the
/// creation returned.
pub proof fn created_container_can_be_queried(
    root: Seq<char>,
    id: Seq<char>,
    bundle: Seq<char>,
    records: Map<Seq<char>, Status>,
    creation: Seq<RuntimeAnswer>,
    status: Status,
    query: Seq<RuntimeAnswer>,
)
    requires
        conversed(Operation::Create { id, bundle }, root, creation),
        create_turn(root, id, bundle, creation) == Turn::<RuntimeAsk, Status>::Done(status),
        faithful(
            Operation::State { id },
            root,
            records_after(Operation::Create { id, bundle }, root, records, creation),
            query,
        ),
        state_turn(root, id, query) is Done,
    ensures
        state_turn(root, id, query) == Turn::<RuntimeAsk, Status>::Done(status),
        status.id == id,
        status.state == ContainerState::Created,
{
    let after = records_after(Operation::Create { id, bundle }, root, records, creation);
    creation_leaves_a_created_record(root, id, bundle, records, creation, status);
    query_reads_the_record_back(root, id, after, query);
}

/// The whole lifecycle: when a creation, a start, a stop and a deletion of a
/// container have been done one after the other, the record went through the states
/// `Created`, `Running` and `Stopped`, and is gone in the end. A query then does not
/// find the container.
pub proof fn lifecycle_runs_through(
    root: Seq<char>,
    id: Seq<char>,
    bundle: Seq<char>,
    os: Seq<char>,
    signal: i32,
    fault: Option<Seq<char>>,
    limit: Span,
    records: Map<Seq<char>, Status>,
    creation: Seq<RuntimeAnswer>,
    status: Status,
    start: Seq<RuntimeAnswer>,
    stop: Seq<RuntimeAnswer>,
    deletion: Seq<RuntimeAnswer>,
    query: Seq<RuntimeAnswer>,
)
    requires
        conversed(Operation::Create { id, bundle }, root, creation),
        create_turn(root, id, bundle, creation) == Turn::<RuntimeAsk, Status>::Done(status),
        faithful(
            Operation::Start { id, os },
            root,
            records.insert(record_path(root, id), status),
            start,
        ),
        start_turn(root, id, os, start) is Done,
        faithful(
            Operation::Stop { id, signal, fault, limit, os },
            root,
            records.insert(
                record_path(root, id),
                Status {
                    state: ContainerState::Running,
                    pid: Some(start[4]->Pid_0),
                    ..status
                },
            ),
            stop,
        ),
        stop_turn(root, id, signal, fault, limit, os, stop) is Done,
        faithful(
            Operation::Delete { id },
            root,
            records.insert(
                record_path(root, id),
                Status { state: ContainerState::Stopped, pid: None, ..status },
            ),
            deletion,
        ),
        delete_turn(root, id, deletion) is Done,
        query.len() > 0,
        faithful(
            Operation::State { id },
            root,
            records_after(
                Operation::Delete { id },
                root,
                records.insert(
                    record_path(root, id),
                    Status { state: ContainerState::Stopped, pid: None, ..status },
                ),
                deletion,
            ),
            query,
        ),
    ensures
        records_after(Operation::Create { id, bundle }, root, records, creation)
            == records.insert(record_path(root, id), status),
        records_after(
            Operation::Start { id, os },
            root,
            records.insert(record_path(root, id), status),
            start,
        ) == records.insert(
            record_path(root, id),
            Status { state: ContainerState::Running, pid: Some(start[4]->Pid_0), ..status },
        ),
        records_after(
            Operation::Stop { id, signal, fault, limit, os },
            root,
            records.insert(
                record_path(root, id),
                Status {
                    state: ContainerState::Running,
                    pid: Some(start[4]->Pid_0),
                    ..status
                },
            ),
            stop,
        ) == records.insert(
            record_path(root, id),
            Status { state: ContainerState::Stopped, pid: None, ..status },
        ),
        status.state == ContainerState::Created,
        state_turn(root, id, query) == Turn::<RuntimeAsk, Status>::Fail(Failure::NotFound(id)),
{
    let file = record_path(root, id);
    let r1 = records.insert(file, status);
    creation_leaves_a_created_record(root, id, bundle, records, creation, status);
    let starting = Operation::Start { id, os };
    faithful_conversed(starting, root, r1, start);
    start_leaves_a_running_record(root, id, os, r1, start);
    first_answers_come_from_the_records(starting, root, r1, start);
    let running = Status {
        state: ContainerState::Running,
        pid: Some(start[4]->Pid_0),
        ..status
    };
    let r2 = records.insert(file, running);
    assert(r1.insert(file, running) =~= r2);
    let stopping = Operation::Stop { id, signal, fault, limit, os };
    faithful_conversed(stopping, root, r2, stop);
    stop_leaves_a_stopped_record(root, id, signal, fault, limit, os, r2, stop);
    first_answers_come_from_the_records(stopping, root, r2, stop);
    let stopped = Status { state: ContainerState::Stopped, pid: None, ..status };
    let r3 = records.insert(file, stopped);
    assert(r2.insert(file, stopped) =~= r3);
    let deleting = Operation::Delete { id };
    faithful_conversed(deleting, root, r3, deletion);
    deletion_removes_a_stopped_record(root, id, r3, deletion);
    first_answers_come_from_the_records(deleting, root, r3, deletion);
    directory_is_found(root, id, r3, deletion);
    let r4 = records_after(deleting, root, r3, deletion);
    assert(in_dir(file, container_path(root, id)));
    assert(!r4.contains_key(file));
    query_reads_the_record_back(root, id, r4, query);
}

/// A host that answers from the records finds the directory of a record.
proof fn directory_is_found(
    root: Seq<char>,
    id: Seq<char>,
    records: Map<Seq<char>, Status>,
    answers: Seq<RuntimeAnswer>,
)
    requires
        faithful(Operation::Delete { id }, root, records, answers),
        delete_turn(root, id, answers) is Done,
        records.contains_key(record_path(root, id)),
    ensures
        answers[2] == RuntimeAnswer::Exists(true),
{
    let operation = Operation::Delete { id };
    faithful_at(operation, root, records, answers, 2);
    let two = answers.take(2);
    assert(two[0] == answers[0] && two[1] == answers[1]);
    assert(two.skip(2).len() == 0);
    assert(asks(operation, root, two) == Some(RuntimeAsk::Exists(container_path(root, id))));
    reveal_with_fuel(records_after, 3);
    let one = two.drop_last();
    assert(one[0] == answers[0]);
    assert(one.drop_last().len() == 0);
    assert(records_after(operation, root, records, two) == records);
}

/// An operation on a container without a record fails: the container is not found, and
/// no record changes.
pub proof fn missing_container_is_not_found(
    operation: Operation,
    root: Seq<char>,
    records: Map<Seq<char>, Status>,
    answers: Seq<RuntimeAnswer>,
)
    requires
        reads_first(operation),
        faithful(operation, root, records, answers),
        answers.len() > 0,
        !records.contains_key(record_path(root, subject(operation))),
    ensures
        match operation {
            Operation::Start { id, os } => start_turn(root, id, os, answers) == Turn::<
                RuntimeAsk,
                (),
            >::Fail(Failure::NotFound(id)),
            Operation::Stop { id, signal, fault, limit, os } => stop_turn(
                root,
                id,
                signal,
                fault,
                limit,
                os,
                answers,
            ) == Turn::<RuntimeAsk, ()>::Fail(Failure::NotFound(id)),
            Operation::Delete { id } => delete_turn(root, id, answers) == Turn::<
                RuntimeAsk,
                (),
            >::Fail(Failure::NotFound(id)),
            Operation::State { id } => state_turn(root, id, answers) == Turn::<
                RuntimeAsk,
                Status,
            >::Fail(Failure::NotFound(id)),
            _ => true,
        },
        records_after(operation, root, records, answers) == records,
{
    first_answers_come_from_the_records(operation, root, records, answers);
    if answers.len() > 1 {
        faithful_at(operation, root, records, answers, 1);
        assert(answers.take(1)[0] == answers[0]);
    }
    let front = answers.drop_last();
    assert(front.len() == 0);
    assert(records_after(operation, root, records, front) == records);
}

/// Whether no answer is a failure of the host.
pub open spec fn without_failures(answers: Seq<RuntimeAnswer>) -> bool {
    forall|i: int| 0 <= i < answers.len() ==> !(#[trigger] answers[i] is Failed)
}

/// When the host does what it is asked, a deletion that has ended is done exactly if
/// the record of the container exists and has the state `Stopped`. Otherwise the
/// container is not found or is said not to be stopped, and no record changes.
pub proof fn deletion_succeeds_exactly_when_stopped(
    root: Seq<char>,
    id: Seq<char>,
    records: Map<Seq<char>, Status>,
    answers: Seq<RuntimeAnswer>,
)
    requires
        faithful(Operation::Delete { id }, root, records, answers),
        without_failures(answers),
        !(delete_turn(root, id, answers) is Ask),
        !(delete_turn(root, id, answers) is Stray),
    ensures
        delete_turn(root, id, answers) is Done <==> records.contains_key(record_path(root, id))
            && records[record_path(root, id)].state == ContainerState::Stopped,
        !records.contains_key(record_path(root, id)) ==> delete_turn(root, id, answers)
            == Turn::<RuntimeAsk, ()>::Fail(Failure::NotFound(id)),
        records.contains_key(record_path(root, id)) && !(delete_turn(root, id, answers) is Done)
            ==> delete_turn(root, id, answers) == Turn::<RuntimeAsk, ()>::Fail(
            Failure::Runtime(
                "cannot delete container '"@ + id + "' in state '"@ + state_name(
                    records[record_path(root, id)].state,
                ) + "'; must be stopped"@,
            ),
        ),
        !(delete_turn(root, id, answers) is Done) ==> records_after(
            Operation::Delete { id },
            root,
            records,
            answers,
        ) == records,
{
    let operation = Operation::Delete { id };
    faithful_conversed(operation, root, records, answers);
    assert(answers.len() > 0);
    first_answers_come_from_the_records(operation, root, records, answers);
    if !records.contains_key(record_path(root, id)) {
        missing_container_is_not_found(operation, root, records, answers);
    } else {
        assert(answers.len() > 1);
        assert(!(answers[1] is Failed));
        assert(answers[1] is Status);
        if answers[1]->Status_0.state != ContainerState::Stopped {
            deletion_is_refused_unless_stopped(root, id, records, answers);
        } else {
            let rest = answers.skip(2);
            if rest.len() > 0 {
                assert(rest[0] == answers[2]);
            }
            if rest.len() > 1 {
                assert(rest[1] == answers[3]);
            }
        }
    }
}

/// The containers among some entries that have a record.
spec fn recorded(
    root: Seq<char>,
    records: Map<Seq<char>, Status>,
    left: Seq<Entry>,
) -> Seq<Seq<char>>
    decreases left.len(),
{
    if left.len() == 0 {
        Seq::empty()
    } else {
        let rest = recorded(root, records, left.skip(1));
        if left[0].is_dir && records.contains_key(record_path(root, left[0].name)) {
            seq![left[0].name] + rest
        } else {
            rest
        }
    }
}

proof fn recorded_are_listed(
    root: Seq<char>,
    records: Map<Seq<char>, Status>,
    left: Seq<Entry>,
    id: Seq<char>,
)
    ensures
        recorded(root, records, left).contains(id) <==> has_entry(left, id)
            && records.contains_key(record_path(root, id)),
    decreases left.len(),
{
    if left.len() > 0 {
        let tail = left.skip(1);
        let rest = recorded(root, records, tail);
        let whole = recorded(root, records, left);
        recorded_are_listed(root, records, tail, id);
        if has_entry(left, id) && records.contains_key(record_path(root, id)) {
            let i = choose|i: int|
                0 <= i < left.len() && (#[trigger] left[i]).name == id && left[i].is_dir;
            if i == 0 {
                assert(whole[0] == id);
            } else {
                assert(tail[i - 1] == left[i]);
                let k = choose|k: int| 0 <= k < rest.len() && rest[k] == id;
                assert(whole[k + whole.len() - rest.len()] == id);
            }
        }
        if whole.contains(id) {
            let k = choose|k: int| 0 <= k < whole.len() && whole[k] == id;
            if whole.len() > rest.len() && k == 0 {
                assert(left[0].name == id);
            } else {
                assert(rest[k - (whole.len() - rest.len())] == id);
                let i = choose|i: int|
                    0 <= i < tail.len() && (#[trigger] tail[i]).name == id && tail[i].is_dir;
                assert(left[i + 1] == tail[i]);
            }
        }
    }
}

proof fn recorded_are_distinct(
    root: Seq<char>,
    records: Map<Seq<char>, Status>,
    left: Seq<Entry>,
)
    requires
        forall|i: int, j: int|
            0 <= i < j < left.len() ==> (#[trigger] left[i]).name != (#[trigger] left[j]).name,
    ensures
        recorded(root, records, left).no_duplicates(),
    decreases left.len(),
{
    if left.len() > 0 {
        let tail = left.skip(1);
        let rest = recorded(root, records, tail);
        assert(forall|i: int| 0 <= i < tail.len() ==> tail[i] == #[trigger] left[i + 1]);
        recorded_are_distinct(root, records, tail);
        recorded_are_listed(root, records, tail, left[0].name);
        assert(!has_entry(tail, left[0].name));
        let whole = recorded(root, records, left);
        if whole.len() > rest.len() {
            assert forall|i: int, j: int|
                0 <= i < whole.len() && 0 <= j < whole.len() && i != j implies whole[i]
                != whole[j] by {
                if i > 0 {
                    assert(whole[i] == rest[i - 1]);
                    assert(rest.contains(rest[i - 1]));
                }
                if j > 0 {
                    assert(whole[j] == rest[j - 1]);
                    assert(rest.contains(rest[j - 1]));
                }
            }
        }
    }
}

/// The records of some containers.
pub open spec fn records_of(
    root: Seq<char>,
    records: Map<Seq<char>, Status>,
    ids: Seq<Seq<char>>,
) -> Seq<Status> {
    ids.map_values(|id: Seq<char>| records[record_path(root, id)])
}

/// A listing that has the entries `left` to go through finds their records.
proof fn listing_finds_the_records(
    root: Seq<char>,
    records: Map<Seq<char>, Status>,
    answers: Seq<RuntimeAnswer>,
    at: int,
    left: Seq<Entry>,
    found: Seq<Status>,
    result: Seq<Status>,
)
    requires
        faithful(Operation::List, root, records, answers),
        without_failures(answers),
        0 <= at <= answers.len(),
        forall|m: int|
            at <= m <= answers.len() ==> list_turn(root, #[trigger] answers.take(m)) == list_rest(
                root,
                left,
                found,
                answers.subrange(at, m),
            ),
        list_turn(root, answers) == Turn::<RuntimeAsk, Seq<Status>>::Done(result),
    ensures
        result == found + records_of(root, records, recorded(root, records, left)),
    decreases left.len(),
{
    let n = answers.len() as int;
    assert(answers.take(n) =~= answers);
    assert(list_turn(root, answers) == list_rest(root, left, found, answers.subrange(at, n)));
    if left.len() == 0 {
        assert(found + records_of(root, records, recorded(root, records, left)) =~= found);
    } else {
        let tail = left.skip(1);
        let id = left[0].name;
        let file = record_path(root, id);
        let rest = records_of(root, records, recorded(root, records, tail));
        if !left[0].is_dir {
            listing_finds_the_records(root, records, answers, at, tail, found, result);
        } else {
            assert(list_turn(root, answers.take(at)) == list_rest(
                root,
                left,
                found,
                answers.subrange(at, at),
            ));
            assert(at < n);
            faithful_at(Operation::List, root, records, answers, at);
            listing_changes_nothing(root, records, answers.take(at));
            assert(answers[at] == RuntimeAnswer::Exists(records.contains_key(file)));
            if !records.contains_key(file) {
                assert forall|m: int| at + 1 <= m <= n implies list_turn(
                    root,
                    #[trigger] answers.take(m),
                ) == list_rest(root, tail, found, answers.subrange(at + 1, m)) by {
                    assert(answers.subrange(at, m)[0] == answers[at]);
                    assert(answers.subrange(at, m).skip(1) =~= answers.subrange(at + 1, m));
                }
                listing_finds_the_records(root, records, answers, at + 1, tail, found, result);
            } else {
                let one = answers.subrange(at, at + 1);
                assert(one[0] == answers[at]);
                assert(list_turn(root, answers.take(at + 1)) == list_rest(root, left, found, one));
                assert(at + 1 < n);
                faithful_at(Operation::List, root, records, answers, at + 1);
                listing_changes_nothing(root, records, answers.take(at + 1));
                assert(!(answers[at + 1] is Failed));
                let whole = answers.subrange(at, n);
                assert(whole[0] == answers[at] && whole[1] == answers[at + 1]);
                assert(answers[at + 1] == RuntimeAnswer::Status(records[file]));
                let more = found.push(records[file]);
                assert forall|m: int| at + 2 <= m <= n implies list_turn(
                    root,
                    #[trigger] answers.take(m),
                ) == list_rest(root, tail, more, answers.subrange(at + 2, m)) by {
                    let part = answers.subrange(at, m);
                    assert(part[0] == answers[at] && part[1] == answers[at + 1]);
                    assert(part.skip(2) =~= answers.subrange(at + 2, m));
                }
                listing_finds_the_records(root, records, answers, at + 2, tail, more, result);
                assert(more + rest =~= found + records_of(
                    root,
                    records,
                    recorded(root, records, left),
                ));
            }
        }
    }
}

/// Whether `found` holds the records of the containers `ids`, which are all the
/// containers that have one, each of them once.
pub open spec fn one_for_each(
    root: Seq<char>,
    records: Map<Seq<char>, Status>,
    ids: Seq<Seq<char>>,
    found: Seq<Status>,
) -> bool {
    &&& ids.no_duplicates()
    &&& forall|id: Seq<char>|
        #![trigger ids.contains(id)]
        #![trigger record_path(root, id)]
        ids.contains(id) <==> plain_name(id) && records.contains_key(record_path(root, id))
    &&& found == records_of(root, records, ids)
}

/// When every record can be read, a listing that is done has found the record of each
/// container, once, and nothing else.
pub proof fn listing_finds_each_container(
    root: Seq<char>,
    records: Map<Seq<char>, Status>,
    answers: Seq<RuntimeAnswer>,
    found: Seq<Status>,
)
    requires
        faithful(Operation::List, root, records, answers),
        without_failures(answers),
        list_turn(root, answers) == Turn::<RuntimeAsk, Seq<Status>>::Done(found),
    ensures
        exists|ids: Seq<Seq<char>>| one_for_each(root, records, ids, found),
{
    let none: Seq<Seq<char>> = Seq::empty();
    assert(answers.len() > 0);
    faithful_at(Operation::List, root, records, answers, 0);
    assert(answers.take(0).len() == 0);
    assert(records_after(Operation::List, root, records, answers.take(0)) == records);
    if answers[0] == RuntimeAnswer::Exists(false) {
        assert(found =~= records_of(root, records, none));
        assert(one_for_each(root, records, none, found));
    } else {
        assert(answers.len() > 1);
        faithful_at(Operation::List, root, records, answers, 1);
        listing_changes_nothing(root, records, answers.take(1));
        assert(answers.take(1)[0] == answers[0]);
        let list = answers[1]->Entries_0;
        let start: Seq<Status> = Seq::empty();
        assert forall|m: int| 2 <= m <= answers.len() implies list_turn(
            root,
            #[trigger] answers.take(m),
        ) == list_rest(root, list, start, answers.subrange(2, m)) by {
            assert(answers.take(m)[0] == answers[0] && answers.take(m)[1] == answers[1]);
            assert(answers.take(m).skip(2) =~= answers.subrange(2, m));
        }
        listing_finds_the_records(root, records, answers, 2, list, start, found);
        let ids = recorded(root, records, list);
        recorded_are_distinct(root, records, list);
        assert(start + records_of(root, records, ids) =~= records_of(root, records, ids));
        assert forall|id: Seq<char>|
            #![trigger ids.contains(id)]
            #![trigger record_path(root, id)]
            ids.contains(id) == (plain_name(id) && records.contains_key(
                record_path(root, id),
            )) by {
            recorded_are_listed(root, records, list, id);
        }
        assert(one_for_each(root, records, ids, found));
    }
}

/// The records of different containers are in different directories.
proof fn other_record_is_elsewhere(root: Seq<char>, id: Seq<char>, other: Seq<char>)
    requires
        plain_name(id),
        plain_name(other),
        id != other,
    ensures
        record_path(root, other) != record_path(root, id),
        !in_dir(record_path(root, other), container_path(root, id)),
{
    let base = containers_path(root);
    reveal_strlit("state.json");
    let record = "state.json"@;
    assert(record[0] == 's' && record[1] == 't');
    assert(plain_name(record));
    plain_entry_adds_its_name(base, id);
    plain_entry_adds_its_name(base, other);
    plain_entry_adds_its_name(container_path(root, other), record);
    plain_entry_adds_its_name(container_path(root, id), record);
    let n = components(base).len() as int;
    let theirs = components(record_path(root, other));
    assert(theirs[n] == other);
    assert(components(record_path(root, id))[n] == id);
    if within(record_path(root, other), container_path(root, id)) {
        let dir = components(container_path(root, id));
        assert(theirs.subrange(0, dir.len() as int)[n] == theirs[n]);
        assert(dir[n] == id);
    }
}

/// After a deletion that is done, a listing has lost exactly the container that was
/// deleted: it finds the record of each other container, as it was, and nothing else.
/// The id has to be one that a listing can find, the name of an entry of a directory.
pub proof fn deletion_takes_one_container_from_the_listing(
    root: Seq<char>,
    id: Seq<char>,
    records: Map<Seq<char>, Status>,
    deletion: Seq<RuntimeAnswer>,
    listing: Seq<RuntimeAnswer>,
    found: Seq<Status>,
)
    requires
        plain_name(id),
        faithful(Operation::Delete { id }, root, records, deletion),
        delete_turn(root, id, deletion) is Done,
        faithful(
            Operation::List,
            root,
            records_after(Operation::Delete { id }, root, records, deletion),
            listing,
        ),
        without_failures(listing),
        list_turn(root, listing) == Turn::<RuntimeAsk, Seq<Status>>::Done(found),
    ensures
        records.contains_key(record_path(root, id)),
        exists|ids: Seq<Seq<char>>|
            one_for_each(root, records.remove(record_path(root, id)), ids, found),
{
    let operation = Operation::Delete { id };
    let file = record_path(root, id);
    let dir = container_path(root, id);
    let after = records_after(operation, root, records, deletion);
    let kept = records.remove(file);
    faithful_conversed(operation, root, records, deletion);
    first_answers_come_from_the_records(operation, root, records, deletion);
    deletion_removes_a_stopped_record(root, id, records, deletion);
    directory_is_found(root, id, records, deletion);
    assert(in_dir(file, dir));
    assert forall|other: Seq<char>| plain_name(other) implies {
        &&& after.contains_key(#[trigger] record_path(root, other)) == kept.contains_key(
            record_path(root, other),
        )
        &&& after.contains_key(record_path(root, other)) ==> after[record_path(root, other)]
            == kept[record_path(root, other)]
    } by {
        if other != id {
            other_record_is_elsewhere(root, id, other);
        }
    }
    listing_finds_each_container(root, after, listing, found);
    let ids = choose|ids: Seq<Seq<char>>| one_for_each(root, after, ids, found);
    assert forall|i: int| 0 <= i < ids.len() implies #[trigger] records_of(root, after, ids)[i]
        == records_of(root, kept, ids)[i] by {
        assert(ids.contains(ids[i]));
    }
    assert(records_of(root, after, ids) =~= records_of(root, kept, ids));
    assert(one_for_each(root, kept, ids, found));
}

/// After a deletion that is done, the container is not found.
pub proof fn deleted_container_is_not_found(
    root: Seq<char>,
    id: Seq<char>,
    records: Map<Seq<char>, Status>,
    deletion: Seq<RuntimeAnswer>,
    query: Seq<RuntimeAnswer>,
)
    requires
        faithful(Operation::Delete { id }, root, records, deletion),
        delete_turn(root, id, deletion) is Done,
        faithful(
            Operation::State { id },
            root,
            records_after(Operation::Delete { id }, root, records, deletion),
            query,
        ),
        query.len() > 0,
    ensures
        state_turn(root, id, query) == Turn::<RuntimeAsk, Status>::Fail(Failure::NotFound(id)),
{
    let operation = Operation::Delete { id };
    faithful_conversed(operation, root, records, deletion);
    first_answers_come_from_the_records(operation, root, records, deletion);
    deletion_removes_a_stopped_record(root, id, records, deletion);
    directory_is_found(root, id, records, deletion);
    assert(in_dir(record_path(root, id), container_path(root, id)));
    let after = records_after(operation, root, records, deletion);
    missing_container_is_not_found(Operation::State { id }, root, after, query);
}

} // verus!
