//! The execution of OCI hooks.

use vstd::prelude::*;
use vstd::string::*;

use crate::dialogue::{
    answered, answered_at, end_with, halted, heard, progress_of, Halt, Next, Part, Stop, Turn,
};
use crate::error::{labelled, ContainerError, Failure};
use crate::runtime::oci::{
    hook_models, parse_variables, sets_environment, variables, variables_are_those_of_the_list,
    Hook, HookModel,
};
use crate::runtime::status::{
    ContainerStatus, RuntimeAnswer, RuntimeAsk, RuntimeCall, RuntimeProgress, RuntimeReply, Status,
};
use crate::text::{decimal, decimal_text, pair_views, views};

verus! {

/// The number of milliseconds between two looks at a hook with a time limit.
pub const HOOK_POLL_MILLIS: u64 = 50;

/// The arguments that a hook is started with: those after the first, which stands
/// for the program itself.
pub open spec fn hook_args(hook: HookModel) -> Seq<Seq<char>> {
    match hook.args {
        Some(args) => if args.len() > 1 {
            args.skip(1)
        } else {
            Seq::empty()
        },
        None => Seq::empty(),
    }
}

/// The environment variables that a hook is started with.
pub open spec fn hook_env(hook: HookModel) -> Seq<(Seq<char>, Seq<char>)> {
    match hook.env {
        Some(env) => variables(env),
        None => Seq::empty(),
    }
}

/// The question that starts a hook.
pub open spec fn hook_spawn(hook: HookModel, input: Seq<char>) -> RuntimeAsk {
    RuntimeAsk::SpawnHook { path: hook.path, args: hook_args(hook), env: hook_env(hook), input }
}

/// The time limit of a hook in seconds; a negative one counts as none at all.
pub open spec fn hook_limit(timeout: i64) -> nat {
    if timeout < 0 {
        0
    } else {
        timeout as nat
    }
}

/// A number of seconds as `Duration`'s `Debug` shows it.
pub open spec fn seconds_text(secs: nat) -> Seq<char> {
    if secs == 0 {
        "0ns"@
    } else {
        decimal(secs) + "s"@
    }
}

/// Whether more than `limit` seconds have passed.
pub open spec fn exceeded(secs: u64, nanos: u32, limit: nat) -> bool {
    secs > limit || (secs == limit && nanos > 0)
}

/// How far the wait for a hook has come that has exited.
pub open spec fn exit_progress(
    path: Seq<char>,
    success: bool,
    text: Seq<char>,
    rest: Seq<RuntimeAnswer>,
) -> RuntimeProgress {
    if success {
        RuntimeProgress::Passed(rest)
    } else {
        RuntimeProgress::Halt(
            Halt::Fail(Failure::Runtime("hook '"@ + path + "' exited with status: "@ + text)),
        )
    }
}

/// The end of an operation for the failure of a wait for a hook.
pub open spec fn wait_halt(path: Seq<char>, error: Seq<char>) -> RuntimeProgress {
    RuntimeProgress::Halt(Halt::Fail(Failure::Runtime("error waiting on hook '"@ + path + "': "@ + error)))
}

/// How far the wait for a hook without a time limit has come.
pub open spec fn wait_progress(path: Seq<char>, answers: Seq<RuntimeAnswer>) -> RuntimeProgress {
    if answers.len() == 0 {
        RuntimeProgress::Ask(RuntimeAsk::WaitHook)
    } else {
        match answers[0] {
            RuntimeAnswer::Exited { success, text } => exit_progress(
                path,
                success,
                text,
                answers.skip(1),
            ),
            RuntimeAnswer::Failed(error) => wait_halt(path, error),
            _ => RuntimeProgress::Halt(Halt::Stray),
        }
    }
}

/// How far the wait for a hook with a time limit in seconds has come. The hook is
/// looked at again and again, with a sleep in between, until it exits or the limit
/// is exceeded; then it is killed.
pub open spec fn poll_progress(
    path: Seq<char>,
    limit: nat,
    answers: Seq<RuntimeAnswer>,
) -> RuntimeProgress
    decreases answers.len(),
{
    if answers.len() == 0 {
        RuntimeProgress::Ask(RuntimeAsk::PollHook)
    } else {
        match answers[0] {
            RuntimeAnswer::Exited { success, text } => exit_progress(
                path,
                success,
                text,
                answers.skip(1),
            ),
            RuntimeAnswer::Failed(error) => wait_halt(path, error),
            RuntimeAnswer::Running { secs, nanos } => if exceeded(secs, nanos, limit) {
                if answers.len() == 1 {
                    RuntimeProgress::Ask(RuntimeAsk::KillHook)
                } else {
                    match answers[1] {
                        RuntimeAnswer::Done | RuntimeAnswer::Failed(_) => RuntimeProgress::Halt(
                            Halt::Fail(
                                Failure::Runtime(
                                    "hook '"@ + path + "' timed out after "@ + seconds_text(limit),
                                ),
                            ),
                        ),
                        _ => RuntimeProgress::Halt(Halt::Stray),
                    }
                }
            } else if answers.len() == 1 {
                RuntimeProgress::Ask(RuntimeAsk::Sleep(HOOK_POLL_MILLIS))
            } else {
                match answers[1] {
                    RuntimeAnswer::Done => poll_progress(path, limit, answers.skip(2)),
                    _ => RuntimeProgress::Halt(Halt::Stray),
                }
            },
            _ => RuntimeProgress::Halt(Halt::Stray),
        }
    }
}

/// How far the execution of one hook has come.
pub open spec fn hook_progress(
    hook: HookModel,
    input: Seq<char>,
    answers: Seq<RuntimeAnswer>,
) -> RuntimeProgress {
    if answers.len() == 0 {
        RuntimeProgress::Ask(hook_spawn(hook, input))
    } else {
        match answers[0] {
            RuntimeAnswer::Done => match hook.timeout {
                Some(timeout) => poll_progress(hook.path, hook_limit(timeout), answers.skip(1)),
                None => wait_progress(hook.path, answers.skip(1)),
            },
            RuntimeAnswer::Failed(error) => RuntimeProgress::Halt(
                Halt::Fail(
                    Failure::Runtime("failed to spawn hook '"@ + hook.path + "': "@ + error),
                ),
            ),
            _ => RuntimeProgress::Halt(Halt::Stray),
        }
    }
}

/// How far the execution of a list of hooks has come: one after the other, until
/// one of them fails.
pub open spec fn hooks_progress(
    hooks: Seq<HookModel>,
    input: Seq<char>,
    answers: Seq<RuntimeAnswer>,
) -> RuntimeProgress
    decreases hooks.len(),
{
    if hooks.len() == 0 {
        RuntimeProgress::Passed(answers)
    } else {
        match hook_progress(hooks[0], input, answers) {
            RuntimeProgress::Passed(rest) => hooks_progress(hooks.skip(1), input, rest),
            other => other,
        }
    }
}

/// How far the execution of a container's hooks has come. The status record is
/// the input of every hook.
pub open spec fn run_progress(
    hooks: Seq<HookModel>,
    status: Status,
    answers: Seq<RuntimeAnswer>,
) -> RuntimeProgress {
    if answers.len() == 0 {
        RuntimeProgress::Ask(RuntimeAsk::EncodeStatus(status))
    } else {
        match answers[0] {
            RuntimeAnswer::Text(input) => hooks_progress(hooks, input, answers.skip(1)),
            RuntimeAnswer::Failed(_) => RuntimeProgress::Halt(Halt::Rethrow),
            _ => RuntimeProgress::Halt(Halt::Stray),
        }
    }
}

fn fail(text: String) -> (r: Part<RuntimeCall>)
    ensures
        r is Stop,
        r->Stop_0@ == Halt::Fail(Failure::Runtime(text@)),
{
    Part::Stop(Stop::Fail(ContainerError::Runtime(text)))
}

fn wait_failed(path: &str, error: &str) -> (r: Part<RuntimeCall>)
    ensures
        r is Stop,
        RuntimeProgress::Halt(r->Stop_0@) == wait_halt(path@, error@),
{
    let mut text = labelled("error waiting on hook '", path);
    text.append("': ");
    text.append(error);
    fail(text)
}

fn exit_part(path: &str, success: bool, text: &str, replies: &Vec<RuntimeReply>, at: usize) -> (r:
    Part<RuntimeCall>)
    requires
        at <= replies@.len(),
    ensures
        progress_of(r, replies@) == exit_progress(
            path@,
            success,
            text@,
            heard(replies@).skip(at as int),
        ),
        r is Passed ==> r->Passed_0 == at,
{
    if success {
        return Part::Passed(at);
    }
    let mut message = labelled("hook '", path);
    message.append("' exited with status: ");
    message.append(text);
    fail(message)
}

fn wait_part(path: &str, replies: &Vec<RuntimeReply>, at: usize) -> (r: Part<RuntimeCall>)
    requires
        at <= replies@.len(),
    ensures
        progress_of(r, replies@) == wait_progress(path@, heard(replies@).skip(at as int)),
        r is Passed ==> r->Passed_0 <= replies@.len(),
{
    let ghost answers = heard(replies@).skip(at as int);
    if at == replies.len() {
        return Part::Ask(RuntimeCall::WaitHook);
    }
    assert(answers[0] == replies@[at as int]@);
    assert(answers.skip(1) =~= heard(replies@).skip(at + 1));
    match &replies[at] {
        RuntimeReply::Exited { success, text } => exit_part(
            path,
            *success,
            text.as_str(),
            replies,
            at + 1,
        ),
        RuntimeReply::Failed(error) => wait_failed(path, error.as_str()),
        _ => Part::Stop(Stop::Stray),
    }
}

fn seconds(secs: u64) -> (r: String)
    ensures
        r@ == seconds_text(secs as nat),
{
    if secs == 0 {
        return "0ns".to_owned();
    }
    let mut r = decimal_text(secs);
    r.append("s");
    r
}

fn timed_out(path: &str, limit: u64) -> (r: Part<RuntimeCall>)
    ensures
        r is Stop,
        r->Stop_0@ == Halt::Fail(
            Failure::Runtime(
                "hook '"@ + path@ + "' timed out after "@ + seconds_text(limit as nat),
            ),
        ),
{
    let mut text = labelled("hook '", path);
    text.append("' timed out after ");
    text.append(seconds(limit).as_str());
    fail(text)
}

fn poll_part(path: &str, limit: u64, replies: &Vec<RuntimeReply>, from: usize) -> (r: Part<RuntimeCall>)
    requires
        from <= replies@.len(),
    ensures
        progress_of(r, replies@) == poll_progress(
            path@,
            limit as nat,
            heard(replies@).skip(from as int),
        ),
        r is Passed ==> r->Passed_0 <= replies@.len(),
{
    let ghost whole = poll_progress(path@, limit as nat, heard(replies@).skip(from as int));
    let len = replies.len();
    let mut at: usize = from;
    while at < len
        invariant
            len == replies@.len(),
            at <= len,
            whole == poll_progress(path@, limit as nat, heard(replies@).skip(from as int)),
            whole == poll_progress(path@, limit as nat, heard(replies@).skip(at as int)),
        decreases len - at,
    {
        let ghost answers = heard(replies@).skip(at as int);
        assert(answers[0] == replies@[at as int]@);
        assert(answers.skip(1) =~= heard(replies@).skip(at + 1));
        match &replies[at] {
            RuntimeReply::Exited { success, text } => {
                return exit_part(path, *success, text.as_str(), replies, at + 1);
            },
            RuntimeReply::Failed(error) => {
                return wait_failed(path, error.as_str());
            },
            RuntimeReply::Running { secs, nanos } => {
                let over = *secs > limit || (*secs == limit && *nanos > 0);
                if at + 1 == len {
                    if over {
                        return Part::Ask(RuntimeCall::KillHook);
                    }
                    return Part::Ask(RuntimeCall::Sleep(HOOK_POLL_MILLIS));
                }
                assert(answers[1] == replies@[at + 1]@);
                assert(answers.skip(2) =~= heard(replies@).skip(at + 2));
                match &replies[at + 1] {
                    RuntimeReply::Done => {
                        if over {
                            return timed_out(path, limit);
                        }
                        at = at + 2;
                    },
                    RuntimeReply::Failed(_) => {
                        if over {
                            return timed_out(path, limit);
                        }
                        return Part::Stop(Stop::Stray);
                    },
                    _ => {
                        return Part::Stop(Stop::Stray);
                    },
                }
            },
            _ => {
                return Part::Stop(Stop::Stray);
            },
        }
    }
    assert(heard(replies@).skip(at as int).len() == 0);
    Part::Ask(RuntimeCall::PollHook)
}

fn spawn_call(hook: &Hook, input: &str) -> (r: RuntimeCall)
    ensures
        r@ == hook_spawn(hook@, input@),
{
    let mut args: Vec<String> = Vec::new();
    if let Some(list) = &hook.args {
        let ghost wanted = views(list@).skip(1);
        let len = list.len();
        let mut i: usize = 1;
        while i < len
            invariant
                len == list@.len(),
                wanted == views(list@).skip(1),
                1 <= i,
                i <= len || len == 0,
                views(args@) == (if len == 0 {
                    Seq::empty()
                } else {
                    wanted.take(i - 1)
                }),
            decreases len - i,
        {
            let ghost before = views(args@);
            args.push(list[i].clone());
            assert(views(args@) =~= before.push(list@[i as int]@));
            assert(wanted[i - 1] == list@[i as int]@);
            assert(wanted.take(i as int) =~= wanted.take(i - 1).push(wanted[i - 1]));
            i = i + 1;
        }
        assert(len > 1 ==> wanted.take(i - 1) =~= wanted);
    }
    assert(views(args@) =~= hook_args(hook@));
    let env = match &hook.env {
        Some(list) => parse_variables(list),
        None => Vec::new(),
    };
    assert(hook.env is None ==> pair_views(env@) =~= Seq::empty());
    RuntimeCall::SpawnHook { path: hook.path.clone(), args, env, input: input.to_owned() }
}

fn hook_part(hook: &Hook, input: &str, replies: &Vec<RuntimeReply>, at: usize) -> (r: Part<RuntimeCall>)
    requires
        at <= replies@.len(),
    ensures
        progress_of(r, replies@) == hook_progress(
            hook@,
            input@,
            heard(replies@).skip(at as int),
        ),
        r is Passed ==> r->Passed_0 <= replies@.len(),
{
    let ghost answers = heard(replies@).skip(at as int);
    let path = hook.path.as_str();
    if at == replies.len() {
        return Part::Ask(spawn_call(hook, input));
    }
    assert(answers[0] == replies@[at as int]@);
    assert(answers.skip(1) =~= heard(replies@).skip(at + 1));
    match &replies[at] {
        RuntimeReply::Done => match hook.timeout {
            Some(timeout) => {
                let limit: u64 = if timeout < 0 {
                    0
                } else {
                    timeout as u64
                };
                poll_part(path, limit, replies, at + 1)
            },
            None => wait_part(path, replies, at + 1),
        },
        RuntimeReply::Failed(error) => {
            let mut text = labelled("failed to spawn hook '", path);
            text.append("': ");
            text.append(error.as_str());
            fail(text)
        },
        _ => Part::Stop(Stop::Stray),
    }
}

/// How far the execution of a container's hooks has come, with its answers
/// starting at `at`.
pub fn hooks_part(
    hooks: &Vec<Hook>,
    status: &ContainerStatus,
    replies: &Vec<RuntimeReply>,
    at: usize,
) -> (r: Part<RuntimeCall>)
    requires
        at <= replies@.len(),
    ensures
        progress_of(r, replies@) == run_progress(
            hook_models(hooks@),
            status@,
            heard(replies@).skip(at as int),
        ),
        r is Passed ==> r->Passed_0 <= replies@.len(),
{
    let ghost answers = heard(replies@).skip(at as int);
    if at == replies.len() {
        return Part::Ask(RuntimeCall::EncodeStatus(status.clone()));
    }
    assert(answers[0] == replies@[at as int]@);
    assert(answers.skip(1) =~= heard(replies@).skip(at + 1));
    let input = match &replies[at] {
        RuntimeReply::Text(input) => input.as_str(),
        RuntimeReply::Failed(_) => return Part::Stop(Stop::Rethrow),
        _ => return Part::Stop(Stop::Stray),
    };
    let ghost models = hook_models(hooks@);
    let ghost whole = hooks_progress(models, input@, heard(replies@).skip(at + 1));
    let mut i: usize = 0;
    let mut left: usize = at + 1;
    assert(models.skip(0) =~= models);
    while i < hooks.len()
        invariant
            i <= hooks@.len(),
            left <= replies@.len(),
            models == hook_models(hooks@),
            whole == run_progress(models, status@, heard(replies@).skip(at as int)),
            whole == hooks_progress(
                models.skip(i as int),
                input@,
                heard(replies@).skip(left as int),
            ),
        decreases hooks@.len() - i,
    {
        assert(models.skip(i as int)[0] == hooks@[i as int]@);
        assert(models.skip(i as int).skip(1) =~= models.skip(i + 1));
        match hook_part(&hooks[i], input, replies, left) {
            Part::Passed(next) => {
                left = next;
            },
            other => {
                return other;
            },
        }
        i = i + 1;
    }
    Part::Passed(left)
}

/// The turn of the execution of a container's hooks after the answers so far.
pub open spec fn hooks_turn(
    hooks: Seq<HookModel>,
    status: Status,
    answers: Seq<RuntimeAnswer>,
) -> Turn<RuntimeAsk, ()> {
    match run_progress(hooks, status, answers) {
        RuntimeProgress::Ask(ask) => Turn::Ask(ask),
        RuntimeProgress::Halt(halt) => halted(halt),
        RuntimeProgress::Passed(_) => Turn::Done(()),
    }
}

/// The dialogue that executes a list of hooks as child processes, one after the
/// other. `replies` holds the answers so far.
///
/// Each hook gets the status record on its standard input. A hook with a time
/// limit is killed when it exceeds it.
pub fn run_hooks(
    hooks: &Vec<Hook>,
    status: &ContainerStatus,
    replies: &Vec<RuntimeReply>,
) -> (r: Next<RuntimeCall, ()>)
    ensures
        r@ == hooks_turn(hook_models(hooks@), status@, heard(replies@)),
{
    assert(heard(replies@).skip(0) =~= heard(replies@));
    match hooks_part(hooks, status, replies, 0) {
        Part::Ask(call) => Next::Ask(call),
        Part::Stop(stop) => end_with(stop),
        Part::Passed(_) => Next::Done(()),
    }
}

/// A hook is killed only when it exceeded its time limit.
pub proof fn hook_is_killed_only_after_its_limit(
    path: Seq<char>,
    limit: nat,
    answers: Seq<RuntimeAnswer>,
)
    requires
        poll_progress(path, limit, answers) == RuntimeProgress::Ask(RuntimeAsk::KillHook),
    ensures
        answers.len() > 0,
        match answers.last() {
            RuntimeAnswer::Running { secs, nanos } => exceeded(secs, nanos, limit),
            _ => false,
        },
    decreases answers.len(),
{
    if answers.len() > 1 {
        let rest = answers.skip(2);
        assert(poll_progress(path, limit, answers) == poll_progress(path, limit, rest));
        hook_is_killed_only_after_its_limit(path, limit, rest);
        assert(rest.last() == answers.last());
    }
}

/// How many of the answers say that a hook exited, with success or without.
pub open spec fn exits(answers: Seq<RuntimeAnswer>, success: bool) -> nat
    decreases answers.len(),
{
    if answers.len() == 0 {
        0
    } else {
        let rest = exits(answers.skip(1), success);
        match answers[0] {
            RuntimeAnswer::Exited { success: how, .. } => if how == success {
                rest + 1
            } else {
                rest
            },
            _ => rest,
        }
    }
}

proof fn polled_hook_exits_once(path: Seq<char>, limit: nat, answers: Seq<RuntimeAnswer>)
    requires
        poll_progress(path, limit, answers) is Passed,
    ensures
        ({
            let rest = poll_progress(path, limit, answers)->Passed_0;
            &&& exits(answers, true) == exits(rest, true) + 1
            &&& exits(answers, false) == exits(rest, false)
        }),
    decreases answers.len(),
{
    reveal_with_fuel(exits, 3);
    if answers[0] is Running {
        assert(answers.skip(1).skip(1) =~= answers.skip(2));
        polled_hook_exits_once(path, limit, answers.skip(2));
        assert(answers.skip(1)[0] == answers[1]);
    }
}

/// When a list of hooks has been executed, each of the hooks has exited once, with
/// success.
pub proof fn executed_hooks_all_exit_with_success(
    hooks: Seq<HookModel>,
    input: Seq<char>,
    answers: Seq<RuntimeAnswer>,
)
    requires
        hooks_progress(hooks, input, answers) is Passed,
    ensures
        ({
            let rest = hooks_progress(hooks, input, answers)->Passed_0;
            &&& exits(answers, true) == exits(rest, true) + hooks.len()
            &&& exits(answers, false) == exits(rest, false)
        }),
    decreases hooks.len(),
{
    reveal_with_fuel(exits, 3);
    if hooks.len() > 0 {
        let hook = hooks[0];
        assert(answers.skip(1).skip(1) =~= answers.skip(2));
        let rest = hook_progress(hook, input, answers)->Passed_0;
        if let Some(timeout) = hook.timeout {
            polled_hook_exits_once(hook.path, hook_limit(timeout), answers.skip(1));
        }
        executed_hooks_all_exit_with_success(hooks.skip(1), input, rest);
    }
}

/// Whether a question starts a hook as its configuration says: its program, with its
/// arguments but for the first one, which stands for the program, with its environment
/// variables, and with this input.
pub open spec fn starts_hook(ask: RuntimeAsk, hook: HookModel, input: Seq<char>) -> bool {
    match ask {
        RuntimeAsk::SpawnHook { path, args, env, input: given } => {
            &&& path == hook.path
            &&& given == input
            &&& hook.args is Some && hook.args->Some_0.len() > 0 ==> args
                == hook.args->Some_0.drop_first()
            &&& hook.args is None || hook.args->Some_0.len() == 0 ==> args.len() == 0
            &&& hook.env is Some ==> sets_environment(hook.env->Some_0, env)
            &&& hook.env is None ==> env.len() == 0
        },
        _ => false,
    }
}

proof fn hook_is_started_as_configured(hook: HookModel, input: Seq<char>)
    ensures
        starts_hook(hook_spawn(hook, input), hook, input),
{
    if let Some(args) = hook.args {
        if args.len() == 1 {
            assert(args.drop_first() =~= Seq::empty());
        } else if args.len() > 1 {
            assert(args.drop_first() =~= args.skip(1));
        }
    }
    if let Some(env) = hook.env {
        variables_are_those_of_the_list(env);
    }
}

proof fn waiting_starts_nothing(path: Seq<char>, limit: nat, answers: Seq<RuntimeAnswer>)
    ensures
        poll_progress(path, limit, answers) matches RuntimeProgress::Ask(ask) ==> !(
        ask is SpawnHook),
    decreases answers.len(),
{
    if answers.len() > 1 {
        waiting_starts_nothing(path, limit, answers.skip(2));
    }
}

proof fn next_hook_is_started(
    hooks: Seq<HookModel>,
    input: Seq<char>,
    answers: Seq<RuntimeAnswer>,
    ask: RuntimeAsk,
)
    requires
        hooks_progress(hooks, input, answers) == RuntimeProgress::Ask(ask),
        ask is SpawnHook,
    ensures
        exits(answers, false) == 0,
        exits(answers, true) < hooks.len(),
        starts_hook(ask, hooks[exits(answers, true) as int], input),
    decreases hooks.len(),
{
    let hook = hooks[0];
    match hook_progress(hook, input, answers) {
        RuntimeProgress::Passed(rest) => {
            let one = seq![hook];
            assert(one.skip(1).len() == 0);
            assert(hooks_progress(one.skip(1), input, rest) == RuntimeProgress::Passed(rest));
            assert(hooks_progress(one, input, answers) == RuntimeProgress::Passed(rest));
            executed_hooks_all_exit_with_success(one, input, answers);
            next_hook_is_started(hooks.skip(1), input, rest, ask);
            let j = exits(rest, true) as int;
            assert(hooks.skip(1)[j] == hooks[j + 1]);
        },
        _ => {
            if answers.len() > 0 {
                if let Some(timeout) = hook.timeout {
                    waiting_starts_nothing(hook.path, hook_limit(timeout), answers.skip(1));
                }
            }
            hook_is_started_as_configured(hook, input);
        },
    }
}

/// The turns of the execution of hooks.
pub open spec fn hooks_turns(hooks: Seq<HookModel>, status: Status) -> spec_fn(
    Seq<RuntimeAnswer>,
) -> Turn<RuntimeAsk, ()> {
    |said: Seq<RuntimeAnswer>| hooks_turn(hooks, status, said)
}

/// Hooks are started one after the other, in their order, each as its configuration says
/// and with the status record as its input: the next one only when all before it have
/// exited with success.
pub proof fn hooks_are_started_in_order(
    hooks: Seq<HookModel>,
    status: Status,
    said: Seq<RuntimeAnswer>,
    ask: RuntimeAsk,
)
    requires
        hooks_turn(hooks, status, said) == Turn::<RuntimeAsk, ()>::Ask(ask),
        ask is SpawnHook,
    ensures
        exits(said, false) == 0,
        exits(said, true) < hooks.len(),
        exists|input: Seq<char>|
            {
                &&& #[trigger] starts_hook(ask, hooks[exits(said, true) as int], input)
                &&& answered(
                    hooks_turns(hooks, status),
                    said,
                    RuntimeAsk::EncodeStatus(status),
                    RuntimeAnswer::Text(input),
                )
            },
{
    let input = said[0]->Text_0;
    next_hook_is_started(hooks, input, said.skip(1), ask);
    reveal_with_fuel(exits, 2);
    assert(answered_at(
        hooks_turns(hooks, status),
        said,
        0,
        RuntimeAsk::EncodeStatus(status),
        RuntimeAnswer::Text(input),
    ));
}

/// When hooks have been executed, each of them has exited once, with success.
pub proof fn executed_hooks_have_exited(
    hooks: Seq<HookModel>,
    status: Status,
    said: Seq<RuntimeAnswer>,
)
    requires
        hooks_turn(hooks, status, said) is Done,
    ensures
        exits(said, true) >= hooks.len(),
{
    let input = said[0]->Text_0;
    executed_hooks_all_exit_with_success(hooks, input, said.skip(1));
    reveal_with_fuel(exits, 2);
}

/// A hook that has a time limit is killed when it runs for longer, and then has timed out:
/// the execution of the hooks fails.
pub proof fn hook_that_runs_too_long_is_killed(
    path: Seq<char>,
    timeout: i64,
    secs: u64,
    nanos: u32,
)
    requires
        secs > 0 || nanos > 0,
        secs > timeout || (secs == timeout && nanos > 0),
    ensures
        poll_progress(
            path,
            hook_limit(timeout),
            seq![RuntimeAnswer::Running { secs, nanos }],
        ) == RuntimeProgress::Ask(RuntimeAsk::KillHook),
        poll_progress(
            path,
            hook_limit(timeout),
            seq![RuntimeAnswer::Running { secs, nanos }, RuntimeAnswer::Done],
        ) is Halt,
{
}

proof fn polling_only_waits(path: Seq<char>, limit: nat, answers: Seq<RuntimeAnswer>)
    ensures
        poll_progress(path, limit, answers) matches RuntimeProgress::Ask(ask) ==> ask is PollHook
            || ask is Sleep || ask is KillHook,
    decreases answers.len(),
{
    if answers.len() > 1 {
        polling_only_waits(path, limit, answers.skip(2));
    }
}

proof fn hooks_only_run_hooks(
    hooks: Seq<HookModel>,
    input: Seq<char>,
    answers: Seq<RuntimeAnswer>,
)
    ensures
        hooks_progress(hooks, input, answers) matches RuntimeProgress::Ask(ask) ==> is_about_hooks(
            ask,
        ),
    decreases hooks.len(),
{
    if hooks.len() > 0 {
        if answers.len() > 0 {
            if let Some(timeout) = hooks[0].timeout {
                polling_only_waits(hooks[0].path, hook_limit(timeout), answers.skip(1));
            }
        }
        if let RuntimeProgress::Passed(rest) = hook_progress(hooks[0], input, answers) {
            hooks_only_run_hooks(hooks.skip(1), input, rest);
        }
    }
}

/// Whether a question is one that the execution of hooks asks.
pub open spec fn is_about_hooks(ask: RuntimeAsk) -> bool {
    ||| ask is EncodeStatus
    ||| ask is SpawnHook
    ||| ask is WaitHook
    ||| ask is PollHook
    ||| ask is KillHook
    ||| ask is Sleep
}

/// The execution of hooks starts, watches and kills hooks, and does nothing else.
pub proof fn hooks_only_concern_hooks(
    hooks: Seq<HookModel>,
    status: Status,
    answers: Seq<RuntimeAnswer>,
)
    ensures
        run_progress(hooks, status, answers) matches RuntimeProgress::Ask(ask) ==> is_about_hooks(
            ask,
        ),
{
    if answers.len() > 0 && answers[0] is Text {
        hooks_only_run_hooks(hooks, answers[0]->Text_0, answers.skip(1));
    }
}

/// A hook with a time limit is asked about every 50 milliseconds until it has run for
/// longer than the limit, and is killed then. A negative limit counts as none at all.
pub proof fn hook_is_polled_until_its_limit(
    path: Seq<char>,
    timeout: i64,
    said: Seq<RuntimeAnswer>,
    secs: u64,
    nanos: u32,
)
    requires
        poll_progress(path, hook_limit(timeout), said) == RuntimeProgress::Ask(
            RuntimeAsk::PollHook,
        ),
    ensures
        poll_progress(
            path,
            hook_limit(timeout),
            said.push(RuntimeAnswer::Running { secs, nanos }),
        ) == RuntimeProgress::Ask(
            if (secs > timeout || (secs == timeout && nanos > 0)) && (secs > 0 || nanos > 0) {
                RuntimeAsk::KillHook
            } else {
                RuntimeAsk::Sleep(50)
            },
        ),
    decreases said.len(),
{
    let next = said.push(RuntimeAnswer::Running { secs, nanos });
    if said.len() == 0 {
        assert(next.len() == 1 && next[0] == RuntimeAnswer::Running { secs, nanos });
    } else {
        assert(said.len() >= 2);
        let rest = said.skip(2);
        hook_is_polled_until_its_limit(path, timeout, rest, secs, nanos);
        assert(next[0] == said[0] && next[1] == said[1]);
        assert(next.skip(2) =~= rest.push(RuntimeAnswer::Running { secs, nanos }));
    }
}

/// A hook that is killed has timed out, whether or not the kill succeeded: the execution of
/// the hooks fails, and the error names the hook.
pub proof fn killed_hook_has_timed_out(
    path: Seq<char>,
    limit: nat,
    said: Seq<RuntimeAnswer>,
    answer: RuntimeAnswer,
)
    requires
        poll_progress(path, limit, said) == RuntimeProgress::Ask(RuntimeAsk::KillHook),
        answer is Done || answer is Failed,
    ensures
        poll_progress(path, limit, said.push(answer)) == RuntimeProgress::Halt(
            Halt::Fail(
                Failure::Runtime(
                    "hook '"@ + path + "' timed out after "@ + (if limit == 0 {
                        "0ns"@
                    } else {
                        decimal(limit) + "s"@
                    }),
                ),
            ),
        ),
    decreases said.len(),
{
    let next = said.push(answer);
    assert(said.len() > 0);
    assert(next[0] == said[0]);
    if said.len() == 1 {
        assert(next[1] == answer);
    } else {
        let rest = said.skip(2);
        assert(next[1] == said[1]);
        killed_hook_has_timed_out(path, limit, rest, answer);
        assert(next.skip(2) =~= rest.push(answer));
    }
}

/// A hook that exits is done, and one that exits without success fails the execution of the
/// hooks: the error names the hook and how it exited.
pub proof fn hook_must_exit_with_success(
    path: Seq<char>,
    limit: nat,
    said: Seq<RuntimeAnswer>,
    success: bool,
    text: Seq<char>,
)
    requires
        poll_progress(path, limit, said) == RuntimeProgress::Ask(RuntimeAsk::PollHook),
    ensures
        ({
            let next = poll_progress(
                path,
                limit,
                said.push(RuntimeAnswer::Exited { success, text }),
            );
            &&& success ==> next is Passed
            &&& !success ==> next == RuntimeProgress::Halt(
                Halt::Fail(
                    Failure::Runtime("hook '"@ + path + "' exited with status: "@ + text),
                ),
            )
        }),
        ({
            let next = wait_progress(path, seq![RuntimeAnswer::Exited { success, text }]);
            &&& success ==> next is Passed
            &&& !success ==> next == RuntimeProgress::Halt(
                Halt::Fail(
                    Failure::Runtime("hook '"@ + path + "' exited with status: "@ + text),
                ),
            )
        }),
    decreases said.len(),
{
    let answer = RuntimeAnswer::Exited { success, text };
    let next = said.push(answer);
    if said.len() == 0 {
        assert(next[0] == answer);
    } else {
        assert(said.len() >= 2);
        let rest = said.skip(2);
        hook_must_exit_with_success(path, limit, rest, success, text);
        assert(next[0] == said[0] && next[1] == said[1]);
        assert(next.skip(2) =~= rest.push(answer));
    }
}

} // verus!
