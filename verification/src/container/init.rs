//! The initialisation of a container from inside its namespaces.

use vstd::prelude::*;
use vstd::string::*;
use vstd::utf8::*;

use crate::container::builder::{default_env, Config, ContainerConfig};
use crate::dialogue::{
    answered, answered_at, asked, end_with, halted, heard, progress_of, Halt, Next, Part, Progress,
    Stop, Turn,
};
use crate::error::{fails_with, labelled, ContainerError, Failure};
use crate::host::{
    error_of, failure_of, reporting, Category, HostCall, HostOp, Move, OnError, Plan, Rule, Step,
};
use crate::namespace::mount::{mount_namespace_moves, setup_mount_namespace};
use crate::namespace::uts::set_hostname;
use crate::security::capabilities::{
    container_keeps_the_usual_capabilities, drop_capabilities, drop_moves, drops,
    drops_are_reported, drops_exactly_what_is_not_kept, is_usual, kernel_order, CapSet, Capability,
};
use crate::security::seccomp::{
    apply_seccomp_filter, denied, filter_for, install_moves, known_numbers, x86_64_numbers,
    SyscallNumbers,
};
use crate::text::{
    copy_list, copy_pairs, decimal, decimal_text, halves, list_quoted, pair_views, quoted_list,
    quoted_text, split_once, text_quoted, views,
};
use crate::util::is_linux;

verus! {

/// Whether a text holds a zero byte, which only the zero character is made of.
pub open spec fn has_zero(text: Seq<char>) -> bool {
    text.contains('\0')
}

/// What is said of a text that holds a zero byte where none may be: the position of
/// the first one, counted in bytes.
pub open spec fn zero_text(text: Seq<char>) -> Seq<char> {
    "nul byte found in provided data at position: "@ + decimal(
        encode_utf8(halves(text, '\0')->Some_0.0).len(),
    )
}

/// What keeps a text from being passed to the kernel, if anything: a zero byte.
fn zero_fault(text: &str) -> (r: Option<String>)
    ensures
        match r {
            Some(message) => has_zero(text@) && message@ == zero_text(text@),
            None => !has_zero(text@),
        },
{
    match split_once(text, '\0') {
        Some((before, _)) => Some(
            labelled(
                "nul byte found in provided data at position: ",
                decimal_text(before.as_bytes().len() as u64).as_str(),
            ),
        ),
        None => None,
    }
}

/// A command to execute in place of the current process.
#[derive(Debug)]
pub struct ExecRequest {
    /// The program.
    pub program: String,
    /// The arguments, starting with the program's name.
    pub args: Vec<String>,
    /// The text that a failure to execute the command is reported with, followed by
    /// that of the host's error.
    pub failure: String,
}

/// What keeps a command from being executed, if anything. Its first text is the
/// program, which is looked at first.
pub open spec fn command_fault(command: Seq<Seq<char>>) -> Option<Failure> {
    if has_zero(command[0]) {
        Some(Failure::Process("Invalid command: "@ + zero_text(command[0])))
    } else {
        argument_fault(command, 0)
    }
}

/// What keeps the arguments from `at` on from being passed, if anything.
pub open spec fn argument_fault(command: Seq<Seq<char>>, at: nat) -> Option<Failure>
    decreases command.len() - at,
{
    if at >= command.len() {
        None
    } else if has_zero(command[at as int]) {
        Some(
            Failure::Process(
                "Invalid argument "@ + quoted_text(command[at as int]) + ": "@ + zero_text(
                    command[at as int],
                ),
            ),
        )
    } else {
        argument_fault(command, at + 1)
    }
}

/// The request that executes a command. Texts with zero bytes cannot be passed to
/// the kernel.
pub fn exec_command(command: &Vec<String>) -> (r: Result<ExecRequest, ContainerError>)
    requires
        command@.len() > 0,
    ensures
        fails_with(r, command_fault(views(command@))),
        r is Ok ==> {
            &&& r->Ok_0.program@ == command@[0]@
            &&& views(r->Ok_0.args@) == views(command@)
            &&& r->Ok_0.failure@ == "Failed to exec "@ + quoted_list(views(command@)) + ": "@
        },
        r is Ok <==> forall|i: int|
            0 <= i < command@.len() ==> !has_zero(#[trigger] views(command@)[i]),
{
    let ghost list = views(command@);
    proof {
        command_without_zero_bytes_is_accepted(list);
    }
    assert(list[0] == command@[0]@);
    if let Some(message) = zero_fault(command[0].as_str()) {
        return Err(ContainerError::Process(labelled("Invalid command: ", message.as_str())));
    }
    let mut i: usize = 0;
    while i < command.len()
        invariant
            i <= command@.len(),
            command@.len() > 0,
            list == views(command@),
            command_fault(list) == argument_fault(list, i as nat),
        decreases command@.len() - i,
    {
        assert(list[i as int] == command@[i as int]@);
        let argument = command[i].as_str();
        if let Some(message) = zero_fault(argument) {
            let mut text = labelled("Invalid argument ", text_quoted(argument).as_str());
            text.append(": ");
            text.append(message.as_str());
            return Err(ContainerError::Process(text));
        }
        i = i + 1;
    }
    let mut failure = labelled("Failed to exec ", list_quoted(command).as_str());
    failure.append(": ");
    Ok(ExecRequest { program: command[0].clone(), args: copy_list(command), failure })
}

/// A question to the host from inside the namespaces of a container.
#[derive(Debug)]
pub enum InitCall {
    /// Perform this operation.
    Perform(HostOp),
    /// Set these environment variables.
    SetEnv(Vec<(String, String)>),
    /// Execute this program in place of the current process.
    Exec { program: String, args: Vec<String> },
}

/// What an [`InitCall`] asks, with texts as characters.
pub enum InitAsk {
    Perform(HostCall),
    SetEnv(Seq<(Seq<char>, Seq<char>)>),
    Exec { program: Seq<char>, args: Seq<Seq<char>> },
}

impl View for InitCall {
    type V = InitAsk;

    open spec fn view(&self) -> InitAsk {
        match *self {
            InitCall::Perform(op) => InitAsk::Perform(op@),
            InitCall::SetEnv(env) => InitAsk::SetEnv(pair_views(env@)),
            InitCall::Exec { program, args } => InitAsk::Exec {
                program: program@,
                args: views(args@),
            },
        }
    }
}

/// The host's answer to an [`InitCall`].
#[derive(Debug)]
pub enum InitReply {
    /// It is done. A program that is executed leaves no one to say so.
    Done,
    /// It failed with this text.
    Failed(String),
}

/// What an [`InitReply`] says, with texts as characters.
pub enum InitAnswer {
    Done,
    Failed(Seq<char>),
}

impl View for InitReply {
    type V = InitAnswer;

    open spec fn view(&self) -> InitAnswer {
        match *self {
            InitReply::Done => InitAnswer::Done,
            InitReply::Failed(text) => InitAnswer::Failed(text@),
        }
    }
}

/// How far a part of the initialisation has come.
pub type InitProgress = Progress<InitAsk, InitAnswer>;

/// The moves that set up the namespaces of a container.
pub open spec fn init_moves(hostname: Seq<char>, rootfs: Seq<char>) -> Seq<Move> {
    seq![
        reporting(
            HostCall::SetHostname(hostname),
            Category::Namespace,
            "Failed to set hostname: "@,
        ),
    ] + mount_namespace_moves(rootfs) + seq![
        reporting(HostCall::ChangeDir("/"@), Category::Filesystem, "Failed to chdir: "@),
    ]
}

/// How far the performing of moves has come. A failure that its rule does not ignore ends
/// the initialisation with the error that the rule says, or, where the moves are
/// `optional`, only the moves.
pub open spec fn moves_progress(
    moves: Seq<Move>,
    optional: bool,
    answers: Seq<InitAnswer>,
) -> InitProgress
    decreases moves.len(),
{
    if moves.len() == 0 {
        Progress::Passed(answers)
    } else if answers.len() == 0 {
        Progress::Ask(InitAsk::Perform(moves[0].call))
    } else {
        match answers[0] {
            InitAnswer::Done => moves_progress(moves.skip(1), optional, answers.skip(1)),
            InitAnswer::Failed(text) => match moves[0].rule {
                Rule::Ignore => moves_progress(moves.skip(1), optional, answers.skip(1)),
                Rule::Rethrow => if optional {
                    Progress::Passed(answers.skip(1))
                } else {
                    Progress::Halt(Halt::Rethrow)
                },
                Rule::Report(category, prefix) => if optional {
                    Progress::Passed(answers.skip(1))
                } else {
                    Progress::Halt(Halt::Fail(failure_of(category, prefix + text)))
                },
            },
        }
    }
}

/// The turn of the last part of an initialisation: the environment variables, then the
/// command.
pub open spec fn exec_turn(config: Config, answers: Seq<InitAnswer>) -> Turn<InitAsk, ()> {
    if answers.len() == 0 {
        Turn::Ask(InitAsk::SetEnv(config.env))
    } else if answers[0] != InitAnswer::Done {
        Turn::Stray
    } else if command_fault(config.command) is Some {
        Turn::Fail(command_fault(config.command)->Some_0)
    } else if answers.len() == 1 {
        Turn::Ask(InitAsk::Exec { program: config.command[0], args: config.command })
    } else {
        match answers[1] {
            InitAnswer::Failed(text) => Turn::Fail(
                Failure::Process("Failed to exec "@ + quoted_list(config.command) + ": "@ + text),
            ),
            InitAnswer::Done => Turn::Stray,
        }
    }
}

/// The turn of an initialisation after the answers so far, with these moves that take
/// capabilities away and that install the seccomp filter. The namespaces are set up first,
/// then the capabilities are dropped, then the filter is installed, and then the command
/// is executed. What fails of the capabilities and the filter is passed over.
pub open spec fn stages_turn(
    config: Config,
    rootfs: Seq<char>,
    capabilities: Seq<Move>,
    seccomp: Seq<Move>,
    answers: Seq<InitAnswer>,
) -> Turn<InitAsk, ()> {
    match moves_progress(init_moves(config.hostname, rootfs), false, answers) {
        Progress::Ask(ask) => Turn::Ask(ask),
        Progress::Halt(halt) => halted(halt),
        Progress::Passed(ready) => match moves_progress(capabilities, true, ready) {
            Progress::Ask(ask) => Turn::Ask(ask),
            Progress::Halt(halt) => halted(halt),
            Progress::Passed(dropped) => match moves_progress(seccomp, true, dropped) {
                Progress::Ask(ask) => Turn::Ask(ask),
                Progress::Halt(halt) => halted(halt),
                Progress::Passed(rest) => exec_turn(config, rest),
            },
        },
    }
}

/// The turn of an initialisation after the answers so far. `os` names the target operating
/// system: capabilities and seccomp filters are those of Linux.
pub open spec fn init_turn(
    config: Config,
    rootfs: Seq<char>,
    os: Seq<char>,
    numbers: SyscallNumbers,
    answers: Seq<InitAnswer>,
) -> Turn<InitAsk, ()> {
    if os == "linux"@ {
        stages_turn(
            config,
            rootfs,
            drop_moves(kernel_order(), Seq::empty()),
            install_moves(filter_for(denied(numbers))),
            answers,
        )
    } else {
        stages_turn(config, rootfs, Seq::empty(), Seq::empty(), answers)
    }
}

fn moves_part(plan: Plan, optional: bool, replies: &Vec<InitReply>, from: usize) -> (r: Part<
    InitCall,
>)
    requires
        from <= replies@.len(),
    ensures
        progress_of(r, replies@) == moves_progress(
            plan@,
            optional,
            heard(replies@).skip(from as int),
        ),
        r is Passed ==> r->Passed_0 <= replies@.len(),
{
    let ghost moves = plan@;
    let mut steps: Vec<Step> = plan.steps;
    let mut at: usize = from;
    let mut i: usize = 0;
    assert(moves.skip(0) =~= moves);
    while i < steps.len()
        invariant
            i <= steps@.len(),
            from <= at <= replies@.len(),
            moves == plan@,
            moves == steps@.map_values(|step: Step| step@),
            moves_progress(moves, optional, heard(replies@).skip(from as int)) == moves_progress(
                moves.skip(i as int),
                optional,
                heard(replies@).skip(at as int),
            ),
        decreases steps@.len() - i,
    {
        let ghost answers = heard(replies@).skip(at as int);
        assert(moves.skip(i as int)[0] == steps@[i as int]@);
        assert(moves.skip(i as int).skip(1) =~= moves.skip(i + 1));
        if at == replies.len() {
            let step = steps.remove(i);
            return Part::Ask(InitCall::Perform(step.op));
        }
        assert(answers[0] == replies@[at as int]@);
        assert(answers.skip(1) =~= heard(replies@).skip(at + 1));
        match &replies[at] {
            InitReply::Done => {},
            InitReply::Failed(text) => match &steps[i].on_error {
                OnError::Ignore => {},
                OnError::Rethrow => {
                    return if optional {
                        Part::Passed(at + 1)
                    } else {
                        Part::Stop(Stop::Rethrow)
                    };
                },
                OnError::Report(category, prefix) => {
                    return if optional {
                        Part::Passed(at + 1)
                    } else {
                        let error = error_of(*category, labelled(prefix.as_str(), text.as_str()));
                        Part::Stop(Stop::Fail(error))
                    };
                },
            },
        }
        at = at + 1;
        i = i + 1;
    }
    assert(moves.skip(i as int).len() == 0);
    Part::Passed(at)
}

fn exec_next(config: &ContainerConfig, replies: &Vec<InitReply>, at: usize) -> (r: Next<InitCall, ()>)
    requires
        at <= replies@.len(),
        config@.command.len() > 0,
    ensures
        r@ == exec_turn(config@, heard(replies@).skip(at as int)),
{
    let ghost answers = heard(replies@).skip(at as int);
    if at == replies.len() {
        return Next::Ask(InitCall::SetEnv(copy_pairs(&config.env)));
    }
    assert(answers[0] == replies@[at as int]@);
    if let InitReply::Failed(_) = &replies[at] {
        return Next::Stray;
    }
    assert(config@.command.len() == config.command@.len());
    match exec_command(&config.command) {
        Err(error) => Next::Fail(error),
        Ok(request) => {
            if at + 1 == replies.len() {
                return Next::Ask(
                    InitCall::Exec { program: request.program, args: request.args },
                );
            }
            assert(answers[1] == replies@[at + 1]@);
            match &replies[at + 1] {
                InitReply::Failed(text) => Next::Fail(
                    ContainerError::Process(labelled(request.failure.as_str(), text.as_str())),
                ),
                InitReply::Done => Next::Stray,
            }
        },
    }
}

/// The dialogue that initialises a container with these plans for the capabilities and
/// the seccomp filter. `replies` holds the answers so far.
pub fn initialise(
    config: &ContainerConfig,
    rootfs: &str,
    capabilities: Plan,
    seccomp: Plan,
    replies: &Vec<InitReply>,
) -> (r: Next<InitCall, ()>)
    requires
        config@.command.len() > 0,
    ensures
        r@ == stages_turn(config@, rootfs@, capabilities@, seccomp@, heard(replies@)),
{
    let mut setup = set_hostname(config.hostname.as_str());
    setup.extend(setup_mount_namespace(rootfs));
    let mut last = Plan::new();
    last.report(HostOp::ChangeDir("/".to_owned()), Category::Filesystem, "Failed to chdir: ");
    setup.extend(last);
    assert(setup@ =~= init_moves(config@.hostname, rootfs@));
    assert(heard(replies@).skip(0) =~= heard(replies@));
    let ready = match moves_part(setup, false, replies, 0) {
        Part::Ask(call) => return Next::Ask(call),
        Part::Stop(stop) => return end_with(stop),
        Part::Passed(at) => at,
    };
    let dropped = match moves_part(capabilities, true, replies, ready) {
        Part::Ask(call) => return Next::Ask(call),
        Part::Stop(stop) => return end_with(stop),
        Part::Passed(at) => at,
    };
    match moves_part(seccomp, true, replies, dropped) {
        Part::Ask(call) => Next::Ask(call),
        Part::Stop(stop) => end_with(stop),
        Part::Passed(at) => exec_next(config, replies, at),
    }
}

/// The dialogue that initialises a container from inside its namespaces:
/// 1. set the hostname
/// 2. set up the mounts
/// 3. drop capabilities to the default set
/// 4. apply the seccomp filter
/// 5. execute the command
///
/// It never comes to a good end: a command that is executed takes the place of the
/// process. `replies` holds the answers so far.
pub fn container_init(
    config: &ContainerConfig,
    rootfs: &str,
    os: &str,
    replies: &Vec<InitReply>,
) -> (r: Next<InitCall, ()>)
    requires
        config@.command.len() > 0,
    ensures
        exists|numbers: SyscallNumbers| #[trigger]
            known_numbers(numbers) && r@ == init_turn(
                config@,
                rootfs@,
                os@,
                numbers,
                heard(replies@),
            ),
{
    let capabilities = match drop_capabilities(os) {
        Ok(plan) => plan,
        Err(_) => Plan::new(),
    };
    let seccomp = match apply_seccomp_filter(os) {
        Ok(plan) => plan,
        Err(_) => {
            assert(known_numbers(x86_64_numbers()));
            Plan::new()
        },
    };
    initialise(config, rootfs, capabilities, seccomp, replies)
}

/// The configuration of a container that is initialised by hand.
pub open spec fn init_config(
    command: Seq<Seq<char>>,
    hostname: Seq<char>,
    rootfs: Seq<char>,
) -> Config {
    Config { id: "init"@, hostname, command, rootfs: Some(rootfs), env: default_env() }
}

/// The dialogue that initialises a container that is described by its command, its
/// hostname and its root filesystem. `os` names the target operating system, and
/// `replies` holds the answers so far.
pub fn init_container(
    command: &Vec<String>,
    hostname: &str,
    rootfs: &str,
    os: &str,
    replies: &Vec<InitReply>,
) -> (r: Next<InitCall, ()>)
    requires
        command@.len() > 0,
    ensures
        os@ != "linux"@ ==> r@ == Turn::<InitAsk, ()>::Fail(
            Failure::Process("Container runtime only supported on Linux"@),
        ),
        os@ == "linux"@ ==> exists|numbers: SyscallNumbers| #[trigger]
            known_numbers(numbers) && r@ == init_turn(
                init_config(views(command@), hostname@, rootfs@),
                rootfs@,
                os@,
                numbers,
                heard(replies@),
            ),
{
    if !is_linux(os) {
        return Next::Fail(
            ContainerError::Process("Container runtime only supported on Linux".to_owned()),
        );
    }
    let mut config = ContainerConfig::with_id("init".to_owned());
    config.hostname = hostname.to_owned();
    config.command = copy_list(command);
    config.rootfs = Some(rootfs.to_owned());
    container_init(&config, rootfs, os, replies)
}

proof fn optional_moves_do_not_halt(moves: Seq<Move>, answers: Seq<InitAnswer>)
    ensures
        !(moves_progress(moves, true, answers) is Halt),
    decreases moves.len(),
{
    if moves.len() > 0 && answers.len() > 0 {
        optional_moves_do_not_halt(moves.skip(1), answers.skip(1));
    }
}

proof fn passed_answers_are_a_suffix(
    moves: Seq<Move>,
    optional: bool,
    answers: Seq<InitAnswer>,
) -> (at: int)
    requires
        moves_progress(moves, optional, answers) is Passed,
    ensures
        0 <= at <= answers.len(),
        moves_progress(moves, optional, answers)->Passed_0 == answers.skip(at),
    decreases moves.len(),
{
    if moves.len() == 0 {
        assert(answers.skip(0) =~= answers);
        0
    } else if answers[0] is Failed && !(moves[0].rule is Ignore) {
        1
    } else {
        let at = passed_answers_are_a_suffix(moves.skip(1), optional, answers.skip(1));
        assert(answers.skip(1).skip(at) =~= answers.skip(at + 1));
        at + 1
    }
}

/// An initialisation never comes to a good end: its last step is the command, which takes
/// the place of the process.
pub proof fn initialisation_does_not_return(
    config: Config,
    rootfs: Seq<char>,
    os: Seq<char>,
    numbers: SyscallNumbers,
    answers: Seq<InitAnswer>,
)
    ensures
        !(init_turn(config, rootfs, os, numbers, answers) is Done),
{
}

proof fn moves_are_performed_in_order(moves: Seq<Move>, optional: bool, answers: Seq<InitAnswer>)
    requires
        forall|i: int| 0 <= i < answers.len() ==> #[trigger] answers[i] == InitAnswer::Done,
    ensures
        moves_progress(moves, optional, answers) == if answers.len() < moves.len() {
            InitProgress::Ask(InitAsk::Perform(moves[answers.len() as int].call))
        } else {
            InitProgress::Passed(answers.skip(moves.len() as int))
        },
    decreases moves.len(),
{
    if moves.len() == 0 {
        assert(answers.skip(0) =~= answers);
    } else if answers.len() > 0 {
        let rest = answers.skip(1);
        assert(answers[0] == InitAnswer::Done);
        assert forall|i: int| 0 <= i < rest.len() implies #[trigger] rest[i]
            == InitAnswer::Done by {
            assert(rest[i] == answers[i + 1]);
        }
        moves_are_performed_in_order(moves.skip(1), optional, rest);
        if answers.len() >= moves.len() {
            assert(rest.skip(moves.len() - 1) =~= answers.skip(moves.len() as int));
        }
    }
}

/// On Linux, as long as nothing fails, the initialisation sets the hostname, sets up the
/// mounts, changes to the root directory, drops the capabilities, installs the seccomp
/// filter, sets the environment variables and executes the command, in this order.
pub proof fn initialisation_goes_in_order(
    config: Config,
    rootfs: Seq<char>,
    numbers: SyscallNumbers,
    answers: Seq<InitAnswer>,
)
    requires
        command_fault(config.command) is None,
        forall|i: int| 0 <= i < answers.len() ==> #[trigger] answers[i] == InitAnswer::Done,
    ensures
        ({
            let moves = init_moves(config.hostname, rootfs) + drop_moves(
                kernel_order(),
                Seq::empty(),
            ) + install_moves(filter_for(denied(numbers)));
            let at = answers.len();
            let turn = init_turn(config, rootfs, "linux"@, numbers, answers);
            &&& at < moves.len() ==> turn == Turn::<InitAsk, ()>::Ask(
                InitAsk::Perform(moves[at as int].call),
            )
            &&& at == moves.len() ==> turn == Turn::<InitAsk, ()>::Ask(InitAsk::SetEnv(config.env))
            &&& at == moves.len() + 1 ==> turn == Turn::<InitAsk, ()>::Ask(
                InitAsk::Exec { program: config.command[0], args: config.command },
            )
        }),
{
    let setup = init_moves(config.hostname, rootfs);
    let capabilities = drop_moves(kernel_order(), Seq::empty());
    let seccomp = install_moves(filter_for(denied(numbers)));
    moves_are_performed_in_order(setup, false, answers);
    if answers.len() >= setup.len() {
        let ready = answers.skip(setup.len() as int);
        assert forall|i: int| 0 <= i < ready.len() implies #[trigger] ready[i]
            == InitAnswer::Done by {
            assert(ready[i] == answers[i + setup.len()]);
        }
        moves_are_performed_in_order(capabilities, true, ready);
        if ready.len() >= capabilities.len() {
            let dropped = ready.skip(capabilities.len() as int);
            assert forall|i: int| 0 <= i < dropped.len() implies #[trigger] dropped[i]
                == InitAnswer::Done by {
                assert(dropped[i] == ready[i + capabilities.len()]);
            }
            moves_are_performed_in_order(seccomp, true, dropped);
            if dropped.len() > seccomp.len() {
                let rest = dropped.skip(seccomp.len() as int);
                assert(rest[0] == dropped[seccomp.len() as int]);
            }
        }
    }
}

proof fn failure_ends_the_moves(moves: Seq<Move>, optional: bool, answers: Seq<InitAnswer>)
    requires
        0 < answers.len() <= moves.len(),
        forall|i: int| 0 <= i < answers.len() - 1 ==> #[trigger] answers[i] == InitAnswer::Done,
        answers.last() is Failed,
        moves[answers.len() - 1].rule is Report,
    ensures
        moves_progress(moves, optional, answers) == if optional {
            InitProgress::Passed(Seq::empty())
        } else {
            let rule = moves[answers.len() - 1].rule;
            InitProgress::Halt(
                Halt::Fail(failure_of(rule->Report_0, rule->Report_1 + answers.last()->Failed_0)),
            )
        },
    decreases moves.len(),
{
    let rest = answers.skip(1);
    if answers.len() == 1 {
        assert(rest =~= Seq::empty());
    } else {
        assert(answers[0] == InitAnswer::Done);
        assert(rest.last() == answers.last());
        assert forall|i: int| 0 <= i < rest.len() - 1 implies #[trigger] rest[i]
            == InitAnswer::Done by {
            assert(rest[i] == answers[i + 1]);
        }
        failure_ends_the_moves(moves.skip(1), optional, rest);
    }
}

/// A step of the setup that fails and is not ignored ends the initialisation with its
/// error.
pub proof fn failed_setup_ends_the_initialisation(
    config: Config,
    rootfs: Seq<char>,
    os: Seq<char>,
    numbers: SyscallNumbers,
    answers: Seq<InitAnswer>,
)
    requires
        0 < answers.len() <= init_moves(config.hostname, rootfs).len(),
        forall|i: int| 0 <= i < answers.len() - 1 ==> #[trigger] answers[i] == InitAnswer::Done,
        answers.last() is Failed,
        init_moves(config.hostname, rootfs)[answers.len() - 1].rule is Report,
    ensures
        ({
            let rule = init_moves(config.hostname, rootfs)[answers.len() - 1].rule;
            init_turn(config, rootfs, os, numbers, answers) == Turn::<InitAsk, ()>::Fail(
                failure_of(rule->Report_0, rule->Report_1 + answers.last()->Failed_0),
            )
        }),
{
    failure_ends_the_moves(init_moves(config.hostname, rootfs), false, answers);
}

/// Once the namespaces are set up, only the command can make the initialisation fail:
/// whatever becomes of the capabilities and the seccomp filter, it goes on to the
/// environment variables and the command.
pub proof fn only_the_command_fails_after_the_setup(
    config: Config,
    rootfs: Seq<char>,
    os: Seq<char>,
    numbers: SyscallNumbers,
    answers: Seq<InitAnswer>,
)
    requires
        moves_progress(init_moves(config.hostname, rootfs), false, answers) is Passed,
    ensures
        match init_turn(config, rootfs, os, numbers, answers) {
            Turn::Ask(_) | Turn::Stray => true,
            Turn::Fail(failure) => {
                ||| command_fault(config.command) == Some(failure)
                ||| exists|i: int|
                    0 <= i < answers.len() && #[trigger] answers[i] is Failed && failure
                        == Failure::Process(
                        "Failed to exec "@ + quoted_list(config.command) + ": "@
                            + answers[i]->Failed_0,
                    )
            },
            Turn::Done(_) | Turn::Rethrow => false,
        },
{
    let linux = os == "linux"@;
    let capabilities = if linux {
        drop_moves(kernel_order(), Seq::empty())
    } else {
        Seq::empty()
    };
    let seccomp = if linux {
        install_moves(filter_for(denied(numbers)))
    } else {
        Seq::empty()
    };
    let setup = init_moves(config.hostname, rootfs);
    let ready = moves_progress(setup, false, answers)->Passed_0;
    let a = passed_answers_are_a_suffix(setup, false, answers);
    optional_moves_do_not_halt(capabilities, ready);
    if let Progress::Passed(dropped) = moves_progress(capabilities, true, ready) {
        let b = passed_answers_are_a_suffix(capabilities, true, ready);
        optional_moves_do_not_halt(seccomp, dropped);
        if let Progress::Passed(rest) = moves_progress(seccomp, true, dropped) {
            let c = passed_answers_are_a_suffix(seccomp, true, dropped);
            if rest.len() > 1 {
                assert(rest[1] == answers[a + b + c + 1]);
            }
        }
    }
}

/// The turns of an initialisation on Linux.
pub open spec fn init_turns(
    config: Config,
    rootfs: Seq<char>,
    numbers: SyscallNumbers,
) -> spec_fn(Seq<InitAnswer>) -> Turn<InitAsk, ()> {
    |said: Seq<InitAnswer>| init_turn(config, rootfs, "linux"@, numbers, said)
}

/// Moves that may not fail have each been asked for, in order, and those whose failure
/// matters are done.
proof fn required_moves_were_done(moves: Seq<Move>, said: Seq<InitAnswer>)
    requires
        moves_progress(moves, false, said) is Passed,
    ensures
        said.len() >= moves.len(),
        moves_progress(moves, false, said) == InitProgress::Passed(said.skip(moves.len() as int)),
        forall|k: int|
            0 <= k < moves.len() ==> {
                &&& moves_progress(moves, false, said.take(k)) == InitProgress::Ask(
                    InitAsk::Perform((#[trigger] moves[k]).call),
                )
                &&& moves[k].rule is Ignore || said[k] == InitAnswer::Done
            },
    decreases moves.len(),
{
    if moves.len() == 0 {
        assert(said.skip(0) =~= said);
    } else {
        let rest = said.skip(1);
        required_moves_were_done(moves.skip(1), rest);
        assert(rest.skip(moves.len() - 1) =~= said.skip(moves.len() as int));
        assert forall|k: int| 0 <= k < moves.len() implies {
            &&& moves_progress(moves, false, said.take(k)) == InitProgress::Ask(
                InitAsk::Perform((#[trigger] moves[k]).call),
            )
            &&& moves[k].rule is Ignore || said[k] == InitAnswer::Done
        } by {
            if k > 0 {
                assert(moves.skip(1)[k - 1] == moves[k]);
                assert(said.take(k)[0] == said[0]);
                assert(said.take(k).skip(1) =~= rest.take(k - 1));
                assert(rest[k - 1] == said[k]);
            }
        }
    }
}

/// What was asked for in the setup was asked for in the initialisation.
proof fn setup_was_asked_for(
    config: Config,
    rootfs: Seq<char>,
    numbers: SyscallNumbers,
    said: Seq<InitAnswer>,
    k: int,
)
    requires
        moves_progress(init_moves(config.hostname, rootfs), false, said) is Passed,
        0 <= k < init_moves(config.hostname, rootfs).len(),
    ensures
        asked(
            init_turns(config, rootfs, numbers),
            said,
            InitAsk::Perform(init_moves(config.hostname, rootfs)[k].call),
        ),
        !(init_moves(config.hostname, rootfs)[k].rule is Ignore) ==> answered(
            init_turns(config, rootfs, numbers),
            said,
            InitAsk::Perform(init_moves(config.hostname, rootfs)[k].call),
            InitAnswer::Done,
        ),
{
    let moves = init_moves(config.hostname, rootfs);
    required_moves_were_done(moves, said);
    let ask = InitAsk::Perform(moves[k].call);
    assert(answered_at(init_turns(config, rootfs, numbers), said, k, ask, said[k]));
    assert(answered(init_turns(config, rootfs, numbers), said, ask, said[k]));
}

/// The command is executed only in a container that has been set up: when it is to be
/// executed, the hostname of the configuration was set, everything that sets up the mount
/// namespace was asked for and nothing of it failed that may not fail, and the environment
/// variables of the configuration were set. The command is that of the configuration.
pub proof fn command_is_executed_inside_the_container(
    config: Config,
    rootfs: Seq<char>,
    numbers: SyscallNumbers,
    said: Seq<InitAnswer>,
    program: Seq<char>,
    args: Seq<Seq<char>>,
)
    requires
        init_turn(config, rootfs, "linux"@, numbers, said) == Turn::<InitAsk, ()>::Ask(
            InitAsk::Exec { program, args },
        ),
        config.command.len() > 0,
    ensures
        program == config.command[0],
        args == config.command,
        answered(
            init_turns(config, rootfs, numbers),
            said,
            InitAsk::Perform(HostCall::SetHostname(config.hostname)),
            InitAnswer::Done,
        ),
        answered(
            init_turns(config, rootfs, numbers),
            said,
            InitAsk::SetEnv(config.env),
            InitAnswer::Done,
        ),
        forall|k: int|
            0 <= k < mount_namespace_moves(rootfs).len() ==> {
                let step = #[trigger] mount_namespace_moves(rootfs)[k];
                &&& asked(
                    init_turns(config, rootfs, numbers),
                    said,
                    InitAsk::Perform(step.call),
                )
                &&& !(step.rule is Ignore) ==> answered(
                    init_turns(config, rootfs, numbers),
                    said,
                    InitAsk::Perform(step.call),
                    InitAnswer::Done,
                )
            },
{
    let turns = init_turns(config, rootfs, numbers);
    let moves = init_moves(config.hostname, rootfs);
    let inner = mount_namespace_moves(rootfs);
    only_performs_before_the_command(config, rootfs, numbers, said);
    setup_was_asked_for(config, rootfs, numbers, said, 0);
    assert forall|k: int| 0 <= k < inner.len() implies {
        let step = #[trigger] inner[k];
        &&& asked(turns, said, InitAsk::Perform(step.call))
        &&& !(step.rule is Ignore) ==> answered(
            turns,
            said,
            InitAsk::Perform(step.call),
            InitAnswer::Done,
        )
    } by {
        assert(moves[k + 1] == inner[k]);
        setup_was_asked_for(config, rootfs, numbers, said, k + 1);
    }
    environment_was_set(config, rootfs, numbers, said);
}

proof fn only_performs_before_the_command(
    config: Config,
    rootfs: Seq<char>,
    numbers: SyscallNumbers,
    said: Seq<InitAnswer>,
)
    requires
        init_turn(config, rootfs, "linux"@, numbers, said) is Ask,
        init_turn(config, rootfs, "linux"@, numbers, said)->Ask_0 is Exec,
    ensures
        moves_progress(init_moves(config.hostname, rootfs), false, said) is Passed,
{
    let setup = init_moves(config.hostname, rootfs);
    moves_ask_to_perform(setup, false, said);
}

proof fn moves_ask_to_perform(moves: Seq<Move>, optional: bool, said: Seq<InitAnswer>)
    ensures
        moves_progress(moves, optional, said) matches Progress::Ask(ask) ==> ask is Perform,
    decreases moves.len(),
{
    if moves.len() > 0 && said.len() > 0 {
        moves_ask_to_perform(moves.skip(1), optional, said.skip(1));
    }
}

/// A part that has passed is done with its answers, whatever follows.
proof fn passed_moves_pass(moves: Seq<Move>, optional: bool, said: Seq<InitAnswer>, k: int)
    requires
        moves_progress(moves, optional, said) is Passed,
        0 <= k <= said.len(),
        moves_progress(moves, optional, said)->Passed_0 == said.skip(k),
        moves_progress(moves, optional, said)->Passed_0.len() == said.len() - k,
    ensures
        forall|i: int|
            k <= i <= said.len() ==> moves_progress(moves, optional, #[trigger] said.take(i))
                == InitProgress::Passed(said.take(i).skip(k)),
    decreases moves.len(),
{
    if moves.len() == 0 {
        assert(k == 0);
        assert forall|i: int| k <= i <= said.len() implies moves_progress(
            moves,
            optional,
            #[trigger] said.take(i),
        ) == InitProgress::Passed(said.take(i).skip(k)) by {
            assert(said.take(i).skip(0) =~= said.take(i));
        }
    } else {
        let rest = said.skip(1);
        let ends = said[0] is Failed && !(moves[0].rule is Ignore);
        if ends {
            assert(k == 1);
        } else {
            let l = passed_answers_are_a_suffix(moves.skip(1), optional, rest);
            assert(rest.skip(l).len() == said.len() - k);
            assert(l == k - 1);
            passed_moves_pass(moves.skip(1), optional, rest, l);
        }
        assert forall|i: int| k <= i <= said.len() implies moves_progress(
            moves,
            optional,
            #[trigger] said.take(i),
        ) == InitProgress::Passed(said.take(i).skip(k)) by {
            assert(said.take(i)[0] == said[0]);
            if !ends {
                assert(said.take(i).skip(1) =~= rest.take(i - 1));
                assert(rest.take(i - 1).skip(k - 1) =~= said.take(i).skip(k));
            }
        }
    }
}

proof fn environment_was_set(
    config: Config,
    rootfs: Seq<char>,
    numbers: SyscallNumbers,
    said: Seq<InitAnswer>,
)
    requires
        init_turn(config, rootfs, "linux"@, numbers, said) is Ask,
        init_turn(config, rootfs, "linux"@, numbers, said)->Ask_0 is Exec,
    ensures
        answered(
            init_turns(config, rootfs, numbers),
            said,
            InitAsk::SetEnv(config.env),
            InitAnswer::Done,
        ),
        init_turn(config, rootfs, "linux"@, numbers, said)->Ask_0 == (InitAsk::Exec {
            program: config.command[0],
            args: config.command,
        }),
{
    let setup = init_moves(config.hostname, rootfs);
    let capabilities = drop_moves(kernel_order(), Seq::empty());
    let seccomp = install_moves(filter_for(denied(numbers)));
    moves_ask_to_perform(setup, false, said);
    let a = passed_answers_are_a_suffix(setup, false, said);
    let ready = said.skip(a);
    passed_moves_pass(setup, false, said, a);
    optional_moves_do_not_halt(capabilities, ready);
    moves_ask_to_perform(capabilities, true, ready);
    let b = passed_answers_are_a_suffix(capabilities, true, ready);
    let dropped = ready.skip(b);
    passed_moves_pass(capabilities, true, ready, b);
    optional_moves_do_not_halt(seccomp, dropped);
    moves_ask_to_perform(seccomp, true, dropped);
    let c = passed_answers_are_a_suffix(seccomp, true, dropped);
    let rest = dropped.skip(c);
    passed_moves_pass(seccomp, true, dropped, c);
    let n = a + b + c;
    assert(rest[0] == said[n]);
    let s = said.take(n);
    assert(s.skip(a) =~= ready.take(b + c));
    assert(ready.take(b + c).skip(b) =~= dropped.take(c));
    assert(dropped.take(c).skip(c).len() == 0);
    assert(answered_at(
        init_turns(config, rootfs, numbers),
        said,
        n,
        InitAsk::SetEnv(config.env),
        InitAnswer::Done,
    ));
}

/// A command can be executed exactly when none of its texts holds a zero byte.
pub proof fn command_without_zero_bytes_is_accepted(command: Seq<Seq<char>>)
    requires
        command.len() > 0,
    ensures
        (command_fault(command) is None) == forall|i: int|
            0 <= i < command.len() ==> !has_zero(#[trigger] command[i]),
{
    arguments_without_zero_bytes(command, 0);
}

proof fn arguments_without_zero_bytes(command: Seq<Seq<char>>, at: nat)
    ensures
        (argument_fault(command, at) is None) == forall|i: int|
            at <= i < command.len() ==> !has_zero(#[trigger] command[i]),
    decreases command.len() - at,
{
    if at < command.len() {
        arguments_without_zero_bytes(command, at + 1);
    }
}

/// Moves that may fail have been asked for up to the first failure.
proof fn optional_moves_were_asked_for(moves: Seq<Move>, said: Seq<InitAnswer>) -> (n: int)
    requires
        moves_progress(moves, true, said) is Passed,
        forall|k: int| 0 <= k < moves.len() ==> !((#[trigger] moves[k]).rule is Ignore),
    ensures
        0 <= n <= moves.len(),
        n <= said.len(),
        forall|k: int| 0 <= k < n ==> #[trigger] said[k] == InitAnswer::Done,
        n < moves.len() ==> n < said.len() && said[n] is Failed,
        forall|k: int|
            0 <= k <= n && k < moves.len() ==> moves_progress(moves, true, said.take(k))
                == InitProgress::Ask(InitAsk::Perform((#[trigger] moves[k]).call)),
    decreases moves.len(),
{
    if moves.len() == 0 {
        0
    } else {
        assert(!(moves[0].rule is Ignore));
        assert(said.take(0).len() == 0);
        if said[0] is Failed {
            0
        } else {
            let rest = said.skip(1);
            let others = moves.skip(1);
            assert forall|k: int| 0 <= k < others.len() implies !((
            #[trigger] others[k]).rule is Ignore) by {
                assert(others[k] == moves[k + 1]);
            }
            let m = optional_moves_were_asked_for(others, rest);
            assert forall|k: int| 0 <= k < m + 1 implies #[trigger] said[k] == InitAnswer::Done by {
                if k > 0 {
                    assert(rest[k - 1] == said[k]);
                }
            }
            assert(m < others.len() ==> rest[m] == said[m + 1]);
            assert forall|k: int|
                0 <= k <= m + 1 && k < moves.len() implies moves_progress(moves, true, said.take(k))
                == InitProgress::Ask(InitAsk::Perform((#[trigger] moves[k]).call)) by {
                if k > 0 {
                    assert(others[k - 1] == moves[k]);
                    assert(said.take(k)[0] == said[0]);
                    assert(said.take(k).skip(1) =~= rest.take(k - 1));
                }
            }
            m + 1
        }
    }
}

/// Whether the dropping of capabilities was ended by a failure.
pub open spec fn drop_failed(
    config: Config,
    rootfs: Seq<char>,
    numbers: SyscallNumbers,
    said: Seq<InitAnswer>,
) -> bool {
    exists|set: CapSet, capability: Capability, text: Seq<char>| #[trigger]
        answered(
            init_turns(config, rootfs, numbers),
            said,
            InitAsk::Perform(HostCall::DropCapability { set, capability }),
            InitAnswer::Failed(text),
        )
}

/// The command is executed only when the restrictions have been tried: every capability
/// but the usual ones was dropped from every set, unless dropping one failed, and the
/// filter that refuses the dangerous system calls was asked for, unless the process could
/// not give up the gaining of privileges.
pub proof fn command_is_executed_with_restrictions(
    config: Config,
    rootfs: Seq<char>,
    numbers: SyscallNumbers,
    said: Seq<InitAnswer>,
)
    requires
        init_turn(config, rootfs, "linux"@, numbers, said) is Ask,
        init_turn(config, rootfs, "linux"@, numbers, said)->Ask_0 is Exec,
    ensures
        drop_failed(config, rootfs, numbers, said) || forall|set: CapSet, capability: Capability|
            !is_usual(capability) ==> #[trigger] answered(
                init_turns(config, rootfs, numbers),
                said,
                InitAsk::Perform(HostCall::DropCapability { set, capability }),
                InitAnswer::Done,
            ),
        asked(
            init_turns(config, rootfs, numbers),
            said,
            InitAsk::Perform(HostCall::SetNoNewPrivs),
        ),
        answered(
            init_turns(config, rootfs, numbers),
            said,
            InitAsk::Perform(HostCall::SetNoNewPrivs),
            InitAnswer::Done,
        ) ==> asked(
            init_turns(config, rootfs, numbers),
            said,
            InitAsk::Perform(HostCall::InstallSeccomp(filter_for(denied(numbers)))),
        ) || exists|text: Seq<char>| #[trigger]
            answered(
                init_turns(config, rootfs, numbers),
                said,
                InitAsk::Perform(HostCall::SetNoNewPrivs),
                InitAnswer::Failed(text),
            ),
{
    let turns = init_turns(config, rootfs, numbers);
    let setup = init_moves(config.hostname, rootfs);
    let capabilities = drop_moves(kernel_order(), Seq::empty());
    let seccomp = install_moves(filter_for(denied(numbers)));
    moves_ask_to_perform(setup, false, said);
    let a = passed_answers_are_a_suffix(setup, false, said);
    let ready = said.skip(a);
    passed_moves_pass(setup, false, said, a);
    optional_moves_do_not_halt(capabilities, ready);
    moves_ask_to_perform(capabilities, true, ready);
    let b = passed_answers_are_a_suffix(capabilities, true, ready);
    let dropped = ready.skip(b);
    passed_moves_pass(capabilities, true, ready, b);
    optional_moves_do_not_halt(seccomp, dropped);
    moves_ask_to_perform(seccomp, true, dropped);
    drops_are_reported(kernel_order(), Seq::empty());
    let n = optional_moves_were_asked_for(capabilities, ready);
    let m = optional_moves_were_asked_for(seccomp, dropped);
    assert forall|k: int| 0 <= k <= n && k < capabilities.len() implies turns(said.take(a + k))
        == Turn::<InitAsk, ()>::Ask(InitAsk::Perform((#[trigger] capabilities[k]).call)) by {
        assert(said.take(a + k).skip(a) =~= ready.take(k));
    }
    assert forall|k: int| 0 <= k <= m && k < seccomp.len() implies turns(said.take(a + b + k))
        == Turn::<InitAsk, ()>::Ask(InitAsk::Perform((#[trigger] seccomp[k]).call)) by {
        assert(said.take(a + b + k).skip(a) =~= ready.take(b + k));
        assert(ready.take(b + k).skip(b) =~= dropped.take(k));
    }
    if n < capabilities.len() {
        let call = capabilities[n].call;
        assert(said[a + n] == ready[n]);
        drops_exactly_what_is_not_kept(
            Seq::empty(),
            CapSet::Effective,
            Capability::CAP_SYS_ADMIN,
        );
        assert(call is DropCapability);
        let set = call->set;
        let capability = call->capability;
        let text = ready[n]->Failed_0;
        assert(answered_at(
            turns,
            said,
            a + n,
            InitAsk::Perform(HostCall::DropCapability { set, capability }),
            InitAnswer::Failed(text),
        ));
        assert(answered(
            turns,
            said,
            InitAsk::Perform(HostCall::DropCapability { set, capability }),
            InitAnswer::Failed(text),
        ));
    } else {
        assert forall|set: CapSet, capability: Capability| !is_usual(capability) implies #[trigger]
            answered(
            turns,
            said,
            InitAsk::Perform(HostCall::DropCapability { set, capability }),
            InitAnswer::Done,
        ) by {
            container_keeps_the_usual_capabilities(Seq::empty(), set, capability);
            assert(drops(capabilities, set, capability));
            let k = choose|k: int|
                0 <= k < capabilities.len() && (#[trigger] capabilities[k]).call
                    == HostCall::DropCapability { set, capability };
            assert(ready[k] == InitAnswer::Done);
            assert(said[a + k] == ready[k]);
            assert(answered_at(
                turns,
                said,
                a + k,
                InitAsk::Perform(HostCall::DropCapability { set, capability }),
                InitAnswer::Done,
            ));
        }
    }
    assert(seccomp[0].call == HostCall::SetNoNewPrivs);
    assert(seccomp[1].call == HostCall::InstallSeccomp(filter_for(denied(numbers))));
    let first = InitAsk::Perform(HostCall::SetNoNewPrivs);
    assert(said[a + b] == dropped[0]);
    assert(answered_at(turns, said, a + b, first, dropped[0]));
    assert(answered(turns, said, first, dropped[0]));
    if m > 0 {
        let second = InitAsk::Perform(HostCall::InstallSeccomp(filter_for(denied(numbers))));
        assert(dropped.len() > 1);
        assert(said[a + b + 1] == dropped[1]);
        assert(answered_at(turns, said, a + b + 1, second, dropped[1]));
        assert(answered(turns, said, second, dropped[1]));
    } else {
        assert(dropped[0] == InitAnswer::Failed(dropped[0]->Failed_0));
    }
}

} // verus!
