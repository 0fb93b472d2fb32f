//! Stopping the process of a container.

use vstd::prelude::*;
use vstd::string::*;

use crate::dialogue::{heard, progress_of, Halt, Part, Stop};
use crate::error::{labelled, ContainerError, Failure};
use crate::runtime::status::{RuntimeAnswer, RuntimeAsk, RuntimeCall, RuntimeProgress, RuntimeReply};
use crate::text::{decimal, decimal_text, signed_decimal, signed_decimal_text};

verus! {

/// The signal that asks a process to terminate.
pub const SIGTERM: i32 = 15;

/// The number of milliseconds between two looks at a process that is stopping.
pub const STOP_POLL_MILLIS: u64 = 100;

/// A length of time.
#[derive(Debug, Clone, Copy, PartialEq, Eq, Structural)]
pub struct Span {
    pub secs: u64,
    pub nanos: u32,
}

/// The number of seconds that a process is given to stop by default.
pub const STOP_SECS: u64 = 10;

/// The highest number that a signal has on any Linux architecture; the real-time signals
/// above it are not among those that have names.
pub const LAST_SIGNAL: i32 = 31;

/// Whether a number is that of a signal on every Linux architecture: one of
/// SIGHUP, SIGINT, SIGQUIT, SIGILL, SIGTRAP, SIGABRT, SIGFPE, SIGKILL, SIGSEGV,
/// SIGPIPE, SIGALRM and SIGTERM.
pub open spec fn common_signal(signal: i32) -> bool {
    (1 <= signal <= 6) || signal == 8 || signal == 9 || signal == 11 || (13 <= signal <= 15)
}

/// What is known of the verdict on a signal number on every architecture: the
/// common signals are accepted, numbers outside the range of the signals are refused, and
/// the text of a refusal is always the same.
pub open spec fn signal_verdict(signal: i32, fault: Option<Seq<char>>) -> bool {
    &&& common_signal(signal) ==> fault is None
    &&& signal <= 0 || signal > LAST_SIGNAL ==> fault is Some
    &&& fault is Some ==> fault->Some_0 == "EINVAL: Invalid argument"@
}

/// Calls `nix::sys::signal::Signal::try_from`: the text of its error when the
/// number is not that of a signal. Which of the less common numbers from 1 to 31 are
/// signals depends on the architecture, so nothing is claimed of them.
#[verifier::external_body]
pub(crate) fn signal_fault(signal: i32) -> (fault: Option<String>)
    ensures
        signal_verdict(signal, crate::host::text_of(fault)),
{
    match nix::sys::signal::Signal::try_from(signal) {
        Ok(_) => None,
        Err(error) => Some(error.to_string()),
    }
}

/// Whether more time has passed than `limit`.
pub open spec fn overdue(secs: u64, nanos: u32, limit: Span) -> bool {
    secs > limit.secs || (secs == limit.secs && nanos > limit.nanos)
}

/// How far the wait for a signalled process has come. The process is looked at
/// again and again, with a sleep in between, until it is gone or the limit is
/// exceeded; then it is killed.
pub open spec fn await_progress(
    pid: u32,
    limit: Span,
    answers: Seq<RuntimeAnswer>,
) -> RuntimeProgress
    decreases answers.len(),
{
    if answers.len() == 0 {
        RuntimeProgress::Ask(RuntimeAsk::PollProcess(pid as i32))
    } else {
        match answers[0] {
            RuntimeAnswer::Ended | RuntimeAnswer::Gone => RuntimeProgress::Passed(answers.skip(1)),
            RuntimeAnswer::Failed(error) => RuntimeProgress::Halt(
                Halt::Fail(
                    Failure::Runtime(
                        "waitpid error for pid "@ + decimal(pid as nat) + ": "@ + error,
                    ),
                ),
            ),
            RuntimeAnswer::Running { secs, nanos } => if overdue(secs, nanos, limit) {
                if answers.len() == 1 {
                    RuntimeProgress::Ask(RuntimeAsk::ForceKill(pid as i32))
                } else {
                    match answers[1] {
                        RuntimeAnswer::Done | RuntimeAnswer::Failed(_) => RuntimeProgress::Passed(
                            answers.skip(2),
                        ),
                        _ => RuntimeProgress::Halt(Halt::Stray),
                    }
                }
            } else if answers.len() == 1 {
                RuntimeProgress::Ask(RuntimeAsk::Sleep(STOP_POLL_MILLIS))
            } else {
                match answers[1] {
                    RuntimeAnswer::Done => await_progress(pid, limit, answers.skip(2)),
                    _ => RuntimeProgress::Halt(Halt::Stray),
                }
            },
            _ => RuntimeProgress::Halt(Halt::Stray),
        }
    }
}

/// How far the stopping of a process has come. `fault` says what is wrong with the
/// signal, if anything.
pub open spec fn stop_progress(
    pid: u32,
    signal: i32,
    fault: Option<Seq<char>>,
    limit: Span,
    answers: Seq<RuntimeAnswer>,
) -> RuntimeProgress {
    if let Some(error) = fault {
        RuntimeProgress::Halt(
            Halt::Fail(
                Failure::Runtime(
                    "invalid signal "@ + signed_decimal(signal as int) + ": "@ + error,
                ),
            ),
        )
    } else if answers.len() == 0 {
        RuntimeProgress::Ask(RuntimeAsk::SendSignal { pid: pid as i32, signal })
    } else {
        match answers[0] {
            RuntimeAnswer::Done => await_progress(pid, limit, answers.skip(1)),
            RuntimeAnswer::Failed(error) => RuntimeProgress::Halt(
                Halt::Fail(
                    Failure::Runtime(
                        "failed to send signal to pid "@ + decimal(pid as nat) + ": "@ + error,
                    ),
                ),
            ),
            _ => RuntimeProgress::Halt(Halt::Stray),
        }
    }
}

fn fail(text: String) -> (r: Part<RuntimeCall>)
    ensures
        r is Stop,
        r->Stop_0@ == Halt::Fail(Failure::Runtime(text@)),
{
    Part::Stop(Stop::Fail(ContainerError::Runtime(text)))
}

fn await_part(pid: u32, limit: Span, replies: &Vec<RuntimeReply>, from: usize) -> (r: Part<RuntimeCall>)
    requires
        from <= replies@.len(),
    ensures
        progress_of(r, replies@) == await_progress(
            pid,
            limit,
            heard(replies@).skip(from as int),
        ),
        r is Passed ==> r->Passed_0 <= replies@.len(),
{
    let ghost whole = await_progress(pid, limit, heard(replies@).skip(from as int));
    let len = replies.len();
    let mut at: usize = from;
    while at < len
        invariant
            len == replies@.len(),
            at <= len,
            whole == await_progress(pid, limit, heard(replies@).skip(from as int)),
            whole == await_progress(pid, limit, heard(replies@).skip(at as int)),
        decreases len - at,
    {
        let ghost answers = heard(replies@).skip(at as int);
        assert(answers[0] == replies@[at as int]@);
        assert(answers.skip(1) =~= heard(replies@).skip(at + 1));
        match &replies[at] {
            RuntimeReply::Ended | RuntimeReply::Gone => {
                return Part::Passed(at + 1);
            },
            RuntimeReply::Failed(error) => {
                let mut text = labelled(
                    "waitpid error for pid ",
                    decimal_text(pid as u64).as_str(),
                );
                text.append(": ");
                text.append(error.as_str());
                return fail(text);
            },
            RuntimeReply::Running { secs, nanos } => {
                let over = *secs > limit.secs || (*secs == limit.secs && *nanos > limit.nanos);
                if at + 1 == len {
                    if over {
                        return Part::Ask(RuntimeCall::ForceKill(pid as i32));
                    }
                    return Part::Ask(RuntimeCall::Sleep(STOP_POLL_MILLIS));
                }
                assert(answers[1] == replies@[at + 1]@);
                assert(answers.skip(2) =~= heard(replies@).skip(at + 2));
                match &replies[at + 1] {
                    RuntimeReply::Done => {
                        if over {
                            return Part::Passed(at + 2);
                        }
                        at = at + 2;
                    },
                    RuntimeReply::Failed(_) => {
                        if over {
                            return Part::Passed(at + 2);
                        }
                        return Part::Stop(Stop::Stray);
                    },
                    _ => {
                        return Part::Stop(Stop::Stray);
                    },
                }
            },
            _ => {
                return Part::Stop(Stop::Stray);
            },
        }
    }
    assert(heard(replies@).skip(at as int).len() == 0);
    Part::Ask(RuntimeCall::PollProcess(pid as i32))
}

/// How far the stopping of a process has come, with its answers starting at `at`:
/// the signal is sent to it, and it is killed when it does not exit within `limit`.
/// `fault` says what is wrong with the signal, if anything.
pub fn linux_stop_process(
    pid: u32,
    signal: i32,
    fault: &Option<String>,
    limit: Span,
    replies: &Vec<RuntimeReply>,
    at: usize,
) -> (r: Part<RuntimeCall>)
    requires
        at <= replies@.len(),
    ensures
        progress_of(r, replies@) == stop_progress(
            pid,
            signal,
            crate::host::text_of(*fault),
            limit,
            heard(replies@).skip(at as int),
        ),
        r is Passed ==> r->Passed_0 <= replies@.len(),
{
    let ghost answers = heard(replies@).skip(at as int);
    if let Some(error) = fault {
        let mut text = labelled("invalid signal ", signed_decimal_text(signal).as_str());
        text.append(": ");
        text.append(error.as_str());
        return fail(text);
    }
    if at == replies.len() {
        return Part::Ask(RuntimeCall::SendSignal { pid: pid as i32, signal });
    }
    assert(answers[0] == replies@[at as int]@);
    assert(answers.skip(1) =~= heard(replies@).skip(at + 1));
    match &replies[at] {
        RuntimeReply::Done => await_part(pid, limit, replies, at + 1),
        RuntimeReply::Failed(error) => {
            let mut text = labelled(
                "failed to send signal to pid ",
                decimal_text(pid as u64).as_str(),
            );
            text.append(": ");
            text.append(error.as_str());
            fail(text)
        },
        _ => Part::Stop(Stop::Stray),
    }
}

/// A process is killed only when it has not exited within the limit.
pub proof fn process_is_killed_only_after_the_limit(
    pid: u32,
    limit: Span,
    answers: Seq<RuntimeAnswer>,
    target: i32,
)
    requires
        await_progress(pid, limit, answers) == RuntimeProgress::Ask(RuntimeAsk::ForceKill(target)),
    ensures
        target == pid as i32,
        answers.len() > 0,
        match answers.last() {
            RuntimeAnswer::Running { secs, nanos } => overdue(secs, nanos, limit),
            _ => false,
        },
    decreases answers.len(),
{
    if answers.len() > 1 {
        let rest = answers.skip(2);
        assert(await_progress(pid, limit, answers) == await_progress(pid, limit, rest));
        process_is_killed_only_after_the_limit(pid, limit, rest, target);
        assert(rest.last() == answers.last());
    }
}

} // verus!
