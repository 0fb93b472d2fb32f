//! Container processes: the root filesystem, the start and the end of the process.

use vstd::prelude::*;
use vstd::string::*;

use crate::container::builder::{Config, ContainerConfig};
use crate::container::host::{
    CONTAINER_NAMESPACES, ContainerAnswer, ContainerAsk, ContainerCall, ContainerProgress,
    ContainerReply,
};
use crate::container::rootfs::{create_minimal_rootfs, minimal_progress};
use crate::dialogue::{end_with, halted, heard, progress_of, Halt, Next, Part, Stop, Turn};
use crate::error::{labelled, ContainerError, Failure};
use crate::text::{path_quoted, quoted_path};
use crate::util::is_linux;

verus! {

/// A container instance.
#[derive(Debug)]
pub struct Container {
    pub config: ContainerConfig,
    /// The path of the root filesystem.
    pub rootfs_path: String,
    /// Whether the container has a temporary root filesystem of its own, which it
    /// tears down on exit. It has none when the configuration names one.
    pub owns_rootfs: bool,
}

/// The path of the root filesystem of a container with this id and this
/// configured path.
pub open spec fn rootfs_of(id: Seq<char>, rootfs: Option<Seq<char>>) -> Seq<char> {
    match rootfs {
        Some(path) => path,
        None => "/tmp/crate-"@ + id,
    }
}

/// How far the preparation of a container's root filesystem has come.
pub open spec fn prepare_progress(
    rootfs: Seq<char>,
    owned: bool,
    arch: Seq<char>,
    answers: Seq<ContainerAnswer>,
) -> ContainerProgress {
    if owned {
        minimal_progress(rootfs, arch, answers)
    } else {
        ContainerProgress::Passed(answers)
    }
}

/// The exit code that stands for the end of a container process, if it ended.
pub open spec fn exit_code(answer: ContainerAnswer) -> Option<int> {
    match answer {
        ContainerAnswer::Exited(code) => Some(code as int),
        ContainerAnswer::Signaled(signal) => Some(128 + signal),
        _ => None,
    }
}

/// The turn of the removal of a container's temporary root filesystem after the
/// answers so far.
pub open spec fn cleanup_turn(
    rootfs: Seq<char>,
    code: int,
    answers: Seq<ContainerAnswer>,
) -> Turn<ContainerAsk, int> {
    if answers.len() == 0 {
        Turn::Ask(ContainerAsk::Exists(rootfs))
    } else if answers[0] == ContainerAnswer::Exists(false) {
        Turn::Done(code)
    } else if answers[0] != ContainerAnswer::Exists(true) {
        Turn::Stray
    } else if answers.len() == 1 {
        Turn::Ask(ContainerAsk::DetachMount(rootfs))
    } else if !(answers[1] is Done || answers[1] is Failed) {
        Turn::Stray
    } else if answers.len() == 2 {
        Turn::Ask(ContainerAsk::RemoveDirAll(rootfs))
    } else {
        match answers[2] {
            ContainerAnswer::Done => Turn::Done(code),
            ContainerAnswer::Failed(error) => Turn::Fail(
                Failure::Filesystem(
                    "Failed to cleanup rootfs at "@ + quoted_path(rootfs) + ": "@ + error,
                ),
            ),
            _ => Turn::Stray,
        }
    }
}

/// The turn of the wait for a container process after the answers so far, and of
/// what follows when it has ended.
pub open spec fn wait_turn(
    rootfs: Seq<char>,
    owned: bool,
    pid: i32,
    answers: Seq<ContainerAnswer>,
) -> Turn<ContainerAsk, int>
    decreases answers.len(),
{
    if answers.len() == 0 {
        Turn::Ask(ContainerAsk::WaitChild(pid))
    } else if let Some(code) = exit_code(answers[0]) {
        if owned {
            cleanup_turn(rootfs, code, answers.skip(1))
        } else {
            Turn::Done(code)
        }
    } else {
        match answers[0] {
            ContainerAnswer::Changed | ContainerAnswer::Interrupted => wait_turn(
                rootfs,
                owned,
                pid,
                answers.skip(1),
            ),
            ContainerAnswer::Failed(error) => Turn::Fail(
                Failure::Process("Failed to wait for child: "@ + error),
            ),
            _ => Turn::Stray,
        }
    }
}

/// The turn of the running of a container after the answers so far.
pub open spec fn run_turn(
    config: Config,
    rootfs: Seq<char>,
    owned: bool,
    os: Seq<char>,
    arch: Seq<char>,
    answers: Seq<ContainerAnswer>,
) -> Turn<ContainerAsk, int> {
    if os != "linux"@ {
        Turn::Fail(Failure::Process("Container runtime only supported on Linux"@))
    } else {
        match prepare_progress(rootfs, owned, arch, answers) {
            ContainerProgress::Ask(ask) => Turn::Ask(ask),
            ContainerProgress::Halt(halt) => halted(halt),
            ContainerProgress::Passed(rest) => if rest.len() == 0 {
                Turn::Ask(
                    ContainerAsk::Clone { config, rootfs, namespaces: CONTAINER_NAMESPACES@ },
                )
            } else {
                match rest[0] {
                    ContainerAnswer::Pid(pid) => wait_turn(rootfs, owned, pid, rest.skip(1)),
                    ContainerAnswer::Failed(error) => Turn::Fail(
                        Failure::Process("Failed to clone: "@ + error),
                    ),
                    _ => Turn::Stray,
                }
            },
        }
    }
}

/// The exit code of a container.
#[derive(Debug, Clone, Copy, PartialEq, Eq, Structural)]
pub struct ExitCode {
    pub code: i32,
}

impl View for ExitCode {
    type V = int;

    open spec fn view(&self) -> int {
        self.code as int
    }
}

impl Container {
    /// Create a new container with the given configuration.
    pub fn new(config: ContainerConfig) -> (r: Container)
        ensures
            r.config == config,
            r.owns_rootfs == (config.rootfs is None),
            r.rootfs_path@ == rootfs_of(config@.id, config@.rootfs),
    {
        let rootfs_path = match &config.rootfs {
            Some(path) => path.clone(),
            None => labelled("/tmp/crate-", config.id.as_str()),
        };
        let owns_rootfs = config.rootfs.is_none();
        Container { config, rootfs_path, owns_rootfs }
    }

    /// How far the preparation of the root filesystem has come: a temporary one is
    /// set up for the architecture `arch`.
    fn prepare_rootfs(&self, arch: &str, replies: &Vec<ContainerReply>) -> (r: Part<ContainerCall>)
        ensures
            progress_of(r, replies@) == prepare_progress(
                self.rootfs_path@,
                self.owns_rootfs,
                arch@,
                heard(replies@),
            ),
            r is Passed ==> r->Passed_0 <= replies@.len(),
    {
        assert(heard(replies@).skip(0) =~= heard(replies@));
        if self.owns_rootfs {
            create_minimal_rootfs(self.rootfs_path.as_str(), arch, replies, 0)
        } else {
            Part::Passed(0)
        }
    }

    /// The turn of the removal of the temporary root filesystem, with the answers
    /// starting at `at`.
    fn cleanup_rootfs(&self, code: i32, replies: &Vec<ContainerReply>, at: usize) -> (r: Next<
        ContainerCall,
        ExitCode,
    >)
        requires
            at <= replies@.len(),
        ensures
            r@ == cleanup_turn(
                self.rootfs_path@,
                code as int,
                heard(replies@).skip(at as int),
            ),
    {
        let ghost answers = heard(replies@).skip(at as int);
        let rootfs = self.rootfs_path.as_str();
        let left: usize = replies.len() - at;
        if left == 0 {
            return Next::Ask(ContainerCall::Exists(rootfs.to_owned()));
        }
        assert(answers[0] == replies@[at as int]@);
        match &replies[at] {
            ContainerReply::Exists(true) => {},
            ContainerReply::Exists(false) => return Next::Done(ExitCode { code }),
            _ => return Next::Stray,
        }
        if left == 1 {
            return Next::Ask(ContainerCall::DetachMount(rootfs.to_owned()));
        }
        assert(answers[1] == replies@[at + 1]@);
        match &replies[at + 1] {
            ContainerReply::Done | ContainerReply::Failed(_) => {},
            _ => return Next::Stray,
        }
        if left == 2 {
            return Next::Ask(ContainerCall::RemoveDirAll(rootfs.to_owned()));
        }
        assert(answers[2] == replies@[at + 2]@);
        match &replies[at + 2] {
            ContainerReply::Done => Next::Done(ExitCode { code }),
            ContainerReply::Failed(error) => {
                let mut text = labelled(
                    "Failed to cleanup rootfs at ",
                    path_quoted(rootfs).as_str(),
                );
                text.append(": ");
                text.append(error.as_str());
                Next::Fail(ContainerError::Filesystem(text))
            },
            _ => Next::Stray,
        }
    }

    /// The turn of the wait for the container process and of what follows, with the
    /// answers starting at `from`.
    fn wait_for_child(&self, pid: i32, replies: &Vec<ContainerReply>, from: usize) -> (r: Next<
        ContainerCall,
        ExitCode,
    >)
        requires
            from <= replies@.len(),
        ensures
            r@ == wait_turn(
                self.rootfs_path@,
                self.owns_rootfs,
                pid,
                heard(replies@).skip(from as int),
            ),
    {
        let len = replies.len();
        let mut at: usize = from;
        while at < len
            invariant
                len == replies@.len(),
                at <= len,
                wait_turn(
                    self.rootfs_path@,
                    self.owns_rootfs,
                    pid,
                    heard(replies@).skip(from as int),
                ) == wait_turn(
                    self.rootfs_path@,
                    self.owns_rootfs,
                    pid,
                    heard(replies@).skip(at as int),
                ),
            decreases len - at,
        {
            let ghost answers = heard(replies@).skip(at as int);
            assert(answers[0] == replies@[at as int]@);
            assert(answers.skip(1) =~= heard(replies@).skip(at + 1));
            let code: i32 = match &replies[at] {
                ContainerReply::Exited(code) => *code,
                ContainerReply::Signaled(signal) => 128 + *signal as i32,
                ContainerReply::Changed | ContainerReply::Interrupted => {
                    at = at + 1;
                    continue;
                },
                ContainerReply::Failed(error) => {
                    return Next::Fail(
                        ContainerError::Process(
                            labelled("Failed to wait for child: ", error.as_str()),
                        ),
                    );
                },
                _ => return Next::Stray,
            };
            if self.owns_rootfs {
                return self.cleanup_rootfs(code, replies, at + 1);
            }
            return Next::Done(ExitCode { code });
        }
        assert(heard(replies@).skip(at as int).len() == 0);
        Next::Ask(ContainerCall::WaitChild(pid))
    }

    /// The dialogue that runs the container and gives its exit code. `os` and `arch`
    /// name the target operating system and architecture; `replies` holds the answers
    /// so far.
    ///
    /// A temporary root filesystem is set up, the container process is started in new
    /// namespaces, and when it has ended the temporary root filesystem is removed. A
    /// process that was terminated by a signal has 128 more than the signal's number
    /// as its exit code.
    pub fn run(&self, os: &str, arch: &str, replies: &Vec<ContainerReply>) -> (r: Next<
        ContainerCall,
        ExitCode,
    >)
        ensures
            r@ == run_turn(
                self.config@,
                self.rootfs_path@,
                self.owns_rootfs,
                os@,
                arch@,
                heard(replies@),
            ),
    {
        if !is_linux(os) {
            return Next::Fail(
                ContainerError::Process("Container runtime only supported on Linux".to_owned()),
            );
        }
        let at: usize = match self.prepare_rootfs(arch, replies) {
            Part::Ask(call) => return Next::Ask(call),
            Part::Stop(stop) => return end_with(stop),
            Part::Passed(at) => at,
        };
        let ghost rest = heard(replies@).skip(at as int);
        if at == replies.len() {
            return Next::Ask(
                ContainerCall::Clone {
                    config: self.config.clone(),
                    rootfs: self.rootfs_path.clone(),
                    namespaces: CONTAINER_NAMESPACES,
                },
            );
        }
        assert(rest[0] == replies@[at as int]@);
        assert(rest.skip(1) =~= heard(replies@).skip(at + 1));
        match &replies[at] {
            ContainerReply::Pid(pid) => self.wait_for_child(*pid, replies, at + 1),
            ContainerReply::Failed(error) => Next::Fail(
                ContainerError::Process(labelled("Failed to clone: ", error.as_str())),
            ),
            _ => Next::Stray,
        }
    }
}

/// Whether the answers after the one at `at` say that the temporary root filesystem is
/// gone: it did not exist any more, or it was removed.
pub open spec fn removed_after(answers: Seq<ContainerAnswer>, at: int) -> bool {
    ||| at + 1 < answers.len() && answers[at + 1] == ContainerAnswer::Exists(false)
    ||| at + 3 < answers.len() && answers[at + 1] == ContainerAnswer::Exists(true) && answers[at
        + 3] == ContainerAnswer::Done
}

/// The exit code of a container is that of its process, or 128 more than the number of
/// the signal that terminated it. A temporary root filesystem is gone then.
pub proof fn exit_code_comes_from_the_process(
    rootfs: Seq<char>,
    owned: bool,
    pid: i32,
    answers: Seq<ContainerAnswer>,
    code: int,
)
    requires
        wait_turn(rootfs, owned, pid, answers) == Turn::<ContainerAsk, int>::Done(code),
    ensures
        exists|i: int|
            0 <= i < answers.len() && #[trigger] exit_code(answers[i]) == Some(code) && (owned
                ==> removed_after(answers, i)),
    decreases answers.len(),
{
    let rest = answers.skip(1);
    if exit_code(answers[0]) is Some {
        assert(exit_code(answers[0]) == Some(code));
        if owned {
            assert(rest[0] == answers[1]);
            if rest.len() > 2 {
                assert(rest[2] == answers[3]);
            }
        }
    } else {
        exit_code_comes_from_the_process(rootfs, owned, pid, rest, code);
        let i = choose|i: int|
            0 <= i < rest.len() && #[trigger] exit_code(rest[i]) == Some(code) && (owned
                ==> removed_after(rest, i));
        assert(exit_code(answers[i + 1]) == Some(code));
        assert(removed_after(rest, i) ==> removed_after(answers, i + 1));
    }
}

} // verus!
