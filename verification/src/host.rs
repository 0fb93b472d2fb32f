//! Host operations and plans.
//!
//! The runtime does not touch the host itself. A function that changes the host
//! returns a [`Plan`]: the operations to perform, in order, each with the rule
//! that says what its failure means. A driver performs the operations one by one
//! and reports each outcome to a [`PlanRun`], which decides whether to go on.

use vstd::prelude::*;
use vstd::string::*;

use crate::error::{labelled, ContainerError, Failure};
use crate::security::capabilities::{CapSet, Capability};
use crate::security::seccomp::SockFilter;

verus! {

/// A flag of a mount operation.
#[derive(Debug, Clone, Copy, PartialEq, Eq, Structural)]
pub enum MountFlag {
    Bind,
    NoDev,
    NoExec,
    NoSuid,
    Private,
    ReadOnly,
    Recursive,
    Remount,
    StrictAtime,
}

/// One operation on the host.
#[derive(Debug)]
pub enum HostOp {
    /// Create a directory with its missing parents.
    CreateDirAll(String),
    /// Remove an empty directory.
    RemoveDir(String),
    /// Remove a file.
    RemoveFile(String),
    /// Write a whole file.
    WriteFile { path: String, contents: String },
    /// Create a symbolic link at `link`.
    Symlink { target: String, link: String },
    /// Mount a filesystem.
    Mount {
        source: Option<String>,
        target: String,
        fstype: Option<String>,
        flags: Vec<MountFlag>,
        data: Option<String>,
    },
    /// Unmount a filesystem.
    Unmount(String),
    /// Unmount a filesystem lazily.
    DetachMount(String),
    /// Make `new_root` the root and put the former root at `put_old`.
    PivotRoot { new_root: String, put_old: String },
    /// Change the working directory.
    ChangeDir(String),
    /// Create a character device node.
    MakeCharDevice { path: String, mode: u32, major: u64, minor: u64 },
    /// Set the hostname of the current UTS namespace.
    SetHostname(String),
    /// Drop one capability from one set of the current process.
    DropCapability { set: CapSet, capability: Capability },
    /// Forbid the process to gain privileges.
    SetNoNewPrivs,
    /// Install a seccomp filter.
    InstallSeccomp(Vec<SockFilter>),
}

/// What a [`HostOp`] asks for, with texts as characters.
pub enum HostCall {
    CreateDirAll(Seq<char>),
    RemoveDir(Seq<char>),
    RemoveFile(Seq<char>),
    WriteFile { path: Seq<char>, contents: Seq<char> },
    Symlink { target: Seq<char>, link: Seq<char> },
    Mount {
        source: Option<Seq<char>>,
        target: Seq<char>,
        fstype: Option<Seq<char>>,
        flags: Seq<MountFlag>,
        data: Option<Seq<char>>,
    },
    Unmount(Seq<char>),
    DetachMount(Seq<char>),
    PivotRoot { new_root: Seq<char>, put_old: Seq<char> },
    ChangeDir(Seq<char>),
    MakeCharDevice { path: Seq<char>, mode: u32, major: u64, minor: u64 },
    SetHostname(Seq<char>),
    DropCapability { set: CapSet, capability: Capability },
    SetNoNewPrivs,
    InstallSeccomp(Seq<SockFilter>),
}

/// The characters of an optional text.
pub open spec fn text_of(text: Option<String>) -> Option<Seq<char>> {
    match text {
        Some(s) => Some(s@),
        None => None,
    }
}

impl View for HostOp {
    type V = HostCall;

    open spec fn view(&self) -> HostCall {
        match *self {
            HostOp::CreateDirAll(path) => HostCall::CreateDirAll(path@),
            HostOp::RemoveDir(path) => HostCall::RemoveDir(path@),
            HostOp::RemoveFile(path) => HostCall::RemoveFile(path@),
            HostOp::WriteFile { path, contents } => HostCall::WriteFile {
                path: path@,
                contents: contents@,
            },
            HostOp::Symlink { target, link } => HostCall::Symlink { target: target@, link: link@ },
            HostOp::Mount { source, target, fstype, flags, data } => HostCall::Mount {
                source: text_of(source),
                target: target@,
                fstype: text_of(fstype),
                flags: flags@,
                data: text_of(data),
            },
            HostOp::Unmount(path) => HostCall::Unmount(path@),
            HostOp::DetachMount(path) => HostCall::DetachMount(path@),
            HostOp::PivotRoot { new_root, put_old } => HostCall::PivotRoot {
                new_root: new_root@,
                put_old: put_old@,
            },
            HostOp::ChangeDir(path) => HostCall::ChangeDir(path@),
            HostOp::MakeCharDevice { path, mode, major, minor } => HostCall::MakeCharDevice {
                path: path@,
                mode,
                major,
                minor,
            },
            HostOp::SetHostname(name) => HostCall::SetHostname(name@),
            HostOp::DropCapability { set, capability } => HostCall::DropCapability {
                set,
                capability,
            },
            HostOp::SetNoNewPrivs => HostCall::SetNoNewPrivs,
            HostOp::InstallSeccomp(filter) => HostCall::InstallSeccomp(filter@),
        }
    }
}

/// The characters of an optional text.
pub open spec fn chars_in(text: Option<&str>) -> Option<Seq<char>> {
    match text {
        Some(s) => Some(s@),
        None => None,
    }
}

/// A copy of an optional text.
pub fn owned(text: Option<&str>) -> (r: Option<String>)
    ensures
        text_of(r) == chars_in(text),
{
    match text {
        Some(s) => Some(s.to_owned()),
        None => None,
    }
}

/// The operation that mounts a filesystem.
pub fn mount_op(
    source: Option<&str>,
    target: &str,
    fstype: Option<&str>,
    flags: Vec<MountFlag>,
    data: Option<&str>,
) -> (r: HostOp)
    ensures
        r@ == (HostCall::Mount {
            source: chars_in(source),
            target: target@,
            fstype: chars_in(fstype),
            flags: flags@,
            data: chars_in(data),
        }),
{
    HostOp::Mount {
        source: owned(source),
        target: target.to_owned(),
        fstype: owned(fstype),
        flags,
        data: owned(data),
    }
}

/// The kind of error that a failed operation is reported as.
#[derive(Debug, Clone, Copy, PartialEq, Eq, Structural)]
pub enum Category {
    Cgroup,
    Filesystem,
    Mount,
    Namespace,
    Security,
}

/// What the failure of an operation means.
#[derive(Debug)]
pub enum OnError {
    /// Go on with the next operation.
    Ignore,
    /// Stop with the host's own error.
    Rethrow,
    /// Stop with an error of this category: this text, followed by that of the
    /// host's error.
    Report(Category, String),
}

/// What an [`OnError`] says, with its text as characters.
pub enum Rule {
    Ignore,
    Rethrow,
    Report(Category, Seq<char>),
}

impl View for OnError {
    type V = Rule;

    open spec fn view(&self) -> Rule {
        match *self {
            OnError::Ignore => Rule::Ignore,
            OnError::Rethrow => Rule::Rethrow,
            OnError::Report(category, text) => Rule::Report(category, text@),
        }
    }
}

/// One step of a plan: an operation and what its failure means.
#[derive(Debug)]
pub struct Step {
    pub op: HostOp,
    pub on_error: OnError,
}

/// What a [`Step`] says, with texts as characters.
pub struct Move {
    pub call: HostCall,
    pub rule: Rule,
}

impl View for Step {
    type V = Move;

    open spec fn view(&self) -> Move {
        Move { call: self.op@, rule: self.on_error@ }
    }
}

/// A move whose failure is reported in a category, with a text in front.
pub open spec fn reporting(call: HostCall, category: Category, text: Seq<char>) -> Move {
    Move { call, rule: Rule::Report(category, text) }
}

/// A move whose failure is ignored.
pub open spec fn ignoring(call: HostCall) -> Move {
    Move { call, rule: Rule::Ignore }
}

/// A move whose failure stops the plan with the host's own error.
pub open spec fn rethrowing(call: HostCall) -> Move {
    Move { call, rule: Rule::Rethrow }
}

/// Operations to perform in order.
#[derive(Debug)]
pub struct Plan {
    pub steps: Vec<Step>,
}

impl View for Plan {
    type V = Seq<Move>;

    open spec fn view(&self) -> Seq<Move> {
        self.steps@.map_values(|step: Step| step@)
    }
}

/// What a failure of a category says.
pub open spec fn failure_of(category: Category, text: Seq<char>) -> Failure {
    match category {
        Category::Cgroup => Failure::Cgroup(text),
        Category::Filesystem => Failure::Filesystem(text),
        Category::Mount => Failure::Mount(text),
        Category::Namespace => Failure::Namespace(text),
        Category::Security => Failure::Security(text),
    }
}

/// The error of a category with a given text.
pub fn error_of(category: Category, text: String) -> (r: ContainerError)
    ensures
        r@ == failure_of(category, text@),
{
    match category {
        Category::Cgroup => ContainerError::Cgroup(text),
        Category::Filesystem => ContainerError::Filesystem(text),
        Category::Mount => ContainerError::Mount(text),
        Category::Namespace => ContainerError::Namespace(text),
        Category::Security => ContainerError::Security(text),
    }
}

impl Plan {
    /// A plan without steps.
    pub fn new() -> (r: Plan)
        ensures
            r@ == Seq::<Move>::empty(),
    {
        let r = Plan { steps: Vec::new() };
        assert(r@ =~= Seq::empty());
        r
    }

    /// Add a step whose failure is reported in `category`, with `text` in front.
    pub fn report(&mut self, op: HostOp, category: Category, text: &str)
        ensures
            final(self)@ == old(self)@.push(reporting(op@, category, text@)),
    {
        let step = Step { op, on_error: OnError::Report(category, text.to_owned()) };
        self.push(step);
    }

    /// Add a step whose failure is ignored.
    pub fn ignore(&mut self, op: HostOp)
        ensures
            final(self)@ == old(self)@.push(ignoring(op@)),
    {
        self.push(Step { op, on_error: OnError::Ignore });
    }

    /// Add a step whose failure stops the plan with the host's own error.
    pub fn rethrow(&mut self, op: HostOp)
        ensures
            final(self)@ == old(self)@.push(rethrowing(op@)),
    {
        self.push(Step { op, on_error: OnError::Rethrow });
    }

    fn push(&mut self, step: Step)
        ensures
            final(self)@ == old(self)@.push(step@),
    {
        let ghost before = self@;
        self.steps.push(step);
        assert(self@ =~= before.push(step@));
    }

    /// Add the steps of another plan.
    pub fn extend(&mut self, other: Plan)
        ensures
            final(self)@ == old(self)@ + other@,
    {
        let ghost before = self@;
        let mut steps = other.steps;
        self.steps.append(&mut steps);
        assert(self@ =~= before + other@);
    }
}

/// What a driver does after reporting an outcome.
#[derive(Debug)]
pub enum Verdict {
    /// Perform the next operation.
    Continue,
    /// Stop with the host's own error.
    Rethrow,
    /// Stop with this error.
    Fail(ContainerError),
}

/// A plan that is being performed.
#[derive(Debug)]
pub struct PlanRun {
    steps: Vec<Step>,
    next: usize,
}

impl PlanRun {
    /// The moves of the plan.
    pub closed spec fn moves(&self) -> Seq<Move> {
        self.steps@.map_values(|step: Step| step@)
    }

    /// How many of the moves have been performed.
    pub closed spec fn done(&self) -> nat {
        self.next as nat
    }

    /// No more moves have been performed than there are.
    #[verifier::type_invariant]
    spec fn valid(&self) -> bool {
        self.next <= self.steps@.len()
    }

    /// Start performing `plan`.
    pub fn new(plan: Plan) -> (r: PlanRun)
        ensures
            r.moves() == plan@,
            r.done() == 0,
    {
        PlanRun { steps: plan.steps, next: 0 }
    }

    /// The operation to perform now, or `None` when the plan is complete.
    pub fn current(&self) -> (r: Option<&HostOp>)
        ensures
            match r {
                Some(op) => self.done() < self.moves().len() && op@
                    == self.moves()[self.done() as int].call,
                None => self.done() == self.moves().len(),
            },
    {
        proof {
            use_type_invariant(self);
        }
        if self.next < self.steps.len() {
            Some(&self.steps[self.next].op)
        } else {
            None
        }
    }

    /// Report the outcome of the current operation: `None` when it succeeded, the
    /// text of the host's error when it failed.
    pub fn record(&mut self, failure: Option<String>) -> (r: Verdict)
        requires
            old(self).done() < old(self).moves().len(),
        ensures
            final(self).moves() == old(self).moves(),
            final(self).done() == old(self).done() + 1,
            verdict_follows(r, old(self).moves()[old(self).done() as int].rule, text_of(failure)),
    {
        let at = self.next;
        let len = self.steps.len();
        assert(at < len);
        self.next = at + 1;
        match failure {
            None => Verdict::Continue,
            Some(text) => match &self.steps[at].on_error {
                OnError::Ignore => Verdict::Continue,
                OnError::Rethrow => Verdict::Rethrow,
                OnError::Report(category, prefix) => Verdict::Fail(
                    error_of(*category, labelled(prefix.as_str(), text.as_str())),
                ),
            },
        }
    }
}

/// The verdict on an operation with a rule and an outcome.
pub open spec fn verdict_follows(verdict: Verdict, rule: Rule, failure: Option<Seq<char>>) -> bool {
    match (rule, failure) {
        (_, None) => verdict is Continue,
        (Rule::Ignore, Some(_)) => verdict is Continue,
        (Rule::Rethrow, Some(_)) => verdict is Rethrow,
        (Rule::Report(category, prefix), Some(text)) => verdict is Fail && verdict->Fail_0@
            == failure_of(category, prefix + text),
    }
}

/// A failure that is reported is an error of the category that the plan says, and its text
/// is that of the plan followed by that of the host.
pub proof fn reported_failures_say_what_went_wrong(
    verdict: Verdict,
    category: Category,
    prefix: Seq<char>,
    text: Seq<char>,
)
    requires
        verdict_follows(verdict, Rule::Report(category, prefix), Some(text)),
    ensures
        verdict is Fail,
        verdict->Fail_0@ == match category {
            Category::Cgroup => Failure::Cgroup(prefix + text),
            Category::Filesystem => Failure::Filesystem(prefix + text),
            Category::Mount => Failure::Mount(prefix + text),
            Category::Namespace => Failure::Namespace(prefix + text),
            Category::Security => Failure::Security(prefix + text),
        },
{
}

/// A plan goes on exactly when an operation succeeded or its failure does not matter.
pub proof fn plans_go_on_after_success(verdict: Verdict, rule: Rule, failure: Option<Seq<char>>)
    requires
        verdict_follows(verdict, rule, failure),
    ensures
        (verdict is Continue) == (failure is None || rule is Ignore),
        (verdict is Rethrow) == (failure is Some && rule is Rethrow),
{
}

} // verus!
