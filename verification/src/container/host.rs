//! The questions that running a container asks the host, and their answers.

use vstd::prelude::*;

use crate::container::builder::{Config, ContainerConfig};
use crate::dialogue::Progress;

verus! {

/// A kind of Linux namespace.
#[derive(Debug, Clone, Copy, PartialEq, Eq, Structural)]
pub enum Namespace {
    Pid,
    Mount,
    Uts,
    Ipc,
    Network,
}

/// The namespaces that a container process does not share with the host.
pub const CONTAINER_NAMESPACES: [Namespace; 5] = [
    Namespace::Pid,
    Namespace::Mount,
    Namespace::Uts,
    Namespace::Ipc,
    Namespace::Network,
];

/// A question to the host.
#[derive(Debug)]
pub enum ContainerCall {
    /// Does this path exist?
    Exists(String),
    /// Create a directory with its missing parents.
    CreateDirAll(String),
    /// Copy a file.
    Copy { from: String, to: String },
    /// The absolute path without symbolic links. The host keeps it as the path found
    /// last.
    Canonicalize(String),
    /// Copy the file at the path found last.
    CopyFound { to: String },
    /// Does this directory have an entry with the file name of the path found last?
    FoundNameIn(String),
    /// Copy the file at the path found last into this directory, under its own name.
    CopyFoundInto(String),
    /// Create a symbolic link at `link`.
    Symlink { target: String, link: String },
    /// Start the container process in new namespaces of these kinds.
    Clone { config: ContainerConfig, rootfs: String, namespaces: [Namespace; 5] },
    /// Wait for a change of state of the container process.
    WaitChild(i32),
    /// Unmount a filesystem lazily.
    DetachMount(String),
    /// Remove a directory with everything in it.
    RemoveDirAll(String),
}

/// What a [`ContainerCall`] asks, with texts as characters.
pub enum ContainerAsk {
    Exists(Seq<char>),
    CreateDirAll(Seq<char>),
    Copy { from: Seq<char>, to: Seq<char> },
    Canonicalize(Seq<char>),
    CopyFound { to: Seq<char> },
    FoundNameIn(Seq<char>),
    CopyFoundInto(Seq<char>),
    Symlink { target: Seq<char>, link: Seq<char> },
    Clone { config: Config, rootfs: Seq<char>, namespaces: Seq<Namespace> },
    WaitChild(i32),
    DetachMount(Seq<char>),
    RemoveDirAll(Seq<char>),
}

impl View for ContainerCall {
    type V = ContainerAsk;

    open spec fn view(&self) -> ContainerAsk {
        match *self {
            ContainerCall::Exists(path) => ContainerAsk::Exists(path@),
            ContainerCall::CreateDirAll(path) => ContainerAsk::CreateDirAll(path@),
            ContainerCall::Copy { from, to } => ContainerAsk::Copy { from: from@, to: to@ },
            ContainerCall::Canonicalize(path) => ContainerAsk::Canonicalize(path@),
            ContainerCall::CopyFound { to } => ContainerAsk::CopyFound { to: to@ },
            ContainerCall::FoundNameIn(dir) => ContainerAsk::FoundNameIn(dir@),
            ContainerCall::CopyFoundInto(dir) => ContainerAsk::CopyFoundInto(dir@),
            ContainerCall::Symlink { target, link } => ContainerAsk::Symlink {
                target: target@,
                link: link@,
            },
            ContainerCall::Clone { config, rootfs, namespaces } => ContainerAsk::Clone {
                config: config@,
                rootfs: rootfs@,
                namespaces: namespaces@,
            },
            ContainerCall::WaitChild(pid) => ContainerAsk::WaitChild(pid),
            ContainerCall::DetachMount(path) => ContainerAsk::DetachMount(path@),
            ContainerCall::RemoveDirAll(path) => ContainerAsk::RemoveDirAll(path@),
        }
    }
}

/// The host's answer to a [`ContainerCall`].
#[derive(Debug)]
pub enum ContainerReply {
    /// It is done.
    Done,
    /// It failed with this text.
    Failed(String),
    /// Whether the path exists.
    Exists(bool),
    /// The path that was asked for.
    Path(String),
    /// The path that was asked for is not Unicode, but its file name is, and is this.
    Named(String),
    /// Not even the file name of the path that was asked for is Unicode; this is that
    /// name with escapes.
    NotUnicode(String),
    /// The id of the process.
    Pid(i32),
    /// The process exited with this code.
    Exited(i32),
    /// The process was terminated by this signal.
    Signaled(u8),
    /// The process changed its state in another way.
    Changed,
    /// The wait was interrupted.
    Interrupted,
}

/// What a [`ContainerReply`] says, with texts as characters.
pub enum ContainerAnswer {
    Done,
    Failed(Seq<char>),
    Exists(bool),
    Path(Seq<char>),
    Named(Seq<char>),
    NotUnicode(Seq<char>),
    Pid(i32),
    Exited(i32),
    Signaled(u8),
    Changed,
    Interrupted,
}

impl View for ContainerReply {
    type V = ContainerAnswer;

    open spec fn view(&self) -> ContainerAnswer {
        match *self {
            ContainerReply::Done => ContainerAnswer::Done,
            ContainerReply::Failed(text) => ContainerAnswer::Failed(text@),
            ContainerReply::Exists(exists) => ContainerAnswer::Exists(exists),
            ContainerReply::Path(path) => ContainerAnswer::Path(path@),
            ContainerReply::Named(name) => ContainerAnswer::Named(name@),
            ContainerReply::NotUnicode(name) => ContainerAnswer::NotUnicode(name@),
            ContainerReply::Pid(pid) => ContainerAnswer::Pid(pid),
            ContainerReply::Exited(code) => ContainerAnswer::Exited(code),
            ContainerReply::Signaled(signal) => ContainerAnswer::Signaled(signal),
            ContainerReply::Changed => ContainerAnswer::Changed,
            ContainerReply::Interrupted => ContainerAnswer::Interrupted,
        }
    }
}

/// How far a part of the running of a container has come.
pub type ContainerProgress = Progress<ContainerAsk, ContainerAnswer>;

} // verus!
