//! Error types for the container runtime.

use vstd::prelude::*;
use vstd::string::*;

verus! {

/// `std::io::Error`, carried through as an opaque value.
#[verifier::external_type_specification]
#[verifier::external_body]
pub struct ExIoError(std::io::Error);

/// `nix::errno::Errno`, carried through as an opaque value.
#[verifier::external_type_specification]
#[verifier::external_body]
pub struct ExErrno(nix::errno::Errno);

/// `serde_json::Error`, carried through as an opaque value.
#[verifier::external_type_specification]
#[verifier::external_body]
pub struct ExJsonError(serde_json::Error);

/// Errors that can occur during container operations.
#[derive(Debug)]
pub enum ContainerError {
    Namespace(String),
    Mount(String),
    Filesystem(String),
    Process(String),
    Io(std::io::Error),
    Nix(nix::errno::Errno),
    NotFound(String),
    InvalidConfig(String),
    Cgroup(String),
    Network(String),
    Security(String),
    Image(String),
    Runtime(String),
    InvalidStateTransition { from: String, to: String },
    Serialization(serde_json::Error),
    Http(String),
}

/// What a [`ContainerError`] says: its kind, with its text as characters.
pub enum Failure {
    Namespace(Seq<char>),
    Mount(Seq<char>),
    Filesystem(Seq<char>),
    Process(Seq<char>),
    Io(std::io::Error),
    Nix(nix::errno::Errno),
    NotFound(Seq<char>),
    InvalidConfig(Seq<char>),
    Cgroup(Seq<char>),
    Network(Seq<char>),
    Security(Seq<char>),
    Image(Seq<char>),
    Runtime(Seq<char>),
    InvalidStateTransition { from: Seq<char>, to: Seq<char> },
    Serialization(serde_json::Error),
    Http(Seq<char>),
}

impl View for ContainerError {
    type V = Failure;

    open spec fn view(&self) -> Failure {
        match *self {
            ContainerError::Namespace(text) => Failure::Namespace(text@),
            ContainerError::Mount(text) => Failure::Mount(text@),
            ContainerError::Filesystem(text) => Failure::Filesystem(text@),
            ContainerError::Process(text) => Failure::Process(text@),
            ContainerError::Io(error) => Failure::Io(error),
            ContainerError::Nix(error) => Failure::Nix(error),
            ContainerError::NotFound(text) => Failure::NotFound(text@),
            ContainerError::InvalidConfig(text) => Failure::InvalidConfig(text@),
            ContainerError::Cgroup(text) => Failure::Cgroup(text@),
            ContainerError::Network(text) => Failure::Network(text@),
            ContainerError::Security(text) => Failure::Security(text@),
            ContainerError::Image(text) => Failure::Image(text@),
            ContainerError::Runtime(text) => Failure::Runtime(text@),
            ContainerError::InvalidStateTransition { from, to } => Failure::InvalidStateTransition {
                from: from@,
                to: to@,
            },
            ContainerError::Serialization(error) => Failure::Serialization(error),
            ContainerError::Http(text) => Failure::Http(text@),
        }
    }
}

impl Failure {
    /// Whether this failure wraps an error of another crate.
    pub open spec fn wraps_foreign_error(self) -> bool {
        self is Io || self is Nix || self is Serialization
    }

    /// The message shown for this failure. `detail` is the text of the wrapped
    /// error; failures that wrap none ignore it.
    pub open spec fn message(self, detail: Seq<char>) -> Seq<char> {
        match self {
            Failure::Namespace(text) => "Namespace error: "@ + text,
            Failure::Mount(text) => "Mount error: "@ + text,
            Failure::Filesystem(text) => "Filesystem error: "@ + text,
            Failure::Process(text) => "Process error: "@ + text,
            Failure::Io(_) => "IO error: "@ + detail,
            Failure::Nix(_) => "Nix error: "@ + detail,
            Failure::NotFound(text) => "Container not found: "@ + text,
            Failure::InvalidConfig(text) => "Invalid configuration: "@ + text,
            Failure::Cgroup(text) => "Cgroup error: "@ + text,
            Failure::Network(text) => "Network error: "@ + text,
            Failure::Security(text) => "Security error: "@ + text,
            Failure::Image(text) => "Image error: "@ + text,
            Failure::Runtime(text) => "Runtime error: "@ + text,
            Failure::InvalidStateTransition { from, to } => "Invalid state transition: "@ + from
                + " -> "@ + to,
            Failure::Serialization(_) => "Serialization error: "@ + detail,
            Failure::Http(text) => "HTTP error: "@ + text,
        }
    }
}

/// Calls `std::io::Error`'s `Display`. The text may depend on the host, so
/// nothing is claimed of it.
#[verifier::external_body]
fn io_error_text(error: &std::io::Error) -> (text: String) {
    error.to_string()
}

/// The text of an error number of the host, as `nix::errno::Errno`'s `Display` shows it.
pub uninterp spec fn errno_display(error: nix::errno::Errno) -> Seq<char>;

/// Calls `nix::errno::Errno`'s `Display`: the name of the error and a description from a
/// fixed table. The table fills pages, so the text has a name: it depends on the error
/// alone.
#[verifier::external_body]
fn errno_text(error: &nix::errno::Errno) -> (text: String)
    ensures
        text@ == errno_display(*error),
{
    error.to_string()
}

/// Calls `serde_json::Error`'s `Display`. The error may hold one of the host, whose text
/// may depend on the host, so nothing is claimed of it.
#[verifier::external_body]
fn json_error_text(error: &serde_json::Error) -> (text: String) {
    error.to_string()
}

/// `prefix` followed by `text`.
pub fn labelled(prefix: &str, text: &str) -> (r: String)
    ensures
        r@ == prefix@ + text@,
{
    let mut r = prefix.to_owned();
    r.append(text);
    r
}

impl ContainerError {
    /// The message of this error, given the text of the error it wraps, if any.
    pub fn describe(&self, detail: &str) -> (r: String)
        ensures
            r@ == self@.message(detail@),
    {
        match self {
            ContainerError::Namespace(text) => labelled("Namespace error: ", text.as_str()),
            ContainerError::Mount(text) => labelled("Mount error: ", text.as_str()),
            ContainerError::Filesystem(text) => labelled("Filesystem error: ", text.as_str()),
            ContainerError::Process(text) => labelled("Process error: ", text.as_str()),
            ContainerError::Io(_) => labelled("IO error: ", detail),
            ContainerError::Nix(_) => labelled("Nix error: ", detail),
            ContainerError::NotFound(text) => labelled("Container not found: ", text.as_str()),
            ContainerError::InvalidConfig(text) => labelled(
                "Invalid configuration: ",
                text.as_str(),
            ),
            ContainerError::Cgroup(text) => labelled("Cgroup error: ", text.as_str()),
            ContainerError::Network(text) => labelled("Network error: ", text.as_str()),
            ContainerError::Security(text) => labelled("Security error: ", text.as_str()),
            ContainerError::Image(text) => labelled("Image error: ", text.as_str()),
            ContainerError::Runtime(text) => labelled("Runtime error: ", text.as_str()),
            ContainerError::InvalidStateTransition { from, to } => {
                let mut r = labelled("Invalid state transition: ", from.as_str());
                r.append(" -> ");
                r.append(to.as_str());
                r
            },
            ContainerError::Serialization(_) => labelled("Serialization error: ", detail),
            ContainerError::Http(text) => labelled("HTTP error: ", text.as_str()),
        }
    }

    /// The message of this error.
    pub fn to_string(&self) -> (r: String)
        ensures
            exists|detail: Seq<char>| r@ == #[trigger] self@.message(detail),
            self@ matches Failure::Nix(error) ==> r@ == self@.message(errno_display(error)),
            !self@.wraps_foreign_error() ==> forall|detail: Seq<char>|
                r@ == #[trigger] self@.message(detail),
    {
        let detail = match self {
            ContainerError::Io(error) => io_error_text(error),
            ContainerError::Nix(error) => errno_text(error),
            ContainerError::Serialization(error) => json_error_text(error),
            _ => String::new(),
        };
        self.describe(detail.as_str())
    }
}

impl From<std::io::Error> for ContainerError {
    fn from(error: std::io::Error) -> (r: ContainerError) {
        ContainerError::Io(error)
    }
}

impl vstd::std_specs::convert::FromSpecImpl<std::io::Error> for ContainerError {
    open spec fn obeys_from_spec() -> bool {
        true
    }

    open spec fn from_spec(error: std::io::Error) -> ContainerError {
        ContainerError::Io(error)
    }
}

impl From<nix::errno::Errno> for ContainerError {
    fn from(error: nix::errno::Errno) -> (r: ContainerError) {
        ContainerError::Nix(error)
    }
}

impl vstd::std_specs::convert::FromSpecImpl<nix::errno::Errno> for ContainerError {
    open spec fn obeys_from_spec() -> bool {
        true
    }

    open spec fn from_spec(error: nix::errno::Errno) -> ContainerError {
        ContainerError::Nix(error)
    }
}

impl From<serde_json::Error> for ContainerError {
    fn from(error: serde_json::Error) -> (r: ContainerError) {
        ContainerError::Serialization(error)
    }
}

impl vstd::std_specs::convert::FromSpecImpl<serde_json::Error> for ContainerError {
    open spec fn obeys_from_spec() -> bool {
        true
    }

    open spec fn from_spec(error: serde_json::Error) -> ContainerError {
        ContainerError::Serialization(error)
    }
}

/// What a function that returns a `Result` owes: the error `failure` when there
/// is one, and `Ok` otherwise.
pub open spec fn fails_with<T>(r: Result<T, ContainerError>, failure: Option<Failure>) -> bool {
    match failure {
        Some(f) => r is Err && r->Err_0@ == f,
        None => r is Ok,
    }
}

} // verus!
