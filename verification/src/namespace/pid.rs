//! The PID namespace isolates the process id number space: processes in
//! different PID namespaces can have the same id.

use vstd::prelude::*;

verus! {

/// Information about a PID namespace.
#[derive(Debug)]
pub struct PidNamespace {
    /// The id of the init process in this namespace (always 1 from inside).
    pub init_pid: i32,
}

/// Calls `nix::unistd::getpid`: the id of the current process. The kernel
/// chooses it, so nothing is claimed of it.
#[verifier::external_body]
fn own_pid() -> (pid: i32) {
    nix::unistd::getpid().as_raw()
}

impl PidNamespace {
    /// Create a new PID namespace representation.
    pub fn new(init_pid: i32) -> (r: PidNamespace)
        ensures
            r.init_pid == init_pid,
    {
        PidNamespace { init_pid }
    }

    /// Whether a process with this id is the init process of its namespace.
    pub fn is_init_pid(pid: i32) -> (r: bool)
        ensures
            r == (pid == 1),
    {
        pid == 1
    }

    /// Whether the current process is the init process of its namespace. The
    /// kernel decides; see [`PidNamespace::is_init_pid`] for the rule.
    pub fn is_init() -> (r: bool) {
        PidNamespace::is_init_pid(own_pid())
    }

    /// The id of the current process within its namespace.
    pub fn current_pid() -> (r: i32) {
        own_pid()
    }
}

} // verus!
