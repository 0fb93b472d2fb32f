//! Linux namespaces for container isolation.

pub mod mount;
pub mod pid;
pub mod uts;
