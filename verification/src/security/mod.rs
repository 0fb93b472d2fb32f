//! Security hardening: capabilities, seccomp filtering and path validation.

pub mod capabilities;
pub mod paths;
pub mod seccomp;

pub use crate::security::capabilities::{
    apply_capabilities, drop_capabilities, DEFAULT_CAPABILITIES,
};
pub use crate::security::paths::validate_path;
pub use crate::security::seccomp::apply_seccomp_filter;
