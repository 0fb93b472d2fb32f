//! OCI container lifecycle.
//!
//! The state machine and the lifecycle operations: create, start, stop, delete,
//! state and list. Each container's status is kept in a file under the runtime
//! root directory.

pub mod calendar;
pub mod conduct;
pub mod hooks;
pub mod laws;
pub mod lifecycle;
pub mod oci;
pub mod process;
pub mod status;
pub mod table;

pub use crate::runtime::calendar::{days_to_ymd, now_rfc3339};
pub use crate::runtime::hooks::run_hooks;
pub use crate::runtime::oci::load_oci_spec;
pub use crate::runtime::status::{ContainerState, ContainerStatus, RuntimeManager};
