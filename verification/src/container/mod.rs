//! Container creation and execution.
//!
//! The primary entry point is [`ContainerBuilder`], which configures and creates
//! [`Container`] instances.

pub mod builder;
pub mod host;
pub mod init;
pub mod laws;
pub mod process;
pub mod rootfs;

pub use crate::container::builder::{ContainerBuilder, ContainerConfig};
pub use crate::container::init::init_container;
pub use crate::container::process::Container;
