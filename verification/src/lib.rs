//! A minimal OCI-compatible container runtime.

pub mod cgroup;
pub mod config;
pub mod container;
pub mod dialogue;
pub mod error;
pub mod filesystem;
pub mod host;
pub mod image;
pub mod namespace;
pub mod network;
pub mod os_path;
pub mod path;
pub mod runtime;
pub mod security;
pub mod text;
pub mod util;

pub use crate::container::{Container, ContainerBuilder};
pub use crate::error::ContainerError;
