//! OCI image pulling and content-addressable storage.
//!
//! Images are pulled from registries that speak the Docker Registry HTTP API V2,
//! with Docker Hub as the default, and stored by the SHA256 digests of their
//! blobs.

pub mod digest;
pub mod laws;
pub mod reference;
pub mod registry;
pub mod store;

pub use crate::image::digest::verify_digest;
pub use crate::image::reference::ImageReference;
pub use crate::image::registry::{Descriptor, ImageManifest, RegistryClient};
pub use crate::image::store::{extract_layer, ImageStore};
