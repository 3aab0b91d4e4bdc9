//! A build-time asset bundler core: it takes a discovered directory tree,
//! runs each file through a converter pipeline, and emits compilable source
//! code that reconstructs an in-memory index of those files at program
//! startup, with content embedded into the compiled binary. Large resource
//! sets are split across several emitted sub-units joined by one aggregating
//! unit, to keep every generated function within compiler-friendly bounds.
//!
//! Reading directories and writing the emitted files is the caller's job;
//! this crate computes logical paths, applies converters, decides the split
//! boundaries, and produces every emitted file as a value.

pub mod compress;
pub mod generate;
mod mime;
pub mod pipeline;
pub mod resource;
pub mod resource_dir;
pub mod sets;
pub mod storage;
mod text;

pub use crate::resource::{new_resource, Resource};
pub use crate::resource_dir::{resource_dir, ResourceDir};
