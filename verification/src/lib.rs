//! A verified model-store core: one structured project document, read and
//! mutated through a storage backend, a serializing executor, an interactive
//! session, and an HTTP facade.
//!
//! The persisted medium (a file tree or a database) is modelled as a plain
//! value, so every backend operation is a verified read-modify-write on that
//! value; the thin shell that moves bytes between the medium value and the
//! outside world lives outside this crate.

use vstd::prelude::*;

pub mod config;
pub mod cli;
pub mod codec;
pub mod document;
pub mod errors;
pub mod executor;
pub mod facade;
pub mod schema;
pub mod session;
pub mod store;
pub mod text;

verus! {

/// The number of workers the serializing executor starts by default.
pub const DEFAULT_WORKERS: usize = 3;

} // verus!
