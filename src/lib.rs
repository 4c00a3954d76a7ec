//! Amends a package build manifest into a self-contained copy: a document
//! model, idempotent edits on it, and a pass that anchors relative paths.
use vstd::prelude::*;

pub mod error;
pub mod laws;
pub mod manifest;
pub mod path;
pub mod rewrite;
pub mod value;
