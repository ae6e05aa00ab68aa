//! Types and structs related to _repositories & authorities_.

use vstd::prelude::*;

pub mod id;
pub mod source;

pub use id::{Id, SOURCE_REPOSITORY_NAME};

verus! {

/// Defines the default git `HEAD` ref when creating a new repository.
pub const DEFAULT_HEAD_REF: &'static str = "refs/heads/main";

} // verus!
