//! Reflective metadata injection for scene graphs.
//!
//! Free-form metadata attached to imported scene nodes is parsed into typed
//! component instances against a runtime type registry, entity references
//! inside the metadata are resolved within one graph instantiation, and the
//! registry's type shapes are exported as a JSON schema document for external
//! tooling.

pub mod decode;
pub mod diag;
pub mod export;
pub mod hierarchy;
pub mod instance;
pub mod json;
pub mod metadata;
pub mod numlex;
pub mod parse;
pub mod rawvalue;
pub mod registry;
pub mod resolver;
pub mod shape;
pub mod text;

use vstd::prelude::*;

verus! {

/// Placeholder node identifier used when an entity reference cannot be
/// resolved; reference resolution never aborts a decode.
pub const PLACEHOLDER_NODE_ID: u64 = 0xffff_ffff_ffff_ffff;

} // verus!
