//! Backend plugin for a developer-tool version manager that installs tools
//! through the generic `ubi` binary installer.
//!
//! The crate covers the version resolution and caching subsystem and the
//! installer-argument dispatch logic: resolving a release-listing endpoint
//! from a tool identifier, extracting version tags from the upstream JSON
//! response, memoizing them in a persistent cache encoding, selecting the
//! version that matches a request, and building the exact installer command.

use vstd::prelude::*;

pub mod cache;
pub mod codec;
pub mod endpoint;
pub mod errors;
pub mod forge;
pub mod install;
pub mod releases;
pub mod strutil;

verus! {

} // verus!
