use vstd::prelude::*;

verus! {

/// The error taxonomy of the backend.  Cache corruption is not listed: a
/// cache entry that fails to decode is treated as a miss and recovered
/// locally, never surfaced to the caller.
#[derive(Debug)]
pub enum UbiError {
    /// The tool identifier does not yield a parseable endpoint URL.
    InvalidIdentifier { identifier: String },
    /// The transport failed while fetching the release listing.
    FetchError { endpoint: String, message: String },
    /// The release listing body is not valid JSON.
    ParseError,
    /// The release listing is valid JSON but not an array of objects that
    /// all carry a `tag_name` string field.
    SchemaError,
    /// No release tag contains the requested version string.
    NotFound { requested: String },
    /// The experimental-feature gate is not enabled.
    FeatureDisabled,
    /// The installer subprocess could not be spawned or exited non-zero.
    ExecutionFailed { message: String },
}

} // verus!
