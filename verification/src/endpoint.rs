use vstd::prelude::*;
use vstd::string::StringExecFns;
use crate::errors::UbiError;
use crate::strutil::{has_prefix, lower_of, starts_with_str, to_lowercase};

verus! {

/// Whether a lowercased identifier already names an absolute URL.  Only the
/// schemes `http://` and `https://` are recognized; everything else is
/// treated as an `owner/repo` shorthand.
pub open spec fn spec_is_url(s: Seq<char>) -> bool {
    has_prefix(s, "https://"@) || has_prefix(s, "http://"@)
}

/// The release-listing endpoint derived from the lowercased identifier: a
/// URL identifier is used verbatim, an `owner/repo` shorthand is expanded to
/// the hosted releases-listing endpoint.
pub open spec fn spec_endpoint(lower: Seq<char>) -> Seq<char> {
    if spec_is_url(lower) {
        lower
    } else {
        "https://api.github.com/repos/"@ + lower + "/releases"@
    }
}

/// Whether `url::Url::parse` accepts the string as an absolute URL.
pub uninterp spec fn url_ok(s: Seq<char>) -> bool;

/// Relies on `url::Url::parse`: it returns `Ok` exactly when the string
/// parses as an absolute URL, and acceptance depends on the string alone.
#[verifier::external_body]
fn parses_as_url(s: &str) -> (r: bool)
    ensures
        r == url_ok(s@),
{
    url::Url::parse(s).is_ok()
}

/// Resolves the release-listing endpoint for a tool identifier.  The
/// identifier is lowercased first; if it then starts with `http://` or
/// `https://` it is the endpoint itself, otherwise it is an `owner/repo`
/// shorthand.  Fails with `InvalidIdentifier` when the resulting string is
/// not a parseable URL.
pub fn resolve_endpoint(identifier: &str) -> (r: Result<String, UbiError>)
    ensures
        match r {
            Ok(u) => u@ == spec_endpoint(lower_of(identifier@)) && url_ok(u@),
            Err(e) => !url_ok(spec_endpoint(lower_of(identifier@))) && (e matches UbiError::InvalidIdentifier { identifier: i } && i@ == identifier@),
        },
{
    let lower = to_lowercase(identifier);
    let candidate: String = if starts_with_str(lower.as_str(), "https://") || starts_with_str(
        lower.as_str(),
        "http://",
    ) {
        lower
    } else {
        let mut u = String::from_str("https://api.github.com/repos/");
        u.append(lower.as_str());
        u.append("/releases");
        u
    };
    if parses_as_url(candidate.as_str()) {
        Ok(candidate)
    } else {
        Err(UbiError::InvalidIdentifier { identifier: String::from_str(identifier) })
    }
}

} // verus!
