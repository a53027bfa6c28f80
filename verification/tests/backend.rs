use ubi_backend::endpoint::resolve_endpoint;
use ubi_backend::errors::UbiError;
use ubi_backend::forge::{FetchOutcome, ForgeArg, ForgeType, LatestStep, UBIForge, VersionsStep};
use ubi_backend::releases::{extract_release_tags, find_matching_version, latest_of, ParseFailure};

fn forge(name: &str) -> UBIForge {
    UBIForge::new(ForgeArg { name: name.to_string(), cache_path: "/tmp/cache".to_string() })
}

fn strings(v: &[&str]) -> Vec<String> {
    v.iter().map(|s| s.to_string()).collect()
}

const LISTING: &str = "[{\"tag_name\":\"v1.0.0\"},{\"tag_name\":\"v1.1.0\"}]";

#[test]
fn endpoint_shorthand_is_expanded() {
    let u = resolve_endpoint("owner/repo").unwrap();
    assert_eq!(u, "https://api.github.com/repos/owner/repo/releases");
}

#[test]
fn endpoint_shorthand_is_lowercased() {
    let u = resolve_endpoint("Owner/RePo").unwrap();
    assert_eq!(u, "https://api.github.com/repos/owner/repo/releases");
}

#[test]
fn endpoint_url_is_kept_verbatim() {
    let u = resolve_endpoint("https://example.com/releases.json").unwrap();
    assert_eq!(u, "https://example.com/releases.json");
}

#[test]
fn endpoint_http_url_is_kept() {
    let u = resolve_endpoint("http://example.com/r").unwrap();
    assert_eq!(u, "http://example.com/r");
}

#[test]
fn endpoint_uppercase_scheme_is_recognized() {
    let u = resolve_endpoint("HTTPS://EXAMPLE.COM/R").unwrap();
    assert_eq!(u, "https://example.com/r");
}

#[test]
fn endpoint_unparseable_is_invalid_identifier() {
    let e = resolve_endpoint("https://").unwrap_err();
    assert!(matches!(e, UbiError::InvalidIdentifier { identifier } if identifier == "https://"));
}

#[test]
fn listing_tags_in_api_order() {
    let tags = extract_release_tags(LISTING).unwrap();
    assert_eq!(tags, strings(&["v1.0.0", "v1.1.0"]));
}

#[test]
fn listing_empty_array_is_valid() {
    let tags = extract_release_tags("[]").unwrap();
    assert_eq!(tags, Vec::<String>::new());
}

#[test]
fn listing_missing_tag_name_is_schema_error() {
    let e = extract_release_tags("[{\"tag_name\":\"v1\"},{\"name\":\"x\"}]").unwrap_err();
    assert!(matches!(e, ParseFailure::Schema));
}

#[test]
fn listing_non_string_tag_name_is_schema_error() {
    let e = extract_release_tags("[{\"tag_name\":3}]").unwrap_err();
    assert!(matches!(e, ParseFailure::Schema));
}

#[test]
fn listing_object_instead_of_array_is_schema_error() {
    let e = extract_release_tags("{\"tag_name\":\"v1\"}").unwrap_err();
    assert!(matches!(e, ParseFailure::Schema));
}

#[test]
fn listing_invalid_json_is_parse_error() {
    let e = extract_release_tags("{not json").unwrap_err();
    assert!(matches!(e, ParseFailure::Syntax));
}

#[test]
fn latest_is_last_of_list() {
    let latest = latest_of(&strings(&["v1.0.0", "v1.1.0"]));
    assert_eq!(latest, Some("v1.1.0".to_string()));
}

#[test]
fn latest_of_empty_is_none() {
    assert_eq!(latest_of(&Vec::new()), None);
}

#[test]
fn matching_substring_picks_first() {
    let t = find_matching_version(&strings(&["v1.0.0", "v2.0.0"]), "1.0").unwrap();
    assert_eq!(t, "v1.0.0");
}

#[test]
fn matching_nothing_is_not_found() {
    let e = find_matching_version(&strings(&["v2.0.0"]), "1.0").unwrap_err();
    assert!(matches!(e, UbiError::NotFound { requested } if requested == "1.0"));
}

#[test]
fn matching_is_permissive_about_prefixes() {
    let t = find_matching_version(&strings(&["v1.2.0", "v1.20.0"]), "1.2").unwrap();
    assert_eq!(t, "v1.2.0");
}

#[test]
fn two_calls_issue_one_fetch() {
    let mut f = forge("owner/repo");
    let mut fetches = 0;
    let endpoint = match f.list_remote_versions(None).unwrap() {
        VersionsStep::NeedFetch(u) => u,
        VersionsStep::Ready(_) => panic!("nothing is cached yet"),
    };
    assert_eq!(endpoint, "https://api.github.com/repos/owner/repo/releases");
    fetches += 1;
    let (tags, bytes) = f.provide_versions_fetch(FetchOutcome::Body(LISTING.to_string())).unwrap();
    assert_eq!(tags, strings(&["v1.0.0", "v1.1.0"]));
    match f.list_remote_versions(Some(&bytes)).unwrap() {
        VersionsStep::Ready(t) => assert_eq!(t, strings(&["v1.0.0", "v1.1.0"])),
        VersionsStep::NeedFetch(_) => panic!("the second call must hit the cache"),
    }
    assert_eq!(fetches, 1);
}

#[test]
fn fresh_process_reads_the_cache_file() {
    let mut first = forge("owner/repo");
    first.list_remote_versions(None).unwrap();
    let (_, bytes) = first.provide_versions_fetch(FetchOutcome::Body(LISTING.to_string())).unwrap();
    let mut second = forge("owner/repo");
    match second.list_remote_versions(Some(&bytes)).unwrap() {
        VersionsStep::Ready(t) => assert_eq!(t, strings(&["v1.0.0", "v1.1.0"])),
        VersionsStep::NeedFetch(_) => panic!("the persisted bytes must decode"),
    }
}

#[test]
fn corrupt_cache_file_is_a_miss_and_is_rewritten() {
    let mut f = forge("owner/repo");
    let garbage = b"not a cache file at all";
    match f.list_remote_versions(Some(garbage)).unwrap() {
        VersionsStep::NeedFetch(_) => {},
        VersionsStep::Ready(_) => panic!("a corrupt file must be a miss"),
    }
    let (_, bytes) = f.provide_versions_fetch(FetchOutcome::Body(LISTING.to_string())).unwrap();
    let mut recovered = forge("owner/repo");
    match recovered.list_remote_versions(Some(&bytes)).unwrap() {
        VersionsStep::Ready(t) => assert_eq!(t, strings(&["v1.0.0", "v1.1.0"])),
        VersionsStep::NeedFetch(_) => panic!("the rewritten entry must be valid"),
    }
}

#[test]
fn truncated_cache_file_is_a_miss() {
    let mut f = forge("owner/repo");
    f.list_remote_versions(None).unwrap();
    let (_, bytes) = f.provide_versions_fetch(FetchOutcome::Body(LISTING.to_string())).unwrap();
    let truncated = &bytes[..bytes.len() / 2];
    let mut g = forge("owner/repo");
    match g.list_remote_versions(Some(truncated)).unwrap() {
        VersionsStep::NeedFetch(_) => {},
        VersionsStep::Ready(_) => panic!("a truncated file must be a miss"),
    }
}

#[test]
fn transport_failure_is_fetch_error_and_caches_nothing() {
    let mut f = forge("owner/repo");
    f.list_remote_versions(None).unwrap();
    let e = f
        .provide_versions_fetch(FetchOutcome::TransportError {
            endpoint: "https://api.github.com/repos/owner/repo/releases".to_string(),
            message: "connection refused".to_string(),
        })
        .unwrap_err();
    assert!(matches!(e, UbiError::FetchError { message, .. } if message == "connection refused"));
    match f.list_remote_versions(None).unwrap() {
        VersionsStep::NeedFetch(_) => {},
        VersionsStep::Ready(_) => panic!("a failed fetch must leave no entry"),
    }
}

#[test]
fn bad_body_is_not_cached_and_next_call_retries() {
    let mut f = forge("owner/repo");
    f.list_remote_versions(None).unwrap();
    let e = f.provide_versions_fetch(FetchOutcome::Body("{oops".to_string())).unwrap_err();
    assert!(matches!(e, UbiError::ParseError));
    let e = f.provide_versions_fetch(FetchOutcome::Body("{}".to_string())).unwrap_err();
    assert!(matches!(e, UbiError::SchemaError));
    match f.list_remote_versions(None).unwrap() {
        VersionsStep::NeedFetch(_) => {},
        VersionsStep::Ready(_) => panic!("errors must leave no entry"),
    }
}

#[test]
fn latest_flow_caches_the_derived_answer() {
    let mut f = forge("owner/repo");
    match f.latest_stable_version(None) {
        LatestStep::NeedVersions => {},
        LatestStep::Ready(_) => panic!("nothing is cached yet"),
    }
    let (latest, bytes) = f.derive_latest(&strings(&["v1.0.0", "v1.1.0"]));
    assert_eq!(latest, Some("v1.1.0".to_string()));
    match f.latest_stable_version(None) {
        LatestStep::Ready(o) => assert_eq!(o, Some("v1.1.0".to_string())),
        LatestStep::NeedVersions => panic!("the second call must hit the cache"),
    }
    let mut g = forge("owner/repo");
    match g.latest_stable_version(Some(&bytes)) {
        LatestStep::Ready(o) => assert_eq!(o, Some("v1.1.0".to_string())),
        LatestStep::NeedVersions => panic!("the persisted bytes must decode"),
    }
}

#[test]
fn latest_flow_caches_a_missing_answer_too() {
    let mut f = forge("owner/repo");
    let (latest, bytes) = f.derive_latest(&Vec::new());
    assert_eq!(latest, None);
    let mut g = forge("owner/repo");
    match g.latest_stable_version(Some(&bytes)) {
        LatestStep::Ready(o) => assert_eq!(o, None),
        LatestStep::NeedVersions => panic!("the persisted bytes must decode"),
    }
}

#[test]
fn corrupt_latest_cache_file_is_a_miss() {
    let mut f = forge("owner/repo");
    match f.latest_stable_version(Some(b"junk")) {
        LatestStep::NeedVersions => {},
        LatestStep::Ready(_) => panic!("a corrupt file must be a miss"),
    }
}

#[test]
fn empty_listing_flows_through_as_empty() {
    let mut f = forge("owner/repo");
    f.list_remote_versions(None).unwrap();
    let (tags, _) = f.provide_versions_fetch(FetchOutcome::Body("[]".to_string())).unwrap();
    assert_eq!(tags, Vec::<String>::new());
    let (latest, _) = f.derive_latest(&tags);
    assert_eq!(latest, None);
}

#[test]
fn backend_identity() {
    let f = forge("owner/repo");
    assert_eq!(f.get_type(), ForgeType::Ubi);
    assert_eq!(f.name(), "owner/repo");
    assert_eq!(f.fa().name, "owner/repo");
    assert_eq!(f.get_dependencies(), strings(&["ubi"]));
    assert_eq!(f.versions_path(), "/tmp/cache/remote_versions.bin.z");
    assert_eq!(f.latest_path(), "/tmp/cache/latest_version.bin.z");
}
