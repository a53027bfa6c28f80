use vstd::prelude::*;
use vstd::string::StringExecFns;
use crate::errors::UbiError;
use crate::strutil::{contains_seq, contains_str};

verus! {

/// What the upstream release listing looked like, reduced to the parts the
/// backend reads: for each element of the top-level array, its `tag_name`
/// string field, or `None` where an element lacks one.
#[derive(Debug)]
pub enum ReleaseDoc {
    /// The body is not valid JSON.
    NotJson,
    /// The body is JSON, but not an array.
    NotArray,
    /// The body is a JSON array; one entry per element.
    Items(Vec<Option<String>>),
}

/// How a release listing can be malformed.
#[derive(Debug)]
pub enum ParseFailure {
    /// Not valid JSON.
    Syntax,
    /// Valid JSON of the wrong shape: not an array, or an element without a
    /// `tag_name` string field.
    Schema,
}

/// Whether `serde_json::from_str` parses the text as JSON.
pub uninterp spec fn json_parses(s: Seq<char>) -> bool;

/// When the parsed text is a JSON array: for each element, its `tag_name`
/// string field, in array order.  `None` when the text is not an array.
pub uninterp spec fn release_items(s: Seq<char>) -> Option<Seq<Option<Seq<char>>>>;

/// Relies on `serde_json::from_str::<Value>`, `Value::get` and
/// `Value::as_str`: parses the body and maps each element of the top-level
/// array to its `tag_name` string field; all three depend on the text
/// alone.
#[verifier::external_body]
fn parse_release_doc(s: &str) -> (r: ReleaseDoc)
    ensures
        match r {
            ReleaseDoc::NotJson => !json_parses(s@),
            ReleaseDoc::NotArray => json_parses(s@) && release_items(s@) is None,
            ReleaseDoc::Items(v) => json_parses(s@) && release_items(s@) == Some(v.deep_view()),
        },
{
    match serde_json::from_str::<serde_json::Value>(s) {
        Err(_) => ReleaseDoc::NotJson,
        Ok(serde_json::Value::Array(items)) => ReleaseDoc::Items(
            items.iter().map(
                |it: &serde_json::Value| it.get("tag_name").and_then(|t| t.as_str()).map(
                    |t| t.to_string(),
                ),
            ).collect(),
        ),
        Ok(_) => ReleaseDoc::NotArray,
    }
}

/// The version tags that a release-listing body denotes: the `tag_name` of
/// each element of the array, in order; `Syntax` when the body is not JSON,
/// `Schema` when it is not an array of objects that all carry a string
/// `tag_name`.
pub open spec fn spec_release_tags(s: Seq<char>) -> Result<Seq<Seq<char>>, ParseFailure> {
    if !json_parses(s) {
        Err(ParseFailure::Syntax)
    } else {
        match release_items(s) {
            None => Err(ParseFailure::Schema),
            Some(items) => if exists|i: int| 0 <= i < items.len() && (#[trigger] items[i]) is None {
                Err(ParseFailure::Schema)
            } else {
                Ok(Seq::new(items.len(), |i: int| items[i]->Some_0))
            },
        }
    }
}

/// Extracts the version tags from a release-listing body, in the order the
/// upstream API returned them.  An empty array is valid and yields an empty
/// list; a missing or non-string `tag_name` anywhere is a schema fault.
pub fn extract_release_tags(body: &str) -> (r: Result<Vec<String>, ParseFailure>)
    ensures
        match r {
            Ok(v) => spec_release_tags(body@) == Ok::<Seq<Seq<char>>, ParseFailure>(v.deep_view()),
            Err(f) => spec_release_tags(body@) == Err::<Seq<Seq<char>>, ParseFailure>(f),
        },
{
    match parse_release_doc(body) {
        ReleaseDoc::NotJson => Err(ParseFailure::Syntax),
        ReleaseDoc::NotArray => Err(ParseFailure::Schema),
        ReleaseDoc::Items(items) => {
            let ghost m = items.deep_view();
            let mut out: Vec<String> = Vec::new();
            let n = items.len();
            let mut i: usize = 0;
            while i < n
                invariant
                    i <= n,
                    n == items@.len(),
                    m == items.deep_view(),
                    json_parses(body@),
                    release_items(body@) == Some(m),
                    out.deep_view().len() == i,
                    forall|j: int| 0 <= j < i ==> (#[trigger] m[j]) is Some,
                    forall|j: int| 0 <= j < i ==> #[trigger] out.deep_view()[j] == m[j]->Some_0,
                decreases n - i,
            {
                let ghost out_pre = out.deep_view();
                match &items[i] {
                    None => {
                        assert(m[i as int] is None);
                        return Err(ParseFailure::Schema);
                    },
                    Some(s) => {
                        out.push(s.clone());
                        proof {
                            assert(m[i as int] == Some(s@));
                            assert(out.deep_view() =~= out_pre.push(s@));
                        }
                    },
                }
                i += 1;
            }
            proof {
                assert(forall|j: int| 0 <= j < m.len() ==> (#[trigger] m[j]) is Some);
                assert(out.deep_view() =~= Seq::new(m.len(), |j: int| m[j]->Some_0));
            }
            Ok(out)
        },
    }
}

/// The first tag in the list that contains the requested version string.
pub open spec fn spec_first_match(tags: Seq<Seq<char>>, req: Seq<char>) -> Option<Seq<char>>
    decreases tags.len(),
{
    if tags.len() == 0 {
        None
    } else if contains_seq(tags[0], req) {
        Some(tags[0])
    } else {
        spec_first_match(tags.drop_first(), req)
    }
}

/// The matching scan finds a tag exactly when some tag contains the
/// request, and the tag it finds is the first such tag: every earlier one
/// does not contain the request.
pub proof fn lemma_first_match_is_first(tags: Seq<Seq<char>>, req: Seq<char>)
    ensures
        (spec_first_match(tags, req) is Some) <==> (exists|i: int|
            0 <= i < tags.len() && contains_seq(#[trigger] tags[i], req)),
        spec_first_match(tags, req) matches Some(t) ==> (exists|i: int|
            {
                &&& 0 <= i < tags.len()
                &&& #[trigger] tags[i] == t
                &&& contains_seq(tags[i], req)
                &&& forall|j: int| 0 <= j < i ==> !contains_seq(#[trigger] tags[j], req)
            }),
    decreases tags.len(),
{
    if tags.len() == 0 {
    } else if contains_seq(tags[0], req) {
        assert(tags[0] == tags[0] && contains_seq(tags[0], req));
    } else {
        let t2 = tags.drop_first();
        lemma_first_match_is_first(t2, req);
        assert(forall|k: int| 0 <= k < t2.len() ==> #[trigger] t2[k] == tags[k + 1]);
        if spec_first_match(tags, req) is Some {
            let t = spec_first_match(t2, req)->Some_0;
            let i2 = choose|i2: int|
                {
                    &&& 0 <= i2 < t2.len()
                    &&& #[trigger] t2[i2] == t
                    &&& contains_seq(t2[i2], req)
                    &&& forall|j: int| 0 <= j < i2 ==> !contains_seq(#[trigger] t2[j], req)
                };
            assert(tags[i2 + 1] == t && contains_seq(tags[i2 + 1], req));
            assert forall|j: int| 0 <= j < i2 + 1 implies !contains_seq(
                #[trigger] tags[j],
                req,
            ) by {
                if j > 0 {
                    assert(t2[j - 1] == tags[j]);
                    assert(!contains_seq(t2[j - 1], req));
                }
            }
        }
        if exists|i: int| 0 <= i < tags.len() && contains_seq(#[trigger] tags[i], req) {
            let i = choose|i: int| 0 <= i < tags.len() && contains_seq(#[trigger] tags[i], req);
            assert(i != 0);
            assert(contains_seq(t2[i - 1], req));
            assert(spec_first_match(t2, req) is Some);
        }
    }
}

/// Scans the version list in upstream order and returns the first tag that
/// contains `requested` as a substring; `NotFound` when no tag does.  The
/// substring test is deliberately permissive, to tolerate tag-naming
/// variance such as a `v` prefix; it is also imprecise: a request like
/// `1.2` matches `v1.2.0` and `v1.20` alike, and the earlier tag wins.
pub fn find_matching_version(versions: &Vec<String>, requested: &str) -> (r: Result<
    String,
    UbiError,
>)
    ensures
        match r {
            Ok(t) => spec_first_match(versions.deep_view(), requested@) == Some(t@),
            Err(e) => spec_first_match(versions.deep_view(), requested@) is None && (e matches UbiError::NotFound { requested: q } && q@ == requested@),
        },
{
    let ghost l = versions.deep_view();
    let n = versions.len();
    let mut i: usize = 0;
    proof {
        assert(l.skip(0) =~= l);
    }
    while i < n
        invariant
            i <= n,
            n == versions@.len(),
            l == versions.deep_view(),
            spec_first_match(l, requested@) == spec_first_match(l.skip(i as int), requested@),
        decreases n - i,
    {
        proof {
            assert(l.skip(i as int)[0] == l[i as int]);
            assert(l[i as int] == versions@[i as int]@);
        }
        if contains_str(versions[i].as_str(), requested) {
            let t = versions[i].clone();
            return Ok(t);
        }
        proof {
            assert(l.skip(i as int).drop_first() =~= l.skip(i as int + 1));
        }
        i += 1;
    }
    assert(l.skip(n as int) =~= Seq::<Seq<char>>::empty());
    Err(UbiError::NotFound { requested: String::from_str(requested) })
}

/// The latest stable version is the last tag of the list, on the standing
/// assumption that the upstream API returns releases in chronological
/// order; an empty list has none.
pub fn latest_of(versions: &Vec<String>) -> (r: Option<String>)
    ensures
        versions@.len() == 0 ==> r is None,
        versions@.len() > 0 ==> (r matches Some(s) && s@ == versions.deep_view().last()),
{
    let n = versions.len();
    if n == 0 {
        None
    } else {
        let t = versions[n - 1].clone();
        Some(t)
    }
}

} // verus!
