use vstd::prelude::*;
use crate::codec::{
    decode_latest, decode_version_list, encode_latest, encode_version_list, spec_decode_list,
    spec_decode_opt, spec_encode_list, spec_encode_opt,
};

verus! {

/// Persistent memoizing cache for the remote version list.  The in-process
/// memo is the state held here; the underlying file is the caller's part:
/// `lookup` is handed the file's bytes when one exists, and `fill` hands
/// back the bytes to persist.  A file that fails to decode is a miss, never
/// an error.
pub struct VersionListCache {
    memo: Option<Vec<String>>,
    path: String,
}

impl View for VersionListCache {
    type V = Option<Seq<Seq<char>>>;

    closed spec fn view(&self) -> Option<Seq<Seq<char>>> {
        match self.memo {
            Some(v) => Some(v.deep_view()),
            None => None,
        }
    }
}

impl VersionListCache {
    /// The file path this cache persists to.
    pub closed spec fn spec_path(&self) -> Seq<char> {
        self.path@
    }

    pub fn path(&self) -> (r: &String)
        ensures
            r@ == self.spec_path(),
    {
        &self.path
    }

    /// A fresh cache: nothing memoized yet.
    pub fn new(path: String) -> (c: Self)
        ensures
            c@ is None,
            c.spec_path() == path@,
    {
        VersionListCache { memo: None, path }
    }

    /// Consults the memo, then the cache file's bytes.  Returns the cached
    /// list on a hit, memoizing a list decoded from disk; returns `None` on
    /// a miss, which includes a corrupt file.
    pub fn lookup(&mut self, disk: Option<&[u8]>) -> (r: Option<Vec<String>>)
        ensures
            final(self).spec_path() == old(self).spec_path(),
            match old(self)@ {
                Some(v) => final(self)@ == old(self)@ && (r matches Some(rv) && rv.deep_view()
                    == v),
                None => match disk {
                    Some(bytes) => match spec_decode_list(bytes@) {
                        Some(v) => final(self)@ == Some(v) && (r matches Some(rv)
                            && rv.deep_view() == v),
                        None => final(self)@ is None && r is None,
                    },
                    None => final(self)@ is None && r is None,
                },
            },
    {
        match &self.memo {
            Some(v) => {
                let c = v.clone();
                proof {
                    assert(c.deep_view() =~= v.deep_view());
                }
                Some(c)
            },
            None => match disk {
                Some(bytes) => match decode_version_list(bytes) {
                    Some(v) => {
                        let c = v.clone();
                        proof {
                            assert(c.deep_view() =~= v.deep_view());
                        }
                        self.memo = Some(v);
                        Some(c)
                    },
                    None => None,
                },
                None => None,
            },
        }
    }

    /// Memoizes a freshly fetched list and returns the bytes to persist.
    /// The bytes decode back to exactly the stored list, so a later process
    /// reading the same file sees the same versions.
    pub fn fill(&mut self, tags: Vec<String>) -> (bytes: Vec<u8>)
        ensures
            final(self).spec_path() == old(self).spec_path(),
            final(self)@ == Some(tags.deep_view()),
            bytes@ == spec_encode_list(tags.deep_view()),
            spec_decode_list(bytes@) == Some(tags.deep_view()),
    {
        let bytes = encode_version_list(&tags);
        self.memo = Some(tags);
        bytes
    }
}

/// Persistent memoizing cache for the derived latest-stable version, with
/// the same file protocol as `VersionListCache`.  The stored value is
/// itself an `Option`: a tool with no releases has no latest version, and
/// that fact is cached too.
pub struct LatestVersionCache {
    memo: Option<Option<String>>,
    path: String,
}

impl View for LatestVersionCache {
    type V = Option<Option<Seq<char>>>;

    closed spec fn view(&self) -> Option<Option<Seq<char>>> {
        match self.memo {
            Some(v) => Some(v.deep_view()),
            None => None,
        }
    }
}

impl LatestVersionCache {
    /// The file path this cache persists to.
    pub closed spec fn spec_path(&self) -> Seq<char> {
        self.path@
    }

    pub fn path(&self) -> (r: &String)
        ensures
            r@ == self.spec_path(),
    {
        &self.path
    }

    /// A fresh cache: nothing memoized yet.
    pub fn new(path: String) -> (c: Self)
        ensures
            c@ is None,
            c.spec_path() == path@,
    {
        LatestVersionCache { memo: None, path }
    }

    /// Consults the memo, then the cache file's bytes.  A corrupt file is a
    /// miss, never an error.
    pub fn lookup(&mut self, disk: Option<&[u8]>) -> (r: Option<Option<String>>)
        ensures
            final(self).spec_path() == old(self).spec_path(),
            match old(self)@ {
                Some(v) => final(self)@ == old(self)@ && (r matches Some(rv) && rv.deep_view()
                    == v),
                None => match disk {
                    Some(bytes) => match spec_decode_opt(bytes@) {
                        Some(v) => final(self)@ == Some(v) && (r matches Some(rv)
                            && rv.deep_view() == v),
                        None => final(self)@ is None && r is None,
                    },
                    None => final(self)@ is None && r is None,
                },
            },
    {
        match &self.memo {
            Some(v) => {
                let c = clone_opt_string(v);
                Some(c)
            },
            None => match disk {
                Some(bytes) => match decode_latest(bytes) {
                    Some(v) => {
                        let c = clone_opt_string(&v);
                        self.memo = Some(v);
                        Some(c)
                    },
                    None => None,
                },
                None => None,
            },
        }
    }

    /// Memoizes a freshly derived latest version and returns the bytes to
    /// persist; they decode back to exactly the stored value.
    pub fn fill(&mut self, latest: Option<String>) -> (bytes: Vec<u8>)
        ensures
            final(self).spec_path() == old(self).spec_path(),
            final(self)@ == Some(latest.deep_view()),
            bytes@ == spec_encode_opt(latest.deep_view()),
            spec_decode_opt(bytes@) == Some(latest.deep_view()),
    {
        let bytes = encode_latest(&latest);
        self.memo = Some(latest);
        bytes
    }
}

/// A copy of an optional string with the same characters.
fn clone_opt_string(v: &Option<String>) -> (r: Option<String>)
    ensures
        r.deep_view() == v.deep_view(),
{
    match v {
        Some(s) => Some(s.clone()),
        None => None,
    }
}

} // verus!
