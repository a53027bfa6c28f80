use vstd::prelude::*;
use vstd::string::StringExecFns;
use crate::cache::{LatestVersionCache, VersionListCache};
use crate::codec::{spec_decode_list, spec_decode_opt, spec_encode_list, spec_encode_opt};
use crate::endpoint::{resolve_endpoint, spec_endpoint, url_ok};
use crate::errors::UbiError;
use crate::install::{plan_install, spec_bin_dir, spec_install_args, spec_install_mode, InstallCommand};
use crate::releases::{
    extract_release_tags, latest_of, spec_first_match, spec_release_tags, ParseFailure,
};
use crate::strutil::lower_of;

verus! {

/// The identity of one backend instance: the tool identifier (a bare
/// `owner/repo` shorthand or a literal URL) and the directory where its
/// cache files live.
#[derive(Debug)]
pub struct ForgeArg {
    pub name: String,
    pub cache_path: String,
}

/// The kind of this backend.
#[derive(Debug, PartialEq, Eq, Structural)]
pub enum ForgeType {
    Ubi,
}

/// The next step in resolving the remote version list.
#[derive(Debug)]
pub enum VersionsStep {
    /// The list, from the in-process memo or the cache file.
    Ready(Vec<String>),
    /// Nothing usable is cached: the caller must fetch this endpoint and
    /// hand the outcome to `provide_versions_fetch`.
    NeedFetch(String),
}

/// What the caller's fetch of the release listing came to.
#[derive(Debug)]
pub enum FetchOutcome {
    /// The response body.
    Body(String),
    /// The transport failed before a body arrived.
    TransportError { endpoint: String, message: String },
}

/// The next step in resolving the latest stable version.
#[derive(Debug)]
pub enum LatestStep {
    /// The cached answer; `None` means the tool has no releases.
    Ready(Option<String>),
    /// Nothing usable is cached: resolve the remote version list first and
    /// hand it to `derive_latest`.
    NeedVersions,
}

/// A version-manager backend that resolves a tool's versions from the
/// hosted release listing and installs them through the external `ubi`
/// installer.  Network, disk and subprocess work stay with the caller: the
/// methods here decide each step and say exactly what to do next.
pub struct UBIForge {
    fa: ForgeArg,
    remote_version_cache: VersionListCache,
    latest_version_cache: LatestVersionCache,
}

impl UBIForge {
    /// The tool identifier this backend serves.
    pub closed spec fn spec_name(&self) -> Seq<char> {
        self.fa.name@
    }

    /// The memoized remote version list, if any.
    pub closed spec fn versions_cached(&self) -> Option<Seq<Seq<char>>> {
        self.remote_version_cache@
    }

    /// The memoized latest stable version, if any.
    pub closed spec fn latest_cached(&self) -> Option<Option<Seq<char>>> {
        self.latest_version_cache@
    }

    /// The file the version list is persisted to.
    pub closed spec fn spec_versions_path(&self) -> Seq<char> {
        self.remote_version_cache.spec_path()
    }

    /// The file the latest version is persisted to.
    pub closed spec fn spec_latest_path(&self) -> Seq<char> {
        self.latest_version_cache.spec_path()
    }

    /// All the parts of the state that a step leaves untouched besides the
    /// two memos.
    pub open spec fn same_identity(&self, other: &Self) -> bool {
        &&& self.spec_name() == other.spec_name()
        &&& self.spec_versions_path() == other.spec_versions_path()
        &&& self.spec_latest_path() == other.spec_latest_path()
    }

    /// A fresh backend for one tool: both caches empty, each persisted
    /// under its own file in the tool's cache directory.
    pub fn new(fa: ForgeArg) -> (f: Self)
        ensures
            f.spec_name() == fa.name@,
            f.versions_cached() is None,
            f.latest_cached() is None,
            f.spec_versions_path() == fa.cache_path@ + "/remote_versions.bin.z"@,
            f.spec_latest_path() == fa.cache_path@ + "/latest_version.bin.z"@,
    {
        let mut p1 = fa.cache_path.clone();
        p1.append("/remote_versions.bin.z");
        let mut p2 = fa.cache_path.clone();
        p2.append("/latest_version.bin.z");
        UBIForge {
            remote_version_cache: VersionListCache::new(p1),
            latest_version_cache: LatestVersionCache::new(p2),
            fa,
        }
    }

    pub fn get_type(&self) -> (t: ForgeType)
        ensures
            t == ForgeType::Ubi,
    {
        ForgeType::Ubi
    }

    pub fn fa(&self) -> (r: &ForgeArg)
        ensures
            r.name@ == self.spec_name(),
    {
        &self.fa
    }

    pub fn name(&self) -> (r: &String)
        ensures
            r@ == self.spec_name(),
    {
        &self.fa.name
    }

    /// Installing through this backend needs the generic installer itself.
    pub fn get_dependencies(&self) -> (r: Vec<String>)
        ensures
            r.deep_view() == seq!["ubi"@],
    {
        let mut v: Vec<String> = Vec::new();
        v.push(String::from_str("ubi"));
        proof {
            assert(v.deep_view() =~= seq!["ubi"@]);
        }
        v
    }

    pub fn versions_path(&self) -> (r: &String)
        ensures
            r@ == self.spec_versions_path(),
    {
        self.remote_version_cache.path()
    }

    pub fn latest_path(&self) -> (r: &String)
        ensures
            r@ == self.spec_latest_path(),
    {
        self.latest_version_cache.path()
    }

    /// Starts resolving the remote version list.  `disk` is the current
    /// content of the versions cache file, if one exists.  A memoized or
    /// readable cached list is returned as `Ready` with no fetch asked
    /// for; only when nothing usable is cached does the caller get
    /// `NeedFetch` with the resolved endpoint, or `InvalidIdentifier` when
    /// the identifier yields no parseable URL.
    pub fn list_remote_versions(&mut self, disk: Option<&[u8]>) -> (r: Result<
        VersionsStep,
        UbiError,
    >)
        ensures
            old(self).same_identity(&*final(self)),
            final(self).latest_cached() == old(self).latest_cached(),
            match old(self).versions_cached() {
                Some(v) => final(self).versions_cached() == Some(v) && (r matches Ok(s) && (
                s matches VersionsStep::Ready(tags) && tags.deep_view() == v)),
                None => ({
                    let dec = match disk {
                        Some(bytes) => spec_decode_list(bytes@),
                        None => None,
                    };
                    match dec {
                        Some(v) => final(self).versions_cached() == Some(v) && (r matches Ok(s)
                            && (s matches VersionsStep::Ready(tags) && tags.deep_view() == v)),
                        None => final(self).versions_cached() is None && (if url_ok(
                            spec_endpoint(lower_of(old(self).spec_name())),
                        ) {
                            r matches Ok(s) && (s matches VersionsStep::NeedFetch(u) && u@
                                == spec_endpoint(lower_of(old(self).spec_name())))
                        } else {
                            r matches Err(e) && (e matches UbiError::InvalidIdentifier {
                                identifier: i,
                            } && i@ == old(self).spec_name())
                        }),
                    }
                }),
            },
    {
        match self.remote_version_cache.lookup(disk) {
            Some(tags) => Ok(VersionsStep::Ready(tags)),
            None => match resolve_endpoint(self.fa.name.as_str()) {
                Ok(u) => Ok(VersionsStep::NeedFetch(u)),
                Err(e) => Err(e),
            },
        }
    }

    /// Hands back the outcome of fetching the release listing.  A good
    /// body has its tags extracted, memoized and returned together with
    /// the bytes to persist at the versions cache path; the bytes decode
    /// back to exactly those tags.  A body that is not JSON is
    /// `ParseError`, one of the wrong shape is `SchemaError`, and a
    /// transport failure is `FetchError`; none of these caches anything,
    /// so the next call retries.
    pub fn provide_versions_fetch(&mut self, outcome: FetchOutcome) -> (r: Result<
        (Vec<String>, Vec<u8>),
        UbiError,
    >)
        ensures
            old(self).same_identity(&*final(self)),
            final(self).latest_cached() == old(self).latest_cached(),
            match outcome {
                FetchOutcome::Body(body) => (match spec_release_tags(body@) {
                    Ok(tags) => final(self).versions_cached() == Some(tags) && (r matches Ok(p) && {
                        &&& p.0.deep_view() == tags
                        &&& p.1@ == spec_encode_list(tags)
                        &&& spec_decode_list(p.1@) == Some(tags)
                    }),
                    Err(ParseFailure::Syntax) => final(self).versions_cached() == old(self).versions_cached() && (r matches Err(e) && e is ParseError),
                    Err(ParseFailure::Schema) => final(self).versions_cached() == old(self).versions_cached() && (r matches Err(e) && e is SchemaError),
                }),
                FetchOutcome::TransportError { endpoint, message } => final(self).versions_cached() == old(self).versions_cached() && (r matches Err(e) && (
                e matches UbiError::FetchError { endpoint: ep, message: m } && ep@ == endpoint@
                    && m@ == message@)),
            },
    {
        match outcome {
            FetchOutcome::Body(body) => match extract_release_tags(body.as_str()) {
                Ok(tags) => {
                    let out = tags.clone();
                    proof {
                        assert(out.deep_view() =~= tags.deep_view());
                    }
                    let bytes = self.remote_version_cache.fill(tags);
                    Ok((out, bytes))
                },
                Err(ParseFailure::Syntax) => Err(UbiError::ParseError),
                Err(ParseFailure::Schema) => Err(UbiError::SchemaError),
            },
            FetchOutcome::TransportError { endpoint, message } => Err(
                UbiError::FetchError { endpoint, message },
            ),
        }
    }

    /// Starts resolving the latest stable version.  `disk` is the current
    /// content of the latest-version cache file, if one exists.  On
    /// `NeedVersions` the caller resolves the remote version list and
    /// hands it to `derive_latest`.
    pub fn latest_stable_version(&mut self, disk: Option<&[u8]>) -> (r: LatestStep)
        ensures
            old(self).same_identity(&*final(self)),
            final(self).versions_cached() == old(self).versions_cached(),
            match old(self).latest_cached() {
                Some(v) => final(self).latest_cached() == Some(v) && (r matches LatestStep::Ready(o)
                    && o.deep_view() == v),
                None => ({
                    let dec = match disk {
                        Some(bytes) => spec_decode_opt(bytes@),
                        None => None,
                    };
                    match dec {
                        Some(v) => final(self).latest_cached() == Some(v) && (
                        r matches LatestStep::Ready(o) && o.deep_view() == v),
                        None => final(self).latest_cached() is None && r is NeedVersions,
                    }
                }),
            },
    {
        match self.latest_version_cache.lookup(disk) {
            Some(v) => LatestStep::Ready(v),
            None => LatestStep::NeedVersions,
        }
    }

    /// Derives the latest stable version from the remote version list: the
    /// last tag in upstream order, or `None` for a tool with no releases.
    /// The answer is memoized and returned together with the bytes to
    /// persist at the latest-version cache path.
    pub fn derive_latest(&mut self, versions: &Vec<String>) -> (r: (Option<String>, Vec<u8>))
        ensures
            old(self).same_identity(&*final(self)),
            final(self).versions_cached() == old(self).versions_cached(),
            versions@.len() == 0 ==> r.0 is None,
            versions@.len() > 0 ==> (r.0 matches Some(s) && s@ == versions.deep_view().last()),
            final(self).latest_cached() == Some(r.0.deep_view()),
            r.1@ == spec_encode_opt(r.0.deep_view()),
            spec_decode_opt(r.1@) == Some(r.0.deep_view()),
    {
        let latest = latest_of(versions);
        let out: Option<String> = match &latest {
            Some(s) => Some(s.clone()),
            None => None,
        };
        let bytes = self.latest_version_cache.fill(latest);
        (out, bytes)
    }

    /// Plans an install of `requested` into `install_path` for this
    /// backend's tool, against an already resolved remote version list.
    pub fn plan_install(
        &self,
        versions: &Vec<String>,
        requested: &str,
        install_path: &str,
        experimental: bool,
        env: Vec<(String, String)>,
        prepend_paths: Vec<String>,
    ) -> (r: Result<InstallCommand, UbiError>)
        ensures
            !experimental ==> (r matches Err(e) && e is FeatureDisabled),
            experimental ==> (spec_first_match(versions.deep_view(), requested@) is None
                ==> (r matches Err(e) && (e matches UbiError::NotFound { requested: q } && q@
                == requested@))),
            experimental ==> (spec_first_match(versions.deep_view(), requested@) matches Some(tag)
                ==> r matches Ok(cmd) && {
                &&& cmd.program@ == "ubi"@
                &&& cmd.args.deep_view() == spec_install_args(
                    spec_install_mode(self.spec_name()),
                    self.spec_name(),
                    tag,
                    spec_bin_dir(install_path@),
                )
                &&& cmd.env == env
                &&& cmd.prepend_paths == prepend_paths
            }),
    {
        plan_install(
            self.fa.name.as_str(),
            versions,
            requested,
            install_path,
            experimental,
            env,
            prepend_paths,
        )
    }
}

} // verus!
