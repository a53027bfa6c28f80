use vstd::prelude::*;
use vstd::string::StringExecFns;
use crate::errors::UbiError;
use crate::releases::{find_matching_version, spec_first_match};
use crate::strutil::{has_prefix, starts_with_str};

verus! {

/// The two invocation modes of the external installer, decided once from
/// the tool identifier and threaded through argument construction.
#[derive(Debug, PartialEq, Eq, Structural)]
pub enum InstallMode {
    /// The identifier is itself the download URL.
    DirectUrl,
    /// The identifier names a project; the resolved tag picks the release.
    TaggedProject,
}

/// Mode selection: an identifier beginning with `http` (case-sensitive; the
/// identifier is lowercase-normalized upstream) is installed straight from
/// that URL, anything else as a tagged project.
pub open spec fn spec_install_mode(id: Seq<char>) -> InstallMode {
    if has_prefix(id, "http"@) {
        InstallMode::DirectUrl
    } else {
        InstallMode::TaggedProject
    }
}

pub fn select_install_mode(identifier: &str) -> (m: InstallMode)
    ensures
        m == spec_install_mode(identifier@),
{
    if starts_with_str(identifier, "http") {
        InstallMode::DirectUrl
    } else {
        InstallMode::TaggedProject
    }
}

/// A fully planned invocation of the external installer: the command line
/// to run, the caller's environment, and the managed executable search
/// paths to prepend so the installer finds its own runtime dependencies.
#[derive(Debug)]
pub struct InstallCommand {
    pub program: String,
    pub args: Vec<String>,
    pub env: Vec<(String, String)>,
    pub prepend_paths: Vec<String>,
}

/// The installer's output directory: always the `bin` subdirectory of the
/// install path, in either mode.
pub open spec fn spec_bin_dir(install_path: Seq<char>) -> Seq<char> {
    install_path + "/bin/"@
}

/// The exact installer arguments for a mode.
pub open spec fn spec_install_args(
    mode: InstallMode,
    id: Seq<char>,
    tag: Seq<char>,
    bin_dir: Seq<char>,
) -> Seq<Seq<char>> {
    match mode {
        InstallMode::DirectUrl => seq!["--url"@, id, "--in"@, bin_dir],
        InstallMode::TaggedProject => seq!["--project"@, id, "--tag"@, tag, "--in"@, bin_dir],
    }
}

/// Plans one install attempt: requires the experimental gate, resolves the
/// matching version tag against the remote list, computes the output
/// directory, selects the mode, and builds the exact command.  Launching
/// the process is the caller's part; `complete_install` settles its
/// outcome.
pub fn plan_install(
    identifier: &str,
    versions: &Vec<String>,
    requested: &str,
    install_path: &str,
    experimental: bool,
    env: Vec<(String, String)>,
    prepend_paths: Vec<String>,
) -> (r: Result<InstallCommand, UbiError>)
    ensures
        !experimental ==> (r matches Err(e) && e is FeatureDisabled),
        experimental && spec_first_match(versions.deep_view(), requested@) is None ==> (r matches Err(e) && e matches UbiError::NotFound { requested: q } && q@ == requested@),
        experimental ==> (spec_first_match(versions.deep_view(), requested@) matches Some(tag) ==> r matches Ok(cmd) && {
            &&& cmd.program@ == "ubi"@
            &&& cmd.args.deep_view() == spec_install_args(
                spec_install_mode(identifier@),
                identifier@,
                tag,
                spec_bin_dir(install_path@),
            )
            &&& cmd.env == env
            &&& cmd.prepend_paths == prepend_paths
        }),
{
    if !experimental {
        return Err(UbiError::FeatureDisabled);
    }
    let tag = match find_matching_version(versions, requested) {
        Ok(t) => t,
        Err(e) => {
            return Err(e);
        },
    };
    let mut bin_dir = String::from_str(install_path);
    bin_dir.append("/bin/");
    let mode = select_install_mode(identifier);
    let mut args: Vec<String> = Vec::new();
    match mode {
        InstallMode::DirectUrl => {
            args.push(String::from_str("--url"));
            args.push(String::from_str(identifier));
            args.push(String::from_str("--in"));
            args.push(bin_dir);
        },
        InstallMode::TaggedProject => {
            args.push(String::from_str("--project"));
            args.push(String::from_str(identifier));
            args.push(String::from_str("--tag"));
            args.push(tag);
            args.push(String::from_str("--in"));
            args.push(bin_dir);
        },
    }
    proof {
        assert(args.deep_view() =~= spec_install_args(
            spec_install_mode(identifier@),
            identifier@,
            spec_first_match(versions.deep_view(), requested@)->Some_0,
            spec_bin_dir(install_path@),
        ));
    }
    Ok(InstallCommand { program: String::from_str("ubi"), args, env, prepend_paths })
}

/// What came of launching the installer process.
#[derive(Debug)]
pub enum ProcessOutcome {
    /// The process ran and exited with this status code.
    Exited(i32),
    /// The process could not be started; the caller's description of why.
    SpawnFailed(String),
}

/// Settles an install attempt from the installer's outcome: success is
/// exactly a zero exit status, and any spawn failure or non-zero exit is
/// `ExecutionFailed`.  No cleanup of the destination directory happens
/// here; that belongs to the caller's install transaction.
pub fn complete_install(outcome: ProcessOutcome) -> (r: Result<(), UbiError>)
    ensures
        match outcome {
            ProcessOutcome::Exited(code) => if code == 0 {
                r is Ok
            } else {
                r matches Err(e) && e is ExecutionFailed
            },
            ProcessOutcome::SpawnFailed(m) => r matches Err(e) && (e matches UbiError::ExecutionFailed { message } && message@ == m@),
        },
{
    match outcome {
        ProcessOutcome::Exited(code) => {
            if code == 0 {
                Ok(())
            } else {
                Err(
                    UbiError::ExecutionFailed {
                        message: String::from_str("the installer exited with a non-zero status"),
                    },
                )
            }
        },
        ProcessOutcome::SpawnFailed(m) => Err(UbiError::ExecutionFailed { message: m }),
    }
}

} // verus!
