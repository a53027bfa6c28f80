use ubi_backend::errors::UbiError;
use ubi_backend::forge::{ForgeArg, UBIForge};
use ubi_backend::install::{
    complete_install, plan_install, select_install_mode, InstallMode, ProcessOutcome,
};

fn strings(v: &[&str]) -> Vec<String> {
    v.iter().map(|s| s.to_string()).collect()
}

fn env() -> Vec<(String, String)> {
    vec![("MISE_ENV".to_string(), "1".to_string())]
}

#[test]
fn mode_selection_is_a_prefix_check() {
    assert_eq!(select_install_mode("https://example.com/bin.tar.gz"), InstallMode::DirectUrl);
    assert_eq!(select_install_mode("http://example.com/bin.tar.gz"), InstallMode::DirectUrl);
    assert_eq!(select_install_mode("owner/repo"), InstallMode::TaggedProject);
    assert_eq!(select_install_mode("HTTPS://X"), InstallMode::TaggedProject);
}

#[test]
fn url_mode_arguments() {
    let cmd = plan_install(
        "https://example.com/bin.tar.gz",
        &strings(&["v1.0.0"]),
        "1.0",
        "/opt/tools/x",
        true,
        env(),
        strings(&["/opt/tools/bin"]),
    )
    .unwrap();
    assert_eq!(cmd.program, "ubi");
    assert_eq!(
        cmd.args,
        strings(&["--url", "https://example.com/bin.tar.gz", "--in", "/opt/tools/x/bin/"])
    );
    assert_eq!(cmd.env, env());
    assert_eq!(cmd.prepend_paths, strings(&["/opt/tools/bin"]));
}

#[test]
fn project_mode_arguments() {
    let cmd = plan_install(
        "owner/repo",
        &strings(&["v1.0.0", "v2.0.0"]),
        "1.0",
        "/opt/tools/x",
        true,
        env(),
        Vec::new(),
    )
    .unwrap();
    assert_eq!(
        cmd.args,
        strings(&["--project", "owner/repo", "--tag", "v1.0.0", "--in", "/opt/tools/x/bin/"])
    );
}

#[test]
fn disabled_feature_gate_fails_first() {
    let e = plan_install(
        "owner/repo",
        &strings(&["v1.0.0"]),
        "1.0",
        "/opt/tools/x",
        false,
        Vec::new(),
        Vec::new(),
    )
    .unwrap_err();
    assert!(matches!(e, UbiError::FeatureDisabled));
}

#[test]
fn unmatched_version_fails_with_not_found() {
    let e = plan_install(
        "owner/repo",
        &strings(&["v2.0.0"]),
        "1.0",
        "/opt/tools/x",
        true,
        Vec::new(),
        Vec::new(),
    )
    .unwrap_err();
    assert!(matches!(e, UbiError::NotFound { requested } if requested == "1.0"));
}

#[test]
fn version_is_resolved_even_in_url_mode() {
    let e = plan_install(
        "https://example.com/bin.tar.gz",
        &strings(&["v2.0.0"]),
        "1.0",
        "/opt/tools/x",
        true,
        Vec::new(),
        Vec::new(),
    )
    .unwrap_err();
    assert!(matches!(e, UbiError::NotFound { .. }));
}

#[test]
fn backend_plans_with_its_own_identifier() {
    let f = UBIForge::new(ForgeArg {
        name: "owner/repo".to_string(),
        cache_path: "/tmp/cache".to_string(),
    });
    let cmd = f
        .plan_install(&strings(&["v1.0.0"]), "1.0", "/opt/tools/x", true, Vec::new(), Vec::new())
        .unwrap();
    assert_eq!(
        cmd.args,
        strings(&["--project", "owner/repo", "--tag", "v1.0.0", "--in", "/opt/tools/x/bin/"])
    );
}

#[test]
fn zero_exit_is_success() {
    assert!(complete_install(ProcessOutcome::Exited(0)).is_ok());
}

#[test]
fn non_zero_exit_is_execution_failure() {
    let e = complete_install(ProcessOutcome::Exited(3)).unwrap_err();
    assert!(matches!(e, UbiError::ExecutionFailed { .. }));
}

#[test]
fn spawn_failure_is_execution_failure() {
    let e = complete_install(ProcessOutcome::SpawnFailed("no such program".to_string()))
        .unwrap_err();
    assert!(matches!(e, UbiError::ExecutionFailed { message } if message == "no such program"));
}
