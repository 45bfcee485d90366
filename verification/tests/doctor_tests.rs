use sbox::config::model::{
    Config, EnvironmentConfig, ExecutionMode, MountConfig, MountType, ProfileConfig,
};
use sbox::doctor::{
    capture_outcome, determine_exit_code, is_risky_artifact, looks_like_sensitive_env,
    looks_like_sensitive_mount, risky_config_warnings, rootless_check, scan_descends,
    signature_verification_check, workspace_state_warnings, CheckLevel, CheckResult,
    SignatureSupport,
};

fn bare_config() -> Config {
    Config {
        version: 1,
        runtime: None,
        workspace: None,
        identity: None,
        image: None,
        environment: None,
        mounts: Vec::new(),
        caches: Vec::new(),
        secrets: Vec::new(),
        profiles: indexmap::IndexMap::new(),
        dispatch: indexmap::IndexMap::new(),
        package_manager: None,
    }
}

#[test]
fn doctor_returns_success_when_all_checks_pass() {
    let checks = vec![CheckResult::pass("config", "ok".into())];
    assert_eq!(determine_exit_code(&checks, false), 0);
}

#[test]
fn doctor_returns_strict_warning_exit_code() {
    let checks = vec![CheckResult { name: "backend", level: CheckLevel::Warn, detail: "warn".into() }];
    assert_eq!(determine_exit_code(&checks, true), 1);
}

#[test]
fn doctor_returns_failure_exit_code_when_any_check_fails() {
    let checks = vec![CheckResult::fail("backend", "missing".into())];
    assert_eq!(determine_exit_code(&checks, false), 10);
}

#[test]
fn doctor_warning_exit_code_stays_nonfatal_when_signature_verification_is_not_requested() {
    let checks = vec![CheckResult::warn(
        "signature-verify",
        "not currently usable: skopeo is not installed".into(),
    )];
    assert_eq!(determine_exit_code(&checks, false), 0);
}

#[test]
fn doctor_warns_on_sensitive_pass_through_envs() {
    let mut config = bare_config();
    config.environment = Some(EnvironmentConfig {
        pass_through: vec!["AWS_SECRET_ACCESS_KEY".into()],
        set: Vec::new(),
        deny: Vec::new(),
    });
    let warnings = risky_config_warnings(&config, Some("/home/user"));
    assert!(warnings
        .iter()
        .any(|warning| warning.name == "env-policy" && warning.level == CheckLevel::Warn));
}

#[test]
fn doctor_warns_on_sensitive_mounts() {
    let mut config = bare_config();
    config.mounts = vec![MountConfig {
        source: Some("/var/run/docker.sock".to_string()),
        target: Some("/run/docker.sock".into()),
        mount_type: MountType::Bind,
        read_only: Some(true),
        create: None,
    }];
    let warnings = risky_config_warnings(&config, Some("/home/user"));
    assert!(warnings
        .iter()
        .any(|warning| warning.name == "mount-policy" && warning.level == CheckLevel::Warn));
}

#[test]
fn doctor_warns_when_sensitive_envs_meet_network_enabled_profiles() {
    let mut config = bare_config();
    config.profiles.insert(
        "install".to_string(),
        ProfileConfig {
            mode: ExecutionMode::Sandbox,
            image: None,
            network: Some("on".into()),
            writable: Some(true),
            require_pinned_image: None,
            require_lockfile: None,
            role: None,
            lockfile_files: Vec::new(),
            pre_run: Vec::new(),
            ports: Vec::new(),
            network_allow: Vec::new(),
            capabilities: None,
            no_new_privileges: Some(true),
            read_only_rootfs: None,
            reuse_container: None,
            shell: None,
            writable_paths: None,
        },
    );
    config.environment = Some(EnvironmentConfig {
        pass_through: vec!["NPM_TOKEN".into()],
        set: Vec::new(),
        deny: Vec::new(),
    });
    let warnings = risky_config_warnings(&config, Some("/home/user"));
    assert!(warnings.iter().any(|warning| warning.name == "install-policy"));
}

#[test]
fn doctor_quiet_config_has_no_warnings() {
    let config = bare_config();
    assert!(risky_config_warnings(&config, Some("/home/user")).is_empty());
}

#[test]
fn doctor_workspace_state_lists_artifacts() {
    let findings = vec![".venv".to_string(), "examples/demo/node_modules".to_string()];
    let warnings = workspace_state_warnings(&findings);
    assert_eq!(warnings.len(), 1);
    assert_eq!(warnings[0].name, "workspace-state");
    assert_eq!(
        warnings[0].detail,
        "host dependency artifacts exist in the workspace: .venv, examples/demo/node_modules"
    );
    assert!(workspace_state_warnings(&Vec::new()).is_empty());
}

#[test]
fn doctor_artifact_names_and_scan_depth() {
    assert!(is_risky_artifact("node_modules"));
    assert!(is_risky_artifact(".venv"));
    assert!(!is_risky_artifact("src"));
    assert!(scan_descends(0, true, "examples"));
    assert!(!scan_descends(3, true, "examples"));
    assert!(!scan_descends(0, true, ".git"));
    assert!(!scan_descends(0, false, "examples"));
}

#[test]
fn doctor_sensitive_env_and_mount_detection() {
    assert!(looks_like_sensitive_env("NPM_TOKEN"));
    assert!(looks_like_sensitive_env("AWS_REGION"));
    assert!(looks_like_sensitive_env("CI_JOB_TOKEN"));
    assert!(!looks_like_sensitive_env("HOME"));
    assert!(looks_like_sensitive_mount("~/.ssh", None));
    assert!(looks_like_sensitive_mount("/var/run/docker.sock", None));
    assert!(looks_like_sensitive_mount("/home/user/.aws", Some("/home/user")));
    assert!(!looks_like_sensitive_mount("/tmp/cache", Some("/home/user")));
}

#[test]
fn doctor_signature_check_levels() {
    let ok = SignatureSupport::Available { policy: "/etc/containers/policy.json".to_string() };
    let r = signature_verification_check(true, &ok);
    assert_eq!(r.level, CheckLevel::Pass);
    assert_eq!(r.detail, "requested and supported via /etc/containers/policy.json");
    let missing = SignatureSupport::Unavailable { policy: None, reason: "skopeo is not installed".to_string() };
    let r = signature_verification_check(false, &missing);
    assert_eq!(r.level, CheckLevel::Warn);
    assert_eq!(r.detail, "not currently usable: skopeo is not installed");
    let r = signature_verification_check(true, &missing);
    assert_eq!(r.level, CheckLevel::Fail);
    assert_eq!(r.detail, "skopeo is not installed");
}

#[test]
fn doctor_rootless_and_capture() {
    assert_eq!(rootless_check(&Ok(" true\n".to_string())).level, CheckLevel::Pass);
    let r = rootless_check(&Ok("false".to_string()));
    assert_eq!(r.level, CheckLevel::Fail);
    assert_eq!(r.detail, "podman reported rootless=false");
    assert_eq!(capture_outcome(true, " out \n", "", Some(0)), Ok("out".to_string()));
    assert_eq!(capture_outcome(false, "", "  ", Some(3)), Err("command exited with status 3".to_string()));
    assert_eq!(capture_outcome(false, "", "boom\n", Some(3)), Err("boom".to_string()));
}
