use sbox::config::model::{
    Config, DispatchRule, EnvironmentConfig, ExecutionMode, IdentityConfig, ImageConfig,
    PackageManagerConfig, ProfileConfig, ProfileRole,
};
use sbox::lint::{exit_code, is_broad_host, run_all_rules, LintLevel, LintResult};

fn empty_config() -> Config {
    Config {
        version: 1,
        runtime: None,
        workspace: None,
        identity: None,
        image: None,
        environment: None,
        mounts: vec![],
        caches: vec![],
        secrets: vec![],
        profiles: indexmap::IndexMap::new(),
        dispatch: indexmap::IndexMap::new(),
        package_manager: None,
    }
}

fn make_profile(network: &str, role: Option<ProfileRole>) -> ProfileConfig {
    ProfileConfig {
        mode: ExecutionMode::Sandbox,
        image: None,
        network: Some(network.to_string()),
        writable: Some(true),
        require_pinned_image: None,
        require_lockfile: None,
        role,
        lockfile_files: vec![],
        pre_run: vec![],
        network_allow: vec![],
        ports: vec![],
        capabilities: None,
        no_new_privileges: Some(true),
        read_only_rootfs: None,
        reuse_container: None,
        shell: None,
        writable_paths: None,
    }
}

fn image(reference: &str, digest: Option<&str>) -> ImageConfig {
    ImageConfig {
        reference: Some(reference.to_string()),
        digest: digest.map(|d| d.to_string()),
        verify_signature: None,
        build: None,
        preset: None,
        pull_policy: None,
        tag: None,
    }
}

fn rules(findings: &[LintResult]) -> Vec<&'static str> {
    findings.iter().map(|f| f.rule).collect()
}

#[test]
fn lint_clean_config_has_no_findings() {
    let mut config = empty_config();
    config.image = Some(image("node:22", Some("sha256:abc")));
    config.package_manager = Some(PackageManagerConfig {
        name: "npm".to_string(),
        install_writable: None,
        build_writable: None,
        network_allow: None,
        pre_run: None,
    });
    let findings = run_all_rules(&config);
    assert!(findings.is_empty(), "expected no findings, got: {:?}", rules(&findings));
}

#[test]
fn lint_warns_on_unpinned_image() {
    let mut config = empty_config();
    config.image = Some(image("node:22", None));
    let findings = run_all_rules(&config);
    assert!(findings.iter().any(|f| f.rule == "unpinned-image"));
}

#[test]
fn lint_warns_on_unrestricted_network() {
    let mut config = empty_config();
    config.profiles.insert("install".to_string(), make_profile("on", None));
    let findings = run_all_rules(&config);
    assert!(findings.iter().any(|f| f.rule == "unrestricted-network"));
}

#[test]
fn lint_errors_on_sensitive_passthrough_not_denied() {
    let mut config = empty_config();
    config.environment = Some(EnvironmentConfig {
        pass_through: vec!["NPM_TOKEN".to_string()],
        set: Vec::new(),
        deny: vec![],
    });
    let findings = run_all_rules(&config);
    assert!(findings
        .iter()
        .any(|f| f.rule == "sensitive-passthrough" && f.level == LintLevel::Error));
}

#[test]
fn lint_no_error_when_sensitive_var_is_also_denied() {
    let mut config = empty_config();
    config.environment = Some(EnvironmentConfig {
        pass_through: vec!["NPM_TOKEN".to_string()],
        set: Vec::new(),
        deny: vec!["NPM_TOKEN".to_string()],
    });
    let findings = run_all_rules(&config);
    assert!(!findings.iter().any(|f| f.rule == "sensitive-passthrough"));
}

#[test]
fn lint_warns_on_install_pattern_without_role() {
    let mut config = empty_config();
    config.profiles.insert("install".to_string(), make_profile("on", None));
    config.dispatch.insert(
        "npm-install".to_string(),
        DispatchRule {
            patterns: vec!["npm install*".to_string()],
            profile: "install".to_string(),
        },
    );
    let findings = run_all_rules(&config);
    assert!(findings.iter().any(|f| f.rule == "install-role-missing"));
}

#[test]
fn lint_no_warn_when_install_profile_has_role() {
    let mut config = empty_config();
    config
        .profiles
        .insert("install".to_string(), make_profile("on", Some(ProfileRole::Install)));
    config.dispatch.insert(
        "npm-install".to_string(),
        DispatchRule {
            patterns: vec!["npm install*".to_string()],
            profile: "install".to_string(),
        },
    );
    let findings = run_all_rules(&config);
    assert!(!findings.iter().any(|f| f.rule == "install-role-missing"));
}

#[test]
fn lint_empty_config_reports_missing_policy_only() {
    let config = empty_config();
    let findings = run_all_rules(&config);
    assert_eq!(rules(&findings), vec!["no-policy"]);
    assert_eq!(findings[0].level, LintLevel::Warn);
}

#[test]
fn lint_root_identity_is_warned() {
    let mut config = empty_config();
    config.identity = Some(IdentityConfig { map_user: None, uid: Some(0), gid: None });
    let findings = run_all_rules(&config);
    assert!(findings.iter().any(|f| f.rule == "root-identity" && f.level == LintLevel::Warn));
}

#[test]
fn lint_exit_codes_follow_levels() {
    let none: Vec<LintResult> = Vec::new();
    assert_eq!(exit_code(&none, false), 0);
    assert_eq!(exit_code(&none, true), 0);
    let warn = vec![LintResult::warn("w", "m".to_string(), "f")];
    assert_eq!(exit_code(&warn, false), 1);
    assert_eq!(exit_code(&warn, true), 2);
    let err = vec![
        LintResult::warn("w", "m".to_string(), "f"),
        LintResult::error("e", "m".to_string(), "f"),
    ];
    assert_eq!(exit_code(&err, false), 2);
}

#[test]
fn lint_broad_hosts_are_recognised() {
    assert!(is_broad_host("*"));
    assert!(!is_broad_host("registry.npmjs.org"));
}
