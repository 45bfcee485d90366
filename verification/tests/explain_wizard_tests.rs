use sbox::audit::{InlineAuditResult, InlineAuditStatus};
use sbox::plan::render_inline_audit;
use sbox::backend::image_build::{build_outcome, image_build_args, image_exists_args, image_exists_outcome, recipe_newer_than_image};
use sbox::config::model::{BackendKind, ExecutionMode};
use sbox::error::SboxError;
use sbox::explain::{build_prose, describe_origin};
use sbox::resolve::{
    CwdMapping, EnvVarSource, ExecutionAudit, ExecutionPlan, ImageTrust, LockfileAudit, ModeSource, ProfileSource,
    ResolvedEnvVar, ResolvedEnvironment, ResolvedImage, ResolvedImageSource, ResolvedPolicy, ResolvedUser,
    ResolvedWorkspace,
};
use sbox::wizard::{
    advanced_config, manual_digest, parse_writable_input, retry_attempt, simple_config, AdvancedAnswers, ImageChoice,
    ManualDigest, SimpleAnswers,
};

fn sample_plan() -> ExecutionPlan {
    ExecutionPlan {
        command: vec!["npm".into(), "install".into()],
        command_string: "npm install".into(),
        backend: BackendKind::Podman,
        image: ResolvedImage {
            description: "ref:node:22-bookworm-slim".into(),
            source: ResolvedImageSource::Reference("node:22-bookworm-slim".into()),
            trust: ImageTrust::MutableReference,
            verify_signature: false,
        },
        profile_name: "install".into(),
        profile_source: ProfileSource::DefaultProfile,
        mode: ExecutionMode::Sandbox,
        mode_source: ModeSource::Profile,
        workspace: ResolvedWorkspace {
            root: "/tmp/project".into(),
            invocation_dir: "/tmp/project".into(),
            effective_host_dir: "/tmp/project".into(),
            mount: "/workspace".into(),
            sandbox_cwd: "/workspace".into(),
            cwd_mapping: CwdMapping::InvocationMapped,
        },
        policy: ResolvedPolicy {
            network: "on".into(),
            writable: true,
            ports: Vec::new(),
            no_new_privileges: true,
            read_only_rootfs: false,
            reuse_container: false,
            reusable_session_name: None,
            cap_drop: Vec::new(),
            cap_add: Vec::new(),
            pull_policy: None,
            network_allow: Vec::new(),
            network_allow_patterns: Vec::new(),
        },
        environment: ResolvedEnvironment {
            variables: vec![ResolvedEnvVar {
                name: "NPM_TOKEN".into(),
                value: "secret".into(),
                source: EnvVarSource::PassThrough,
            }],
            denied: Vec::new(),
        },
        mounts: Vec::new(),
        caches: Vec::new(),
        secrets: Vec::new(),
        user: ResolvedUser::KeepId,
        audit: ExecutionAudit {
            install_style: true,
            trusted_image_required: false,
            sensitive_pass_through_vars: vec!["NPM_TOKEN".into()],
            lockfile: LockfileAudit {
                applicable: true,
                required: true,
                present: true,
                expected_files: vec!["package-lock.json".into()],
            },
            pre_run: Vec::new(),
        },
    }
}


#[test]
fn explain_describes_the_plan_in_words() {
    let text = build_prose(&sample_plan(), false);
    assert!(text.starts_with("sbox explain: `npm install`\n"));
    assert!(text.contains("WHAT WILL RUN\n"));
    assert!(text.contains("  Image: ref:node:22-bookworm-slim\n"));
    assert!(text.contains("  Profile: install (default profile)\n"));
    assert!(text.contains("  Network access is ON with no allow-list — full internet access.\n"));
    let mut off = sample_plan();
    off.policy.network = "off".into();
    let text = build_prose(&off, true);
    assert!(text.contains("  Network access is BLOCKED. The container cannot reach the internet.\n"));
    assert!(text.contains("  Strict security mode is ON.\n"));
}

#[test]
fn explain_profile_origins() {
    assert_eq!(describe_origin(&ProfileSource::CliOverride), "cli override");
    assert_eq!(
        describe_origin(&ProfileSource::Dispatch { rule_name: "npm".into(), pattern: "npm install*".into() }),
        "matched dispatch rule `npm` via pattern `npm install*`"
    );
}

#[test]
fn wizard_simple_generic_config() {
    let answers = SimpleAnswers {
        package_manager: None,
        image_line: "  ref: debian:12".to_string(),
        runtime: Some((BackendKind::Docker, false)),
        import_compose: false,
    };
    let config = simple_config(&answers, &None);
    assert!(config.contains("image:\n  ref: debian:12"));
    assert!(!config.contains("ubuntu:24.04\n"));
    assert!(config.contains("  backend: docker"));
    assert!(config.contains("  rootless: false"));
}

#[test]
fn wizard_simple_node_config_keeps_package_manager() {
    let answers = SimpleAnswers {
        package_manager: Some("pnpm".to_string()),
        image_line: "  ref: node:22-bookworm-slim".to_string(),
        runtime: None,
        import_compose: false,
    };
    let config = simple_config(&answers, &None);
    assert!(config.contains("name: pnpm"));
    assert!(!config.contains("name: npm\n"));
}

#[test]
fn wizard_advanced_config() {
    let answers = AdvancedAnswers {
        backend: None,
        image: ImageChoice::Preset {
            preset: "python".to_string(),
            image: "python:3.13-slim".to_string(),
            digest: Some("sha256:abc".to_string()),
        },
        network_on: false,
        writable_input: " .venv , ,dist".to_string(),
        add_dispatch: false,
        import_compose: false,
    };
    let config = advanced_config(&answers, &None);
    assert!(config.starts_with("version: 1\n\nruntime:\n  # backend: auto-detected\n  # rootless: auto-detected\n"));
    assert!(config.contains("  writable: false\n  writable_paths:\n    - .venv\n    - dist\n"));
    assert!(config.contains("image:\n  ref: python:3.13-slim\n  digest: sha256:abc\n"));
    assert!(config.contains("    network: off\n"));
    assert!(config.ends_with("dispatch: {}\n"));
    assert_eq!(parse_writable_input(" a, ,b ,"), vec!["a".to_string(), "b".to_string()]);
}

#[test]
fn wizard_digest_prompt_decisions() {
    assert!(matches!(manual_digest("   "), ManualDigest::Retry));
    match manual_digest(" sha256:abc ") {
        ManualDigest::Accept(d) => assert_eq!(d, "sha256:abc"),
        _ => panic!("expected accept"),
    }
    match manual_digest("abc") {
        ManualDigest::Confirm(d) => assert_eq!(d, "abc"),
        _ => panic!("expected confirm"),
    }
    assert_eq!(retry_attempt(0), (1, false));
    assert_eq!(retry_attempt(4), (5, true));
    assert_eq!(retry_attempt(255), (255, true));
}

#[test]
fn image_build_commands_and_outcomes() {
    assert_eq!(image_exists_args(BackendKind::Podman, "t"), vec!["image", "exists", "t"]);
    assert_eq!(image_exists_args(BackendKind::Docker, "t"), vec!["image", "inspect", "--format", "", "t"]);
    assert_eq!(image_exists_outcome(BackendKind::Podman, "t", false, Some(1)).unwrap(), false);
    assert_eq!(image_exists_outcome(BackendKind::Docker, "t", false, Some(7)).unwrap(), false);
    assert!(matches!(
        image_exists_outcome(BackendKind::Podman, "t", false, Some(7)),
        Err(SboxError::BackendCommandFailed { status: 7, .. })
    ));
    assert_eq!(image_build_args("t", "Dockerfile", "/w"), vec!["build", "-t", "t", "-f", "Dockerfile", "/w"]);
    match build_outcome(BackendKind::Docker, "t", "Dockerfile", "/w", false, None) {
        Err(SboxError::BackendCommandFailed { command, status, .. }) => {
            assert_eq!(command, "docker build -t t -f Dockerfile /w");
            assert_eq!(status, 1);
        },
        other => panic!("unexpected: {:?}", other),
    }
}

#[test]
fn image_freshness_from_creation_time() {
    // 2024-01-01T00:00:00Z is 1704067200 seconds after the epoch.
    let created = Some("2024-01-01T00:00:00Z\n");
    assert!(recipe_newer_than_image(Some((1704067201, 0)), created));
    assert!(!recipe_newer_than_image(Some((1704067200, 0)), created));
    assert!(!recipe_newer_than_image(Some((1704067199, 999_999_999)), created));
    assert!(recipe_newer_than_image(Some((1704067200, 1)), Some("2024-01-01T01:00:00+01:00")));
    assert!(!recipe_newer_than_image(Some((1704067201, 0)), Some("yesterday")));
    assert!(!recipe_newer_than_image(None, created));
}

#[test]
fn inline_audit_block() {
    use_audit_block();
}

fn use_audit_block() {
    let clean = InlineAuditResult { tool: "npm audit".into(), status: InlineAuditStatus::Clean, output: "  \n".into() };
    assert_eq!(render_inline_audit(&clean), "\nsecurity-scan:\n  tool: npm audit\n  status: clean\n");
    let found = InlineAuditResult {
        tool: "pip-audit".into(),
        status: InlineAuditStatus::Findings,
        output: "pkg 1.0 CVE-1\npkg 2.0 CVE-2\n\n".into(),
    };
    assert_eq!(
        render_inline_audit(&found),
        "\nsecurity-scan:\n  tool: pip-audit\n  status: VULNERABILITIES FOUND\n  output: |\n    pkg 1.0 CVE-1\n    pkg 2.0 CVE-2\n"
    );
}
