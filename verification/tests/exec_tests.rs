use sbox::config::model::{BackendKind, ExecutionMode};
use sbox::exec::{
    apply_env_overrides, compose_command, is_valid_env_name, trusted_image_required, validate_execution_safety,
};
use sbox::resolve::{
    CwdMapping, EnvVarSource, ExecutionAudit, ExecutionPlan, ImageTrust, LockfileAudit, ModeSource, ProfileSource,
    ResolvedEnvVar, ResolvedEnvironment, ResolvedImage, ResolvedImageSource, ResolvedPolicy, ResolvedUser,
    ResolvedWorkspace,
};

fn sample_plan() -> ExecutionPlan {
    ExecutionPlan {
        command: vec!["npm".into(), "install".into()],
        command_string: "npm install".into(),
        backend: BackendKind::Podman,
        image: ResolvedImage {
            description: "ref:node:22-bookworm-slim".into(),
            source: ResolvedImageSource::Reference("node:22-bookworm-slim".into()),
            trust: ImageTrust::MutableReference,
            verify_signature: false,
        },
        profile_name: "install".into(),
        profile_source: ProfileSource::DefaultProfile,
        mode: ExecutionMode::Sandbox,
        mode_source: ModeSource::Profile,
        workspace: ResolvedWorkspace {
            root: "/tmp/project".into(),
            invocation_dir: "/tmp/project".into(),
            effective_host_dir: "/tmp/project".into(),
            mount: "/workspace".into(),
            sandbox_cwd: "/workspace".into(),
            cwd_mapping: CwdMapping::InvocationMapped,
        },
        policy: ResolvedPolicy {
            network: "on".into(),
            writable: true,
            ports: Vec::new(),
            no_new_privileges: true,
            read_only_rootfs: false,
            reuse_container: false,
            reusable_session_name: None,
            cap_drop: Vec::new(),
            cap_add: Vec::new(),
            pull_policy: None,
            network_allow: Vec::new(),
            network_allow_patterns: Vec::new(),
        },
        environment: ResolvedEnvironment {
            variables: vec![ResolvedEnvVar {
                name: "NPM_TOKEN".into(),
                value: "secret".into(),
                source: EnvVarSource::PassThrough,
            }],
            denied: Vec::new(),
        },
        mounts: Vec::new(),
        caches: Vec::new(),
        secrets: Vec::new(),
        user: ResolvedUser::KeepId,
        audit: ExecutionAudit {
            install_style: true,
            trusted_image_required: false,
            sensitive_pass_through_vars: vec!["NPM_TOKEN".into()],
            lockfile: LockfileAudit {
                applicable: true,
                required: true,
                present: true,
                expected_files: vec!["package-lock.json".into()],
            },
            pre_run: Vec::new(),
        },
    }
}

#[test]
fn rejects_networked_install_with_sensitive_pass_through_envs() {
    let error = validate_execution_safety(&sample_plan(), false).expect_err("policy should reject");
    assert!(error.message().contains("unsafe sandbox execution"));
}

#[test]
fn allows_networked_install_without_sensitive_pass_through_envs() {
    let mut plan = sample_plan();
    plan.audit.sensitive_pass_through_vars.clear();
    validate_execution_safety(&plan, false).expect("plan should be allowed");
}

#[test]
fn strict_security_rejects_sensitive_pass_through_even_without_install_pattern() {
    let mut plan = sample_plan();
    plan.command = vec!["node".into(), "--version".into()];
    plan.command_string = "node --version".into();
    plan.audit.install_style = false;
    let error = validate_execution_safety(&plan, true).expect_err("strict mode should reject");
    assert!(error.message().contains("requires a pinned image digest"));
}

#[test]
fn strict_security_requires_trusted_image() {
    let error = validate_execution_safety(&sample_plan(), true).expect_err("strict mode should reject");
    assert!(error.message().contains("pinned image digest"));
}

#[test]
fn strict_security_allows_pinned_image() {
    let mut plan = sample_plan();
    plan.image.source = ResolvedImageSource::Reference("node:22-bookworm-slim@sha256:deadbeef".into());
    plan.image.trust = ImageTrust::PinnedDigest;
    plan.audit.sensitive_pass_through_vars.clear();
    validate_execution_safety(&plan, true).expect("strict mode should allow pinned images");
}

#[test]
fn strict_security_marks_trusted_image_requirement() {
    assert!(trusted_image_required(&sample_plan(), true));
    assert!(!trusted_image_required(&sample_plan(), false));
}

#[test]
fn profile_policy_requires_trusted_image_without_strict_mode() {
    let mut plan = sample_plan();
    plan.audit.trusted_image_required = true;
    let error = validate_execution_safety(&plan, false).expect_err("profile policy should reject");
    assert!(error.message().contains("pinned image digest"));
}

#[test]
fn strict_security_requires_lockfile_for_install_flows() {
    let mut plan = sample_plan();
    plan.image.source = ResolvedImageSource::Reference("node:22-bookworm-slim@sha256:deadbeef".into());
    plan.image.trust = ImageTrust::PinnedDigest;
    plan.audit.sensitive_pass_through_vars.clear();
    plan.audit.lockfile.present = false;
    let error = validate_execution_safety(&plan, true).expect_err("missing lockfile should reject");
    assert!(error.message().contains("requires a lockfile for install-style"));
}

#[test]
fn docker_compose_uses_docker_cli_subcommand() {
    let (program, args) = compose_command(BackendKind::Docker, "docker-compose.yml", "up");
    assert_eq!(program, "docker");
    assert_eq!(args, vec!["compose", "-f", "docker-compose.yml", "up"]);
}

#[test]
fn podman_compose_uses_podman_compose_program() {
    let (program, args) = compose_command(BackendKind::Podman, "compose.yml", "down");
    assert_eq!(program, "podman-compose");
    assert_eq!(args, vec!["-f", "compose.yml", "down"]);
}

#[test]
fn env_override_replaces_existing_variable() {
    let mut plan = sample_plan();
    plan.environment.variables.push(ResolvedEnvVar {
        name: "MY_VAR".into(),
        value: "old".into(),
        source: EnvVarSource::SetValue,
    });
    apply_env_overrides(&mut plan, &vec!["MY_VAR=new".to_string()]).expect("override should succeed");
    let vars: Vec<_> = plan.environment.variables.iter().filter(|v| v.name == "MY_VAR").collect();
    assert_eq!(vars.len(), 1, "duplicate must be removed");
    assert_eq!(vars[0].value, "new");
}

#[test]
fn env_override_accepts_multiple_entries() {
    let mut plan = sample_plan();
    apply_env_overrides(&mut plan, &vec!["FOO=bar".to_string(), "BAZ=qux".to_string()])
        .expect("multiple overrides should succeed");
    let names: Vec<_> = plan.environment.variables.iter().map(|v| v.name.as_str()).collect();
    assert!(names.contains(&"FOO"));
    assert!(names.contains(&"BAZ"));
}

#[test]
fn env_override_rejects_missing_equals() {
    let mut plan = sample_plan();
    let result = apply_env_overrides(&mut plan, &vec!["NOEQUALS".to_string()]);
    assert!(result.is_err(), "missing = must be rejected");
}

#[test]
fn env_override_rejects_invalid_name() {
    let mut plan = sample_plan();
    assert!(apply_env_overrides(&mut plan, &vec!["1FOO=bar".to_string()]).is_err());
    assert!(apply_env_overrides(&mut plan, &vec!["MY-VAR=val".to_string()]).is_err());
    assert!(apply_env_overrides(&mut plan, &vec!["=value".to_string()]).is_err());
}

#[test]
fn is_valid_env_name_accepts_valid_names() {
    assert!(is_valid_env_name("FOO"));
    assert!(is_valid_env_name("_PRIVATE"));
    assert!(is_valid_env_name("MY_VAR_123"));
    assert!(is_valid_env_name("a"));
}

#[test]
fn is_valid_env_name_rejects_invalid_names() {
    assert!(!is_valid_env_name(""));
    assert!(!is_valid_env_name("1FOO"));
    assert!(!is_valid_env_name("MY-VAR"));
    assert!(!is_valid_env_name("MY VAR"));
    assert!(!is_valid_env_name("MY.VAR"));
}

fn empty_config() -> sbox::config::model::Config {
    sbox::config::model::Config {
        version: 1,
        runtime: None,
        workspace: None,
        identity: None,
        image: None,
        environment: None,
        mounts: Vec::new(),
        caches: Vec::new(),
        secrets: Vec::new(),
        profiles: indexmap::IndexMap::new(),
        dispatch: indexmap::IndexMap::new(),
        package_manager: None,
    }
}

#[test]
fn cli_flag_enables_strict_security() {
    let config = empty_config();
    assert!(sbox::exec::strict_security_enabled(true, &config));
    assert!(!sbox::exec::strict_security_enabled(false, &config));
}
