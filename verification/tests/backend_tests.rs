use sbox::backend::args::{parse_proc_id, validate_runtime_inputs, HostContext};
use sbox::backend::docker;
use sbox::backend::podman;
use sbox::config::model::{BackendKind, ExecutionMode};
use sbox::error::SboxError;
use sbox::resolve::{
    CwdMapping, EnvVarSource, ExecutionAudit, ExecutionPlan, ImageTrust, LockfileAudit, ModeSource, ProfileSource,
    ResolvedCache, ResolvedEnvVar, ResolvedEnvironment, ResolvedImage, ResolvedImageSource, ResolvedMount,
    ResolvedPolicy, ResolvedSecret, ResolvedUser, ResolvedWorkspace,
};

fn host() -> HostContext {
    HostContext {
        home: Some("/home/dev".into()),
        proc_status: "Name:\tsbox\nUid:\t1000\t1000\t1000\t1000\nGid:\t1000\t1000\t1000\t1000\n".into(),
        existing_paths: Vec::new(),
    }
}

fn docker_plan() -> ExecutionPlan {
    ExecutionPlan {
        command: vec!["npm".into(), "install".into()],
        command_string: "npm install".into(),
        backend: BackendKind::Docker,
        image: ResolvedImage {
            description: "ref:node:22".into(),
            source: ResolvedImageSource::Reference("node:22".into()),
            trust: ImageTrust::MutableReference,
            verify_signature: false,
        },
        profile_name: "install".into(),
        profile_source: ProfileSource::DefaultProfile,
        mode: ExecutionMode::Sandbox,
        mode_source: ModeSource::Profile,
        workspace: ResolvedWorkspace {
            root: "/project".into(),
            invocation_dir: "/project".into(),
            effective_host_dir: "/project".into(),
            mount: "/workspace".into(),
            sandbox_cwd: "/workspace".into(),
            cwd_mapping: CwdMapping::InvocationMapped,
        },
        policy: ResolvedPolicy {
            network: "off".into(),
            writable: true,
            ports: Vec::new(),
            no_new_privileges: true,
            read_only_rootfs: false,
            reuse_container: false,
            reusable_session_name: None,
            cap_drop: Vec::new(),
            cap_add: Vec::new(),
            pull_policy: None,
            network_allow: Vec::new(),
            network_allow_patterns: Vec::new(),
        },
        environment: ResolvedEnvironment { variables: Vec::new(), denied: Vec::new() },
        mounts: Vec::new(),
        caches: Vec::new(),
        secrets: Vec::new(),
        user: ResolvedUser::Default,
        audit: ExecutionAudit {
            install_style: false,
            trusted_image_required: false,
            sensitive_pass_through_vars: Vec::new(),
            lockfile: LockfileAudit {
                applicable: false,
                required: false,
                present: false,
                expected_files: Vec::new(),
            },
            pre_run: Vec::new(),
        },
    }
}

fn podman_fixture() -> (ExecutionPlan, HostContext) {
    let root = "/tmp/sbox-podman-test".to_string();
    let secret = "/tmp/sbox-podman-test/secret.txt".to_string();
    let mut plan = docker_plan();
    plan.command = vec!["python".into(), "app.py".into()];
    plan.command_string = "python app.py".into();
    plan.backend = BackendKind::Podman;
    plan.image = ResolvedImage {
        description: "ref:python:3.13-slim".into(),
        source: ResolvedImageSource::Reference("python:3.13-slim".into()),
        trust: ImageTrust::MutableReference,
        verify_signature: false,
    };
    plan.profile_name = "default".into();
    plan.workspace.root = root.clone();
    plan.workspace.invocation_dir = root.clone();
    plan.workspace.effective_host_dir = root.clone();
    plan.policy.ports = vec!["3000:3000".into()];
    plan.policy.cap_drop = vec!["all".into()];
    plan.environment.variables = vec![ResolvedEnvVar {
        name: "APP_ENV".into(),
        value: "development".into(),
        source: EnvVarSource::SetValue,
    }];
    plan.mounts = vec![ResolvedMount {
        kind: "bind".into(),
        source: Some(root.clone()),
        target: "/workspace".into(),
        read_only: false,
        is_workspace: true,
        create: false,
    }];
    plan.caches = vec![ResolvedCache {
        name: "uv-cache".into(),
        target: "/root/.cache/uv".into(),
        source: None,
        read_only: false,
    }];
    plan.secrets = vec![ResolvedSecret {
        name: "token".into(),
        source: secret.clone(),
        target: "/run/secrets/token".into(),
    }];
    plan.user = ResolvedUser::KeepId;
    let mut ctx = host();
    ctx.existing_paths = vec![root, secret];
    (plan, ctx)
}

#[test]
fn docker_run_args_use_network_none_when_off() {
    let plan = docker_plan();
    let args = docker::build_run_args(&plan, "node:22", &host()).expect("args should build");
    let joined = args.join(" ");
    assert!(joined.contains("--network none"));
    assert!(!joined.contains("relabel"));
}

#[test]
fn docker_run_args_map_keepid_to_explicit_user() {
    let mut plan = docker_plan();
    plan.user = ResolvedUser::KeepId;
    let args = docker::build_run_args(&plan, "node:22", &host()).expect("args should build");
    let joined = args.join(" ");
    assert!(joined.contains("--user"));
    assert!(!joined.contains("keep-id"));
}

#[test]
fn parse_proc_id_extracts_real_uid() {
    let fake = "Name:\tfoo\nUid:\t1000\t1000\t1000\t1000\nGid:\t1001\t1001\t1001\t1001\n";
    assert_eq!(parse_proc_id(fake, "Uid:"), 1000);
    assert_eq!(parse_proc_id(fake, "Gid:"), 1001);
}

#[test]
fn metadata_hostnames_blocked_when_network_is_on() {
    let mut plan = docker_plan();
    plan.policy.network = "on".into();
    let args = docker::build_run_args(&plan, "node:22", &host()).expect("args should build");
    let joined = args.join(" ");
    for hostname in docker::cloud_metadata_hostnames() {
        assert!(
            joined.contains(&format!("--add-host {hostname}:192.0.2.1")),
            "expected metadata host {hostname} to be blocked, args: {joined}"
        );
    }
}

#[test]
fn metadata_hostnames_not_added_when_network_is_off() {
    let plan = docker_plan();
    let args = docker::build_run_args(&plan, "node:22", &host()).expect("args should build");
    let joined = args.join(" ");
    assert!(
        !joined.contains("metadata.google.internal"),
        "metadata host should not appear when network is off, args: {joined}"
    );
}

#[test]
fn network_allow_breaks_dns_and_injects_resolved_hosts() {
    let mut plan = docker_plan();
    plan.policy.network = "on".into();
    plan.policy.network_allow = vec![("registry.npmjs.org".into(), "104.16.0.0".into())];
    let args = docker::build_run_args(&plan, "node:22", &host()).expect("args should build");
    let joined = args.join(" ");
    assert!(joined.contains("--dns 192.0.2.1"), "expected DNS break when network_allow is set, args: {joined}");
    assert!(
        joined.contains("--add-host registry.npmjs.org:104.16.0.0"),
        "expected registry host injected via --add-host, args: {joined}"
    );
}

#[test]
fn network_on_without_network_allow_still_blocks_metadata_hosts() {
    let mut plan = docker_plan();
    plan.policy.network = "on".into();
    plan.policy.network_allow = vec![];
    let args = docker::build_run_args(&plan, "node:22", &host()).expect("args should build");
    let joined = args.join(" ");
    assert!(!joined.contains("--dns 192.0.2.1"), "DNS should not be broken without allow-list");
    assert!(
        joined.contains("--add-host metadata.google.internal:192.0.2.1"),
        "metadata host should be blocked even without network_allow, args: {joined}"
    );
}

#[test]
fn denied_env_vars_not_passed_to_container() {
    let mut plan = docker_plan();
    plan.environment.denied = vec!["NPM_TOKEN".into(), "NODE_AUTH_TOKEN".into()];
    plan.policy.network = "on".into();
    let args = docker::build_run_args(&plan, "node:22", &host()).expect("args should build");
    let joined = args.join(" ");
    assert!(!joined.contains("NPM_TOKEN"), "denied env var NPM_TOKEN should not appear in docker args: {joined}");
}

#[test]
fn builds_expected_podman_arguments() {
    let (plan, ctx) = podman_fixture();
    let args = podman::build_run_args(&plan, "python:3.13-slim", &ctx).expect("builder should succeed");
    let joined = args.join(" ");

    assert!(joined.contains("run --rm -i"));
    assert!(joined.contains("--workdir /workspace"));
    assert!(joined.contains("--network none"));
    assert!(joined.contains("--publish 127.0.0.1:3000:3000"));
    assert!(joined.contains("--userns keep-id"));
    assert!(joined.contains("--entrypoint python"));
    assert!(joined.contains("--cap-drop all"));
    assert!(joined.contains("--env APP_ENV=development"));
    assert!(joined.contains("python:3.13-slim app.py"));
}

#[test]
fn preflight_fails_when_secret_source_is_missing() {
    let (mut plan, ctx) = podman_fixture();
    plan.secrets[0].source = "/tmp/definitely-missing-sbox-secret".into();

    let error = validate_runtime_inputs(&plan, &ctx).expect_err("missing secret should fail preflight");
    assert!(matches!(error, SboxError::HostPathNotFound { ref kind, .. } if kind == "secret source"));
}

#[test]
fn interactive_podman_arguments_enable_tty() {
    let (plan, ctx) = podman_fixture();
    let args = podman::build_run_args_with_options(&plan, "python:3.13-slim", true, &ctx)
        .expect("interactive builder should succeed");

    assert!(args.iter().any(|arg| arg == "-t"));
}

#[test]
fn preflight_passes_when_every_source_exists() {
    let (plan, ctx) = podman_fixture();
    assert!(validate_runtime_inputs(&plan, &ctx).is_ok());
}

#[test]
fn preflight_fails_when_bind_source_is_missing() {
    let (plan, mut ctx) = podman_fixture();
    ctx.existing_paths.retain(|p| p != "/tmp/sbox-podman-test");
    let error = validate_runtime_inputs(&plan, &ctx).expect_err("missing bind source should fail");
    match error {
        SboxError::HostPathNotFound { kind, name, path } => {
            assert_eq!(kind, "mount source");
            assert_eq!(name, "/workspace");
            assert_eq!(path, "/tmp/sbox-podman-test");
        }
        other => panic!("unexpected error: {}", other.message()),
    }
}

#[test]
fn preflight_accepts_missing_bind_source_that_is_created() {
    let (mut plan, mut ctx) = podman_fixture();
    plan.mounts[0].create = true;
    ctx.existing_paths.retain(|p| p != "/tmp/sbox-podman-test");
    assert!(validate_runtime_inputs(&plan, &ctx).is_ok());
}

#[test]
fn current_uid_gid_returns_nonzero_for_normal_user() {
    let status = "Name:\tcargo\nUmask:\t0022\nUid:\t1000\t1000\t1000\t1000\nGid:\t1001\t1001\t1001\t1001\n";
    let (uid, gid) = sbox::backend::args::current_uid_gid(status);
    assert!(uid < 100_000);
    assert_eq!((uid, gid), (1000, 1001));
}

#[test]
fn podman_run_args_black_hole_dns_and_metadata() {
    let mut plan = docker_plan();
    plan.backend = sbox::config::model::BackendKind::Podman;
    plan.policy.network = "on".into();
    plan.policy.network_allow = vec![("registry.npmjs.org".to_string(), "104.16.0.0".to_string())];
    let args = sbox::backend::podman::build_run_args_with_options(&plan, "python:3.13-slim", false, &host())
        .expect("args should build");
    let has_pair = |a: &str, b: &str| args.windows(2).any(|w| w[0] == a && w[1] == b);
    assert!(has_pair("--dns", "192.0.2.1"));
    assert!(has_pair("--add-host", "registry.npmjs.org:104.16.0.0"));
    for h in ["metadata.google.internal", "metadata.internal", "instance-data.ec2.internal", "169.254.169.254", "100.100.100.200"] {
        assert!(has_pair("--add-host", &format!("{h}:192.0.2.1")), "{h} not sunk");
    }
}

#[test]
fn podman_run_builders_agree() {
    let (plan, ctx) = podman_fixture();
    let a = podman::build_run_args(&plan, "python:3.13-slim", &ctx).expect("builder should succeed");
    let b = podman::build_run_args_with_options(&plan, "python:3.13-slim", false, &ctx).expect("builder should succeed");
    let c = podman::build_run_args_impl(&plan, &plan.mounts, "python:3.13-slim", false, &plan.command, &None, &ctx)
        .expect("builder should succeed");
    assert_eq!(a, b);
    assert_eq!(b, c);
    let t = podman::build_run_args_with_options(&plan, "python:3.13-slim", true, &ctx).expect("builder should succeed");
    assert!(t.contains(&"-t".to_string()));
    assert!(!a.contains(&"-t".to_string()));
}
