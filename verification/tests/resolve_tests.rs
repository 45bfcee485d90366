use sbox::config::load::LoadedConfig;
use sbox::config::model::{
    BackendKind, Config, DispatchRule, EnvironmentConfig, ExecutionMode, ImageConfig, ProfileConfig, ProfileRole,
    RuntimeConfig, WorkspaceConfig,
};
use sbox::resolve::{
    resolve_execution_plan, CliBackendKind, CliExecutionMode, CliOverrides, HostFacts, ImageTrust, ProfileSource,
    ResolutionTarget, ResolvedImageSource, ResolvedUser,
};
use sbox::workspace::{exclude_pattern_matches, glob_match};

fn host() -> HostFacts {
    HostFacts {
        env: vec![("TERM".to_string(), "xterm".to_string()), ("HOME".to_string(), "/home/dev".to_string())],
        podman_on_path: true,
        docker_on_path: false,
        dns: Vec::new(),
        workspace_files: Vec::new(),
        existing_paths: Vec::new(),
    }
}

fn profile(mode: ExecutionMode, network: &str, ports: Vec<String>, no_new_privileges: Option<bool>) -> ProfileConfig {
    ProfileConfig {
        mode,
        image: None,
        network: Some(network.to_string()),
        writable: Some(true),
        require_pinned_image: None,
        require_lockfile: None,
        role: None,
        lockfile_files: Vec::new(),
        pre_run: Vec::new(),
        ports,
        network_allow: Vec::new(),
        capabilities: None,
        no_new_privileges,
        read_only_rootfs: None,
        reuse_container: None,
        shell: None,
        writable_paths: None,
    }
}

fn minimal_config() -> Config {
    let mut profiles = indexmap::IndexMap::new();
    profiles.insert("default".to_string(), profile(ExecutionMode::Sandbox, "off", Vec::new(), Some(true)));
    profiles.insert("install".to_string(), profile(ExecutionMode::Sandbox, "on", Vec::new(), Some(true)));
    profiles.insert("build".to_string(), profile(ExecutionMode::Sandbox, "off", vec!["8080:80".to_string()], Some(true)));
    profiles.insert("host".to_string(), profile(ExecutionMode::Host, "on", Vec::new(), None));

    let mut dispatch = indexmap::IndexMap::new();
    dispatch.insert(
        "install-dispatch".to_string(),
        DispatchRule {
            patterns: vec!["npm install".to_string(), "npm ci".to_string(), "uv sync".to_string()],
            profile: "install".to_string(),
        },
    );
    dispatch.insert(
        "build-dispatch".to_string(),
        DispatchRule {
            patterns: vec!["cargo build*".to_string(), "cargo test*".to_string()],
            profile: "build".to_string(),
        },
    );

    Config {
        version: 1,
        runtime: Some(RuntimeConfig {
            backend: Some(BackendKind::Podman),
            rootless: Some(true),
            strict_security: None,
            reuse_container: Some(false),
            container_name: None,
            pull_policy: None,
            require_pinned_image: None,
        }),
        workspace: Some(WorkspaceConfig {
            root: Some("/workspace/project".to_string()),
            mount: Some("/workspace".to_string()),
            writable: Some(true),
            writable_paths: Vec::new(),
            exclude_paths: Vec::new(),
        }),
        identity: None,
        image: Some(ImageConfig {
            reference: Some("python:3.13-slim".to_string()),
            build: None,
            preset: None,
            digest: None,
            verify_signature: None,
            pull_policy: None,
            tag: None,
        }),
        environment: Some(EnvironmentConfig {
            pass_through: vec!["TERM".to_string(), "HOME".to_string()],
            set: vec![("RUST_BACKTRACE".to_string(), "1".to_string())],
            deny: Vec::new(),
        }),
        mounts: Vec::new(),
        caches: Vec::new(),
        secrets: Vec::new(),
        profiles,
        dispatch,
        package_manager: None,
    }
}

fn make_loaded_config() -> LoadedConfig {
    LoadedConfig {
        invocation_dir: String::from("/workspace/project"),
        workspace_root: String::from("/workspace/project"),
        config_path: String::from("/workspace/project/sbox.yaml"),
        config: minimal_config(),
    }
}

fn base_cli() -> CliOverrides {
    CliOverrides { backend: None, image: None, profile: None, mode: None }
}

fn resolve(cli: &CliOverrides, command: &Vec<String>, target: &ResolutionTarget) -> sbox::resolve::ExecutionPlan {
    resolve_execution_plan(cli, &make_loaded_config(), target, command, &host()).expect("resolution should succeed")
}

#[test]
fn selects_default_profile_when_no_dispatch_matches() {
    let cli = base_cli();
    let plan = resolve(&cli, &vec!["echo".into(), "hello".into()], &ResolutionTarget::Plan);

    assert_eq!(plan.profile_name, "default");
    assert!(matches!(plan.profile_source, ProfileSource::DefaultProfile));
}

#[test]
fn dispatch_overrides_default_profile() {
    let cli = base_cli();
    let plan = resolve(&cli, &vec!["npm".into(), "install".into()], &ResolutionTarget::Plan);

    assert_eq!(plan.profile_name, "install");
    match plan.profile_source {
        ProfileSource::Dispatch { rule_name, pattern } => {
            assert_eq!(rule_name, "install-dispatch");
            assert_eq!(pattern, "npm install");
        }
        _ => panic!("expected dispatch source"),
    }
}

#[test]
fn dispatch_supports_wildcard_patterns() {
    let cli = base_cli();
    let plan = resolve(&cli, &vec!["cargo".into(), "build".into(), "--release".into()], &ResolutionTarget::Plan);

    assert_eq!(plan.profile_name, "build");
    match plan.profile_source {
        ProfileSource::Dispatch { pattern, .. } => {
            assert_eq!(pattern, "cargo build*");
        }
        _ => panic!("expected dispatch source"),
    }
}

#[test]
fn cli_profile_flag_overrides_dispatch() {
    let cli = CliOverrides {
        profile: Some("host".to_string()),
        ..base_cli()
    };
    let plan = resolve(&cli, &vec!["npm".into(), "install".into()], &ResolutionTarget::Plan);

    assert_eq!(plan.profile_name, "host");
    assert!(matches!(plan.profile_source, ProfileSource::CliOverride));
}

#[test]
fn exec_subcommand_selects_profile() {
    let cli = base_cli();

    let plan = resolve(&cli, &vec!["pip".into(), "install".into(), "requests".into()],
        &ResolutionTarget::Exec { profile: "install".to_string() },
    );

    assert_eq!(plan.profile_name, "install");
    assert!(matches!(plan.profile_source, ProfileSource::ExecSubcommand));
}

#[test]
fn cli_backend_overrides_config() {
    let cli = CliOverrides {
        backend: Some(CliBackendKind::Docker),
        ..base_cli()
    };

    let plan = resolve(&cli, &vec!["echo".into()], &ResolutionTarget::Plan);

    assert!(matches!(plan.backend, BackendKind::Docker));
}

#[test]
fn cli_image_overrides_config() {
    let cli = CliOverrides {
        image: Some("rust:1.80".to_string()),
        ..base_cli()
    };

    let plan = resolve(&cli, &vec!["echo".into()], &ResolutionTarget::Plan);

    match &plan.image.source {
        ResolvedImageSource::Reference(image) => {
            assert!(image.contains("rust:1.80"));
            assert!(plan.image.description.contains("cli override"));
        }
        _ => panic!("expected reference"),
    }
}

#[test]
fn profile_image_overrides_global_image() {
    let cli = base_cli();
    let mut config = minimal_config();
    config.profiles.get_mut("build").unwrap().image = Some(ImageConfig {
        reference: Some("rust:1-bookworm".to_string()),
        build: None,
        preset: None,
        digest: None,
        verify_signature: None,
        pull_policy: None,
        tag: None,
    });

    let loaded = LoadedConfig {
        invocation_dir: String::from("/workspace/project"),
        workspace_root: String::from("/workspace/project"),
        config_path: String::from("/workspace/project/sbox.yaml"),
        config,
    };
    let plan = resolve_execution_plan(&cli, &loaded, &ResolutionTarget::Plan, &vec!["cargo".into(), "build".into()], &host())
    .expect("resolution should succeed");

    assert!(matches!(
        plan.image.source,
        ResolvedImageSource::Reference(ref image) if image == "rust:1-bookworm"
    ));
    assert!(plan.image.description.contains("profile override"));
}

#[test]
fn cli_image_override_beats_profile_image_override() {
    let cli = CliOverrides {
        image: Some("node:22-bookworm-slim".to_string()),
        ..base_cli()
    };
    let mut config = minimal_config();
    config.profiles.get_mut("build").unwrap().image = Some(ImageConfig {
        reference: Some("rust:1-bookworm".to_string()),
        build: None,
        preset: None,
        digest: None,
        verify_signature: None,
        pull_policy: None,
        tag: None,
    });

    let loaded = LoadedConfig {
        invocation_dir: String::from("/workspace/project"),
        workspace_root: String::from("/workspace/project"),
        config_path: String::from("/workspace/project/sbox.yaml"),
        config,
    };
    let plan = resolve_execution_plan(&cli, &loaded, &ResolutionTarget::Plan, &vec!["cargo".into(), "build".into()], &host())
    .expect("resolution should succeed");

    assert!(matches!(
        plan.image.source,
        ResolvedImageSource::Reference(ref image) if image == "node:22-bookworm-slim"
    ));
    assert!(plan.image.description.contains("cli override"));
}

#[test]
fn cli_mode_overrides_profile() {
    let cli = CliOverrides {
        mode: Some(CliExecutionMode::Host),
        ..base_cli()
    };

    let plan = resolve(&cli, &vec!["echo".into()], &ResolutionTarget::Plan);

    assert!(matches!(plan.mode, ExecutionMode::Host));
}

#[test]
fn sandbox_mode_preserves_ports() {
    let cli = base_cli();
    let plan = resolve(&cli, &vec!["cargo".into(), "build".into()], &ResolutionTarget::Plan);

    assert!(matches!(plan.mode, ExecutionMode::Sandbox));
    assert_eq!(plan.policy.ports, vec!["8080:80"]);
}

#[test]
fn host_mode_strips_ports() {
    let cli = CliOverrides {
        mode: Some(CliExecutionMode::Host),
        ..base_cli()
    };

    let plan = resolve(&cli, &vec!["cargo".into(), "build".into()], &ResolutionTarget::Plan);

    assert!(matches!(plan.mode, ExecutionMode::Host));
    assert!(plan.policy.ports.is_empty());
}

#[test]
fn workspace_cwd_falls_back_to_root_when_outside() {
    let loaded = LoadedConfig {
        invocation_dir: String::from("/home/user/other"),
        workspace_root: String::from("/workspace/project"),
        config_path: String::from("/workspace/project/sbox.yaml"),
        config: minimal_config(),
    };

    let cli = base_cli();
    let plan = resolve_execution_plan(&cli, &loaded, &ResolutionTarget::Plan, &vec!["echo".into()], &host())
        .expect("resolution should succeed");

    assert_eq!(
        plan.workspace.effective_host_dir,
        String::from("/workspace/project")
    );
    assert_eq!(plan.workspace.sandbox_cwd, "/workspace");
}

#[test]
fn network_off_by_default_in_sandbox() {
    let cli = base_cli();
    let plan = resolve(&cli, &vec!["echo".into()], &ResolutionTarget::Plan);

    assert_eq!(plan.policy.network, "off");
}

#[test]
fn network_on_in_install_profile() {
    let cli = base_cli();
    let plan = resolve(&cli, &vec!["npm".into(), "install".into()], &ResolutionTarget::Plan);

    assert_eq!(plan.policy.network, "on");
}

#[test]
fn no_new_privileges_enabled_by_default() {
    let cli = base_cli();
    let plan = resolve(&cli, &vec!["echo".into()], &ResolutionTarget::Plan);

    assert!(plan.policy.no_new_privileges);
}

#[test]
fn install_style_command_detected() {
    let cli = base_cli();

    let plan = resolve(&cli, &vec!["npm".into(), "install".into()], &ResolutionTarget::Plan);
    assert!(plan.audit.install_style);

    let plan = resolve(&cli, &vec!["npm".into(), "ci".into()], &ResolutionTarget::Plan);
    assert!(plan.audit.install_style);

    let plan = resolve(&cli, &vec!["uv".into(), "sync".into()], &ResolutionTarget::Plan);
    assert!(plan.audit.install_style);

    let plan = resolve(&cli, &vec!["pip".into(), "install".into(), "requests".into()], &ResolutionTarget::Plan);
    assert!(plan.audit.install_style);

    let plan = resolve(&cli, &vec!["cargo".into(), "install".into(), "ripgrep".into()], &ResolutionTarget::Plan);
    assert!(plan.audit.install_style);
}

#[test]
fn non_install_command_not_marked_as_install_style() {
    let cli = base_cli();

    let plan = resolve(&cli, &vec!["echo".into(), "hello".into()], &ResolutionTarget::Plan);
    assert!(!plan.audit.install_style);

    let plan = resolve(&cli, &vec!["cargo".into(), "build".into()], &ResolutionTarget::Plan);
    assert!(!plan.audit.install_style);
}

#[test]
fn preset_python_resolves_to_correct_image() {
    let mut config = minimal_config();
    config.image = Some(ImageConfig {
        reference: None,
        build: None,
        preset: Some("python".to_string()),
        digest: None,
        verify_signature: None,
        pull_policy: None,
        tag: None,
    });

    let loaded = LoadedConfig {
        invocation_dir: String::from("/workspace/project"),
        workspace_root: String::from("/workspace/project"),
        config_path: String::from("/workspace/project/sbox.yaml"),
        config,
    };

    let cli = base_cli();
    let plan = resolve_execution_plan(&cli, &loaded, &ResolutionTarget::Plan, &vec!["echo".into()], &host())
        .expect("resolution should succeed");

    match &plan.image.source {
        ResolvedImageSource::Reference(image) => {
            assert!(image.contains("python"));
        }
        _ => panic!("expected reference"),
    }
}

#[test]
fn preset_node_resolves_to_correct_image() {
    let mut config = minimal_config();
    config.image = Some(ImageConfig {
        reference: None,
        build: None,
        preset: Some("node".to_string()),
        digest: None,
        verify_signature: None,
        pull_policy: None,
        tag: None,
    });

    let loaded = LoadedConfig {
        invocation_dir: String::from("/workspace/project"),
        workspace_root: String::from("/workspace/project"),
        config_path: String::from("/workspace/project/sbox.yaml"),
        config,
    };

    let cli = base_cli();
    let plan = resolve_execution_plan(&cli, &loaded, &ResolutionTarget::Plan, &vec!["echo".into()], &host())
        .expect("resolution should succeed");

    match &plan.image.source {
        ResolvedImageSource::Reference(image) => {
            assert!(image.contains("node"));
        }
        _ => panic!("expected reference"),
    }
}

#[test]
fn preset_rust_resolves_to_correct_image() {
    let mut config = minimal_config();
    config.image = Some(ImageConfig {
        reference: None,
        build: None,
        preset: Some("rust".to_string()),
        digest: None,
        verify_signature: None,
        pull_policy: None,
        tag: None,
    });

    let loaded = LoadedConfig {
        invocation_dir: String::from("/workspace/project"),
        workspace_root: String::from("/workspace/project"),
        config_path: String::from("/workspace/project/sbox.yaml"),
        config,
    };

    let cli = base_cli();
    let plan = resolve_execution_plan(&cli, &loaded, &ResolutionTarget::Plan, &vec!["echo".into()], &host())
        .expect("resolution should succeed");

    match &plan.image.source {
        ResolvedImageSource::Reference(image) => {
            assert!(image.contains("rust"));
        }
        _ => panic!("expected reference"),
    }
}

#[test]
fn resolve_tests_unknown_preset_returns_error() {
    let mut config = minimal_config();
    config.image = Some(ImageConfig {
        reference: None,
        build: None,
        preset: Some("nonexistent".to_string()),
        digest: None,
        verify_signature: None,
        pull_policy: None,
        tag: None,
    });

    let loaded = LoadedConfig {
        invocation_dir: String::from("/workspace/project"),
        workspace_root: String::from("/workspace/project"),
        config_path: String::from("/workspace/project/sbox.yaml"),
        config,
    };

    let cli = base_cli();
    let result = resolve_execution_plan(&cli, &loaded, &ResolutionTarget::Plan, &vec!["echo".into()], &host());

    assert!(result.is_err());
    let error = match result {
        Err(e) => e,
        Ok(_) => panic!("expected an error"),
    };
    assert!(error.message().contains("unknown preset"));
}

#[test]
fn explicit_uid_gid_resolves_user() {
    let mut config = minimal_config();
    config.identity = Some(sbox::config::model::IdentityConfig {
        map_user: Some(false),
        uid: Some(1000),
        gid: Some(1000),
    });

    let loaded = LoadedConfig {
        invocation_dir: String::from("/workspace/project"),
        workspace_root: String::from("/workspace/project"),
        config_path: String::from("/workspace/project/sbox.yaml"),
        config,
    };

    let cli = base_cli();
    let plan = resolve_execution_plan(&cli, &loaded, &ResolutionTarget::Plan, &vec!["echo".into()], &host())
        .expect("resolution should succeed");

    assert!(matches!(
        plan.user,
        ResolvedUser::Explicit {
            uid: 1000,
            gid: 1000
        }
    ));
}

#[test]
fn default_identity_keeps_user_id() {
    let cli = base_cli();
    let plan = resolve(&cli, &vec!["echo".into()], &ResolutionTarget::Plan);

    assert!(matches!(plan.user, ResolvedUser::KeepId));
}

#[test]
fn command_string_preserved_in_plan() {
    let cli = base_cli();
    let plan = resolve(&cli, &vec!["cargo".into(), "build".into(), "--release".into()], &ResolutionTarget::Plan);

    assert_eq!(plan.command_string, "cargo build --release");
    assert_eq!(plan.command, vec!["cargo", "build", "--release"]);
}

#[test]
fn reusable_session_name_includes_workspace_hash() {
    let mut config = minimal_config();
    config.runtime.as_mut().unwrap().reuse_container = Some(true);

    let loaded = LoadedConfig {
        invocation_dir: String::from("/workspace/project"),
        workspace_root: String::from("/workspace/project"),
        config_path: String::from("/workspace/project/sbox.yaml"),
        config,
    };

    let cli = base_cli();
    let plan = resolve_execution_plan(&cli, &loaded, &ResolutionTarget::Plan, &vec!["echo".into()], &host())
        .expect("resolution should succeed");

    assert!(plan.policy.reuse_container);
    let session_name = plan
        .policy
        .reusable_session_name
        .expect("session name should exist");
    assert!(session_name.starts_with("sbox-"));
    assert!(session_name.contains("default"));
}

fn base_config() -> Config {
    let mut profiles = indexmap::IndexMap::new();
    profiles.insert(
        "default".to_string(),
        ProfileConfig {
            mode: ExecutionMode::Sandbox,
            image: None,
            network: Some("off".to_string()),
            writable: Some(true),
            require_pinned_image: None,
            require_lockfile: None,
            role: None,
            lockfile_files: Vec::new(),
            pre_run: Vec::new(),
            network_allow: Vec::new(),
            ports: Vec::new(),
            capabilities: None,
            no_new_privileges: Some(true),
            read_only_rootfs: None,
            reuse_container: None,
            shell: None,

            writable_paths: None,
        },
    );
    profiles.insert(
        "install".to_string(),
        ProfileConfig {
            mode: ExecutionMode::Sandbox,
            image: None,
            network: Some("on".to_string()),
            writable: Some(true),
            require_pinned_image: None,
            require_lockfile: None,
            role: Some(ProfileRole::Install),
            lockfile_files: Vec::new(),
            pre_run: Vec::new(),
            network_allow: Vec::new(),
            ports: Vec::new(),
            capabilities: None,
            no_new_privileges: Some(true),
            read_only_rootfs: None,
            reuse_container: None,
            shell: None,

            writable_paths: None,
        },
    );

    let mut dispatch = indexmap::IndexMap::new();
    dispatch.insert(
        "install".to_string(),
        DispatchRule {
            patterns: vec!["npm install".to_string()],
            profile: "install".to_string(),
        },
    );

    Config {
        version: 1,
        runtime: Some(RuntimeConfig {
            backend: Some(BackendKind::Podman),
            rootless: Some(true),
            reuse_container: Some(false),
            container_name: None,
            pull_policy: None,
            strict_security: None,
            require_pinned_image: None,
        }),
        workspace: Some(WorkspaceConfig {
            root: None,
            mount: Some("/workspace".to_string()),
            writable: Some(true),
            writable_paths: Vec::new(),
            exclude_paths: Vec::new(),
        }),
        identity: None,
        image: Some(ImageConfig {
            reference: Some("python:3.13-slim".to_string()),
            build: None,
            preset: None,
            digest: None,
            verify_signature: None,
            pull_policy: None,
            tag: None,
        }),
        environment: None,
        mounts: Vec::new(),
        caches: Vec::new(),
        secrets: Vec::new(),
        profiles,
        dispatch,

        package_manager: None,
    }
}

fn loaded_config(config: Config) -> LoadedConfig {
    LoadedConfig {
        invocation_dir: String::from("/workspace/project"),
        workspace_root: String::from("/workspace/project"),
        config_path: String::from("/workspace/project/sbox.yaml"),
        config,
    }
}

#[test]
fn selects_dispatch_profile_in_declaration_order() {
    let cli = base_cli();
    let plan = resolve_execution_plan(&cli, &loaded_config(base_config()), &ResolutionTarget::Plan, &vec!["npm".into(), "install".into()], &host())
    .expect("resolution should succeed");

    assert_eq!(plan.profile_name, "install");
    assert!(matches!(
        plan.image.source,
        ResolvedImageSource::Reference(ref image) if image == "python:3.13-slim"
    ));
    assert_eq!(plan.image.trust, ImageTrust::MutableReference);
    assert!(matches!(plan.user, ResolvedUser::KeepId));
    match plan.profile_source {
        ProfileSource::Dispatch { rule_name, pattern } => {
            assert_eq!(rule_name, "install");
            assert_eq!(pattern, "npm install");
        }
        _ => panic!("expected dispatch source"),
    }
}

#[test]
fn falls_back_to_default_profile_when_no_dispatch_matches() {
    let cli = base_cli();
    let plan = resolve_execution_plan(&cli, &loaded_config(base_config()), &ResolutionTarget::Plan, &vec!["echo".into(), "hello".into()], &host())
    .expect("resolution should succeed");

    assert_eq!(plan.profile_name, "default");
    assert!(matches!(plan.profile_source, ProfileSource::DefaultProfile));
    assert_eq!(plan.policy.cap_drop, Vec::<String>::new());
}

#[test]
fn workspace_mount_becomes_read_only_when_profile_is_not_writable() {
    let cli = base_cli();
    let mut config = base_config();
    config
        .profiles
        .get_mut("default")
        .expect("default profile exists")
        .writable = Some(false);

    let plan = resolve_execution_plan(&cli, &loaded_config(config), &ResolutionTarget::Plan, &vec!["echo".into(), "hello".into()], &host())
    .expect("resolution should succeed");

    let workspace_mount = plan
        .mounts
        .iter()
        .find(|mount| mount.is_workspace)
        .expect("workspace mount should be present");

    assert!(workspace_mount.read_only);
    assert!(!plan.policy.writable);
}

#[test]
fn runtime_reuse_container_enables_reusable_session_name() {
    let cli = base_cli();
    let mut config = base_config();
    config
        .runtime
        .as_mut()
        .expect("runtime exists")
        .reuse_container = Some(true);

    let plan = resolve_execution_plan(&cli, &loaded_config(config), &ResolutionTarget::Plan, &vec!["echo".into(), "hello".into()], &host())
    .expect("resolution should succeed");

    assert!(plan.policy.reuse_container);
    assert!(
        plan.policy
            .reusable_session_name
            .as_deref()
            .is_some_and(|name| name.starts_with("sbox-"))
    );
}

#[test]
fn install_role_marks_install_style() {
    let cli = base_cli();
    let plan = resolve_execution_plan(&cli, &loaded_config(base_config()), &ResolutionTarget::Plan, &vec!["npm".into(), "install".into()], &host())
    .expect("resolution should succeed");

    // dispatched to "install" profile which has role: install
    assert!(plan.audit.install_style);
    assert!(!plan.audit.trusted_image_required);
}

#[test]
fn resolves_known_presets_to_references() {
    let cli = base_cli();
    let mut config = base_config();
    config.image = Some(ImageConfig {
        reference: None,
        build: None,
        preset: Some("python".to_string()),
        digest: None,
        verify_signature: None,
        pull_policy: None,
        tag: None,
    });

    let plan = resolve_execution_plan(&cli, &loaded_config(config), &ResolutionTarget::Plan, &vec!["python".into(), "--version".into()], &host())
    .expect("resolution should succeed");

    assert!(matches!(
        plan.image.source,
        ResolvedImageSource::Reference(ref image) if image == "python:3.13-slim"
    ));
}

#[test]
fn profile_can_require_trusted_image() {
    let cli = base_cli();
    let mut config = base_config();
    config
        .profiles
        .get_mut("install")
        .expect("install profile exists")
        .require_pinned_image = Some(true);

    let plan = resolve_execution_plan(&cli, &loaded_config(config), &ResolutionTarget::Plan, &vec!["npm".into(), "install".into()], &host())
    .expect("resolution should succeed");

    assert!(plan.audit.install_style);
    assert!(plan.audit.trusted_image_required);
}

#[test]
fn image_digest_pins_reference_trust() {
    let cli = base_cli();
    let mut config = base_config();
    config.image = Some(ImageConfig {
        reference: Some("python:3.13-slim".to_string()),
        build: None,
        preset: None,
        digest: Some("sha256:deadbeef".to_string()),
        verify_signature: Some(true),
        pull_policy: None,
        tag: None,
    });

    let plan = resolve_execution_plan(&cli, &loaded_config(config), &ResolutionTarget::Plan, &vec!["python".into(), "--version".into()], &host())
    .expect("resolution should succeed");

    assert!(matches!(
        plan.image.source,
        ResolvedImageSource::Reference(ref image)
            if image == "python:3.13-slim@sha256:deadbeef"
    ));
    assert_eq!(plan.image.trust, ImageTrust::PinnedDigest);
    assert!(plan.image.verify_signature);
}

#[test]
fn profile_lockfile_files_drive_lockfile_audit() {
    let cli = base_cli();
    let mut config = base_config();
    let profile = config
        .profiles
        .get_mut("install")
        .expect("install profile exists");
    profile.require_lockfile = Some(true);
    profile.lockfile_files = vec![
        "package-lock.json".to_string(),
        "npm-shrinkwrap.json".to_string(),
    ];

    let plan = resolve_execution_plan(&cli, &loaded_config(config), &ResolutionTarget::Plan, &vec!["npm".into(), "install".into()], &host())
    .expect("resolution should succeed");

    assert!(plan.audit.lockfile.applicable);
    assert!(plan.audit.lockfile.required);
    assert_eq!(
        plan.audit.lockfile.expected_files,
        vec!["package-lock.json", "npm-shrinkwrap.json"]
    );
}

#[test]
fn pre_run_parses_into_argv_vecs() {
    let cli = base_cli();
    let mut config = base_config();
    config
        .profiles
        .get_mut("install")
        .expect("install profile exists")
        .pre_run = vec![
        "npm audit --audit-level=high".to_string(),
        "echo done".to_string(),
    ];

    let plan = resolve_execution_plan(&cli, &loaded_config(config), &ResolutionTarget::Plan, &vec!["npm".into(), "install".into()], &host())
    .expect("resolution should succeed");

    assert_eq!(plan.audit.pre_run.len(), 2);
    assert_eq!(
        plan.audit.pre_run[0],
        vec!["npm", "audit", "--audit-level=high"]
    );
    assert_eq!(plan.audit.pre_run[1], vec!["echo", "done"]);
}

#[test]
fn no_role_profile_name_heuristic_still_marks_install_style() {
    let cli = base_cli();
    let mut config = base_config();
    // "deps" profile name matches the heuristic even without an explicit role
    config.profiles.insert(
        "deps".to_string(),
        ProfileConfig {
            mode: ExecutionMode::Sandbox,
            image: None,
            network: Some("on".to_string()),
            writable: Some(true),
            require_pinned_image: None,
            require_lockfile: None,
            role: None,
            lockfile_files: Vec::new(),
            pre_run: Vec::new(),
            network_allow: Vec::new(),
            ports: Vec::new(),
            capabilities: None,
            no_new_privileges: Some(true),
            read_only_rootfs: None,
            reuse_container: None,
            shell: None,

            writable_paths: None,
        },
    );
    config.dispatch.insert(
        "uv-sync".to_string(),
        DispatchRule {
            patterns: vec!["uv sync".to_string()],
            profile: "deps".to_string(),
        },
    );

    let plan = resolve_execution_plan(&cli, &loaded_config(config), &ResolutionTarget::Plan, &vec!["uv".into(), "sync".into()], &host())
    .expect("resolution should succeed");

    assert_eq!(plan.profile_name, "deps");
    assert!(plan.audit.install_style); // heuristic via name "deps"
}

#[test]
fn glob_match_exact_and_prefix_suffix_wildcards() {
    // Exact match (no wildcard)
    assert!(glob_match("file.pem", "file.pem"));
    assert!(!glob_match("file.pem", "other.pem"));

    // Suffix wildcard: *.pem
    assert!(glob_match("file.pem", "*.pem"));
    assert!(glob_match(".pem", "*.pem"));
    assert!(!glob_match("pem", "*.pem"));
    assert!(!glob_match("file.pem.bak", "*.pem"));

    // Prefix wildcard: .env.*
    assert!(glob_match(".env.local", ".env.*"));
    assert!(glob_match(".env.production", ".env.*"));
    assert!(!glob_match(".env", ".env.*"));

    // Trailing wildcard: secrets*
    assert!(glob_match("secrets", "secrets*"));
    assert!(glob_match("secrets.json", "secrets*"));
    assert!(!glob_match("not-secrets", "secrets*"));

    // Both-ends wildcard: *.key.*
    assert!(glob_match("my.key.bak", "*.key.*"));
    assert!(glob_match("a.key.b", "*.key.*"));
    assert!(!glob_match("key.bak", "*.key.*"));
    assert!(!glob_match("my.key", "*.key.*"));

    // Three-wildcard pattern: a*b*c
    assert!(glob_match("abc", "a*b*c"));
    assert!(glob_match("aXbYc", "a*b*c"));
    assert!(glob_match("abbc", "a*b*c"));
    assert!(!glob_match("ac", "a*b*c"));
    assert!(!glob_match("aXbYd", "a*b*c"));

    // Pattern with no anchoring (*a*b*)
    assert!(glob_match("XaYbZ", "*a*b*"));
    assert!(glob_match("ab", "*a*b*"));
    assert!(!glob_match("ba", "*a*b*"));
    assert!(!glob_match("XaZ", "*a*b*"));
}

#[test]
fn glob_match_path_patterns() {
    // Filename-only pattern (no slash): matches against filename
    assert!(exclude_pattern_matches("dir/file.pem", "*.pem"));
    assert!(exclude_pattern_matches("deep/nested/file.key", "*.key"));
    assert!(!exclude_pattern_matches("dir/file.pem.bak", "*.pem"));

    // Leading **/ is stripped before matching
    assert!(exclude_pattern_matches("dir/file.pem", "**/*.pem"));
    assert!(exclude_pattern_matches("a/b/c.key", "**/*.key"));

    // Path-relative pattern (contains slash): matches full relative path
    assert!(exclude_pattern_matches("secrets/prod.json", "secrets/*"));
    assert!(!exclude_pattern_matches("other/prod.json", "secrets/*"));
    assert!(exclude_pattern_matches(
        "config/.env.local",
        "config/.env.*"
    ));
}

#[test]
fn exclude_star_stays_within_one_component() {
    assert!(exclude_pattern_matches("dir/file.pem", "*.pem"));
    assert!(!exclude_pattern_matches("dir/file.pem.bak", "*.pem"));
    assert!(exclude_pattern_matches("a/b/c.key", "**/*.key"));
    assert!(exclude_pattern_matches("secrets/prod.json", "secrets/*"));
    assert!(!exclude_pattern_matches("other/prod.json", "secrets/*"));
    assert!(!exclude_pattern_matches("secrets/a/b.json", "secrets/*"));
    assert!(exclude_pattern_matches("secrets/a/b.json", "secrets/*/*.json"));
}

#[test]
fn replacing_the_empty_pattern_follows_std() {
    assert_eq!(sbox::resolve::replace_str("ab", "", "-"), "ab".replace("", "-"));
    assert_eq!(sbox::resolve::replace_str("", "", "-"), "".replace("", "-"));
    assert_eq!(sbox::wizard::replace_all_str("abc", "", "x"), "abc".replace("", "x"));
    assert_eq!(sbox::init::replace_first_str("abc", "", "x"), "abc".replacen("", "x", 1));
    assert_eq!(sbox::resolve::replace_str("a.b.c", ".", "::"), "a::b::c");
}
