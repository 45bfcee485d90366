use sbox::config::load::{
    check_explicit_config, config_search_start, explicit_config_path, finish_loading, find_default_config_path,
    LoadOptions,
};
use sbox::config::model::{
    BackendKind, Config, ExecutionMode, ImageConfig, ProfileConfig, RuntimeConfig, WorkspaceConfig,
};
use sbox::error::SboxError;

fn minimal_config(root: &str) -> Config {
    let mut profiles = indexmap::IndexMap::new();
    profiles.insert(
        "default".to_string(),
        ProfileConfig {
            mode: ExecutionMode::Sandbox,
            image: None,
            network: Some("off".to_string()),
            writable: Some(true),
            require_pinned_image: None,
            require_lockfile: None,
            role: None,
            lockfile_files: Vec::new(),
            pre_run: Vec::new(),
            ports: Vec::new(),
            network_allow: Vec::new(),
            capabilities: None,
            no_new_privileges: None,
            read_only_rootfs: None,
            reuse_container: None,
            shell: None,
            writable_paths: None,
        },
    );
    Config {
        version: 1,
        runtime: Some(RuntimeConfig {
            backend: Some(BackendKind::Podman),
            rootless: Some(true),
            strict_security: None,
            reuse_container: None,
            container_name: None,
            pull_policy: None,
            require_pinned_image: None,
        }),
        workspace: Some(WorkspaceConfig {
            root: Some(root.to_string()),
            mount: Some("/workspace".to_string()),
            writable: None,
            writable_paths: Vec::new(),
            exclude_paths: Vec::new(),
        }),
        identity: None,
        image: Some(ImageConfig {
            reference: Some("python:3.13-slim".to_string()),
            build: None,
            preset: None,
            digest: None,
            verify_signature: None,
            pull_policy: None,
            tag: None,
        }),
        environment: None,
        mounts: Vec::new(),
        caches: Vec::new(),
        secrets: Vec::new(),
        profiles,
        dispatch: indexmap::IndexMap::new(),
        package_manager: None,
    }
}

#[test]
fn loads_valid_config_from_explicit_path() {
    let options = LoadOptions { workspace: None, config: Some("/tmp/t/sbox.yaml".to_string()) };
    let config_path = explicit_config_path(&options, "/tmp/t").unwrap();
    assert_eq!(config_path, "/tmp/t/sbox.yaml");
    let path = check_explicit_config(&config_path, true).unwrap();
    let result = finish_loading(&options, "/tmp/t", &path, minimal_config("."), Some("/home/u"))
        .unwrap_or_else(|e| panic!("load should succeed: {}", e.message()));
    assert_eq!(result.config.version, 1);
    assert_eq!(result.config_path, "/tmp/t/sbox.yaml");
}

#[test]
fn fails_when_config_does_not_exist() {
    let options = LoadOptions { workspace: None, config: Some("/tmp/t/nonexistent.yaml".to_string()) };
    let config_path = explicit_config_path(&options, "/tmp/t").unwrap();
    let error = check_explicit_config(&config_path, false).expect_err("load should fail");
    assert!(error.message().contains("not found"));
    let error = find_default_config_path("/tmp/t/sub", &Vec::new()).expect_err("load should fail");
    assert!(matches!(&error, SboxError::ConfigNotFound { path } if path == "/tmp/t/sub/sbox.yaml"));
}

#[test]
fn finds_config_by_searching_ancestors() {
    let existing = vec!["/tmp/t/sbox.yaml".to_string()];
    assert_eq!(find_default_config_path("/tmp/t/subdir/deeper", &existing).unwrap(), "/tmp/t/sbox.yaml");
    let nearer = vec!["/tmp/t/sbox.yaml".to_string(), "/tmp/t/subdir/sbox.yaml".to_string()];
    assert_eq!(find_default_config_path("/tmp/t/subdir/deeper", &nearer).unwrap(), "/tmp/t/subdir/sbox.yaml");
}

#[test]
fn uses_workspace_override_for_config_search() {
    let options = LoadOptions { workspace: Some("/tmp/t".to_string()), config: None };
    let start = config_search_start(&options, "/tmp/other");
    assert_eq!(start, "/tmp/t");
    let existing = vec!["/tmp/t/sbox.yaml".to_string()];
    assert_eq!(find_default_config_path(&start, &existing).unwrap(), "/tmp/t/sbox.yaml");
}

#[test]
fn workspace_root_defaults_to_config_directory() {
    let options = LoadOptions { workspace: None, config: Some("/tmp/t/sbox.yaml".to_string()) };
    let mut config = minimal_config(".");
    config.workspace.as_mut().unwrap().root = None;
    let result = finish_loading(&options, "/tmp/t", "/tmp/t/sbox.yaml", config, Some("/home/u"))
        .unwrap_or_else(|e| panic!("load should succeed: {}", e.message()));
    assert_eq!(result.workspace_root, "/tmp/t");
}

#[test]
fn uses_explicit_workspace_root_from_config() {
    let options = LoadOptions { workspace: None, config: Some("/tmp/t/sbox.yaml".to_string()) };
    let result = finish_loading(&options, "/tmp/t", "/tmp/t/sbox.yaml", minimal_config("."), Some("/home/u"))
        .unwrap_or_else(|e| panic!("load should succeed: {}", e.message()));
    assert_eq!(result.workspace_root, "/tmp/t");
    let result = finish_loading(&options, "/tmp/t", "/tmp/t/sbox.yaml", minimal_config("app"), Some("/home/u"))
        .unwrap_or_else(|e| panic!("load should succeed: {}", e.message()));
    assert_eq!(result.workspace_root, "/tmp/t/app");
}

#[test]
fn preserves_invocation_directory_separate_from_workspace() {
    let options = LoadOptions { workspace: None, config: Some("/tmp/t/sbox.yaml".to_string()) };
    let result = finish_loading(&options, "/tmp/t/subdir", "/tmp/t/sbox.yaml", minimal_config("."), Some("/home/u"))
        .unwrap_or_else(|e| panic!("load should succeed: {}", e.message()));
    assert_eq!(result.invocation_dir, "/tmp/t/subdir");
    assert_eq!(result.workspace_root, "/tmp/t");
}

#[test]
fn unknown_package_manager_fails_loading() {
    let options = LoadOptions { workspace: None, config: None };
    let mut config = minimal_config(".");
    config.package_manager = Some(sbox::config::model::PackageManagerConfig {
        name: "zig".to_string(),
        install_writable: None,
        build_writable: None,
        network_allow: None,
        pre_run: None,
    });
    match finish_loading(&options, "/tmp/t", "/tmp/t/sbox.yaml", config, None) {
        Err(SboxError::ConfigValidation { .. }) => {},
        _ => panic!("an unknown package manager should fail loading"),
    }
}
