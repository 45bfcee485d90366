use sbox::clean::{cache_volume_names, reusable_session_names, CleanCommand, CleanScope};
use sbox::config::model::{BackendKind, CacheConfig, Config, ExecutionMode, ProfileConfig, RuntimeConfig};

#[test]
fn defaults_to_sessions_only() {
    let scope = CleanScope::from_command(&CleanCommand::default());
    assert!(scope.sessions);
    assert!(!scope.images);
    assert!(!scope.caches);
}

#[test]
fn all_flag_enables_every_cleanup_target() {
    let scope = CleanScope::from_command(&CleanCommand { all: true, ..CleanCommand::default() });
    assert!(scope.sessions);
    assert!(scope.images);
    assert!(scope.caches);
}

#[test]
fn named_kinds_select_only_those_targets() {
    let scope = CleanScope::from_command(&CleanCommand { images: true, ..CleanCommand::default() });
    assert!(!scope.sessions);
    assert!(scope.images);
    assert!(!scope.caches);
}

#[test]
fn cache_volume_names_only_include_implicit_volumes() {
    let caches = vec![
        CacheConfig { name: "first".into(), target: "/cache".into(), source: None, read_only: None },
        CacheConfig { name: "host".into(), target: "/host".into(), source: Some("./cache".into()), read_only: None },
    ];

    let names = cache_volume_names(&caches, "/tmp/workspace");
    assert_eq!(names.len(), 1);
    assert!(names[0].contains("sbox-cache-"));
}

fn default_profile() -> ProfileConfig {
    ProfileConfig {
        mode: ExecutionMode::Sandbox,
        image: None,
        network: Some("off".into()),
        writable: Some(true),
        require_pinned_image: None,
        require_lockfile: None,
        role: None,
        lockfile_files: Vec::new(),
        pre_run: Vec::new(),
        network_allow: Vec::new(),
        ports: Vec::new(),
        capabilities: None,
        no_new_privileges: Some(true),
        read_only_rootfs: None,
        reuse_container: None,
        shell: None,
        writable_paths: None,
    }
}

#[test]
fn reusable_session_names_follow_runtime_defaults() {
    let mut profiles = indexmap::IndexMap::new();
    profiles.insert("default".to_string(), default_profile());
    let config = Config {
        version: 1,
        runtime: Some(RuntimeConfig {
            backend: Some(BackendKind::Podman),
            rootless: Some(true),
            reuse_container: Some(true),
            container_name: None,
            pull_policy: None,
            strict_security: None,
            require_pinned_image: None,
        }),
        workspace: None,
        identity: None,
        image: None,
        environment: None,
        mounts: Vec::new(),
        caches: Vec::new(),
        secrets: Vec::new(),
        profiles,
        dispatch: indexmap::IndexMap::new(),
        package_manager: None,
    };

    let names = reusable_session_names(&config, "/tmp/workspace");
    assert_eq!(names.len(), 1);
    assert!(names[0].starts_with("sbox-"));
}
