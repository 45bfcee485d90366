use sbox::config::model::{Config, DispatchRule, ExecutionMode, PackageManagerConfig, ProfileConfig, ProfileRole};
use sbox::config::package_manager::elaborate;
use sbox::error::SboxError;

fn base_config_with_pm(name: &str) -> Config {
    Config {
        version: 1,
        runtime: None,
        workspace: Some(sbox::config::model::WorkspaceConfig {
            root: None,
            mount: Some("/workspace".to_string()),
            writable: Some(false),
            writable_paths: vec![],
            exclude_paths: vec![],
        }),
        identity: None,
        image: Some(sbox::config::model::ImageConfig {
            reference: Some("node:22-bookworm-slim".to_string()),
            digest: None,
            verify_signature: None,
            build: None,
            preset: None,
            pull_policy: None,
            tag: None,
        }),
        environment: None,
        mounts: vec![],
        caches: vec![],
        secrets: vec![],
        profiles: indexmap::IndexMap::new(),
        dispatch: indexmap::IndexMap::new(),
        package_manager: Some(PackageManagerConfig {
            name: name.to_string(),
            install_writable: None,
            build_writable: None,
            network_allow: None,
            pre_run: None,
        }),
    }
}

#[test]
fn test_npm_generates_install_profile() {
    let mut config = base_config_with_pm("npm");
    elaborate(&mut config).unwrap();

    let profile = config.profiles.get("pm-npm-install").unwrap();
    assert_eq!(profile.network.as_deref(), Some("on"));
    assert_eq!(profile.writable, Some(false));
    assert_eq!(
        profile.writable_paths.as_deref().unwrap(),
        &["node_modules", "package-lock.json"]
    );
    assert_eq!(profile.role, Some(ProfileRole::Install));
}

#[test]
fn test_npm_generates_build_profile() {
    let mut config = base_config_with_pm("npm");
    elaborate(&mut config).unwrap();

    let profile = config.profiles.get("pm-npm-build").unwrap();
    assert_eq!(profile.network.as_deref(), Some("off"));
    assert!(
        profile
            .writable_paths
            .as_deref()
            .unwrap()
            .contains(&"dist".to_string())
    );
}

#[test]
fn test_default_profile_inserted_when_absent() {
    let mut config = base_config_with_pm("npm");
    elaborate(&mut config).unwrap();
    assert!(config.profiles.contains_key("default"));
    let default = config.profiles.get("default").unwrap();
    assert_eq!(default.network.as_deref(), Some("off"));
    assert_eq!(default.writable_paths.as_deref().unwrap(), &[] as &[String]);
}

#[test]
fn test_default_profile_not_overridden() {
    let mut config = base_config_with_pm("npm");
    // Pre-insert a user default profile with network on
    config.profiles.insert(
        "default".to_string(),
        ProfileConfig {
            mode: ExecutionMode::Sandbox,
            image: None,
            network: Some("on".to_string()),
            writable: Some(true),
            require_pinned_image: None,
            require_lockfile: None,
            role: None,
            lockfile_files: vec![],
            pre_run: vec![],
            ports: vec![],
            network_allow: vec![],
            capabilities: None,
            no_new_privileges: None,
            read_only_rootfs: None,
            reuse_container: None,
            shell: None,
            writable_paths: None,
        },
    );
    elaborate(&mut config).unwrap();
    // User's default should be preserved
    assert_eq!(
        config.profiles.get("default").unwrap().network.as_deref(),
        Some("on")
    );
}

#[test]
fn test_dispatch_rules_prepended() {
    let mut config = base_config_with_pm("npm");
    // Pre-insert a user dispatch rule
    config.dispatch.insert(
        "my-rule".to_string(),
        DispatchRule {
            patterns: vec!["npm install --my-custom*".to_string()],
            profile: "default".to_string(),
        },
    );
    elaborate(&mut config).unwrap();
    // PM rules must be at indices 0 and 1, user rule at end
    let keys: Vec<&str> = config.dispatch.keys().map(|s| s.as_str()).collect();
    assert!(keys[0].starts_with("pm:npm:"));
    assert!(keys[1].starts_with("pm:npm:"));
    assert_eq!(*keys.last().unwrap(), "my-rule");
}

#[test]
fn test_unknown_pm_name_errors() {
    let mut config = base_config_with_pm("gradle");
    let err = match elaborate(&mut config) {
        Err(e) => e,
        Ok(()) => panic!("expected an error"),
    };
    assert!(matches!(err, SboxError::ConfigValidation { .. }));
}

#[test]
fn test_install_writable_override() {
    let mut config = base_config_with_pm("npm");
    config.package_manager.as_mut().unwrap().install_writable =
        Some(vec!["node_modules".to_string(), ".cache".to_string()]);
    elaborate(&mut config).unwrap();
    assert_eq!(
        config
            .profiles
            .get("pm-npm-install")
            .unwrap()
            .writable_paths
            .as_deref()
            .unwrap(),
        &["node_modules", ".cache"]
    );
}

#[test]
fn test_no_pm_is_noop() {
    let mut config = base_config_with_pm("npm");
    config.package_manager = None;
    elaborate(&mut config).unwrap();
    assert!(config.profiles.is_empty());
    assert!(config.dispatch.is_empty());
}

#[test]
fn test_npm_injects_publish_token_denials() {
    let mut config = base_config_with_pm("npm");
    elaborate(&mut config).unwrap();

    let deny = &config.environment.as_ref().unwrap().deny;
    assert!(deny.contains(&"NPM_TOKEN".to_string()));
    assert!(deny.contains(&"NODE_AUTH_TOKEN".to_string()));
    assert!(deny.contains(&"NPM_AUTH_TOKEN".to_string()));
}

#[test]
fn test_npm_does_not_duplicate_existing_deny() {
    let mut config = base_config_with_pm("npm");
    config.environment = Some(sbox::config::model::EnvironmentConfig {
        pass_through: vec![],
        set: Vec::new(),
        deny: vec!["NPM_TOKEN".to_string()],
    });
    elaborate(&mut config).unwrap();

    let deny = &config.environment.as_ref().unwrap().deny;
    assert_eq!(deny.iter().filter(|d| *d == "NPM_TOKEN").count(), 1);
}

#[test]
fn test_npm_injects_credential_file_exclusion() {
    let mut config = base_config_with_pm("npm");
    elaborate(&mut config).unwrap();

    let exclude = &config.workspace.as_ref().unwrap().exclude_paths;
    assert!(exclude.contains(&".npmrc".to_string()));
}

#[test]
fn test_npm_does_not_duplicate_existing_exclude() {
    let mut config = base_config_with_pm("npm");
    config.workspace.as_mut().unwrap().exclude_paths = vec![".npmrc".to_string()];
    elaborate(&mut config).unwrap();

    let exclude = &config.workspace.as_ref().unwrap().exclude_paths;
    assert_eq!(exclude.iter().filter(|p| *p == ".npmrc").count(), 1);
}

#[test]
fn test_go_has_no_publish_token_denials() {
    let mut config = base_config_with_pm("go");
    config.image = Some(sbox::config::model::ImageConfig {
        reference: Some("golang:1.23-bookworm".to_string()),
        digest: None,
        verify_signature: None,
        build: None,
        preset: None,
        pull_policy: None,
        tag: None,
    });
    elaborate(&mut config).unwrap();
    // Go has no publish tokens — environment should not be created just for denials
    if let Some(env) = &config.environment {
        assert!(env.deny.is_empty());
    }
}

#[test]
fn test_cargo_injects_registry_token_denial() {
    let mut config = base_config_with_pm("cargo");
    config.image = Some(sbox::config::model::ImageConfig {
        reference: Some("rust:1-bookworm".to_string()),
        digest: None,
        verify_signature: None,
        build: None,
        preset: None,
        pull_policy: None,
        tag: None,
    });
    elaborate(&mut config).unwrap();

    let deny = &config.environment.as_ref().unwrap().deny;
    assert!(deny.contains(&"CARGO_REGISTRY_TOKEN".to_string()));
}

#[test]
fn preset_defaults_keep_variables_in_name_order() {
    let mut config = base_config_with_pm("uv");
    config.environment = Some(sbox::config::model::EnvironmentConfig {
        pass_through: Vec::new(),
        set: vec![("AAA".to_string(), "1".to_string()), ("ZZZ".to_string(), "2".to_string())],
        deny: Vec::new(),
    });
    sbox::config::package_manager::elaborate(&mut config).expect("uv is known");
    let names: Vec<String> = config.environment.unwrap().set.into_iter().map(|(k, _)| k).collect();
    let mut sorted = names.clone();
    sorted.sort();
    assert_eq!(names, sorted);
    assert!(names.iter().any(|n| n == "UV_PYTHON_DOWNLOADS"));
}

#[test]
fn elaborating_twice_changes_nothing() {
    let mut config = base_config_with_pm("npm");
    elaborate(&mut config).expect("npm is known");
    let keys: Vec<String> = config.profiles.keys().cloned().collect();
    let rules: Vec<String> = config.dispatch.keys().cloned().collect();
    let excludes = config.workspace.as_ref().map(|w| w.exclude_paths.clone());
    let env = config.environment.as_ref().map(|e| (e.set.clone(), e.deny.clone()));
    elaborate(&mut config).expect("npm is known");
    assert_eq!(config.profiles.keys().cloned().collect::<Vec<_>>(), keys);
    assert_eq!(config.dispatch.keys().cloned().collect::<Vec<_>>(), rules);
    assert_eq!(config.workspace.as_ref().map(|w| w.exclude_paths.clone()), excludes);
    assert_eq!(config.environment.as_ref().map(|e| (e.set.clone(), e.deny.clone())), env);
}
