use sbox::config::model::{Config, ExecutionMode, ProfileConfig};
use sbox::resolve::CliOverrides;
use sbox::shell::{resolve_initial_shell, resolve_shell, ShellCommand};

fn base_cli() -> CliOverrides {
    CliOverrides { backend: None, image: None, profile: None, mode: None }
}

fn profile(shell: Option<&str>) -> ProfileConfig {
    ProfileConfig {
        mode: ExecutionMode::Sandbox,
        image: None,
        network: Some("off".to_string()),
        writable: Some(true),
        require_pinned_image: None,
        require_lockfile: None,
        role: None,
        lockfile_files: Vec::new(),
        pre_run: Vec::new(),
        network_allow: Vec::new(),
        ports: Vec::new(),
        capabilities: None,
        no_new_privileges: Some(true),
        read_only_rootfs: None,
        reuse_container: None,
        shell: shell.map(|s| s.to_string()),
        writable_paths: None,
    }
}

fn base_config() -> Config {
    let mut profiles = indexmap::IndexMap::new();
    profiles.insert("default".to_string(), profile(Some("/bin/bash")));
    Config {
        version: 1,
        runtime: None,
        workspace: None,
        identity: None,
        image: None,
        environment: None,
        mounts: Vec::new(),
        caches: Vec::new(),
        secrets: Vec::new(),
        profiles,
        dispatch: indexmap::IndexMap::new(),
        package_manager: None,
    }
}

#[test]
fn shell_flag_overrides_profile_shell() {
    let cli = base_cli();
    let config = base_config();
    let command = ShellCommand { shell: Some("/bin/zsh".to_string()) };
    let shell = resolve_shell(&cli, &command, &config, "default", &None).expect("shell should resolve");
    assert_eq!(shell, "/bin/zsh");
}

#[test]
fn profile_shell_is_used_when_flag_is_absent() {
    let cli = base_cli();
    let config = base_config();
    let shell =
        resolve_shell(&cli, &ShellCommand::default(), &config, "default", &None).expect("shell should resolve");
    assert_eq!(shell, "/bin/bash");
}

#[test]
fn cli_profile_shell_then_environment_then_default() {
    let mut config = base_config();
    config.profiles.insert("plain".to_string(), profile(None));
    let mut cli = base_cli();
    cli.profile = Some("default".to_string());
    let shell = resolve_shell(&cli, &ShellCommand::default(), &config, "plain", &Some("/bin/fish".to_string()))
        .unwrap();
    assert_eq!(shell, "/bin/bash");
    let shell = resolve_shell(&base_cli(), &ShellCommand::default(), &config, "plain", &Some("  /bin/fish \n".to_string()))
        .unwrap();
    assert_eq!(shell, "/bin/fish");
    let shell = resolve_shell(&base_cli(), &ShellCommand::default(), &config, "plain", &Some("  ".to_string()))
        .unwrap();
    assert_eq!(shell, "/bin/sh");
}

#[test]
fn initial_shell_ignores_profiles() {
    assert_eq!(resolve_initial_shell(&ShellCommand::default(), &None).unwrap(), "/bin/sh");
    assert_eq!(resolve_initial_shell(&ShellCommand::default(), &Some("/bin/zsh".to_string())).unwrap(), "/bin/zsh");
    let command = ShellCommand { shell: Some("/bin/ksh".to_string()) };
    assert_eq!(resolve_initial_shell(&command, &Some("/bin/zsh".to_string())).unwrap(), "/bin/ksh");
}
