use sbox::backend::runtime::{copy_out_args, run_container_name, PendingOutput};
use sbox::exec::{run_exit_code, status_to_exit_code};
use sbox::audit::{audit_command_for, detect_pm_from_workspace};
use sbox::backend::runtime::{file_name, lockfile_seed, path_has_extension, read_requires_python};
use sbox::bootstrap::{bootstrap_command_for, rebuild_hint};
use sbox::error::SboxError;
use sbox::lock::{
    find_dependency_dir, get_lock_file_path, get_workspace_hash, hash_directory, hash_file,
    verify_against_lock,
};
use sbox::policy::CommandPolicy;
use sbox::proxy::{decide_request, head_complete, refusal_reply, tunnel_reply, ProxyAction, MAX_HEAD_BYTES};
use sbox::sandbox::{NativeSandbox, SandboxFacts};
use sha2::{Digest, Sha256};

fn hex_of(bytes: &[u8]) -> String {
    bytes.iter().map(|b| format!("{:02x}", b)).collect()
}

#[test]
fn audit_tool_per_package_manager() {
    let (p, a, _) = audit_command_for("npm");
    assert_eq!((p, a), ("npm", vec!["audit"]));
    let (p, a, _) = audit_command_for("yarn");
    assert_eq!((p, a), ("yarn", vec!["npm", "audit"]));
    let (p, a, _) = audit_command_for("poetry");
    assert_eq!((p, a.len()), ("pip-audit", 0));
    let (p, a, h) = audit_command_for("go");
    assert_eq!((p, a), ("govulncheck", vec!["./..."]));
    assert!(h.contains("govulncheck"));
    let (p, _, h) = audit_command_for("zig");
    assert_eq!(p, "npm");
    assert_eq!(h, "unknown package manager; defaulting to npm audit");
}

#[test]
fn audit_detects_package_manager_from_lockfiles() {
    let existing = vec!["/w/yarn.lock".to_string(), "/w/Cargo.lock".to_string()];
    assert_eq!(detect_pm_from_workspace("/w", &existing), "yarn");
    let existing = vec!["/w/Cargo.lock".to_string()];
    assert_eq!(detect_pm_from_workspace("/w", &existing), "cargo");
    assert_eq!(detect_pm_from_workspace("/w", &Vec::new()), "npm");
}

#[test]
fn bootstrap_commands_and_hints() {
    assert_eq!(
        bootstrap_command_for("npm").unwrap(),
        vec!["npm".to_string(), "install".to_string(), "--ignore-scripts".to_string()]
    );
    assert_eq!(bootstrap_command_for("uv").unwrap(), vec!["uv".to_string(), "lock".to_string()]);
    match bootstrap_command_for("zig") {
        Err(SboxError::ConfigValidation { message }) => assert_eq!(
            message,
            "no bootstrap command known for package manager `zig`; generate the lockfile manually and run `sbox run` directly"
        ),
        other => panic!("unexpected: {:?}", other),
    }
    assert!(rebuild_hint("cargo").starts_with("cargo build"));
    assert_eq!(rebuild_hint("zig"), "<install-command>");
}

#[test]
fn proxy_blocks_non_allowlisted_connect() {
    let allow = vec!["example.com".to_string()];
    let head = "CONNECT evil.com:443 HTTP/1.1\r\nHost: evil.com\r\n\r\n";
    assert!(matches!(decide_request(head, &allow), ProxyAction::Refuse));
    assert!(refusal_reply().starts_with("HTTP/1.1 403"));
}

#[test]
fn proxy_tunnels_allowed_connect() {
    let allow = vec!["registry.npmjs.org".to_string()];
    let head = "CONNECT registry.npmjs.org:443 HTTP/1.1\r\nHost: registry.npmjs.org:443\r\n\r\n";
    match decide_request(head, &allow) {
        ProxyAction::Tunnel { target } => assert_eq!(target, "registry.npmjs.org:443"),
        _ => panic!("expected a tunnel"),
    }
    assert_eq!(tunnel_reply(), "HTTP/1.1 200 Connection Established\r\n\r\n");
}

#[test]
fn proxy_forwards_allowed_plain_request() {
    let allow = vec!["example.org".to_string()];
    let head = "GET http://example.org/ HTTP/1.1\r\nHost: example.org\r\n\r\n";
    match decide_request(head, &allow) {
        ProxyAction::Forward { upstream } => assert_eq!(upstream, "example.org:80"),
        _ => panic!("expected a forward"),
    }
    let head = "GET http://other.org/ HTTP/1.1\r\nHost: other.org\r\n\r\n";
    assert!(matches!(decide_request(head, &allow), ProxyAction::Refuse));
}

#[test]
fn proxy_head_completion() {
    assert!(!head_complete(&b"GET / HTTP/1.1\r\n".to_vec()));
    assert!(head_complete(&b"GET / HTTP/1.1\r\n\r\n".to_vec()));
    assert!(!head_complete(&Vec::new()));
    assert!(head_complete(&vec![b'a'; MAX_HEAD_BYTES]));
}

#[test]
fn sandbox_sensitive_env_names() {
    assert!(NativeSandbox::is_sensitive_env("AWS_REGION"));
    assert!(NativeSandbox::is_sensitive_env("github_token"));
    assert!(NativeSandbox::is_sensitive_env("MY_API_KEY"));
    assert!(NativeSandbox::is_sensitive_env("password_file"));
    assert!(!NativeSandbox::is_sensitive_env("db_password"));
    assert!(!NativeSandbox::is_sensitive_env("HOME"));
    assert!(!NativeSandbox::is_sensitive_env("PATH"));
}

fn facts() -> SandboxFacts {
    SandboxFacts {
        env: vec![
            ("HOME".to_string(), "/home/u".to_string()),
            ("NPM_TOKEN".to_string(), "x".to_string()),
            ("PATH".to_string(), "/usr/bin:/opt/tool/bin".to_string()),
            ("SECRET_SAUCE".to_string(), "y".to_string()),
        ],
        home: Some("/home/u".to_string()),
        path_var: Some("/usr/bin:/opt/tool/bin".to_string()),
        existing_paths: vec![
            "/usr".to_string(),
            "/etc".to_string(),
            "/home/u/.cargo".to_string(),
            "/opt/tool/bin".to_string(),
            "/w/node_modules".to_string(),
        ],
        cwd: "/w".to_string(),
        cwd_files: vec![".env".to_string(), "package.json".to_string(), ".env.local".to_string()],
    }
}

fn policy(network: bool) -> CommandPolicy {
    CommandPolicy {
        binary_path: "/usr/bin/npm".to_string(),
        program_name: "npm".to_string(),
        args: vec!["install".to_string()],
        network_enabled: network,
        writable_paths: vec!["/w/node_modules".to_string(), "/w/dist".to_string()],
    }
}

#[test]
fn sandbox_plan_scrubs_and_masks() {
    let p = NativeSandbox::plan(&policy(true), false, false, &facts());
    assert_eq!(p.removed_env, vec!["NPM_TOKEN".to_string(), "SECRET_SAUCE".to_string()]);
    assert!(p.restrict_connect);
    assert!(!p.new_net_namespace);
    assert_eq!(
        p.read_only,
        vec!["/usr".to_string(), "/etc".to_string(), "/home/u/.cargo".to_string(), "/opt/tool/bin".to_string()]
    );
    assert_eq!(p.read_write, vec!["/w/node_modules".to_string()]);
    assert_eq!(p.masked_files, vec!["/w/.env".to_string(), "/w/.env.local".to_string()]);
}

#[test]
fn sandbox_plan_with_allowances() {
    let p = NativeSandbox::plan(&policy(true), true, true, &facts());
    assert!(p.removed_env.is_empty());
    assert!(!p.restrict_connect);
    assert!(p.masked_files.is_empty());
    let p = NativeSandbox::plan(&policy(false), false, false, &facts());
    assert!(p.restrict_connect);
    assert!(p.new_net_namespace);
    let p = NativeSandbox::plan(&policy(false), true, false, &facts());
    assert!(p.restrict_connect);
}

#[test]
fn lock_hashes_are_sha256_hex() {
    assert_eq!(
        hash_file(&b"abc".to_vec()),
        "ba7816bf8f01cfea414140de5dae2223b00361a396177a9cb410ff61f20015ad"
    );
    assert_eq!(get_workspace_hash("abc"), hash_file(&b"abc".to_vec()));
    let path = get_lock_file_path(Some("/home/u"), "abc").unwrap();
    assert_eq!(
        path,
        "/home/u/.local/share/sbox/locks/ba7816bf8f01cfea414140de5dae2223b00361a396177a9cb410ff61f20015ad.json"
    );
    assert!(matches!(get_lock_file_path(None, "abc"), Err(SboxError::Io(_))));
}

#[test]
fn lock_directory_hash_ignores_walk_order() {
    let a = vec![
        ("b.txt".to_string(), "22".to_string()),
        ("a.txt".to_string(), "11".to_string()),
    ];
    let b = vec![
        ("a.txt".to_string(), "11".to_string()),
        ("b.txt".to_string(), "22".to_string()),
    ];
    let mut h = Sha256::new();
    h.update(b"a.txt\0");
    h.update(b"11\0");
    h.update(b"b.txt\0");
    h.update(b"22\0");
    let expected = hex_of(&h.finalize());
    assert_eq!(hash_directory(&a), expected);
    assert_eq!(hash_directory(&b), expected);
}

#[test]
fn lock_dependency_dir_preference() {
    let dirs = vec!["/w/vendor".to_string(), "/w/.venv".to_string()];
    assert_eq!(find_dependency_dir("/w", &dirs), Some("/w/.venv".to_string()));
    assert_eq!(find_dependency_dir("/w", &Vec::new()), None);
}

#[test]
fn lock_verification_outcomes() {
    let h1 = Some("0123456789abcdef".to_string());
    let h2 = Some("fedcba9876543210".to_string());
    assert!(verify_against_lock(&None, &None).is_ok());
    assert!(verify_against_lock(&h1, &h1).is_ok());
    match verify_against_lock(&h1, &None) {
        Err(SboxError::LockError(m)) => assert_eq!(m, "Project has dependencies but no sbox lock. Run 'sbox lock' first."),
        other => panic!("unexpected: {:?}", other),
    }
    match verify_against_lock(&None, &h1) {
        Err(SboxError::LockError(m)) => assert_eq!(m, "Project has an sbox lock but dependencies are missing."),
        other => panic!("unexpected: {:?}", other),
    }
    match verify_against_lock(&h1, &h2) {
        Err(SboxError::LockError(m)) => assert_eq!(
            m,
            "Integrity compromise detected! Dependencies differ from lockfile.\nExpected: fedcba98\nActual: 01234567\nRun 'sbox lock' to update the lockfile if this is expected."
        ),
        other => panic!("unexpected: {:?}", other),
    }
}

#[test]
fn runtime_requires_python_is_read() {
    let text = "[project]\nname = \"x\"\n# requires-python = \"old\"\nrequires-python = \">=3.11\"\n";
    assert_eq!(read_requires_python(text), Some(">=3.11".to_string()));
    assert_eq!(read_requires_python("requires-python = '>=3.9'\n"), Some(">=3.9".to_string()));
    assert_eq!(read_requires_python("[project]\nname = \"x\"\n"), None);
}

#[test]
fn runtime_lockfile_seeds() {
    let py = Some("requires-python = \">=3.12\"\n".to_string());
    assert_eq!(lockfile_seed("uv.lock", &py), "version = 1\nrequires-python = \">=3.12\"\n");
    assert_eq!(lockfile_seed("uv.lock", &None), "version = 1\nrequires-python = \">=3.8\"\n");
    assert_eq!(lockfile_seed("Cargo.lock", &None), "version = 3\n");
    assert_eq!(lockfile_seed("package-lock.json", &None), "{\"lockfileVersion\":3}");
    assert_eq!(lockfile_seed("other.lock", &None), "");
}

#[test]
fn runtime_file_names() {
    assert_eq!(file_name("/w/uv.lock"), Some("uv.lock".to_string()));
    assert_eq!(file_name("/"), None);
    assert!(path_has_extension("/w/uv.lock"));
    assert!(!path_has_extension("/w/Makefile"));
    assert!(!path_has_extension("/w/.env"));
}

#[test]
fn runtime_container_naming_and_copy_out() {
    assert_eq!(run_container_name(true, 4242), Some("sbox-4242".to_string()));
    assert_eq!(run_container_name(false, 4242), None);
    let p = PendingOutput { container_target: "/workspace/uv.lock".to_string(), final_path: "/w/uv.lock".to_string() };
    assert_eq!(copy_out_args("sbox-1", &p), vec!["cp", "sbox-1:/workspace/uv.lock", "/w/uv.lock"]);
}

#[test]
fn exit_codes_of_finished_commands() {
    assert_eq!(status_to_exit_code(Some(0)), 0);
    assert_eq!(status_to_exit_code(Some(3)), 3);
    assert_eq!(status_to_exit_code(Some(300)), 1);
    assert_eq!(status_to_exit_code(Some(-1)), 1);
    assert_eq!(status_to_exit_code(None), 1);
    assert_eq!(run_exit_code(Some(300)), 44);
    assert_eq!(run_exit_code(Some(2)), 2);
    assert_eq!(run_exit_code(None), 1);
}

#[test]
fn sandbox_toolchain_grants_do_not_reach_credentials() {
    let mut f = facts();
    f.existing_paths.push("/home/u/.local".to_string());
    f.existing_paths.push("/home/u/.ssh".to_string());
    let p = NativeSandbox::plan(&policy(false), false, false, &f);
    for g in p.read_only.iter().chain(p.read_write.iter()) {
        for cred in ["/home/u/.ssh", "/home/u/.aws"] {
            assert!(cred != g && !cred.starts_with(&format!("{}/", g)), "{} reaches {}", g, cred);
        }
    }
    assert!(p.read_only.contains(&"/home/u/.local".to_string()));
}
