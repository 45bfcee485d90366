use sbox::dispatch::command_string;

#[test]
fn command_string_joins_with_single_space() {
    assert_eq!(
        command_string(&["cargo".into(), "build".into()]),
        "cargo build"
    );
    assert_eq!(
        command_string(&["npm".into(), "install".into(), "--save".into()]),
        "npm install --save"
    );
}

#[test]
fn command_string_handles_empty_arguments() {
    assert_eq!(command_string(&[]), "");
    assert_eq!(command_string(&["single".into()]), "single");
}

#[test]
fn dispatch_tests_exact_match_requires_full_string_equality() {
    assert!(sbox::dispatch::matches("npm install", "npm install"));
    assert!(!sbox::dispatch::matches("npm install", "npm install lodash"));
    assert!(!sbox::dispatch::matches("npm install", "npm"));
}

#[test]
fn wildcard_prefix_matches_substring() {
    assert!(sbox::dispatch::matches("*install", "npm install"));
    assert!(sbox::dispatch::matches("*install", "cargo install"));
    assert!(sbox::dispatch::matches("*install", "npm uninstall"));
}

#[test]
fn wildcard_suffix_requires_match_at_end() {
    assert!(sbox::dispatch::matches("npm *", "npm install lodash"));
    assert!(sbox::dispatch::matches("npm *", "npm install"));
}

#[test]
fn wildcard_both_ends_matches_substring() {
    assert!(sbox::dispatch::matches("*install*", "npm install"));
    assert!(sbox::dispatch::matches("*install*", "cargo install"));
    assert!(sbox::dispatch::matches("*install*", "pip install --upgrade pip install"));
    assert!(sbox::dispatch::matches("*install*", "npm uninstall"));
}

#[test]
fn wildcard_middle_matches_substring() {
    assert!(sbox::dispatch::matches("npm * install", "npm ci install"));
    assert!(sbox::dispatch::matches("npm * install", "npm install install"));
    assert!(!sbox::dispatch::matches("npm * install", "npm ci"));
}

#[test]
fn multiple_wildcards_work_together() {
    assert!(sbox::dispatch::matches("cargo * *", "cargo install --help"));
    assert!(sbox::dispatch::matches("npm * --save", "npm install lodash --save"));
}

#[test]
fn pure_wildcard_matches_anything() {
    assert!(sbox::dispatch::matches("*", "anything"));
    assert!(sbox::dispatch::matches("*", ""));
    assert!(sbox::dispatch::matches("*", "cargo npm pip python"));
}

#[test]
fn special_regex_characters_are_literal() {
    assert!(sbox::dispatch::matches("npm install.", "npm install."));
    assert!(sbox::dispatch::matches("pip install[", "pip install["));
    assert!(sbox::dispatch::matches("curl http://", "curl http://"));
}

#[test]
fn cargo_build_patterns() {
    assert!(sbox::dispatch::matches("cargo build", "cargo build"));
    assert!(sbox::dispatch::matches("cargo build*", "cargo build"));
    assert!(sbox::dispatch::matches("cargo build*", "cargo build --release"));
    assert!(sbox::dispatch::matches(
        "cargo build*",
        "cargo build --release --target x86_64"
    ));
    assert!(!sbox::dispatch::matches("cargo build*", "cargo test"));
}

#[test]
fn python_patterns() {
    assert!(sbox::dispatch::matches("python *", "python -m pytest"));
    assert!(sbox::dispatch::matches("python *", "python script.py"));
    assert!(sbox::dispatch::matches("pip *", "pip install requests"));
    assert!(sbox::dispatch::matches("uv *", "uv sync"));
}

#[test]
fn node_patterns() {
    assert!(sbox::dispatch::matches("npm *", "npm install"));
    assert!(sbox::dispatch::matches("npm *", "npm ci"));
    assert!(sbox::dispatch::matches("npm *", "npm run build"));
    assert!(sbox::dispatch::matches("pnpm *", "pnpm install"));
    assert!(sbox::dispatch::matches("yarn *", "yarn install"));
}

#[test]
fn case_sensitive_matching() {
    assert!(sbox::dispatch::matches("Cargo Build", "Cargo Build"));
    assert!(!sbox::dispatch::matches("Cargo Build", "cargo build"));
}

#[test]
fn joins_command_tokens_with_single_spaces() {
    let command = vec!["cargo".to_string(), "build".to_string(), "--release".to_string()];
    assert_eq!(command_string(&command), "cargo build --release");
}

#[test]
fn dispatch_exact_match_requires_full_string_equality() {
    assert!(sbox::dispatch::matches("npm install", "npm install"));
    assert!(!sbox::dispatch::matches("npm install", "npm install lodash"));
}

#[test]
fn wildcard_match_handles_prefix_suffix_and_infix() {
    assert!(sbox::dispatch::matches("cargo build*", "cargo build --release"));
    assert!(sbox::dispatch::matches("*pytest", "python -m pytest"));
    assert!(sbox::dispatch::matches("python * pytest", "python -m pytest"));
    assert!(!sbox::dispatch::matches("cargo build*", "cargo test"));
}

#[test]
fn stars_absorb_extra_text() {
    use_star_checks();
}

fn use_star_checks() {
    let m = sbox::dispatch::matches;
    assert!(m("npm *", "npm ci"));
    assert!(m("*npm *", "sudo npm ci"));
    assert!(m("npm **", "npm ci --verbose"));
    assert!(m("*", "anything at all"));
    assert!(m("npm install", "npm install"));
    assert!(m("*npm install", "xx npm install"));
    assert!(m("npm install*", "npm install lodash"));
}

#[test]
fn port_specs_settle_after_one_pass() {
    let n = sbox::backend::podman::normalize_port_spec;
    assert_eq!(n("8000:8000"), "127.0.0.1:8000:8000");
    assert_eq!(n(&n("8000:8000")), n("8000:8000"));
    assert_eq!(n("0.0.0.0:8000:8000"), "0.0.0.0:8000:8000");
    assert_eq!(n("[::]:8000:8000"), "[::]:8000:8000");
    assert_eq!(n("8000"), "127.0.0.1:8000");
}
