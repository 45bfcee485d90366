use sbox::policy::CommandPolicy;

#[test]
fn test_detect_network_policy_install() {
    assert!(CommandPolicy::detect_network_policy("npm", &vec!["install".to_string()]));
    assert!(CommandPolicy::detect_network_policy("uv", &vec!["sync".to_string()]));
    assert!(CommandPolicy::detect_network_policy("cargo", &vec!["add".to_string(), "serde".to_string()]));
}

#[test]
fn test_detect_network_policy_build_and_test() {
    assert!(!CommandPolicy::detect_network_policy("cargo", &vec!["build".to_string()]));
    assert!(!CommandPolicy::detect_network_policy("npm", &vec!["test".to_string()]));
    assert!(!CommandPolicy::detect_network_policy("python", &vec!["main.py".to_string()]));
}

#[test]
fn resolved_policy_grants_existing_build_directories() {
    let existing = vec!["/usr/bin/cargo".to_string(), "/work/target".to_string()];
    let policy = CommandPolicy::from_binary(
        Some("/usr/bin/cargo".to_string()),
        "cargo",
        &vec!["build".to_string()],
        "/work",
        &existing,
    )
    .expect("binary was found");
    assert_eq!(policy.program_name, "cargo");
    assert!(!policy.network_enabled);
    assert!(policy.writable_paths.contains(&"/work/target".to_string()));
}

#[test]
fn missing_binary_is_reported() {
    let result = CommandPolicy::from_binary(None, "nosuchtool", &Vec::new(), "/work", &Vec::new());
    assert!(matches!(result, Err(sbox::error::SboxError::BinaryNotFound(ref n)) if n == "nosuchtool"));
}
