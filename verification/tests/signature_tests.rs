use sbox::backend::podman::{
    policy_supports_signature_verification, requirements_enable_signature_verification, resolve_signature_policy_path,
    signature_support, SkopeoProbe,
};
use sbox::json::{json_get, JsonValue};
use sbox::doctor::SignatureSupport;

fn s(v: &str) -> JsonValue {
    JsonValue::Str(v.to_string())
}

fn obj(entries: Vec<(&str, JsonValue)>) -> JsonValue {
    JsonValue::Object(entries.into_iter().map(|(k, v)| (k.to_string(), v)).collect())
}

fn requirement(kind: &str) -> JsonValue {
    obj(vec![("type", s(kind)), ("keyType", s("GPGKeys")), ("keyPath", s("/tmp/test.pub"))])
}

#[test]
fn requirements_detect_signed_by_policy() {
    let requirements = JsonValue::Array(vec![requirement("signedBy")]);
    assert!(requirements_enable_signature_verification(&requirements));
}

#[test]
fn insecure_accept_anything_policy_is_not_verifying() {
    let policy = obj(vec![("default", JsonValue::Array(vec![obj(vec![("type", s("insecureAcceptAnything"))])]))]);
    assert!(!policy_supports_signature_verification(&policy));
}

#[test]
fn signed_policy_is_detected_as_verifying() {
    let policy = obj(vec![("default", JsonValue::Array(vec![requirement("signedBy")]))]);
    assert!(policy_supports_signature_verification(&policy));
}

#[test]
fn transport_scopes_are_inspected() {
    let policy = obj(vec![
        ("default", JsonValue::Array(vec![obj(vec![("type", s("reject"))])])),
        (
            "transports",
            obj(vec![(
                "docker-daemon",
                obj(vec![("", JsonValue::Array(vec![requirement("sigstoreSigned")]))]),
            )]),
        ),
    ]);
    assert!(policy_supports_signature_verification(&policy));
    let other = obj(vec![(
        "transports",
        obj(vec![("oci", obj(vec![("", JsonValue::Array(vec![requirement("signedBy")]))]))]),
    )]);
    assert!(!policy_supports_signature_verification(&other));
    assert!(!requirements_enable_signature_verification(&requirement("signedBy")));
    assert!(!requirements_enable_signature_verification(&JsonValue::Null));
    assert!(json_get(&JsonValue::Number, "type").is_none());
}

#[test]
fn policy_path_preference() {
    let files = vec![
        "/etc/containers/policy.json".to_string(),
        "/home/u/.config/containers/policy.json".to_string(),
        "/tmp/p.json".to_string(),
    ];
    assert_eq!(
        resolve_signature_policy_path(Some("/tmp/p.json"), Some("/home/u"), &files),
        Some("/tmp/p.json".to_string())
    );
    assert_eq!(
        resolve_signature_policy_path(Some("/tmp/missing.json"), Some("/home/u"), &files),
        Some("/home/u/.config/containers/policy.json".to_string())
    );
    assert_eq!(
        resolve_signature_policy_path(None, None, &files),
        Some("/etc/containers/policy.json".to_string())
    );
    assert_eq!(resolve_signature_policy_path(None, None, &Vec::new()), None);
}

#[test]
fn signature_support_outcomes() {
    match signature_support(SkopeoProbe::Missing, None, true) {
        SignatureSupport::Unavailable { policy: None, reason } => assert_eq!(reason, "skopeo is not installed"),
        _ => panic!("expected unavailable"),
    }
    match signature_support(SkopeoProbe::Usable, Some("/p.json".to_string()), false) {
        SignatureSupport::Unavailable { policy: Some(p), reason } => {
            assert_eq!(p, "/p.json");
            assert_eq!(reason, "policy does not enforce signature verification");
        },
        _ => panic!("expected unavailable"),
    }
    match signature_support(SkopeoProbe::Usable, Some("/p.json".to_string()), true) {
        SignatureSupport::Available { policy } => assert_eq!(policy, "/p.json"),
        _ => panic!("expected available"),
    }
}
