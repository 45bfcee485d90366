use sbox::backend::podman::policy_text_supports_signature_verification;
use sbox::config::model::BackendKind;
use sbox::error::SboxError;
use sbox::harden::{analyze_project, compose_document_from_text, VolumeEntry};
use sbox::json::{parse_json, JsonValue};
use sbox::lock::{is_showable, locked_hash, verify_lock_text};
use sbox::policy::CommandPolicy;
use sbox::resolve::ResolvedImageSource;
use sbox::shadow::{compose_services_from_text, resolve_shadow_plan_from_text, InfraKind};
use sbox::yaml::{as_str, get, parse_yaml, YamlValue};

const CURRENT: &str = "0123456789abcdef";
const OTHER: &str = "fedcba9876543210";

fn some(s: &str) -> Option<String> {
    Some(s.to_string())
}

#[test]
fn lock_text_with_the_same_hash_passes() {
    let text = format!("{{\"version\": 1, \"dependency_hash\": \"{CURRENT}\"}}");
    assert!(matches!(verify_lock_text(&some(CURRENT), &Some(text)), Some(Ok(()))));
}

#[test]
fn lock_text_without_lock_or_dependencies() {
    assert!(matches!(verify_lock_text(&None, &None), Some(Ok(()))));
    match verify_lock_text(&some(CURRENT), &None) {
        Some(Err(SboxError::LockError(m))) => {
            assert_eq!(m, "Project has dependencies but no sbox lock. Run 'sbox lock' first.")
        }
        other => panic!("unexpected {other:?}"),
    }
    match verify_lock_text(&None, &some("not even json")) {
        Some(Err(SboxError::LockError(m))) => assert_eq!(m, "Project has an sbox lock but dependencies are missing."),
        other => panic!("unexpected {other:?}"),
    }
}

#[test]
fn lock_text_with_another_hash_is_a_tamper_error() {
    let text = format!("{{\"dependency_hash\": \"{OTHER}\"}}");
    match verify_lock_text(&some(CURRENT), &Some(text)) {
        Some(Err(SboxError::LockError(m))) => assert_eq!(
            m,
            "Integrity compromise detected! Dependencies differ from lockfile.\nExpected: fedcba98\nActual: 01234567\nRun 'sbox lock' to update the lockfile if this is expected."
        ),
        other => panic!("unexpected {other:?}"),
    }
}

#[test]
fn lock_text_that_is_no_json_is_an_io_error() {
    match verify_lock_text(&some(CURRENT), &some("{ not json")) {
        Some(Err(SboxError::Io(m))) => assert!(!m.is_empty()),
        other => panic!("unexpected {other:?}"),
    }
}

#[test]
fn lock_text_without_a_hash_cannot_be_shown() {
    assert!(verify_lock_text(&some(CURRENT), &some("{\"version\": 1}")).is_none());
    assert!(verify_lock_text(&some(CURRENT), &some("{\"dependency_hash\": 7}")).is_none());
    assert!(matches!(verify_lock_text(&some(""), &some("{\"version\": 1}")), Some(Ok(()))));
}

#[test]
fn showable_hashes_are_ascii_and_eight_long() {
    assert!(is_showable("abcdefgh"));
    assert!(!is_showable("abcdefg"));
    assert!(!is_showable("abcdéfghij"));
}

#[test]
fn locked_hash_reads_the_dependency_hash_string() {
    let doc = parse_json("{\"dependency_hash\": \"abc\", \"version\": 1}").expect("json");
    assert_eq!(locked_hash(&doc), Some("abc".to_string()));
    let doc = parse_json("[\"dependency_hash\"]").expect("json");
    assert_eq!(locked_hash(&doc), None);
}

#[test]
fn json_text_is_read_into_values() {
    match parse_json("{\"a\": [true, null, 3, \"x\"]}").expect("json") {
        JsonValue::Object(entries) => {
            assert_eq!(entries.len(), 1);
            assert_eq!(entries[0].0, "a");
            match &entries[0].1 {
                JsonValue::Array(items) => {
                    assert!(matches!(items[0], JsonValue::Bool(true)));
                    assert!(matches!(items[1], JsonValue::Null));
                    assert!(matches!(items[2], JsonValue::Number));
                    assert!(matches!(&items[3], JsonValue::Str(s) if s == "x"));
                }
                _ => panic!("expected an array"),
            }
        }
        _ => panic!("expected an object"),
    }
    assert!(parse_json("{").is_err());
}

#[test]
fn policy_text_is_parsed_before_it_is_judged() {
    let signed = "{\"default\": [{\"type\": \"signedBy\", \"keyType\": \"GPGKeys\"}]}";
    assert_eq!(policy_text_supports_signature_verification("/etc/containers/policy.json", signed).ok(), Some(true));
    let open = "{\"default\": [{\"type\": \"insecureAcceptAnything\"}]}";
    assert_eq!(policy_text_supports_signature_verification("/etc/containers/policy.json", open).ok(), Some(false));
    match policy_text_supports_signature_verification("/p.json", "nope") {
        Err(SboxError::ConfigValidation { message }) => assert!(message.starts_with("invalid containers policy /p.json: ")),
        other => panic!("unexpected {other:?}"),
    }
}

#[test]
fn yaml_text_is_read_with_tags_looked_through() {
    let v = parse_yaml("a: !custom hello\nb: [1, two]\n").expect("yaml");
    let a = get(&v, "a").expect("a");
    assert!(matches!(a, YamlValue::Tagged(_)));
    assert_eq!(as_str(a), Some("hello".to_string()));
    assert!(get(&v, "c").is_none());
    assert!(parse_yaml("a: [unclosed").is_err());
}

const COMPOSE: &str = "services:
  api:
    image: app:latest
    privileged: true
    ports:
      - \"8000:8000\"
      - 9000
    volumes:
      - .:/app
      - type: bind
        source: ./data
        target: /data
        read_only: true
  db:
    image: postgres:16
";

#[test]
fn compose_text_is_read_into_a_document() {
    let doc = compose_document_from_text("/w/compose.yml", COMPOSE).expect("compose");
    let services = doc.services.as_ref().expect("services");
    assert_eq!(services.len(), 2);
    assert_eq!(services[0].name.as_deref(), Some("api"));
    let api = services[0].spec.as_ref().expect("spec");
    assert_eq!(api.image.as_deref(), Some("app:latest"));
    assert_eq!(api.privileged, Some(true));
    assert_eq!(api.ports.as_ref().expect("ports"), &vec![Some("8000:8000".to_string()), None]);
    let volumes = api.volumes.as_ref().expect("volumes");
    assert!(matches!(&volumes[0], VolumeEntry::Text(t) if t == ".:/app"));
    assert!(matches!(
        &volumes[1],
        VolumeEntry::Table { read_only: Some(true), source: Some(s), target: Some(t) } if s == "./data" && t == "/data"
    ));
    let report = analyze_project(&doc, &None);
    assert!(report.compose_findings.iter().any(|f| f.summary == "service `api` uses `privileged: true`"));
    assert!(report.compose_findings.iter().any(|f| f.summary.contains("broad port mapping `8000:8000`")));
}

#[test]
fn compose_text_without_services_or_yaml() {
    let doc = compose_document_from_text("/w/compose.yml", "version: '3'\n").expect("compose");
    assert!(doc.services.is_none());
    match compose_document_from_text("/w/compose.yml", "services: [unclosed") {
        Err(SboxError::ConfigParse { path, message }) => {
            assert_eq!(path, "/w/compose.yml");
            assert!(!message.is_empty());
        }
        other => panic!("unexpected {:?}", other.is_ok()),
    }
}

#[test]
fn compose_services_keep_keys_and_images() {
    let cs = compose_services_from_text(COMPOSE).expect("compose");
    assert_eq!(
        cs.services.expect("services"),
        vec![
            (Some("api".to_string()), Some("app:latest".to_string())),
            (Some("db".to_string()), Some("postgres:16".to_string())),
        ]
    );
    match compose_services_from_text("services: [unclosed") {
        Err(SboxError::ShadowComposeGeneration { message }) => assert!(!message.is_empty()),
        _ => panic!("expected a generation error"),
    }
}

fn compose_infra(service: Option<&str>) -> InfraKind {
    InfraKind::Compose { file: "/w/compose.yml".into(), service: service.map(|s| s.to_string()) }
}

#[test]
fn shadow_plan_from_compose_text() {
    let command = vec!["npm".to_string(), "test".to_string()];
    let plan = resolve_shadow_plan_from_text(
        &compose_infra(None),
        &command,
        "/w",
        "/w",
        BackendKind::Podman,
        &Ok(COMPOSE.to_string()),
        7,
    )
    .expect("plan");
    assert_eq!(plan.profile_name, "shadow-compose-api");
    assert!(matches!(&plan.image.source, ResolvedImageSource::Reference(r) if r == "app:latest"));
    let plan = resolve_shadow_plan_from_text(
        &compose_infra(Some("db")),
        &command,
        "/w",
        "/w",
        BackendKind::Podman,
        &Ok(COMPOSE.to_string()),
        7,
    )
    .expect("plan");
    assert!(matches!(&plan.image.source, ResolvedImageSource::Reference(r) if r == "postgres:16"));
}

#[test]
fn shadow_plan_errors_from_compose_text() {
    let command = vec!["npm".to_string()];
    let run = |read: Result<String, String>| {
        resolve_shadow_plan_from_text(&compose_infra(None), &command, "/w", "/w", BackendKind::Docker, &read, 1)
    };
    match run(Err("permission denied".to_string())) {
        Err(SboxError::InfrastructureDetectionFailed { reason }) => {
            assert_eq!(reason, "failed to read compose file: permission denied")
        }
        _ => panic!("expected a detection error"),
    }
    match run(Ok("version: '3'\n".to_string())) {
        Err(SboxError::InfrastructureDetectionFailed { reason }) => {
            assert_eq!(reason, "invalid compose file: no services found")
        }
        _ => panic!("expected a detection error"),
    }
    assert!(matches!(run(Ok("services: [x".to_string())), Err(SboxError::ShadowComposeGeneration { .. })));
    let bare = resolve_shadow_plan_from_text(
        &InfraKind::Bare,
        &command,
        "/w",
        "/w",
        BackendKind::Docker,
        &Err("never read".to_string()),
        1,
    )
    .expect("plan");
    assert_eq!(bare.profile_name, "shadow-default");
}

#[test]
fn resolved_binary_is_named_by_the_command() {
    let policy = CommandPolicy::resolve("sh", &Vec::new(), "/w", &Vec::new()).expect("sh is on PATH");
    assert!(policy.binary_path.ends_with("/sh"));
    let policy = CommandPolicy::resolve("/bin/sh", &Vec::new(), "/w", &Vec::new()).expect("/bin/sh exists");
    assert_eq!(policy.binary_path, "/bin/sh");
    match CommandPolicy::resolve("sbox-no-such-binary-anywhere", &Vec::new(), "/w", &Vec::new()) {
        Err(SboxError::BinaryNotFound(name)) => assert_eq!(name, "sbox-no-such-binary-anywhere"),
        _ => panic!("expected a missing binary"),
    }
}
