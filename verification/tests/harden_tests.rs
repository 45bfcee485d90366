use sbox::harden::{
    analyze_project, compose_override, resolve_compose_file, resolve_output_path, ComposeDocument, ComposeService,
    ServiceSpec, Severity, VolumeEntry,
};

fn spec(image: &str) -> ServiceSpec {
    ServiceSpec {
        image: Some(image.into()),
        privileged: None,
        network_mode: None,
        read_only: None,
        volumes: None,
        ports: None,
    }
}

fn service(name: &str, spec: ServiceSpec) -> ComposeService {
    ComposeService { name: Some(name.into()), spec: Some(spec) }
}

#[test]
fn resolve_output_defaults_next_to_compose_file() {
    let path = resolve_output_path("/tmp/docker-compose.yml", None);
    assert_eq!(path, "/tmp/docker-compose.sbox.yml");
}

#[test]
fn resolve_output_keeps_absolute_override_and_joins_relative_one() {
    assert_eq!(resolve_output_path("/srv/app/compose.yml", Some("/out/x.yml")), "/out/x.yml");
    assert_eq!(resolve_output_path("/srv/app/compose.yml", Some("hardened.yml")), "/srv/app/hardened.yml");
    assert_eq!(resolve_output_path("compose.yml", None), "docker-compose.sbox.yml");
}

#[test]
fn compose_file_is_found_among_usual_names() {
    let files = vec!["/proj/compose.yaml".to_string(), "/proj/podman-compose.yml".to_string()];
    assert_eq!(resolve_compose_file("/proj", None, &files).unwrap(), "/proj/compose.yaml");
    assert_eq!(resolve_compose_file("/proj", Some("other.yml"), &files).unwrap(), "/proj/other.yml");
    let err = resolve_compose_file("/empty", None, &files).unwrap_err();
    assert!(err.message().contains("no compose file found"));
}

#[test]
fn generates_compose_override_with_init_and_no_new_privileges() {
    let compose = ComposeDocument {
        services: Some(vec![service("api", spec("app:latest")), service("redis", spec("redis:7"))]),
    };
    let entries = compose_override(&compose);
    assert_eq!(entries.len(), 2);
    assert_eq!(entries[0].name, "api");
    assert!(entries.iter().all(|e| e.init));
    assert!(entries.iter().all(|e| e.security_opt == vec!["no-new-privileges:true".to_string()]));
}

#[test]
fn override_keeps_only_read_only_short_volumes() {
    let mut s = spec("app:latest");
    s.volumes = Some(vec![
        VolumeEntry::Text("./config:/etc/app:ro".into()),
        VolumeEntry::Text(".:/app".into()),
        VolumeEntry::Table { read_only: Some(true), source: Some("data".into()), target: Some("/data".into()) },
    ]);
    let entries = compose_override(&ComposeDocument { services: Some(vec![service("api", s)]) });
    assert_eq!(entries[0].volumes, vec!["./config:/etc/app:ro".to_string()]);
}

#[test]
fn dockerfile_report_flags_missing_user_and_healthcheck() {
    let compose = ComposeDocument { services: Some(Vec::new()) };
    let dockerfile = Some("FROM python:3.13-slim\nRUN python --version\n".to_string());
    let report = analyze_project(&compose, &dockerfile);
    assert!(report.dockerfile_findings.iter().any(|w| w.summary.contains("USER")));
    assert!(report.dockerfile_findings.iter().any(|w| w.summary.contains("HEALTHCHECK")));
}

#[test]
fn dockerfile_root_user_lines_are_numbered() {
    let compose = ComposeDocument { services: None };
    let dockerfile = Some("FROM debian\nUSER root\nRUN true\nuser  root \nHEALTHCHECK CMD true\n".to_string());
    let report = analyze_project(&compose, &dockerfile);
    let summaries: Vec<&str> = report.dockerfile_findings.iter().map(|f| f.summary.as_str()).collect();
    assert_eq!(summaries, vec!["Dockerfile line 2 runs as `root`", "Dockerfile line 4 runs as `root`"]);
}

#[test]
fn compose_report_flags_writable_service_and_broad_network_exposure() {
    let mut s = spec("app:latest");
    s.ports = Some(vec![Some("8000:8000".into())]);
    s.volumes = Some(vec![VolumeEntry::Text(".:/app".into())]);
    let report = analyze_project(&ComposeDocument { services: Some(vec![service("api", s)]) }, &None);
    assert!(report.compose_findings.iter().any(|w| w.summary.contains("root filesystem writable")));
    assert!(report.compose_findings.iter().any(|w| w.summary.contains("writable volume")));
    assert!(report.compose_findings.iter().any(|w| w.summary.contains("broad port mapping")));
}

#[test]
fn compose_report_ignores_expected_stateful_data_volumes() {
    let mut pg = spec("postgres:16");
    pg.volumes = Some(vec![VolumeEntry::Text("postgres_data:/var/lib/postgresql/data".into())]);
    let mut redis = spec("redis:7");
    redis.volumes = Some(vec![VolumeEntry::Text("redis_data:/data".into())]);
    let report = analyze_project(
        &ComposeDocument { services: Some(vec![service("postgres", pg), service("redis", redis)]) },
        &None,
    );
    assert!(!report.compose_findings.iter().any(|w| w.summary.contains("postgres")));
    assert!(!report.compose_findings.iter().any(|w| w.summary.contains("redis")));
}

#[test]
fn stateful_service_port_exposure_is_low_severity() {
    let mut pg = spec("postgres:16");
    pg.ports = Some(vec![Some("5433:5432".into())]);
    let mut api = spec("app:latest");
    api.ports = Some(vec![Some("8000:8000".into())]);
    let report = analyze_project(
        &ComposeDocument { services: Some(vec![service("postgres", pg), service("api", api)]) },
        &None,
    );
    let postgres = report
        .compose_findings
        .iter()
        .find(|w| w.summary.contains("postgres") && w.summary.contains("broad port mapping"))
        .expect("postgres port finding");
    assert_eq!(postgres.severity.label(), "low");
    let api = report
        .compose_findings
        .iter()
        .find(|w| w.summary.contains("api") && w.summary.contains("broad port mapping"))
        .expect("api port finding");
    assert_eq!(api.severity.label(), "medium");
}

#[test]
fn privileged_host_network_and_loopback_ports() {
    let mut s = spec("app:latest");
    s.privileged = Some(true);
    s.network_mode = Some("host".into());
    s.read_only = Some(true);
    s.ports = Some(vec![Some("127.0.0.1:8000:8000".into()), None, Some("9000".into())]);
    let report = analyze_project(&ComposeDocument { services: Some(vec![service("web", s)]) }, &None);
    let labels: Vec<(Severity, &str)> =
        report.compose_findings.iter().map(|f| (f.severity, f.summary.as_str())).collect();
    assert_eq!(
        labels,
        vec![
            (Severity::High, "service `web` uses `privileged: true`"),
            (Severity::High, "service `web` uses `network_mode: host`"),
        ]
    );
}
