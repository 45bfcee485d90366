use sbox::backend::session::{docker_container_state, podman_container_state, ContainerState};
use sbox::backend::session::{ensure_after_inspect, ensure_after_run, EnsurePhase, EnsureStep};
use sbox::clean::{removal_args, removal_outcome, Removal};
use sbox::error::SboxError;
use sbox::logs::{logs_args, most_recent_session, no_session_error, resolve_session_name, session_prefix};
use sbox::shim::{activation_line, get_shim_dir, shim_script, shim_targets, verify_shims};
use sbox::status::{parse_sessions, render_status_text, status_prefix};

#[test]
fn shim_scripts_route_through_sbox_run() {
    let targets = shim_targets();
    assert_eq!(targets.len(), 17);
    assert_eq!(targets[0], "npm");
    assert_eq!(targets[16], "ruby");
    assert_eq!(
        shim_script("/usr/local/bin/sbox", "npm"),
        "#!/bin/sh\nexec \"/usr/local/bin/sbox\" run -- npm \"$@\"\n"
    );
}

#[test]
fn shim_dir_and_activation() {
    assert_eq!(get_shim_dir(Some("/home/u")).unwrap(), "/home/u/.local/share/sbox/shims");
    match get_shim_dir(None) {
        Err(SboxError::Execution(m)) => assert_eq!(m, "HOME environment variable not set"),
        other => panic!("unexpected: {:?}", other),
    }
    let (active, lines) = verify_shims("/home/u/.local/share/sbox/shims:/usr/bin", "/home/u/.local/share/sbox/shims");
    assert!(active);
    assert_eq!(lines.len(), 1);
    let (active, lines) = verify_shims("/usr/bin", "/home/u/.local/share/sbox/shims");
    assert!(!active);
    assert_eq!(lines[1], "Add it by running: export PATH=\"/home/u/.local/share/sbox/shims:$PATH\"");
    assert_eq!(activation_line("/s"), "  export PATH=\"/s:$PATH\"");
}

#[test]
fn logs_session_names() {
    assert_eq!(resolve_session_name(None, "abcd", "install"), "sbox-abcd-install");
    let template = "dev {profile}@{workspace_hash}".to_string();
    assert_eq!(resolve_session_name(Some(&template), "abcd", "run"), "dev-run-abcd");
    assert_eq!(session_prefix("abcd"), "sbox-abcd");
}

#[test]
fn logs_most_recent_session_is_last_line() {
    assert_eq!(most_recent_session("sbox-a-1\nsbox-a-2 \n"), Some("sbox-a-2".to_string()));
    assert_eq!(most_recent_session(""), None);
    assert_eq!(most_recent_session("sbox-a-1\n   \n"), None);
    match no_session_error() {
        SboxError::ConfigValidation { message } => assert!(message.starts_with("no running sbox session")),
        other => panic!("unexpected: {:?}", other),
    }
    assert_eq!(logs_args(50, true, "s"), vec!["logs", "--tail", "50", "--follow", "s"]);
    assert_eq!(logs_args(7, false, "s"), vec!["logs", "--tail", "7", "s"]);
}

#[test]
fn status_lists_workspace_sessions() {
    let listing = "sbox-ab-run\tnode:22\tUp 2 minutes\t2024-01-01\nother\tx\ty\tz\nsbox-ab-x\timg\n";
    let sessions = parse_sessions(listing, "sbox-ab");
    assert_eq!(sessions.len(), 2);
    assert_eq!(sessions[0].name, "sbox-ab-run");
    assert_eq!(sessions[0].image, "node:22");
    assert_eq!(sessions[0].status, "Up 2 minutes");
    assert_eq!(sessions[0].created, "2024-01-01");
    assert_eq!(sessions[1].image, "img");
    assert_eq!(sessions[1].status, "");
    let tabbed = parse_sessions("sbox-a\ti\ts\tc1\tc2\n", "sbox-");
    assert_eq!(tabbed[0].created, "c1\tc2");
    assert_eq!(status_prefix(true, Some("ab")), "sbox-");
    assert_eq!(status_prefix(false, Some("ab")), "sbox-ab");
    assert_eq!(status_prefix(false, None), "sbox-");
}

#[test]
fn status_text_rendering() {
    assert_eq!(
        render_status_text(&Vec::new(), "sbox-ab", false),
        "no active sessions for this workspace (prefix: sbox-ab)\nuse `sbox status --all` to see all workspaces\n"
    );
    assert_eq!(render_status_text(&Vec::new(), "sbox-", true), "no sbox-managed containers found on this host\n");
    let sessions = parse_sessions("sbox-ab-run\tnode:22\tUp\tnow\n", "sbox-ab");
    let text = render_status_text(&sessions, "sbox-ab", false);
    let expected = format!(
        "{:<40}  {:<30}  {:<20}  {}\n{}\n{:<40}  {:<30}  {:<20}  {}\n",
        "SESSION", "IMAGE", "STATUS", "CREATED", "-".repeat(100), "sbox-ab-run", "node:22", "Up", "now"
    );
    assert_eq!(text, expected);
}

#[test]
fn container_state_from_engines() {
    assert_eq!(podman_container_state(true, "true\n", Some(0), "s").unwrap(), ContainerState::Running);
    assert_eq!(podman_container_state(true, "false\n", Some(0), "s").unwrap(), ContainerState::Stopped);
    assert_eq!(podman_container_state(false, "", Some(125), "s").unwrap(), ContainerState::Missing);
    match podman_container_state(false, "", Some(2), "s") {
        Err(SboxError::BackendCommandFailed { backend, command, status }) => {
            assert_eq!((backend.as_str(), command.as_str(), status), ("podman", "podman inspect s", 2));
        },
        other => panic!("unexpected: {:?}", other),
    }
    assert_eq!(docker_container_state(" \n"), ContainerState::Missing);
    assert_eq!(docker_container_state("running\n"), ContainerState::Running);
    assert_eq!(docker_container_state("exited\n"), ContainerState::Stopped);
}

#[test]
fn session_bring_up_steps() {
    assert!(matches!(ensure_after_inspect(ContainerState::Running, "s", vec![]), EnsureStep::Ready));
    match ensure_after_inspect(ContainerState::Stopped, "s", vec![]) {
        EnsureStep::Run { args, phase } => {
            assert_eq!(args, vec!["start", "s"]);
            assert_eq!(phase, EnsurePhase::Starting);
        },
        _ => panic!("expected a start"),
    }
    match ensure_after_inspect(ContainerState::Missing, "s", vec!["create".to_string()]) {
        EnsureStep::Run { args, phase } => {
            assert_eq!(args, vec!["create"]);
            assert_eq!(phase, EnsurePhase::Creating);
        },
        _ => panic!("expected a create"),
    }
    match ensure_after_run("docker", EnsurePhase::Creating, true, Some(0), "s") {
        EnsureStep::Run { args, phase } => {
            assert_eq!(args, vec!["start", "s"]);
            assert_eq!(phase, EnsurePhase::Starting);
        },
        _ => panic!("expected a start"),
    }
    assert!(matches!(ensure_after_run("docker", EnsurePhase::Starting, true, Some(0), "s"), EnsureStep::Ready));
    match ensure_after_run("docker", EnsurePhase::Creating, false, None, "s") {
        EnsureStep::Failed(SboxError::BackendCommandFailed { command, status, .. }) => {
            assert_eq!(command, "docker create --name s ...");
            assert_eq!(status, 1);
        },
        _ => panic!("expected a failure"),
    }
    match ensure_after_run("podman", EnsurePhase::Starting, false, Some(3), "s") {
        EnsureStep::Failed(e) => assert_eq!(e.message(), "podman command `podman start s` exited with status 3"),
        _ => panic!("expected a failure"),
    }
}

#[test]
fn clean_removal_commands() {
    assert_eq!(removal_args(Removal::Image, "t"), vec!["image", "rm", "-f", "t"]);
    assert_eq!(removal_args(Removal::Container, "c"), vec!["rm", "-f", "c"]);
    assert!(removal_outcome(Removal::Volume, "v", true, Some(0)).is_ok());
    assert!(removal_outcome(Removal::Volume, "v", false, Some(1)).is_ok());
    match removal_outcome(Removal::Volume, "v", false, Some(125)) {
        Err(SboxError::BackendCommandFailed { command, status, .. }) => {
            assert_eq!(command, "podman volume rm -f v");
            assert_eq!(status, 125);
        },
        other => panic!("unexpected: {:?}", other),
    }
}
