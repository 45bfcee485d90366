//! Reusable container sessions: what the engine says of a session, and the
//! steps that bring one up (start a stopped one, or create and start a
//! missing one).

use vstd::prelude::*;

use crate::error::SboxError;
use crate::proxy::{trim, trim_str};
use crate::text::{concat2, concat3, eq_str, owned, push_string, str_chars, views};

verus! {

/// The state of a session's container.
#[derive(Clone, Copy, Debug, PartialEq, Eq, Structural)]
pub enum ContainerState {
    Running,
    Stopped,
    Missing,
}

/// The words of `podman` that ask whether a session runs.
pub fn podman_inspect_args(session_name: &str) -> (r: Vec<String>)
    ensures
        views(r@) == seq!["inspect"@, "--format"@, "{{.State.Running}}"@, session_name@],
{
    let mut v: Vec<String> = Vec::new();
    push_string(&mut v, owned("inspect"));
    push_string(&mut v, owned("--format"));
    push_string(&mut v, owned("{{.State.Running}}"));
    push_string(&mut v, owned(session_name));
    assert(views(v@) =~= seq!["inspect"@, "--format"@, "{{.State.Running}}"@, session_name@]);
    v
}

/// The state of a session from what `podman inspect` gave.
pub fn podman_container_state(success: bool, stdout: &str, code: Option<i32>, session_name: &str) -> (r: Result<
    ContainerState,
    SboxError,
>)
    ensures
        success ==> r == if trim(stdout@) == "true"@ {
            Ok::<ContainerState, SboxError>(ContainerState::Running)
        } else {
            Ok(ContainerState::Stopped)
        },
        !success && code == Some(125i32) ==> r == Ok::<ContainerState, SboxError>(ContainerState::Missing),
        !success && code != Some(125i32) ==> (r matches Err(SboxError::BackendCommandFailed { backend, command, status })
            && backend@ == "podman"@ && command@ == "podman inspect "@ + session_name@ && status == match code {
            Some(c) => c,
            None => 1,
        }),
{
    proof {
        reveal_strlit("true");
    }
    if success {
        let t = trim_str(stdout);
        if eq_str(t.as_str(), "true") {
            Ok(ContainerState::Running)
        } else {
            Ok(ContainerState::Stopped)
        }
    } else if code == Some(125i32) {
        Ok(ContainerState::Missing)
    } else {
        let status = match code {
            Some(c) => c,
            None => 1,
        };
        Err(
            SboxError::BackendCommandFailed {
                backend: owned("podman"),
                command: concat2("podman inspect ", session_name),
                status,
            },
        )
    }
}

/// The words of `docker` that list a session's state.
pub fn docker_state_args(session_name: &str) -> (r: Vec<String>)
    ensures
        views(r@) == seq![
            "container"@,
            "ls"@,
            "-a"@,
            "--filter"@,
            "name=^"@ + session_name@ + "$"@,
            "--format"@,
            "{{.State}}"@,
        ],
{
    let mut v: Vec<String> = Vec::new();
    push_string(&mut v, owned("container"));
    push_string(&mut v, owned("ls"));
    push_string(&mut v, owned("-a"));
    push_string(&mut v, owned("--filter"));
    push_string(&mut v, concat3("name=^", session_name, "$"));
    push_string(&mut v, owned("--format"));
    push_string(&mut v, owned("{{.State}}"));
    assert(views(v@) =~= seq![
        "container"@,
        "ls"@,
        "-a"@,
        "--filter"@,
        "name=^"@ + session_name@ + "$"@,
        "--format"@,
        "{{.State}}"@,
    ]);
    v
}

/// What `docker container ls` says of a session: missing when it printed
/// nothing, running when it printed `running`, stopped otherwise.
pub open spec fn docker_state(stdout: Seq<char>) -> ContainerState {
    if trim(stdout).len() == 0 {
        ContainerState::Missing
    } else if trim(stdout) == "running"@ {
        ContainerState::Running
    } else {
        ContainerState::Stopped
    }
}

/// The state of a session from what `docker container ls` printed.
pub fn docker_container_state(stdout: &str) -> (r: ContainerState)
    ensures
        r == docker_state(stdout@),
{
    proof {
        reveal_strlit("running");
    }
    let t = trim_str(stdout);
    if str_chars(t.as_str()).len() == 0 {
        ContainerState::Missing
    } else if eq_str(t.as_str(), "running") {
        ContainerState::Running
    } else {
        ContainerState::Stopped
    }
}

/// Which engine command was run last while bringing a session up.
#[derive(Clone, Copy, Debug, PartialEq, Eq, Structural)]
pub enum EnsurePhase {
    Starting,
    Creating,
}

/// What to do next to bring a session up.
pub enum EnsureStep {
    /// The session runs.
    Ready,
    /// Run the engine with these words, then report how it went.
    Run { args: Vec<String>, phase: EnsurePhase },
    /// Bringing the session up failed.
    Failed(SboxError),
}

/// The first step once the session's state is known: nothing when it runs,
/// start it when it is stopped, create it (with `create_args`) when missing.
pub fn ensure_after_inspect(state: ContainerState, session_name: &str, create_args: Vec<String>) -> (r: EnsureStep)
    ensures
        state == ContainerState::Running ==> r is Ready,
        state == ContainerState::Stopped ==> (r matches EnsureStep::Run { args, phase } && phase
            == EnsurePhase::Starting && views(args@) == seq!["start"@, session_name@]),
        state == ContainerState::Missing ==> (r matches EnsureStep::Run { args, phase } && phase
            == EnsurePhase::Creating && views(args@) == views(create_args@)),
{
    match state {
        ContainerState::Running => EnsureStep::Ready,
        ContainerState::Stopped => {
            let mut args: Vec<String> = Vec::new();
            push_string(&mut args, owned("start"));
            push_string(&mut args, owned(session_name));
            assert(views(args@) =~= seq!["start"@, session_name@]);
            EnsureStep::Run { args, phase: EnsurePhase::Starting }
        },
        ContainerState::Missing => EnsureStep::Run { args: create_args, phase: EnsurePhase::Creating },
    }
}

/// The step after an engine command ran: a start that succeeded leaves
/// the session up; a create that succeeded is followed by a start; a
/// failure of either is an error of `backend` with the command's status
/// (1 when it has none).
pub fn ensure_after_run(backend: &str, phase: EnsurePhase, success: bool, code: Option<i32>, session_name: &str) -> (r:
    EnsureStep)
    ensures
        success && phase == EnsurePhase::Starting ==> r is Ready,
        success && phase == EnsurePhase::Creating ==> (r matches EnsureStep::Run { args, phase: p } && p
            == EnsurePhase::Starting && views(args@) == seq!["start"@, session_name@]),
        !success ==> (r matches EnsureStep::Failed(SboxError::BackendCommandFailed { backend: b, command, status })
            && b@ == backend@ && status == match code {
            Some(c) => c,
            None => 1,
        } && command@ == if phase == EnsurePhase::Starting {
            backend@ + " start "@ + session_name@
        } else {
            backend@ + " create --name "@ + session_name@ + " ..."@
        }),
{
    if success {
        match phase {
            EnsurePhase::Starting => EnsureStep::Ready,
            EnsurePhase::Creating => {
                let mut args: Vec<String> = Vec::new();
                push_string(&mut args, owned("start"));
                push_string(&mut args, owned(session_name));
                assert(views(args@) =~= seq!["start"@, session_name@]);
                EnsureStep::Run { args, phase: EnsurePhase::Starting }
            },
        }
    } else {
        let status = match code {
            Some(c) => c,
            None => 1,
        };
        let command = match phase {
            EnsurePhase::Starting => concat3(backend, " start ", session_name),
            EnsurePhase::Creating => {
                let a = concat3(backend, " create --name ", session_name);
                concat2(a.as_str(), " ...")
            },
        };
        EnsureStep::Failed(SboxError::BackendCommandFailed { backend: owned(backend), command, status })
    }
}

} // verus!
