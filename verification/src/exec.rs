//! The rules around running a plan: `-e` overrides, the security checks a
//! sandboxed run must pass, and the compose commands around it.

use vstd::prelude::*;

use crate::config::model::{BackendKind, Config, ExecutionMode};
use crate::error::SboxError;
use crate::resolve::{EnvVarSource, ExecutionPlan, ImageTrust, ResolvedEnvVar, ResolvedEnvironment};
use crate::text::{
    concat2, concat3, eq_str, has_char, is_ascii_alphanumeric, join, join_strings, owned, push_string,
    str_chars, string_from_chars, views,
};

verus! {

/// An ASCII letter.
pub open spec fn is_ascii_alpha(c: char) -> bool {
    ('a' <= c <= 'z') || ('A' <= c <= 'Z')
}

/// A valid environment variable name: a letter or `_`, then letters, digits
/// and `_`.
pub open spec fn valid_env_name(name: Seq<char>) -> bool {
    &&& name.len() > 0
    &&& (is_ascii_alpha(name[0]) || name[0] == '_')
    &&& forall|i: int| 1 <= i < name.len() ==> is_ascii_alphanumeric(#[trigger] name[i]) || name[i] == '_'
}

/// Whether a name is a valid environment variable name.
pub fn is_valid_env_name(name: &str) -> (r: bool)
    ensures
        r == valid_env_name(name@),
{
    let cs = str_chars(name);
    if cs.len() == 0 {
        return false;
    }
    let first = cs[0];
    if !(('a' <= first && first <= 'z') || ('A' <= first && first <= 'Z') || first == '_') {
        return false;
    }
    let mut i: usize = 1;
    while i < cs.len()
        invariant
            cs@ == name@,
            1 <= i <= cs@.len(),
            forall|j: int| 1 <= j < i ==> is_ascii_alphanumeric(#[trigger] name@[j]) || name@[j] == '_',
        decreases cs@.len() - i,
    {
        let c = cs[i];
        if !(crate::text::char_is_ascii_alphanumeric(c) || c == '_') {
            return false;
        }
        i = i + 1;
    }
    true
}

/// `entry.split_once('=')`: the parts before and after its first `=`.
pub open spec fn split_once_eq(entry: Seq<char>) -> Option<(Seq<char>, Seq<char>)> {
    if has_char(entry, '=') {
        let i = choose|i: int| 0 <= i < entry.len() && entry[i] == '=' && forall|j: int| 0 <= j < i ==> entry[j] != '=';
        Some((entry.take(i), entry.skip(i + 1)))
    } else {
        None
    }
}

/// A variable by its fields.
pub type VarView = (Seq<char>, Seq<char>, EnvVarSource);

/// Variables by their fields.
pub open spec fn var_views(v: Seq<ResolvedEnvVar>) -> Seq<VarView> {
    v.map_values(|x: ResolvedEnvVar| (x.name@, x.value@, x.source))
}

/// The variables not named `name`, in order.
pub open spec fn without_name(vars: Seq<VarView>, name: Seq<char>) -> Seq<VarView>
    decreases vars.len(),
{
    if vars.len() == 0 {
        Seq::empty()
    } else {
        without_name(vars.drop_last(), name) + if vars.last().0 != name {
            seq![vars.last()]
        } else {
            Seq::empty()
        }
    }
}

/// Why an override entry is refused, if it is.
pub open spec fn override_error(entry: Seq<char>) -> Option<Seq<char>> {
    match split_once_eq(entry) {
        None => Some("-e `"@ + entry + "` must be in NAME=VALUE format"@),
        Some((name, _)) => if !valid_env_name(name) {
            Some(
                "-e `"@ + entry + "`: `"@ + name
                    + "` is not a valid environment variable name (must be non-empty, start with a letter or underscore, and contain only letters, digits, or underscores)"@,
            )
        } else {
            None
        },
    }
}

/// The variables after the first `k` overrides: each replaces any variable
/// of its name and is added last.
pub open spec fn overridden(vars: Seq<VarView>, entries: Seq<Seq<char>>, k: int) -> Seq<VarView>
    decreases k,
{
    if k <= 0 {
        vars
    } else {
        let (name, value) = split_once_eq(entries[k - 1]).unwrap();
        without_name(overridden(vars, entries, k - 1), name).push((name, value, EnvVarSource::SetValue))
    }
}

/// The first override entry that is refused, if any.
pub open spec fn first_bad_override(entries: Seq<Seq<char>>) -> Option<int> {
    if exists|i: int| 0 <= i < entries.len() && (#[trigger] override_error(entries[i])) is Some {
        Some(choose|i: int| 0 <= i < entries.len() && (#[trigger] override_error(entries[i])) is Some
            && forall|j: int| 0 <= j < i ==> (#[trigger] override_error(entries[j])) is None)
    } else {
        None
    }
}

fn split_once_equals(entry: &str) -> (r: Option<(String, String)>)
    ensures
        match split_once_eq(entry@) {
            Some((a, b)) => r is Some && r.unwrap().0@ == a && r.unwrap().1@ == b,
            None => r is None,
        },
{
    let cs = str_chars(entry);
    let mut i: usize = 0;
    while i < cs.len()
        invariant
            cs@ == entry@,
            i <= cs@.len(),
            forall|j: int| 0 <= j < i ==> entry@[j] != '=',
        decreases cs@.len() - i,
    {
        if cs[i] == '=' {
            let ghost k = choose|k: int| 0 <= k < entry@.len() && entry@[k] == '=' && forall|j: int| 0 <= j < k ==> entry@[j] != '=';
            assert(k == i) by {
                if k < i {
                    assert(entry@[k] != '=');
                }
                if (i as int) < k {
                    assert(entry@[i as int] == '=');
                }
            }
            let name = string_from_chars(&crate::text::chars_take(&cs, i));
            let value = crate::text::str_skip(entry, i + 1);
            assert(name@ == entry@.take(i as int));
            return Some((name, value));
        }
        i = i + 1;
    }
    None
}

fn drop_named(vars: &Vec<ResolvedEnvVar>, name: &str) -> (r: Vec<ResolvedEnvVar>)
    ensures
        var_views(r@) == without_name(var_views(vars@), name@),
{
    let ghost vv = var_views(vars@);
    let mut out: Vec<ResolvedEnvVar> = Vec::new();
    let mut i: usize = 0;
    assert(var_views(out@) =~= without_name(vv.take(0), name@));
    while i < vars.len()
        invariant
            vv == var_views(vars@),
            i <= vv.len(),
            var_views(out@) == without_name(vv.take(i as int), name@),
        decreases vv.len() - i,
    {
        assert(vv.take(i + 1).drop_last() =~= vv.take(i as int));
        let v = &vars[i];
        assert(vv.take(i + 1).last() == (v.name@, v.value@, v.source));
        let ghost before = var_views(out@);
        if !eq_str(v.name.as_str(), name) {
            let c = ResolvedEnvVar { name: v.name.clone(), value: v.value.clone(), source: v.source };
            out.push(c);
            assert(var_views(out@) =~= before.push((v.name@, v.value@, v.source)));
        }
        assert(var_views(out@) =~= without_name(vv.take(i + 1), name@));
        i = i + 1;
    }
    assert(vv.take(vv.len() as int) =~= vv);
    out
}

proof fn lemma_first_bad_is(entries: Seq<Seq<char>>, i: int)
    requires
        0 <= i < entries.len(),
        forall|j: int| 0 <= j < i ==> (#[trigger] override_error(entries[j])) is None,
        override_error(entries[i]) is Some,
    ensures
        first_bad_override(entries) == Some(i),
{
    let k = choose|k: int| 0 <= k < entries.len() && (#[trigger] override_error(entries[k])) is Some
        && forall|j: int| 0 <= j < k ==> (#[trigger] override_error(entries[j])) is None;
    if i < k {
        assert(override_error(entries[i]) is None);
    }
}

proof fn lemma_none_bad(entries: Seq<Seq<char>>)
    requires
        forall|j: int| 0 <= j < entries.len() ==> (#[trigger] override_error(entries[j])) is None,
    ensures
        first_bad_override(entries) is None,
{
}

/// Applies overrides to a list of variables, stopping at the first refused one.
fn override_vars(vars: &mut Vec<ResolvedEnvVar>, overrides: &Vec<String>) -> (r: Result<(), SboxError>)
    ensures
        match first_bad_override(views(overrides@)) {
            Some(j) => {
                &&& var_views(final(vars)@) == overridden(var_views(old(vars)@), views(overrides@), j)
                &&& r matches Err(SboxError::ConfigValidation { message }) && message@ == override_error(
                    views(overrides@)[j],
                ).unwrap()
            },
            None => {
                &&& r is Ok
                &&& var_views(final(vars)@) == overridden(
                    var_views(old(vars)@),
                    views(overrides@),
                    overrides@.len() as int,
                )
            },
        },
{
    let ghost entries = views(overrides@);
    let ghost start = var_views(vars@);
    let mut i: usize = 0;
    while i < overrides.len()
        invariant
            entries == views(overrides@),
            i <= entries.len(),
            forall|j: int| 0 <= j < i ==> (#[trigger] override_error(entries[j])) is None,
            var_views(vars@) == overridden(start, entries, i as int),
            start == var_views(old(vars)@),
        decreases entries.len() - i,
    {
        let entry = overrides[i].as_str();
        assert(entries[i as int] == entry@);
        proof {
            reveal_strlit("-e `");
            reveal_strlit("` must be in NAME=VALUE format");
            reveal_strlit("`: `");
            reveal_strlit("` is not a valid environment variable name (must be non-empty, start with a letter or underscore, and contain only letters, digits, or underscores)");
        }
        let (name, value) = match split_once_equals(entry) {
            Some(p) => p,
            None => {
                let message = concat3("-e `", entry, "` must be in NAME=VALUE format");
                proof {
                    lemma_first_bad_is(entries, i as int);
                }
                return Err(SboxError::ConfigValidation { message });
            },
        };
        if !is_valid_env_name(name.as_str()) {
            let a = concat3("-e `", entry, "`: `");
            let message = concat3(
                a.as_str(),
                name.as_str(),
                "` is not a valid environment variable name (must be non-empty, start with a letter or underscore, and contain only letters, digits, or underscores)",
            );
            proof {
                lemma_first_bad_is(entries, i as int);
            }
            return Err(SboxError::ConfigValidation { message });
        }
        let mut kept = drop_named(vars, name.as_str());
        let ghost nv = name@;
        let ghost vv = value@;
        let ghost before = var_views(kept@);
        kept.push(ResolvedEnvVar { name, value, source: EnvVarSource::SetValue });
        assert(var_views(kept@) =~= before.push((nv, vv, EnvVarSource::SetValue)));
        *vars = kept;
        i = i + 1;
    }
    proof {
        lemma_none_bad(entries);
    }
    Ok(())
}

/// Applies `-e NAME=VALUE` overrides in order: each replaces any variable of
/// that name and is added last. The first malformed entry or invalid name
/// stops it with an error, the earlier overrides applied. Nothing else of
/// the plan changes.
pub fn apply_env_overrides(plan: &mut ExecutionPlan, overrides: &Vec<String>) -> (r: Result<(), SboxError>)
    ensures
        final(plan).environment.denied == old(plan).environment.denied,
        final(plan).command == old(plan).command,
        final(plan).policy == old(plan).policy,
        final(plan).mounts == old(plan).mounts,
        final(plan).image == old(plan).image,
        final(plan).audit == old(plan).audit,
        match first_bad_override(views(overrides@)) {
            Some(j) => {
                &&& var_views(final(plan).environment.variables@) == overridden(
                    var_views(old(plan).environment.variables@),
                    views(overrides@),
                    j,
                )
                &&& r matches Err(SboxError::ConfigValidation { message }) && message@ == override_error(
                    views(overrides@)[j],
                ).unwrap()
            },
            None => {
                &&& r is Ok
                &&& var_views(final(plan).environment.variables@) == overridden(
                    var_views(old(plan).environment.variables@),
                    views(overrides@),
                    overrides@.len() as int,
                )
            },
        },
{
    override_vars(&mut plan.environment.variables, overrides)
}

/// The compose program and arguments for a verb on a compose file:
/// `podman-compose -f FILE VERB`, or `docker compose -f FILE VERB`.
pub open spec fn compose_words(backend: BackendKind, file: Seq<char>, verb: Seq<char>) -> (Seq<char>, Seq<Seq<char>>) {
    match backend {
        BackendKind::Podman => ("podman-compose"@, seq!["-f"@, file, verb]),
        BackendKind::Docker => ("docker"@, seq!["compose"@, "-f"@, file, verb]),
    }
}

/// The compose program and arguments for a verb on a compose file.
pub fn compose_command(backend: BackendKind, file: &str, verb: &str) -> (r: (String, Vec<String>))
    ensures
        (r.0@, views(r.1@)) == compose_words(backend, file@, verb@),
{
    let mut args: Vec<String> = Vec::new();
    let program = match backend {
        BackendKind::Podman => owned("podman-compose"),
        BackendKind::Docker => {
            push_string(&mut args, owned("compose"));
            owned("docker")
        },
    };
    push_string(&mut args, owned("-f"));
    push_string(&mut args, owned(file));
    push_string(&mut args, owned(verb));
    proof {
        reveal_strlit("compose");
        reveal_strlit("-f");
    }
    assert(views(args@) =~= compose_words(backend, file@, verb@).1);
    (program, args)
}

/// Compose services started for a run, to be stopped after it.
pub struct ComposeCleanup {
    pub backend: String,
    pub file: String,
    pub services: Vec<String>,
}

impl ComposeCleanup {
    /// The compose program and arguments that stop the services: the
    /// backend is Docker when it was `docker`, else Podman.
    pub fn stop_command(&self) -> (r: (String, Vec<String>))
        ensures
            (r.0@, views(r.1@)) == {
                let (p, a) = compose_words(
                    if self.backend@ == "docker"@ {
                        BackendKind::Docker
                    } else {
                        BackendKind::Podman
                    },
                    self.file@,
                    "stop"@,
                );
                (p, a + views(self.services@))
            },
    {
        proof {
            reveal_strlit("docker");
        }
        let kind = if eq_str(self.backend.as_str(), "docker") {
            BackendKind::Docker
        } else {
            BackendKind::Podman
        };
        let (program, mut args) = compose_command(kind, self.file.as_str(), "stop");
        let more = crate::text::clone_strings(&self.services);
        crate::text::add_all(&mut args, more);
        (program, args)
    }
}

/// A pinned image is required: in the sandbox, under strict security or when
/// the profile asks for one.
pub open spec fn trusted_image_needed(plan: ExecutionPlan, strict_security: bool) -> bool {
    plan.mode == ExecutionMode::Sandbox && (strict_security || plan.audit.trusted_image_required)
}

/// Whether a run requires a pinned image.
pub fn trusted_image_required(plan: &ExecutionPlan, strict_security: bool) -> (r: bool)
    ensures
        r == trusted_image_needed(*plan, strict_security),
{
    plan.mode == ExecutionMode::Sandbox && (strict_security || plan.audit.trusted_image_required)
}

/// Strict security is on: by the command-line flag or the runtime setting.
pub open spec fn strict_security_on(cli_flag: bool, c: Config) -> bool {
    cli_flag || match c.runtime {
        Some(rt) => rt.strict_security == Some(true),
        None => false,
    }
}

/// Whether strict security is on.
pub fn strict_security_enabled(cli_flag: bool, config: &Config) -> (r: bool)
    ensures
        r == strict_security_on(cli_flag, *config),
{
    cli_flag || match &config.runtime {
        Some(rt) => rt.strict_security == Some(true),
        None => false,
    }
}

/// Why a sandboxed plan may not run, if it may not: a mutable image where a
/// pinned one is required; under strict security, credential pass-throughs or
/// a missing required lockfile for an install; and, for any install with the
/// network on, credential pass-throughs.
pub open spec fn safety_violation(plan: ExecutionPlan, strict_security: bool) -> Option<Seq<char>> {
    let sensitive = views(plan.audit.sensitive_pass_through_vars@);
    let lock = plan.audit.lockfile;
    if plan.mode != ExecutionMode::Sandbox {
        None
    } else if trusted_image_needed(plan, strict_security) && plan.image.trust == ImageTrust::MutableReference {
        Some("strict security requires a pinned image digest or local build for sandbox execution"@)
    } else if strict_security && sensitive.len() > 0 {
        Some("strict security forbids sensitive host pass-through vars in sandbox mode: "@ + join(sensitive, ", "@))
    } else if strict_security && plan.audit.install_style && lock.applicable && lock.required && !lock.present {
        Some(
            "strict security requires a lockfile for install-style commands: expected "@ + join(
                views(lock.expected_files@),
                " or "@,
            ),
        )
    } else if plan.policy.network@ == "off"@ || !plan.audit.install_style || sensitive.len() == 0 {
        None
    } else {
        Some("install-style sandbox command has network enabled and sensitive pass-through vars: "@ + join(sensitive, ", "@))
    }
}

/// Checks that a plan may run under the security policy.
pub fn validate_execution_safety(plan: &ExecutionPlan, strict_security: bool) -> (r: Result<(), SboxError>)
    ensures
        match safety_violation(*plan, strict_security) {
            None => r is Ok,
            Some(reason) => r matches Err(SboxError::UnsafeExecutionPolicy { command, reason: why }) && command@
                == plan.command_string@ && why@ == reason,
        },
{
    proof {
        reveal_strlit("off");
        reveal_strlit(", ");
        reveal_strlit(" or ");
    }
    if plan.mode != ExecutionMode::Sandbox {
        return Ok(());
    }
    let sensitive = &plan.audit.sensitive_pass_through_vars;
    if trusted_image_required(plan, strict_security) && plan.image.trust == ImageTrust::MutableReference {
        return Err(
            SboxError::UnsafeExecutionPolicy {
                command: plan.command_string.clone(),
                reason: owned("strict security requires a pinned image digest or local build for sandbox execution"),
            },
        );
    }
    if strict_security && sensitive.len() > 0 {
        let list = join_strings(sensitive.as_slice(), ", ");
        return Err(
            SboxError::UnsafeExecutionPolicy {
                command: plan.command_string.clone(),
                reason: concat2("strict security forbids sensitive host pass-through vars in sandbox mode: ", list.as_str()),
            },
        );
    }
    let lock = &plan.audit.lockfile;
    if strict_security && plan.audit.install_style && lock.applicable && lock.required && !lock.present {
        let list = join_strings(lock.expected_files.as_slice(), " or ");
        return Err(
            SboxError::UnsafeExecutionPolicy {
                command: plan.command_string.clone(),
                reason: concat2("strict security requires a lockfile for install-style commands: expected ", list.as_str()),
            },
        );
    }
    if eq_str(plan.policy.network.as_str(), "off") || !plan.audit.install_style || sensitive.len() == 0 {
        return Ok(());
    }
    let list = join_strings(sensitive.as_slice(), ", ");
    Err(
        SboxError::UnsafeExecutionPolicy {
            command: plan.command_string.clone(),
            reason: concat2(
                "install-style sandbox command has network enabled and sensitive pass-through vars: ",
                list.as_str(),
            ),
        },
    )
}


/// The exit code that reports a finished command: its status when it fits
/// in a byte, else 1; 1 when it was ended by a signal.
pub fn status_to_exit_code(code: Option<i32>) -> (r: u8)
    ensures
        r == match code {
            Some(c) => if 0 <= c <= 255 {
                c as u8
            } else {
                1u8
            },
            None => 1u8,
        },
{
    match code {
        Some(c) => if 0 <= c && c <= 255 {
            c as u8
        } else {
            1
        },
        None => 1,
    }
}

/// The exit code `sbox run` ends with: the sandboxed command's status, or 1
/// when it was ended by a signal, cut to its lowest byte.
pub fn run_exit_code(code: Option<i32>) -> (r: u8)
    ensures
        r == match code {
            Some(c) => c as u8,
            None => 1u8,
        },
{
    match code {
        Some(c) => c as u8,
        None => 1,
    }
}

} // verus!
