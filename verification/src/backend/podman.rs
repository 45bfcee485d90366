//! The Podman command lines of a plan, and the output files a run seeds.

use vstd::prelude::*;

use crate::backend::args::{
    binds_have_sources, env_args, first_bad_secret, first_unknown_mount, flag_pairs, format_user,
    home_view, network_args, push2, push_flag_pairs, push_network_args, push_security_args,
    secret_check, secret_error_matches, security_args, user_spec, HostContext,
};
use crate::backend::docker::{
    allow_args, args_outcome, metadata_args, pull_args, push_allow_args, push_metadata_args,
    push_pull_args, push_storage_args, storage_args,
};
use crate::error::SboxError;
use crate::json::{json_get, json_member, lookup, lookup_exec, JsonValue};
use crate::resolve::{ExecutionPlan, ResolvedMount, ResolvedUser};
use crate::text::{concat2, has_char, owned, push_string, starts_with, str_chars, str_starts_with, views};

verus! {

/// How many times `c` occurs in `s`.
pub open spec fn count_char(s: Seq<char>, c: char) -> nat
    decreases s.len(),
{
    if s.len() == 0 {
        0
    } else {
        count_char(s.drop_last(), c) + if s.last() == c {
            1nat
        } else {
            0nat
        }
    }
}

/// A published port with an explicit host address: `host:container` gets
/// `127.0.0.1:` in front; specs with an address (two or more `:`) or an IPv6
/// one (`[`…) stay as they are.
pub open spec fn port_spec(spec: Seq<char>) -> Seq<char> {
    if count_char(spec, ':') >= 2 || starts_with(spec, "["@) {
        spec
    } else {
        "127.0.0.1:"@ + spec
    }
}

/// A published port with an explicit host address.
pub fn normalize_port_spec(spec: &str) -> (r: String)
    ensures
        r@ == port_spec(spec@),
{
    let cs = str_chars(spec);
    let mut count: usize = 0;
    let mut i: usize = 0;
    while i < cs.len()
        invariant
            cs@ == spec@,
            i <= cs@.len(),
            count == count_char(spec@.take(i as int), ':'),
            count <= i,
        decreases cs@.len() - i,
    {
        assert(spec@.take(i + 1).drop_last() =~= spec@.take(i as int));
        if cs[i] == ':' {
            count = count + 1;
        }
        i = i + 1;
    }
    assert(spec@.take(cs@.len() as int) =~= spec@);
    if count >= 2 || str_starts_with(spec, "[") {
        owned(spec)
    } else {
        concat2("127.0.0.1:", spec)
    }
}

/// The ports of a plan, each with an explicit host address.
pub open spec fn port_specs(ports: Seq<Seq<char>>) -> Seq<Seq<char>> {
    ports.map_values(|p: Seq<char>| port_spec(p))
}

fn push_port_args(args: &mut Vec<String>, ports: &Vec<String>)
    ensures
        views(final(args)@) == views(old(args)@) + flag_pairs("--publish"@, port_specs(views(ports@))),
{
    let mut normalized: Vec<String> = Vec::new();
    let mut i: usize = 0;
    while i < ports.len()
        invariant
            i <= ports@.len(),
            views(normalized@) == port_specs(views(ports@)).take(i as int),
        decreases ports@.len() - i,
    {
        let ghost before = views(normalized@);
        let p = normalize_port_spec(ports[i].as_str());
        let ghost pv = p@;
        normalized.push(p);
        assert(views(normalized@) =~= before.push(pv));
        assert(views(normalized@) =~= port_specs(views(ports@)).take(i + 1));
        i = i + 1;
    }
    assert(port_specs(views(ports@)).take(ports@.len() as int) =~= port_specs(views(ports@)));
    push_flag_pairs(args, "--publish", &normalized);
}

/// The user words under Podman: `keep-id` maps the caller into the
/// container (with SELinux labelling off), explicit ids are passed as they are.
pub open spec fn podman_user_args(user: ResolvedUser) -> Seq<Seq<char>> {
    match user {
        ResolvedUser::KeepId => seq!["--userns"@, "keep-id"@, "--security-opt"@, "label=disable"@],
        ResolvedUser::Explicit { uid, gid } => seq!["--user"@, user_spec(uid, gid)],
        ResolvedUser::Default => Seq::empty(),
    }
}

fn push_podman_user_args(args: &mut Vec<String>, user: ResolvedUser)
    ensures
        views(final(args)@) == views(old(args)@) + podman_user_args(user),
{
    let ghost start = views(args@);
    match user {
        ResolvedUser::KeepId => {
            push2(args, "--userns", "keep-id");
            push2(args, "--security-opt", "label=disable");
        },
        ResolvedUser::Explicit { uid, gid } => {
            let u = format_user(uid, gid);
            push2(args, "--user", u.as_str());
        },
        ResolvedUser::Default => {},
    }
    assert(views(args@) =~= start + podman_user_args(user));
}

/// The hardening, network, port and user settings under Podman, with the
/// allow-list (DNS pointed nowhere, each allowed host as a host entry) and
/// the cloud metadata host names sunk whenever the network is on; one-off
/// and session containers alike.
pub open spec fn podman_front(plan: ExecutionPlan) -> Seq<Seq<char>> {
    let pol = plan.policy;
    security_args(pol.read_only_rootfs, pol.no_new_privileges, views(pol.cap_drop@), views(pol.cap_add@))
        + network_args(pol.network@) + allow_args(crate::network::pair_views(pol.network_allow@)) + metadata_args(
        pol.network@,
    ) + flag_pairs("--publish"@, port_specs(views(pol.ports@))) + podman_user_args(plan.user)
}

fn push_podman_front(args: &mut Vec<String>, plan: &ExecutionPlan)
    ensures
        views(final(args)@) == views(old(args)@) + podman_front(*plan),
{
    let ghost s0 = views(args@);
    let pol = &plan.policy;
    push_security_args(args, pol.read_only_rootfs, pol.no_new_privileges, &pol.cap_drop, &pol.cap_add);
    let ghost s1 = views(args@);
    push_network_args(args, pol.network.as_str());
    let ghost s2 = views(args@);
    push_allow_args(args, &pol.network_allow);
    push_metadata_args(args, pol.network.as_str());
    let ghost s3 = views(args@);
    push_port_args(args, &pol.ports);
    let ghost s4 = views(args@);
    push_podman_user_args(args, plan.user);
    assert(views(args@) =~= s0 + podman_front(*plan));
}

/// The words after the settings: the pull policy, then the command's program
/// as entrypoint before the image and its arguments (just the image when
/// there is no command).
pub open spec fn podman_tail(pull: Option<String>, image: Seq<char>, command: Seq<Seq<char>>) -> Seq<Seq<char>> {
    pull_args(pull) + if command.len() > 0 {
        seq!["--entrypoint"@, command[0], image] + command.drop_first()
    } else {
        seq![image]
    }
}

/// The `podman run` words for a plan run with `mounts` and `command`: a named
/// container (kept for copying files out) or a throw-away one, interactive,
/// with a terminal when `tty`, then its settings and the tail.
pub open spec fn podman_run_words(
    plan: ExecutionPlan,
    mounts: Seq<ResolvedMount>,
    image: Seq<char>,
    tty: bool,
    command: Seq<Seq<char>>,
    name: Option<Seq<char>>,
    ctx: HostContext,
) -> Seq<Seq<char>> {
    seq!["run"@] + (match name {
        Some(n) => seq!["--name"@, n],
        None => seq!["--rm"@],
    }) + seq!["-i"@] + (if tty {
        seq!["-t"@]
    } else {
        Seq::empty()
    }) + seq!["--workdir"@, plan.workspace.sandbox_cwd@] + podman_front(plan) + storage_args(
        plan,
        mounts,
        ctx,
        true,
    ) + podman_tail(plan.policy.pull_policy, image, command)
}

/// The `podman run` arguments for a plan run with `mounts` and `command`, in
/// a container called `container_name` when one is given.
pub fn build_run_args_impl(
    plan: &ExecutionPlan,
    mounts: &Vec<ResolvedMount>,
    image: &str,
    tty: bool,
    command: &Vec<String>,
    container_name: &Option<String>,
    ctx: &HostContext,
) -> (r: Result<Vec<String>, SboxError>)
    requires
        binds_have_sources(mounts@),
    ensures
        args_outcome(
            *plan,
            mounts@,
            *ctx,
            podman_run_words(
                *plan,
                mounts@,
                image@,
                tty,
                views(command@),
                crate::resolve::opt_chars(*container_name),
                *ctx,
            ),
            r,
        ),
{
    let mut args: Vec<String> = Vec::new();
    assert(views(args@) =~= Seq::<Seq<char>>::empty());
    push_string(&mut args, owned("run"));
    match container_name {
        Some(n) => push2(&mut args, "--name", n.as_str()),
        None => push_string(&mut args, owned("--rm")),
    }
    push_string(&mut args, owned("-i"));
    if tty {
        push_string(&mut args, owned("-t"));
    }
    push2(&mut args, "--workdir", plan.workspace.sandbox_cwd.as_str());
    let ghost head = views(args@);
    proof {
        reveal_strlit("run");
        reveal_strlit("--rm");
        reveal_strlit("-i");
        reveal_strlit("-t");
        assert(head =~= seq!["run"@] + (match crate::resolve::opt_chars(*container_name) {
            Some(n) => seq!["--name"@, n],
            None => seq!["--rm"@],
        }) + seq!["-i"@] + (if tty {
            seq!["-t"@]
        } else {
            Seq::<Seq<char>>::empty()
        }) + seq!["--workdir"@, plan.workspace.sandbox_cwd@]);
    }
    push_podman_front(&mut args, plan);
    let ghost front = views(args@);
    match push_storage_args(&mut args, plan, mounts, ctx, true) {
        Ok(()) => {},
        Err(e) => return Err(e),
    }
    let ghost stored = views(args@);
    push_pull_args(&mut args, &plan.policy.pull_policy);
    let ghost pulled = views(args@);
    if command.len() > 0 {
        push2(&mut args, "--entrypoint", command[0].as_str());
        push_string(&mut args, owned(image));
        let mut i: usize = 1;
        while i < command.len()
            invariant
                1 <= i <= command@.len(),
                views(args@) == pulled + seq!["--entrypoint"@, command@[0]@, image@] + views(command@).subrange(
                    1,
                    i as int,
                ),
            decreases command@.len() - i,
        {
            let ghost before = views(args@);
            push_string(&mut args, command[i].clone());
            assert(views(command@).subrange(1, i + 1) =~= views(command@).subrange(1, i as int).push(
                command@[i as int]@,
            ));
            i = i + 1;
        }
        assert(views(command@).subrange(1, command@.len() as int) =~= views(command@).drop_first());
    } else {
        push_string(&mut args, owned(image));
    }
    assert(views(args@) =~= podman_run_words(
        *plan,
        mounts@,
        image@,
        tty,
        views(command@),
        crate::resolve::opt_chars(*container_name),
        *ctx,
    ));
    Ok(args)
}

/// The `podman run` arguments of a plan, with a terminal when `tty`.
pub fn build_run_args_with_options(plan: &ExecutionPlan, image: &str, tty: bool, ctx: &HostContext) -> (r: Result<Vec<String>, SboxError>)
    requires
        binds_have_sources(plan.mounts@),
    ensures
        args_outcome(
            *plan,
            plan.mounts@,
            *ctx,
            podman_run_words(*plan, plan.mounts@, image@, tty, views(plan.command@), None, *ctx),
            r,
        ),
{
    let none: Option<String> = None;
    build_run_args_impl(plan, &plan.mounts, image, tty, &plan.command, &none, ctx)
}

/// The `podman run` arguments of a plan, without a terminal.
pub fn build_run_args(plan: &ExecutionPlan, image: &str, ctx: &HostContext) -> (r: Result<Vec<String>, SboxError>)
    requires
        binds_have_sources(plan.mounts@),
    ensures
        args_outcome(
            *plan,
            plan.mounts@,
            *ctx,
            podman_run_words(*plan, plan.mounts@, image@, false, views(plan.command@), None, *ctx),
            r,
        ),
{
    build_run_args_with_options(plan, image, false, ctx)
}

/// The `podman create` words of a reusable session container whose
/// entrypoint sleeps until commands are run in it.
pub open spec fn podman_create_words(plan: ExecutionPlan, image: Seq<char>, session: Seq<char>, ctx: HostContext) -> Seq<Seq<char>> {
    seq!["create"@, "--name"@, session, "--workdir"@, plan.workspace.sandbox_cwd@, "--entrypoint"@, "sleep"@]
        + podman_front(plan) + storage_args(plan, plan.mounts@, ctx, true) + seq![image, "infinity"@]
}

/// The `podman create` arguments of a plan's reusable session container.
pub fn build_create_args(plan: &ExecutionPlan, image: &str, session_name: &str, ctx: &HostContext) -> (r: Result<Vec<String>, SboxError>)
    requires
        binds_have_sources(plan.mounts@),
    ensures
        args_outcome(*plan, plan.mounts@, *ctx, podman_create_words(*plan, image@, session_name@, *ctx), r),
{
    let mut args: Vec<String> = Vec::new();
    assert(views(args@) =~= Seq::<Seq<char>>::empty());
    push_string(&mut args, owned("create"));
    push2(&mut args, "--name", session_name);
    push2(&mut args, "--workdir", plan.workspace.sandbox_cwd.as_str());
    push2(&mut args, "--entrypoint", "sleep");
    proof {
        reveal_strlit("create");
    }
    let ghost head = views(args@);
    push_podman_front(&mut args, plan);
    match push_storage_args(&mut args, plan, &plan.mounts, ctx, true) {
        Ok(()) => {},
        Err(e) => return Err(e),
    }
    push_string(&mut args, owned(image));
    push_string(&mut args, owned("infinity"));
    proof {
        reveal_strlit("infinity");
    }
    assert(views(args@) =~= podman_create_words(*plan, image@, session_name@, *ctx));
    Ok(args)
}


// ---------------------------------------------------------------------------
// Signature verification policy
// ---------------------------------------------------------------------------

/// A requirement that checks signatures: its `type` is `signedBy` or
/// `sigstoreSigned`.
pub open spec fn signs(requirement: JsonValue) -> bool {
    match json_member(requirement, "type"@) {
        Some(JsonValue::Str(kind)) => kind@ == "signedBy"@ || kind@ == "sigstoreSigned"@,
        _ => false,
    }
}

/// A list of requirements of which one checks signatures.
pub open spec fn enables_verification(value: JsonValue) -> bool {
    match value {
        JsonValue::Array(items) => exists|i: int| 0 <= i < items@.len() && signs(#[trigger] items@[i]),
        _ => false,
    }
}

/// Scopes of a transport of which one requires signatures.
pub open spec fn scopes_enable(scopes: Option<JsonValue>) -> bool {
    match scopes {
        Some(JsonValue::Object(entries)) => exists|i: int|
            0 <= i < entries@.len() && enables_verification(#[trigger] entries@[i].1),
        _ => false,
    }
}

/// A policy enforces signatures when its default requirements, or those of
/// a scope of the `docker` or `docker-daemon` transport, check them.
pub open spec fn policy_enforces(policy: JsonValue) -> bool {
    ||| match json_member(policy, "default"@) {
        Some(d) => enables_verification(d),
        None => false,
    }
    ||| match json_member(policy, "transports"@) {
        Some(JsonValue::Object(ts)) => scopes_enable(lookup(ts@, "docker"@)) || scopes_enable(
            lookup(ts@, "docker-daemon"@),
        ),
        _ => false,
    }
}

fn signs_exec(requirement: &JsonValue) -> (r: bool)
    ensures
        r == signs(*requirement),
{
    proof {
        reveal_strlit("type");
        reveal_strlit("signedBy");
        reveal_strlit("sigstoreSigned");
    }
    match json_get(requirement, "type") {
        Some(JsonValue::Str(kind)) => crate::text::eq_str(kind.as_str(), "signedBy") || crate::text::eq_str(
            kind.as_str(),
            "sigstoreSigned",
        ),
        _ => false,
    }
}

/// Whether a list of requirements checks signatures.
pub fn requirements_enable_signature_verification(value: &JsonValue) -> (r: bool)
    ensures
        r == enables_verification(*value),
{
    match value {
        JsonValue::Array(items) => {
            let mut i: usize = 0;
            while i < items.len()
                invariant
                    i <= items@.len(),
                    enables_verification(*value) == exists|j: int| 0 <= j < items@.len() && signs(#[trigger] items@[j]),
                    forall|j: int| 0 <= j < i ==> !signs(#[trigger] items@[j]),
                decreases items@.len() - i,
            {
                if signs_exec(&items[i]) {
                    assert(signs(items@[i as int]));
                    return true;
                }
                i = i + 1;
            }
            false
        },
        _ => false,
    }
}

fn scopes_enable_exec(scopes: Option<&JsonValue>) -> (r: bool)
    ensures
        r == scopes_enable(
            match scopes {
                Some(x) => Some(*x),
                None => None,
            },
        ),
{
    match scopes {
        Some(JsonValue::Object(entries)) => {
            let mut i: usize = 0;
            while i < entries.len()
                invariant
                    i <= entries@.len(),
                    scopes_enable(
                        match scopes {
                            Some(x) => Some(*x),
                            None => None,
                        },
                    ) == exists|j: int| 0 <= j < entries@.len() && enables_verification(#[trigger] entries@[j].1),
                    forall|j: int| 0 <= j < i ==> !enables_verification(#[trigger] entries@[j].1),
                decreases entries@.len() - i,
            {
                if requirements_enable_signature_verification(&entries[i].1) {
                    assert(enables_verification(entries@[i as int].1));
                    return true;
                }
                i = i + 1;
            }
            false
        },
        _ => false,
    }
}

/// Whether a containers policy enforces signature verification.
pub fn policy_supports_signature_verification(policy: &JsonValue) -> (r: bool)
    ensures
        r == policy_enforces(*policy),
{
    proof {
        reveal_strlit("default");
        reveal_strlit("transports");
        reveal_strlit("docker");
        reveal_strlit("docker-daemon");
    }
    let by_default = match json_get(policy, "default") {
        Some(d) => requirements_enable_signature_verification(d),
        None => false,
    };
    if by_default {
        return true;
    }
    match json_get(policy, "transports") {
        Some(JsonValue::Object(ts)) => scopes_enable_exec(lookup_exec(ts, "docker")) || scopes_enable_exec(
            lookup_exec(ts, "docker-daemon"),
        ),
        _ => false,
    }
}

/// Whether the text of the containers policy file at `path` enforces
/// signature verification; text that is no JSON is an error naming the file.
pub fn policy_text_supports_signature_verification(path: &str, text: &str) -> (r: Result<bool, SboxError>)
    ensures
        match crate::json::json_document(text@) {
            Ok(v) => r == Ok::<bool, SboxError>(policy_enforces(v)),
            Err(m) => r matches Err(SboxError::ConfigValidation { message }) && message@ == "invalid containers policy "@
                + path@ + ": "@ + m,
        },
{
    match crate::json::parse_json(text) {
        Ok(v) => Ok(policy_supports_signature_verification(&v)),
        Err(m) => {
            let a = crate::text::concat3("invalid containers policy ", path, ": ");
            Err(SboxError::ConfigValidation { message: concat2(a.as_str(), m.as_str()) })
        },
    }
}

/// The containers policy file: `SBOX_SIGNATURE_POLICY` when it names a
/// file, else the user's `~/.config/containers/policy.json`, else
/// `/etc/containers/policy.json`, each only when it is a file.
pub open spec fn policy_path_choice(env_policy: Option<Seq<char>>, home: Option<Seq<char>>, files: Seq<Seq<char>>) -> Option<
    Seq<char>,
> {
    if env_policy is Some && crate::text::seq_has(files, env_policy.unwrap()) {
        env_policy
    } else if home is Some && crate::text::seq_has(
        files,
        crate::paths::path_join(home.unwrap(), ".config/containers/policy.json"@),
    ) {
        Some(crate::paths::path_join(home.unwrap(), ".config/containers/policy.json"@))
    } else if crate::text::seq_has(files, "/etc/containers/policy.json"@) {
        Some("/etc/containers/policy.json"@)
    } else {
        None
    }
}

/// The containers policy file; `files` are the host paths that are files.
pub fn resolve_signature_policy_path(env_policy: Option<&str>, home: Option<&str>, files: &Vec<String>) -> (r: Option<
    String,
>)
    ensures
        match policy_path_choice(
            match env_policy {
                Some(p) => Some(p@),
                None => None,
            },
            match home {
                Some(h) => Some(h@),
                None => None,
            },
            views(files@),
        ) {
            Some(p) => r matches Some(x) && x@ == p,
            None => r is None,
        },
{
    if let Some(p) = env_policy {
        if crate::text::strings_contain(files.as_slice(), p) {
            return Some(owned(p));
        }
    }
    if let Some(h) = home {
        let user_policy = crate::paths::path_join_str(h, ".config/containers/policy.json");
        if crate::text::strings_contain(files.as_slice(), user_policy.as_str()) {
            return Some(user_policy);
        }
    }
    if crate::text::strings_contain(files.as_slice(), "/etc/containers/policy.json") {
        return Some(owned("/etc/containers/policy.json"));
    }
    None
}

/// What `skopeo --version` showed.
#[derive(Clone, Copy, Debug, PartialEq, Eq, Structural)]
pub enum SkopeoProbe {
    /// It ran and succeeded.
    Usable,
    /// It ran and failed.
    Unusable,
    /// It could not be run.
    Missing,
}

/// Whether signatures can be verified: skopeo must work, a policy file
/// must be found, and it must enforce signatures.
pub open spec fn support_of(skopeo: SkopeoProbe, policy: Option<Seq<char>>, enforces: bool) -> (
    bool,
    Option<Seq<char>>,
    Seq<char>,
) {
    match skopeo {
        SkopeoProbe::Unusable => (false, None, "skopeo is installed but unusable"@),
        SkopeoProbe::Missing => (false, None, "skopeo is not installed"@),
        SkopeoProbe::Usable => match policy {
            None => (
                false,
                None,
                "no containers policy file found; configure SBOX_SIGNATURE_POLICY, ~/.config/containers/policy.json, or /etc/containers/policy.json"@,
            ),
            Some(p) => if enforces {
                (true, Some(p), Seq::empty())
            } else {
                (false, Some(p), "policy does not enforce signature verification"@)
            },
        },
    }
}

/// Whether signatures can be verified; `enforces` is whether the policy
/// file found enforces them, and is read only when skopeo works and a
/// policy file was found.
pub fn signature_support(skopeo: SkopeoProbe, policy: Option<String>, enforces: bool) -> (r: crate::doctor::SignatureSupport)
    ensures
        match support_of(
            skopeo,
            match policy {
                Some(p) => Some(p@),
                None => None,
            },
            enforces,
        ) {
            (true, Some(p), _) => r matches crate::doctor::SignatureSupport::Available { policy: q } && q@ == p,
            (false, p, reason) => r matches crate::doctor::SignatureSupport::Unavailable { policy: q, reason: m } && m@
                == reason && match p {
                Some(x) => q matches Some(y) && y@ == x,
                None => q is None,
            },
            _ => false,
        },
{
    match skopeo {
        SkopeoProbe::Unusable => crate::doctor::SignatureSupport::Unavailable {
            policy: None,
            reason: owned("skopeo is installed but unusable"),
        },
        SkopeoProbe::Missing => crate::doctor::SignatureSupport::Unavailable {
            policy: None,
            reason: owned("skopeo is not installed"),
        },
        SkopeoProbe::Usable => match policy {
            None => crate::doctor::SignatureSupport::Unavailable {
                policy: None,
                reason: owned(
                    "no containers policy file found; configure SBOX_SIGNATURE_POLICY, ~/.config/containers/policy.json, or /etc/containers/policy.json",
                ),
            },
            Some(p) => if enforces {
                crate::doctor::SignatureSupport::Available { policy: p }
            } else {
                crate::doctor::SignatureSupport::Unavailable {
                    policy: Some(p),
                    reason: owned("policy does not enforce signature verification"),
                }
            },
        },
    }
}


proof fn lemma_count_char_concat(a: Seq<char>, b: Seq<char>, c: char)
    ensures
        count_char(a + b, c) == count_char(a, c) + count_char(b, c),
    decreases b.len(),
{
    if b.len() == 0 {
        assert(a + b =~= a);
    } else {
        lemma_count_char_concat(a, b.drop_last(), c);
        assert((a + b).drop_last() =~= a + b.drop_last());
        assert((a + b).last() == b.last());
    }
}

/// Giving a port an explicit host address is settled after one pass for
/// every spec that names a container port after a `:`: a second pass leaves
/// it as it is. (A bare port such as `8000` gains `127.0.0.1:` each time.)
pub proof fn law_port_spec_idempotent_with_colon(spec: Seq<char>)
    requires
        count_char(spec, ':') >= 1,
    ensures
        port_spec(port_spec(spec)) == port_spec(spec),
{
    if !(count_char(spec, ':') >= 2 || starts_with(spec, "["@)) {
        reveal_strlit("127.0.0.1:");
        let pre = "127.0.0.1:"@;
        lemma_count_char_concat(pre, spec, ':');
        assert(pre =~= seq!['1', '2', '7', '.', '0', '.', '0', '.', '1', ':']);
        assert(count_char(pre, ':') == 1) by {
            reveal_with_fuel(count_char, 11);
        }
    }
}

/// Two results that meet the same argument-building contract agree: both
/// succeed with the same words, or both fail with the same message.
proof fn lemma_outcome_determined(
    plan: ExecutionPlan,
    mounts: Seq<ResolvedMount>,
    ctx: HostContext,
    words: Seq<Seq<char>>,
    a: Result<Vec<String>, SboxError>,
    b: Result<Vec<String>, SboxError>,
)
    requires
        args_outcome(plan, mounts, ctx, words, a),
        args_outcome(plan, mounts, ctx, words, b),
    ensures
        a is Ok <==> b is Ok,
        a is Ok ==> views(a->Ok_0@) == views(b->Ok_0@),
        a is Err ==> crate::error::error_message(a->Err_0) == crate::error::error_message(b->Err_0),
{
}

/// The three ways of building `podman run` arguments for a plan agree:
/// `build_run_args`, `build_run_args_with_options` without a terminal, and
/// `build_run_args_impl` over the plan's own mounts and command with no
/// container name succeed together with the same words, or fail together
/// with the same message.
pub proof fn law_run_builders_agree(
    plan: ExecutionPlan,
    image: Seq<char>,
    ctx: HostContext,
    plain: Result<Vec<String>, SboxError>,
    with_options: Result<Vec<String>, SboxError>,
    general: Result<Vec<String>, SboxError>,
)
    requires
        args_outcome(
            plan,
            plan.mounts@,
            ctx,
            podman_run_words(plan, plan.mounts@, image, false, views(plan.command@), None, ctx),
            plain,
        ),
        args_outcome(
            plan,
            plan.mounts@,
            ctx,
            podman_run_words(plan, plan.mounts@, image, false, views(plan.command@), None, ctx),
            with_options,
        ),
        args_outcome(
            plan,
            plan.mounts@,
            ctx,
            podman_run_words(
                plan,
                plan.mounts@,
                image,
                false,
                views(plan.command@),
                crate::resolve::opt_chars(None::<String>),
                ctx,
            ),
            general,
        ),
    ensures
        plain is Ok <==> with_options is Ok,
        with_options is Ok <==> general is Ok,
        plain is Ok ==> views(plain->Ok_0@) == views(with_options->Ok_0@) && views(with_options->Ok_0@) == views(
            general->Ok_0@,
        ),
        plain is Err ==> crate::error::error_message(plain->Err_0) == crate::error::error_message(with_options->Err_0)
            && crate::error::error_message(with_options->Err_0) == crate::error::error_message(general->Err_0),
{
    let w = podman_run_words(plan, plan.mounts@, image, false, views(plan.command@), None, ctx);
    assert(crate::resolve::opt_chars(None::<String>) == None::<Seq<char>>);
    lemma_outcome_determined(plan, plan.mounts@, ctx, w, plain, with_options);
    lemma_outcome_determined(plan, plan.mounts@, ctx, w, with_options, general);
}

/// The `podman run` arguments give each capability the policy adds right
/// after `--cap-add`, and each one it drops right after `--cap-drop`.
pub proof fn law_podman_run_grants_added_capabilities(
    plan: ExecutionPlan,
    mounts: Seq<ResolvedMount>,
    image: Seq<char>,
    tty: bool,
    command: Seq<Seq<char>>,
    name: Option<Seq<char>>,
    ctx: HostContext,
)
    ensures
        forall|i: int|
            0 <= i < plan.policy.cap_add@.len() ==> crate::backend::args::follows(
                podman_run_words(plan, mounts, image, tty, command, name, ctx),
                "--cap-add"@,
                #[trigger] plan.policy.cap_add@[i]@,
            ),
        forall|i: int|
            0 <= i < plan.policy.cap_drop@.len() ==> crate::backend::args::follows(
                podman_run_words(plan, mounts, image, tty, command, name, ctx),
                "--cap-drop"@,
                #[trigger] plan.policy.cap_drop@[i]@,
            ),
{
    let pol = plan.policy;
    let sec = security_args(pol.read_only_rootfs, pol.no_new_privileges, views(pol.cap_drop@), views(pol.cap_add@));
    let a = seq!["run"@] + (match name {
        Some(n) => seq!["--name"@, n],
        None => seq!["--rm"@],
    }) + seq!["-i"@] + (if tty {
        seq!["-t"@]
    } else {
        Seq::empty()
    }) + seq!["--workdir"@, plan.workspace.sandbox_cwd@];
    let w = podman_run_words(plan, mounts, image, tty, command, name, ctx);
    let b = w.subrange((a.len() + sec.len()) as int, w.len() as int);
    assert(w =~= a + sec + b);
    crate::backend::args::law_capabilities_follow_their_flags(
        pol.read_only_rootfs,
        pol.no_new_privileges,
        views(pol.cap_drop@),
        views(pol.cap_add@),
    );
    assert forall|i: int| 0 <= i < pol.cap_add@.len() implies crate::backend::args::follows(
        w,
        "--cap-add"@,
        #[trigger] pol.cap_add@[i]@,
    ) by {
        assert(views(pol.cap_add@)[i] == pol.cap_add@[i]@);
        crate::backend::args::lemma_follows_in_context(a, sec, b, "--cap-add"@, pol.cap_add@[i]@);
    }
    assert forall|i: int| 0 <= i < pol.cap_drop@.len() implies crate::backend::args::follows(
        w,
        "--cap-drop"@,
        #[trigger] pol.cap_drop@[i]@,
    ) by {
        assert(views(pol.cap_drop@)[i] == pol.cap_drop@[i]@);
        crate::backend::args::lemma_follows_in_context(a, sec, b, "--cap-drop"@, pol.cap_drop@[i]@);
    }
}

} // verus!
