//! `sbox plan`: the plan of a command as text, section by section.

use vstd::prelude::*;

use crate::backend::args::{bool_string, bool_word, HostContext};
use crate::config::model::{BackendKind, ExecutionMode};
use crate::exec::{trusted_image_needed, trusted_image_required};
use crate::resolve::{
    CwdMapping, EnvVarSource, ExecutionPlan, ImageTrust, LockfileAudit, ModeSource, ProfileSource, ResolvedCache,
    ResolvedEnvVar, ResolvedImageSource, ResolvedMount, ResolvedSecret, ResolvedUser,
};
use crate::text::{
    append, concat2, concat3, eq_str, has_char, join, join_strings, owned, push_string, seq_has, starts_with,
    str_has_char, str_starts_with, str_skip, strings_contain, views, decimal, format_decimal,
};

verus! {

/// A line of output: the text and a newline.
pub open spec fn nl(s: Seq<char>) -> Seq<char> {
    s + "\n"@
}

/// A list joined with `, `, or `<none>` when empty.
pub open spec fn list_or_none(v: Seq<Seq<char>>) -> Seq<char> {
    if v.len() == 0 {
        "<none>"@
    } else {
        join(v, ", "@)
    }
}

fn list_or_none_str(v: &Vec<String>) -> (r: String)
    ensures
        r@ == list_or_none(views(v@)),
{
    if v.len() == 0 {
        owned("<none>")
    } else {
        join_strings(v.as_slice(), ", ")
    }
}

/// The lockfile audit in words.
pub open spec fn lockfile_words(a: LockfileAudit) -> Seq<char> {
    if !a.applicable {
        "not-applicable"@
    } else {
        (if a.required {
            "required"@
        } else {
            "advisory"@
        }) + (if a.present {
            ", present ("@
        } else {
            ", missing ("@
        }) + join(views(a.expected_files@), " or "@) + ")"@
    }
}

/// The lockfile audit in words.
pub fn describe_lockfile_audit(audit: &LockfileAudit) -> (r: String)
    ensures
        r@ == lockfile_words(*audit),
{
    if !audit.applicable {
        return owned("not-applicable");
    }
    let requirement = if audit.required {
        "required"
    } else {
        "advisory"
    };
    let state = if audit.present {
        ", present ("
    } else {
        ", missing ("
    };
    let files = join_strings(audit.expected_files.as_slice(), " or ");
    let a = concat3(requirement, state, files.as_str());
    concat2(a.as_str(), ")")
}

/// Commands by their words, each joined with spaces.
pub open spec fn joined_commands(v: Seq<Vec<String>>) -> Seq<Seq<char>> {
    v.map_values(|c: Vec<String>| join(views(c@), " "@))
}

/// The host commands run first, in words.
pub fn describe_pre_run(pre_run: &Vec<Vec<String>>) -> (r: String)
    ensures
        r@ == list_or_none(joined_commands(pre_run@)),
{
    let mut parts: Vec<String> = Vec::new();
    let mut i: usize = 0;
    while i < pre_run.len()
        invariant
            i <= pre_run@.len(),
            views(parts@) == joined_commands(pre_run@).take(i as int),
        decreases pre_run@.len() - i,
    {
        let j = join_strings(pre_run[i].as_slice(), " ");
        let ghost jv = j@;
        let ghost before = views(parts@);
        parts.push(j);
        assert(views(parts@) =~= before.push(jv));
        assert(views(parts@) =~= joined_commands(pre_run@).take(i + 1));
        i = i + 1;
    }
    assert(joined_commands(pre_run@).take(pre_run@.len() as int) =~= joined_commands(pre_run@));
    list_or_none_str(&parts)
}

/// Where a profile came from, in words: package-manager dispatch rules
/// (named `pm:<manager>:<kind>`) are told apart from configured ones.
pub open spec fn source_words(s: ProfileSource) -> Seq<char> {
    match s {
        ProfileSource::CliOverride => "cli override"@,
        ProfileSource::ExecSubcommand => "exec subcommand"@,
        ProfileSource::Dispatch { rule_name, pattern } => {
            let r = rule_name@;
            if starts_with(r, "pm:"@) && has_char(r.skip(3), ':') {
                let rest = r.skip(3);
                let parts = crate::text::split_char(rest, ':');
                "package_manager preset `"@ + parts[0] + "` ("@ + rest.skip(parts[0].len() as int + 1) + ") via pattern `"@
                    + pattern@ + "`"@
            } else {
                "dispatch rule `"@ + r + "` via pattern `"@ + pattern@ + "`"@
            }
        },
        ProfileSource::DefaultProfile => "default profile"@,
        ProfileSource::ImplementationDefault => "implementation default"@,
        ProfileSource::Shadow => "shadow infrastructure"@,
    }
}

/// Where a profile came from, in words.
pub fn describe_profile_source(source: &ProfileSource) -> (r: String)
    ensures
        r@ == source_words(*source),
{
    match source {
        ProfileSource::CliOverride => owned("cli override"),
        ProfileSource::ExecSubcommand => owned("exec subcommand"),
        ProfileSource::Dispatch { rule_name, pattern } => {
            proof {
                reveal_strlit("pm:");
            }
            if str_starts_with(rule_name.as_str(), "pm:") {
                let rest = str_skip(rule_name.as_str(), 3);
                if str_has_char(rest.as_str(), ':') {
                    let cs = crate::text::str_chars(rest.as_str());
                    let segs = crate::text::split_chars_on(&cs, ':');
                    proof {
                        crate::text::lemma_split_char_nonempty(rest@, ':');
                    }
                    assert(crate::text::seg_views(segs@)[0] == segs@[0]@);
                    let first = crate::text::string_from_chars(segs[0].as_slice());
                    assert(first@.len() + 1 <= rest@.len()) by {
                        crate::text::lemma_first_piece_before(rest@, ':');
                    }
                    let n0 = segs[0].len();
                    assert(n0 == first@.len());
                    let total = cs.len();
                    assert(n0 + 1 <= total);
                    let tail = str_skip(rest.as_str(), n0 + 1);
                    let a = concat3("package_manager preset `", first.as_str(), "` (");
                    let b = concat3(a.as_str(), tail.as_str(), ") via pattern `");
                    return concat3(b.as_str(), pattern.as_str(), "`");
                }
            }
            let a = concat3("dispatch rule `", rule_name.as_str(), "` via pattern `");
            concat3(a.as_str(), pattern.as_str(), "`")
        },
        ProfileSource::DefaultProfile => owned("default profile"),
        ProfileSource::ImplementationDefault => owned("implementation default"),
        ProfileSource::Shadow => owned("shadow infrastructure"),
    }
}

/// The backend's name.
pub open spec fn backend_word(b: BackendKind) -> Seq<char> {
    match b {
        BackendKind::Podman => "podman"@,
        BackendKind::Docker => "docker"@,
    }
}

/// The backend's name.
pub fn describe_backend(backend: BackendKind) -> (r: &'static str)
    ensures
        r@ == backend_word(backend),
{
    match backend {
        BackendKind::Podman => "podman",
        BackendKind::Docker => "docker",
    }
}

/// How far the image is trusted, in words.
pub open spec fn trust_word(t: ImageTrust) -> Seq<char> {
    match t {
        ImageTrust::PinnedDigest => "pinned-digest"@,
        ImageTrust::MutableReference => "mutable-reference"@,
        ImageTrust::LocalBuild => "local-build"@,
    }
}

/// How far the image is trusted, in words.
pub fn describe_image_trust(trust: ImageTrust) -> (r: &'static str)
    ensures
        r@ == trust_word(trust),
{
    match trust {
        ImageTrust::PinnedDigest => "pinned-digest",
        ImageTrust::MutableReference => "mutable-reference",
        ImageTrust::LocalBuild => "local-build",
    }
}

/// Where the mode came from, in words.
pub open spec fn mode_source_word(s: ModeSource) -> Seq<char> {
    match s {
        ModeSource::CliOverride => "cli override"@,
        ModeSource::Profile => "profile"@,
        ModeSource::Default => "default"@,
    }
}

/// Where the mode came from, in words.
pub fn describe_mode_source(source: ModeSource) -> (r: &'static str)
    ensures
        r@ == mode_source_word(source),
{
    match source {
        ModeSource::CliOverride => "cli override",
        ModeSource::Profile => "profile",
        ModeSource::Default => "default",
    }
}

/// The execution mode's name.
pub open spec fn mode_word(m: ExecutionMode) -> Seq<char> {
    match m {
        ExecutionMode::Host => "host"@,
        ExecutionMode::Sandbox => "sandbox"@,
    }
}

/// The execution mode's name.
pub fn describe_execution_mode(mode: ExecutionMode) -> (r: &'static str)
    ensures
        r@ == mode_word(mode),
{
    match mode {
        ExecutionMode::Host => "host",
        ExecutionMode::Sandbox => "sandbox",
    }
}

/// How the working directory was mapped, in words.
pub open spec fn cwd_word(m: CwdMapping) -> Seq<char> {
    match m {
        CwdMapping::InvocationMapped => "mapped from invocation cwd"@,
        CwdMapping::WorkspaceRootFallback => "workspace root fallback"@,
    }
}

/// How the working directory was mapped, in words.
pub fn describe_cwd_mapping(mapping: CwdMapping) -> (r: &'static str)
    ensures
        r@ == cwd_word(mapping),
{
    match mapping {
        CwdMapping::InvocationMapped => "mapped from invocation cwd",
        CwdMapping::WorkspaceRootFallback => "workspace root fallback",
    }
}

/// Where a variable came from, in words.
pub open spec fn env_source_word(s: EnvVarSource) -> Seq<char> {
    match s {
        EnvVarSource::PassThrough => "pass-through"@,
        EnvVarSource::SetValue => "set"@,
    }
}

/// Where a variable came from, in words.
pub fn describe_env_source(source: EnvVarSource) -> (r: &'static str)
    ensures
        r@ == env_source_word(source),
{
    match source {
        EnvVarSource::PassThrough => "pass-through",
        EnvVarSource::SetValue => "set",
    }
}

/// The user mapping in words.
pub open spec fn user_words(u: ResolvedUser) -> Seq<char> {
    match u {
        ResolvedUser::Default => "default"@,
        ResolvedUser::KeepId => "keep-id"@,
        ResolvedUser::Explicit { uid, gid } => crate::backend::args::user_spec(uid, gid),
    }
}

/// The user mapping in words.
pub fn describe_user(user: ResolvedUser) -> (r: String)
    ensures
        r@ == user_words(user),
{
    match user {
        ResolvedUser::Default => owned("default"),
        ResolvedUser::KeepId => owned("keep-id"),
        ResolvedUser::Explicit { uid, gid } => crate::backend::args::format_user(uid, gid),
    }
}

/// The hosts of the resolved pairs, each once, in order of first appearance.
pub open spec fn distinct_hosts(pairs: Seq<(Seq<char>, Seq<char>)>) -> Seq<Seq<char>>
    decreases pairs.len(),
{
    if pairs.len() == 0 {
        Seq::empty()
    } else {
        let seen = distinct_hosts(pairs.drop_last());
        if seen.contains(pairs.last().0) {
            seen
        } else {
            seen.push(pairs.last().0)
        }
    }
}

/// The allow-list in words: the resolved hosts and the patterns.
pub open spec fn allow_words(pairs: Seq<(Seq<char>, Seq<char>)>, patterns: Seq<Seq<char>>) -> Seq<char> {
    if pairs.len() == 0 && patterns.len() == 0 {
        "<none>"@
    } else if patterns.len() == 0 {
        "[resolved] "@ + join(distinct_hosts(pairs), ", "@)
    } else if pairs.len() == 0 {
        "[patterns] "@ + join(patterns, ", "@)
    } else {
        "[resolved] "@ + join(distinct_hosts(pairs), ", "@) + "; "@ + "[patterns] "@ + join(patterns, ", "@)
    }
}

/// The allow-list in words.
pub fn describe_network_allow(resolved: &Vec<(String, String)>, patterns: &Vec<String>) -> (r: String)
    ensures
        r@ == allow_words(crate::network::pair_views(resolved@), views(patterns@)),
{
    if resolved.len() == 0 && patterns.len() == 0 {
        return owned("<none>");
    }
    let ghost pv = crate::network::pair_views(resolved@);
    let mut seen: Vec<String> = Vec::new();
    let mut i: usize = 0;
    while i < resolved.len()
        invariant
            pv == crate::network::pair_views(resolved@),
            i <= pv.len(),
            views(seen@) == distinct_hosts(pv.take(i as int)),
        decreases pv.len() - i,
    {
        assert(pv.take(i + 1).drop_last() =~= pv.take(i as int));
        assert(pv.take(i + 1).last().0 == resolved@[i as int].0@);
        let host = resolved[i].0.as_str();
        if !strings_contain(seen.as_slice(), host) {
            let ghost before = views(seen@);
            push_string(&mut seen, owned(host));
        }
        i = i + 1;
    }
    assert(pv.take(pv.len() as int) =~= pv);
    let hosts = join_strings(seen.as_slice(), ", ");
    let pats = join_strings(patterns.as_slice(), ", ");
    if patterns.len() == 0 {
        concat2("[resolved] ", hosts.as_str())
    } else if resolved.len() == 0 {
        concat2("[patterns] ", pats.as_str())
    } else {
        let a = concat3("[resolved] ", hosts.as_str(), "; ");
        concat3(a.as_str(), "[patterns] ", pats.as_str())
    }
}

/// Appends `text` and a newline.
pub(crate) fn push_line(out: &mut String, text: &str)
    ensures
        final(out)@ == old(out)@ + nl(text@),
{
    append(out, text);
    append(out, "\n");
    proof {
        reveal_strlit("\n");
    }
}

/// Appends `key`, `value` and a newline.
pub(crate) fn push_kv(out: &mut String, key: &str, value: &str)
    ensures
        final(out)@ == old(out)@ + nl(key@ + value@),
{
    let ghost start = out@;
    append(out, key);
    append(out, value);
    append(out, "\n");
    proof {
        reveal_strlit("\n");
    }
    assert(out@ =~= start + nl(key@ + value@));
}

/// The heading: tool, phase and configuration file.
pub open spec fn header_text(config_path: Seq<char>) -> Seq<char> {
    nl("sbox plan"@) + nl("phase: 2"@) + nl("config: "@ + config_path) + nl(Seq::empty())
}

/// The argument lines of a command.
pub open spec fn argv_lines(argv: Seq<Seq<char>>) -> Seq<char>
    decreases argv.len(),
{
    if argv.len() == 0 {
        Seq::empty()
    } else {
        argv_lines(argv.drop_last()) + nl("  - "@ + argv.last())
    }
}

/// The command section: the command and its arguments, or a note for a
/// profile inspection.
pub open spec fn command_text(plan: ExecutionPlan, inspection: bool) -> Seq<char> {
    if inspection {
        nl("command: <profile inspection — no command given>"@) + nl(Seq::empty())
    } else {
        nl("command: "@ + plan.command_string@) + nl("argv:"@) + argv_lines(views(plan.command@)) + nl(Seq::empty())
    }
}

/// The audit section.
pub open spec fn audit_text(plan: ExecutionPlan, strict: bool, inspection: bool) -> Seq<char> {
    if inspection {
        nl("audit: <not applicable for profile inspection>"@) + nl(Seq::empty())
    } else {
        nl("audit:"@) + nl("  install_style: "@ + bool_word(plan.audit.install_style)) + nl(
            "  strict_security: "@ + bool_word(strict),
        ) + nl("  trusted_image_required: "@ + bool_word(trusted_image_needed(plan, strict))) + nl(
            "  sensitive_pass_through: "@ + list_or_none(views(plan.audit.sensitive_pass_through_vars@)),
        ) + nl("  lockfile: "@ + lockfile_words(plan.audit.lockfile)) + nl(
            "  pre_run: "@ + list_or_none(joined_commands(plan.audit.pre_run@)),
        ) + nl(Seq::empty())
    }
}

/// The resolution and runtime sections.
pub open spec fn resolution_text(plan: ExecutionPlan) -> Seq<char> {
    nl("resolution:"@) + nl("  profile: "@ + plan.profile_name@) + nl("  profile source: "@ + source_words(plan.profile_source))
        + nl("  mode: "@ + mode_word(plan.mode)) + nl("  mode source: "@ + mode_source_word(plan.mode_source)) + nl(
        Seq::empty(),
    ) + nl("runtime:"@) + nl("  backend: "@ + backend_word(plan.backend)) + nl("  image: "@ + plan.image.description@)
        + nl("  image_trust: "@ + trust_word(plan.image.trust)) + nl(
        "  verify_signature: "@ + if plan.image.verify_signature {
            "requested"@
        } else {
            "not requested"@
        },
    ) + nl("  user mapping: "@ + user_words(plan.user)) + nl(Seq::empty())
}

/// The workspace section.
pub open spec fn workspace_text(plan: ExecutionPlan) -> Seq<char> {
    let w = plan.workspace;
    nl("workspace:"@) + nl("  root: "@ + w.root@) + nl("  invocation cwd: "@ + w.invocation_dir@) + nl(
        "  effective host dir: "@ + w.effective_host_dir@,
    ) + nl("  mount: "@ + w.mount@) + nl("  sandbox cwd: "@ + w.sandbox_cwd@) + nl("  cwd mapping: "@ + cwd_word(w.cwd_mapping))
        + nl(Seq::empty())
}

/// The policy section; a note warns that an allow-list does not stop
/// connections made by address.
pub open spec fn policy_text(plan: ExecutionPlan) -> Seq<char> {
    let p = plan.policy;
    nl("policy:"@) + nl("  network: "@ + p.network@) + nl("  network_policy: dns"@) + nl(
        "  network_allow: "@ + allow_words(crate::network::pair_views(p.network_allow@), views(p.network_allow_patterns@)),
    ) + (if p.network@ != "off"@ && (p.network_allow@.len() > 0 || p.network_allow_patterns@.len() > 0) {
        nl("  note: `network_allow` is hostname/DNS-based and does not block direct IP connections"@)
    } else {
        Seq::empty()
    }) + nl("  writable: "@ + bool_word(p.writable)) + nl("  no_new_privileges: "@ + bool_word(p.no_new_privileges))
        + nl("  read_only_rootfs: "@ + bool_word(p.read_only_rootfs)) + nl("  reuse_container: "@ + bool_word(p.reuse_container))
        + nl(
        "  reusable_session: "@ + match p.reusable_session_name {
            Some(n) => n@,
            None => "<none>"@,
        },
    ) + nl("  cap_drop: "@ + list_or_none(views(p.cap_drop@))) + nl("  cap_add: "@ + list_or_none(views(p.cap_add@))) + nl(
        "  ports: "@ + list_or_none(views(p.ports@)),
    ) + nl(
        "  pull_policy: "@ + match p.pull_policy {
            Some(x) => x@,
            None => "<default>"@,
        },
    ) + nl(Seq::empty())
}

/// The lines of the selected variables.
pub open spec fn var_lines(vars: Seq<ResolvedEnvVar>) -> Seq<char>
    decreases vars.len(),
{
    if vars.len() == 0 {
        Seq::empty()
    } else {
        var_lines(vars.drop_last()) + nl(
            "  - "@ + vars.last().name@ + "="@ + vars.last().value@ + " ("@ + env_source_word(vars.last().source) + ")"@,
        )
    }
}

/// The environment section.
pub open spec fn environment_text(plan: ExecutionPlan) -> Seq<char> {
    nl("environment:"@) + (if plan.environment.variables@.len() == 0 {
        nl("  selected: <none>"@)
    } else {
        var_lines(plan.environment.variables@)
    }) + nl("  denied: "@ + list_or_none(views(plan.environment.denied@))) + nl(Seq::empty())
}

/// The line of a mount: masks by target, others by kind, source, target,
/// access and whether they belong to the workspace.
pub open spec fn mount_line(m: ResolvedMount) -> Seq<char> {
    if m.kind@ == "mask"@ {
        nl("  - mask "@ + m.target@ + " (credential masked)"@)
    } else {
        nl(
            "  - "@ + m.kind@ + " "@ + match m.source {
                Some(x) => x@,
                None => "<none>"@,
            } + " -> "@ + m.target@ + " ("@ + (if m.read_only {
                "ro"@
            } else {
                "rw"@
            }) + ", "@ + (if m.is_workspace {
                "workspace"@
            } else {
                "extra"@
            }) + ")"@,
        )
    }
}

/// The lines of the mounts.
pub open spec fn mount_lines(ms: Seq<ResolvedMount>) -> Seq<char>
    decreases ms.len(),
{
    if ms.len() == 0 {
        Seq::empty()
    } else {
        mount_lines(ms.drop_last()) + mount_line(ms.last())
    }
}

/// The line of a cache.
pub open spec fn cache_line(c: ResolvedCache) -> Seq<char> {
    nl(
        "  - "@ + c.name@ + " -> "@ + c.target@ + " ("@ + (if c.read_only {
            "ro"@
        } else {
            "rw"@
        }) + ", source: "@ + match c.source {
            Some(x) => x@,
            None => "<default>"@,
        } + ")"@,
    )
}

/// The lines of the caches.
pub open spec fn cache_lines(cs: Seq<ResolvedCache>) -> Seq<char>
    decreases cs.len(),
{
    if cs.len() == 0 {
        Seq::empty()
    } else {
        cache_lines(cs.drop_last()) + cache_line(cs.last())
    }
}

/// The lines of the secrets.
pub open spec fn secret_lines(ss: Seq<ResolvedSecret>) -> Seq<char>
    decreases ss.len(),
{
    if ss.len() == 0 {
        Seq::empty()
    } else {
        secret_lines(ss.drop_last()) + nl(
            "  - "@ + ss.last().name@ + " -> "@ + ss.last().target@ + " (source: "@ + ss.last().source@ + ")"@,
        )
    }
}

/// The mounts, caches and secrets sections.
pub open spec fn storage_text(plan: ExecutionPlan) -> Seq<char> {
    nl("mounts:"@) + mount_lines(plan.mounts@) + nl(Seq::empty()) + nl("caches:"@) + (if plan.caches@.len() == 0 {
        nl("  <none>"@)
    } else {
        cache_lines(plan.caches@)
    }) + nl(Seq::empty()) + nl("secrets:"@) + if plan.secrets@.len() == 0 {
        nl("  <none>"@)
    } else {
        secret_lines(plan.secrets@)
    }
}

fn header_section(config_path: &str) -> (r: String)
    ensures
        r@ == header_text(config_path@),
{
    let mut out = String::new();
    push_line(&mut out, "sbox plan");
    push_line(&mut out, "phase: 2");
    push_kv(&mut out, "config: ", config_path);
    push_line(&mut out, "");
    proof {
        reveal_strlit("");
    }
    assert(out@ =~= header_text(config_path@));
    out
}

fn command_section(plan: &ExecutionPlan, inspection: bool) -> (r: String)
    ensures
        r@ == command_text(*plan, inspection),
{
    let mut out = String::new();
    proof {
        reveal_strlit("");
    }
    if inspection {
        push_line(&mut out, "command: <profile inspection — no command given>");
        push_line(&mut out, "");
        assert(out@ =~= command_text(*plan, inspection));
        return out;
    }
    push_kv(&mut out, "command: ", plan.command_string.as_str());
    push_line(&mut out, "argv:");
    let ghost head = out@;
    let mut i: usize = 0;
    assert(views(plan.command@).take(0) =~= Seq::<Seq<char>>::empty());
    while i < plan.command.len()
        invariant
            i <= plan.command@.len(),
            out@ == head + argv_lines(views(plan.command@).take(i as int)),
        decreases plan.command@.len() - i,
    {
        assert(views(plan.command@).take(i + 1).drop_last() =~= views(plan.command@).take(i as int));
        assert(views(plan.command@).take(i + 1).last() == plan.command@[i as int]@);
        push_kv(&mut out, "  - ", plan.command[i].as_str());
        assert(out@ =~= head + argv_lines(views(plan.command@).take(i + 1)));
        i = i + 1;
    }
    assert(views(plan.command@).take(plan.command@.len() as int) =~= views(plan.command@));
    push_line(&mut out, "");
    assert(out@ =~= command_text(*plan, inspection));
    out
}

fn audit_section(plan: &ExecutionPlan, strict: bool, inspection: bool) -> (r: String)
    ensures
        r@ == audit_text(*plan, strict, inspection),
{
    let mut out = String::new();
    proof {
        reveal_strlit("");
    }
    if inspection {
        push_line(&mut out, "audit: <not applicable for profile inspection>");
        push_line(&mut out, "");
        assert(out@ =~= audit_text(*plan, strict, inspection));
        return out;
    }
    push_line(&mut out, "audit:");
    push_kv(&mut out, "  install_style: ", bool_string(plan.audit.install_style));
    push_kv(&mut out, "  strict_security: ", bool_string(strict));
    push_kv(&mut out, "  trusted_image_required: ", bool_string(trusted_image_required(plan, strict)));
    let sensitive = list_or_none_str(&plan.audit.sensitive_pass_through_vars);
    push_kv(&mut out, "  sensitive_pass_through: ", sensitive.as_str());
    let lock = describe_lockfile_audit(&plan.audit.lockfile);
    push_kv(&mut out, "  lockfile: ", lock.as_str());
    let pre = describe_pre_run(&plan.audit.pre_run);
    push_kv(&mut out, "  pre_run: ", pre.as_str());
    push_line(&mut out, "");
    assert(out@ =~= audit_text(*plan, strict, inspection));
    out
}

fn resolution_section(plan: &ExecutionPlan) -> (r: String)
    ensures
        r@ == resolution_text(*plan),
{
    let mut out = String::new();
    proof {
        reveal_strlit("");
    }
    push_line(&mut out, "resolution:");
    push_kv(&mut out, "  profile: ", plan.profile_name.as_str());
    let src = describe_profile_source(&plan.profile_source);
    push_kv(&mut out, "  profile source: ", src.as_str());
    push_kv(&mut out, "  mode: ", describe_execution_mode(plan.mode));
    push_kv(&mut out, "  mode source: ", describe_mode_source(plan.mode_source));
    push_line(&mut out, "");
    push_line(&mut out, "runtime:");
    push_kv(&mut out, "  backend: ", describe_backend(plan.backend));
    push_kv(&mut out, "  image: ", plan.image.description.as_str());
    push_kv(&mut out, "  image_trust: ", describe_image_trust(plan.image.trust));
    push_kv(
        &mut out,
        "  verify_signature: ",
        if plan.image.verify_signature {
            "requested"
        } else {
            "not requested"
        },
    );
    let user = describe_user(plan.user);
    push_kv(&mut out, "  user mapping: ", user.as_str());
    push_line(&mut out, "");
    assert(out@ =~= resolution_text(*plan));
    out
}

fn workspace_section(plan: &ExecutionPlan) -> (r: String)
    ensures
        r@ == workspace_text(*plan),
{
    let mut out = String::new();
    proof {
        reveal_strlit("");
    }
    let w = &plan.workspace;
    push_line(&mut out, "workspace:");
    push_kv(&mut out, "  root: ", w.root.as_str());
    push_kv(&mut out, "  invocation cwd: ", w.invocation_dir.as_str());
    push_kv(&mut out, "  effective host dir: ", w.effective_host_dir.as_str());
    push_kv(&mut out, "  mount: ", w.mount.as_str());
    push_kv(&mut out, "  sandbox cwd: ", w.sandbox_cwd.as_str());
    push_kv(&mut out, "  cwd mapping: ", describe_cwd_mapping(w.cwd_mapping));
    push_line(&mut out, "");
    assert(out@ =~= workspace_text(*plan));
    out
}

fn policy_section(plan: &ExecutionPlan) -> (r: String)
    ensures
        r@ == policy_text(*plan),
{
    let mut out = String::new();
    proof {
        reveal_strlit("");
        reveal_strlit("off");
    }
    let p = &plan.policy;
    push_line(&mut out, "policy:");
    push_kv(&mut out, "  network: ", p.network.as_str());
    push_line(&mut out, "  network_policy: dns");
    let allow = describe_network_allow(&p.network_allow, &p.network_allow_patterns);
    push_kv(&mut out, "  network_allow: ", allow.as_str());
    let ghost before_note = out@;
    if !eq_str(p.network.as_str(), "off") && (p.network_allow.len() > 0 || p.network_allow_patterns.len() > 0) {
        push_line(&mut out, "  note: `network_allow` is hostname/DNS-based and does not block direct IP connections");
    }
    let ghost after_note = out@;
    push_kv(&mut out, "  writable: ", bool_string(p.writable));
    push_kv(&mut out, "  no_new_privileges: ", bool_string(p.no_new_privileges));
    push_kv(&mut out, "  read_only_rootfs: ", bool_string(p.read_only_rootfs));
    push_kv(&mut out, "  reuse_container: ", bool_string(p.reuse_container));
    let session = match &p.reusable_session_name {
        Some(n) => n.clone(),
        None => owned("<none>"),
    };
    push_kv(&mut out, "  reusable_session: ", session.as_str());
    let drop = list_or_none_str(&p.cap_drop);
    push_kv(&mut out, "  cap_drop: ", drop.as_str());
    let add = list_or_none_str(&p.cap_add);
    push_kv(&mut out, "  cap_add: ", add.as_str());
    let ports = list_or_none_str(&p.ports);
    push_kv(&mut out, "  ports: ", ports.as_str());
    let pull = match &p.pull_policy {
        Some(x) => x.clone(),
        None => owned("<default>"),
    };
    push_kv(&mut out, "  pull_policy: ", pull.as_str());
    push_line(&mut out, "");
    assert(out@ =~= policy_text(*plan));
    out
}

fn environment_section(plan: &ExecutionPlan) -> (r: String)
    ensures
        r@ == environment_text(*plan),
{
    let mut out = String::new();
    proof {
        reveal_strlit("");
    }
    push_line(&mut out, "environment:");
    let ghost head = out@;
    let vars = &plan.environment.variables;
    if vars.len() == 0 {
        push_line(&mut out, "  selected: <none>");
    } else {
        let mut i: usize = 0;
        assert(vars@.take(0) =~= Seq::<ResolvedEnvVar>::empty());
        while i < vars.len()
            invariant
                i <= vars@.len(),
                out@ == head + var_lines(vars@.take(i as int)),
            decreases vars@.len() - i,
        {
            assert(vars@.take(i + 1).drop_last() =~= vars@.take(i as int));
            assert(vars@.take(i + 1).last() == vars@[i as int]);
            let v = &vars[i];
            let a = concat3("  - ", v.name.as_str(), "=");
            let b = concat3(a.as_str(), v.value.as_str(), " (");
            let c = concat3(b.as_str(), describe_env_source(v.source), ")");
            push_line(&mut out, c.as_str());
            assert(out@ =~= head + var_lines(vars@.take(i + 1)));
            i = i + 1;
        }
        assert(vars@.take(vars@.len() as int) =~= vars@);
    }
    let denied = list_or_none_str(&plan.environment.denied);
    push_kv(&mut out, "  denied: ", denied.as_str());
    push_line(&mut out, "");
    assert(out@ =~= environment_text(*plan));
    out
}

fn mount_line_str(m: &ResolvedMount) -> (r: String)
    ensures
        r@ == mount_line(*m),
{
    proof {
        reveal_strlit("mask");
        reveal_strlit("\n");
    }
    let mut out = String::new();
    if eq_str(m.kind.as_str(), "mask") {
        let t = concat3("  - mask ", m.target.as_str(), " (credential masked)");
        push_line(&mut out, t.as_str());
        assert(out@ =~= mount_line(*m));
        return out;
    }
    let source = match &m.source {
        Some(x) => x.clone(),
        None => owned("<none>"),
    };
    let a = concat3("  - ", m.kind.as_str(), " ");
    let b = concat3(a.as_str(), source.as_str(), " -> ");
    let c = concat3(b.as_str(), m.target.as_str(), " (");
    let d = concat3(
        c.as_str(),
        if m.read_only {
            "ro"
        } else {
            "rw"
        },
        ", ",
    );
    let e = concat3(
        d.as_str(),
        if m.is_workspace {
            "workspace"
        } else {
            "extra"
        },
        ")",
    );
    push_line(&mut out, e.as_str());
    assert(out@ =~= mount_line(*m));
    out
}

fn cache_line_str(c: &ResolvedCache) -> (r: String)
    ensures
        r@ == cache_line(*c),
{
    let mut out = String::new();
    let source = match &c.source {
        Some(x) => x.clone(),
        None => owned("<default>"),
    };
    let a = concat3("  - ", c.name.as_str(), " -> ");
    let b = concat3(a.as_str(), c.target.as_str(), " (");
    let d = concat3(
        b.as_str(),
        if c.read_only {
            "ro"
        } else {
            "rw"
        },
        ", source: ",
    );
    let e = concat3(d.as_str(), source.as_str(), ")");
    push_line(&mut out, e.as_str());
    assert(out@ =~= cache_line(*c));
    out
}

fn storage_section(plan: &ExecutionPlan) -> (r: String)
    ensures
        r@ == storage_text(*plan),
{
    let mut out = String::new();
    proof {
        reveal_strlit("");
    }
    push_line(&mut out, "mounts:");
    let ghost h1 = out@;
    let mut i: usize = 0;
    assert(plan.mounts@.take(0) =~= Seq::<ResolvedMount>::empty());
    while i < plan.mounts.len()
        invariant
            i <= plan.mounts@.len(),
            out@ == h1 + mount_lines(plan.mounts@.take(i as int)),
        decreases plan.mounts@.len() - i,
    {
        assert(plan.mounts@.take(i + 1).drop_last() =~= plan.mounts@.take(i as int));
        assert(plan.mounts@.take(i + 1).last() == plan.mounts@[i as int]);
        let l = mount_line_str(&plan.mounts[i]);
        append(&mut out, l.as_str());
        assert(out@ =~= h1 + mount_lines(plan.mounts@.take(i + 1)));
        i = i + 1;
    }
    assert(plan.mounts@.take(plan.mounts@.len() as int) =~= plan.mounts@);
    push_line(&mut out, "");
    push_line(&mut out, "caches:");
    let ghost h2 = out@;
    if plan.caches.len() == 0 {
        push_line(&mut out, "  <none>");
    } else {
        let mut k: usize = 0;
        assert(plan.caches@.take(0) =~= Seq::<ResolvedCache>::empty());
        while k < plan.caches.len()
            invariant
                k <= plan.caches@.len(),
                out@ == h2 + cache_lines(plan.caches@.take(k as int)),
            decreases plan.caches@.len() - k,
        {
            assert(plan.caches@.take(k + 1).drop_last() =~= plan.caches@.take(k as int));
            assert(plan.caches@.take(k + 1).last() == plan.caches@[k as int]);
            let l = cache_line_str(&plan.caches[k]);
            append(&mut out, l.as_str());
            assert(out@ =~= h2 + cache_lines(plan.caches@.take(k + 1)));
            k = k + 1;
        }
        assert(plan.caches@.take(plan.caches@.len() as int) =~= plan.caches@);
    }
    push_line(&mut out, "");
    push_line(&mut out, "secrets:");
    let ghost h3 = out@;
    if plan.secrets.len() == 0 {
        push_line(&mut out, "  <none>");
    } else {
        let mut j: usize = 0;
        assert(plan.secrets@.take(0) =~= Seq::<ResolvedSecret>::empty());
        while j < plan.secrets.len()
            invariant
                j <= plan.secrets@.len(),
                out@ == h3 + secret_lines(plan.secrets@.take(j as int)),
            decreases plan.secrets@.len() - j,
        {
            assert(plan.secrets@.take(j + 1).drop_last() =~= plan.secrets@.take(j as int));
            assert(plan.secrets@.take(j + 1).last() == plan.secrets@[j as int]);
            let sc = &plan.secrets[j];
            let a = concat3("  - ", sc.name.as_str(), " -> ");
            let b = concat3(a.as_str(), sc.target.as_str(), " (source: ");
            let c = concat3(b.as_str(), sc.source.as_str(), ")");
            push_line(&mut out, c.as_str());
            assert(out@ =~= h3 + secret_lines(plan.secrets@.take(j + 1)));
            j = j + 1;
        }
        assert(plan.secrets@.take(plan.secrets@.len() as int) =~= plan.secrets@);
    }
    assert(out@ =~= storage_text(*plan));
    out
}

/// An argument as shown in a command line: quoted when it holds a space or a comma.
pub open spec fn shown_arg(a: Seq<char>) -> Seq<char> {
    if has_char(a, ' ') || has_char(a, ',') {
        "'"@ + a + "'"@
    } else {
        a
    }
}

/// The Podman command a sandboxed Podman plan runs, in words, when its
/// arguments can be built.
pub open spec fn podman_command_text(plan: ExecutionPlan, ctx: HostContext) -> Option<Seq<char>> {
    if plan.mode != ExecutionMode::Sandbox || plan.backend != BackendKind::Podman {
        None
    } else {
        let image = match plan.image.source {
            ResolvedImageSource::Reference(r) => r@,
            ResolvedImageSource::Build { recipe_path, tag } => tag@,
        };
        if crate::backend::args::first_unknown_mount(plan.mounts@) is Some || crate::backend::args::first_bad_secret(
            plan.secrets@,
            plan.workspace.root@,
            crate::backend::args::home_view(ctx),
            views(ctx.existing_paths@),
        ) is Some {
            None
        } else {
            let words = crate::backend::podman::podman_run_words(
                plan,
                plan.mounts@,
                image,
                false,
                views(plan.command@),
                None,
                ctx,
            );
            Some(join(seq!["podman"@] + words.map_values(|a: Seq<char>| shown_arg(a)), " "@))
        }
    }
}

/// The Podman command a sandboxed Podman plan runs, in words.
pub fn render_podman_command(plan: &ExecutionPlan, ctx: &HostContext) -> (r: Option<String>)
    requires
        plan.mode == ExecutionMode::Sandbox && plan.backend == BackendKind::Podman
            ==> crate::backend::args::binds_have_sources(plan.mounts@),
    ensures
        opt_chars_of(r) == podman_command_text(*plan, *ctx),
{
    if plan.mode != ExecutionMode::Sandbox || plan.backend != BackendKind::Podman {
        return None;
    }
    let image = match &plan.image.source {
        ResolvedImageSource::Reference(r) => r.clone(),
        ResolvedImageSource::Build { recipe_path: _, tag } => tag.clone(),
    };
    let args = match crate::backend::podman::build_run_args(plan, image.as_str(), ctx) {
        Ok(a) => a,
        Err(_) => return None,
    };
    let ghost words = views(args@);
    let mut shown: Vec<String> = Vec::new();
    push_string(&mut shown, owned("podman"));
    proof {
        reveal_strlit("podman");
        reveal_strlit("'");
    }
    let mut i: usize = 0;
    while i < args.len()
        invariant
            words == views(args@),
            i <= words.len(),
            views(shown@) == seq!["podman"@] + words.take(i as int).map_values(|a: Seq<char>| shown_arg(a)),
        decreases words.len() - i,
    {
        let a = args[i].as_str();
        let s = if str_has_char(a, ' ') || str_has_char(a, ',') {
            concat3("'", a, "'")
        } else {
            owned(a)
        };
        let ghost before = views(shown@);
        let ghost sv = s@;
        shown.push(s);
        assert(views(shown@) =~= before.push(sv));
        assert(words.take(i + 1).map_values(|a: Seq<char>| shown_arg(a)) =~= words.take(i as int).map_values(
            |a: Seq<char>| shown_arg(a),
        ).push(shown_arg(args@[i as int]@)));
        i = i + 1;
    }
    assert(words.take(words.len() as int) =~= words);
    Some(join_strings(shown.as_slice(), " "))
}

/// An optional string by its characters.
pub open spec fn opt_chars_of(o: Option<String>) -> Option<Seq<char>> {
    crate::resolve::opt_chars(o)
}

/// The plan as text: heading, command, audit, resolution and runtime,
/// workspace, policy, environment, storage, and the backend command when
/// asked for and available.
pub open spec fn plan_text(config_path: Seq<char>, plan: ExecutionPlan, strict: bool, show_command: bool, inspection: bool, ctx: HostContext) -> Seq<char> {
    header_text(config_path) + command_text(plan, inspection) + audit_text(plan, strict, inspection) + resolution_text(plan)
        + workspace_text(plan) + policy_text(plan) + environment_text(plan) + storage_text(plan) + if show_command
        && podman_command_text(plan, ctx) is Some {
        nl(Seq::empty()) + nl("backend command:"@) + nl("  "@ + podman_command_text(plan, ctx).unwrap())
    } else {
        Seq::empty()
    }
}

/// The plan as `sbox plan` prints it.
#[verifier::rlimit(100)]
#[verifier::spinoff_prover]
pub fn render_plan(
    config_path: &str,
    plan: &ExecutionPlan,
    strict_security: bool,
    show_command: bool,
    profile_inspection: bool,
    ctx: &HostContext,
) -> (r: String)
    requires
        show_command && plan.mode == ExecutionMode::Sandbox && plan.backend == BackendKind::Podman
            ==> crate::backend::args::binds_have_sources(plan.mounts@),
    ensures
        r@ == plan_text(config_path@, *plan, strict_security, show_command, profile_inspection, *ctx),
{
    let mut out = header_section(config_path);
    let s = command_section(plan, profile_inspection);
    append(&mut out, s.as_str());
    let s = audit_section(plan, strict_security, profile_inspection);
    append(&mut out, s.as_str());
    let s = resolution_section(plan);
    append(&mut out, s.as_str());
    let s = workspace_section(plan);
    append(&mut out, s.as_str());
    let s = policy_section(plan);
    append(&mut out, s.as_str());
    let s = environment_section(plan);
    append(&mut out, s.as_str());
    let s = storage_section(plan);
    append(&mut out, s.as_str());
    let ghost body = out@;
    assert(body == header_text(config_path@) + command_text(*plan, profile_inspection) + audit_text(
        *plan,
        strict_security,
        profile_inspection,
    ) + resolution_text(*plan) + workspace_text(*plan) + policy_text(*plan) + environment_text(*plan) + storage_text(*plan));
    if show_command {
        match render_podman_command(plan, ctx) {
            Some(cmd) => {
                push_line(&mut out, "");
                push_line(&mut out, "backend command:");
                push_kv(&mut out, "  ", cmd.as_str());
                proof {
                    reveal_strlit("");
                }
            },
            None => {},
        }
    }
    assert(out@ =~= plan_text(config_path@, *plan, strict_security, show_command, profile_inspection, *ctx));
    out
}


/// `s.trim_end()`: trailing whitespace removed.
pub open spec fn trim_end(s: Seq<char>) -> Seq<char>
    decreases s.len(),
{
    if s.len() > 0 && crate::text::is_whitespace(s.last()) {
        trim_end(s.drop_last())
    } else {
        s
    }
}

fn trim_end_str(s: &str) -> (r: String)
    ensures
        r@ == trim_end(s@),
{
    let cs = crate::text::str_chars(s);
    let mut hi: usize = cs.len();
    assert(s@.take(cs@.len() as int) =~= s@);
    while hi > 0 && crate::text::char_is_whitespace(cs[hi - 1])
        invariant
            cs@ == s@,
            hi <= cs@.len(),
            trim_end(s@) == trim_end(s@.take(hi as int)),
        decreases hi,
    {
        assert(s@.take(hi as int).drop_last() =~= s@.take(hi - 1));
        hi = hi - 1;
    }
    let head = crate::text::chars_take(&cs, hi);
    crate::text::string_from_chars(head.as_slice())
}

/// The label of an audit outcome.
pub open spec fn audit_status_label(s: crate::audit::InlineAuditStatus) -> Seq<char> {
    match s {
        crate::audit::InlineAuditStatus::Clean => "clean"@,
        crate::audit::InlineAuditStatus::Findings => "VULNERABILITIES FOUND"@,
        crate::audit::InlineAuditStatus::ToolNotFound => "tool not installed"@,
        crate::audit::InlineAuditStatus::Error => "error"@,
    }
}

/// Each line indented by four spaces, one per line.
pub open spec fn indented_lines(lines: Seq<Seq<char>>) -> Seq<char>
    decreases lines.len(),
{
    if lines.len() == 0 {
        Seq::empty()
    } else {
        indented_lines(lines.drop_last()) + "    "@ + lines.last() + "\n"@
    }
}

/// The `security-scan:` block of an audit run before a command: its tool
/// and outcome, and what it printed, if anything, as a literal block.
pub open spec fn inline_audit_text(r: crate::audit::InlineAuditResult) -> Seq<char> {
    "\nsecurity-scan:\n  tool: "@ + r.tool@ + "\n  status: "@ + audit_status_label(r.status) + "\n"@ + if crate::proxy::trim(
        r.output@,
    ).len() == 0 {
        Seq::empty()
    } else {
        "  output: |\n"@ + indented_lines(crate::backend::args::text_lines(trim_end(r.output@)))
    }
}

/// The `security-scan:` block of an audit run before a command.
pub fn render_inline_audit(result: &crate::audit::InlineAuditResult) -> (r: String)
    ensures
        r@ == inline_audit_text(*result),
{
    let label = match result.status {
        crate::audit::InlineAuditStatus::Clean => "clean",
        crate::audit::InlineAuditStatus::Findings => "VULNERABILITIES FOUND",
        crate::audit::InlineAuditStatus::ToolNotFound => "tool not installed",
        crate::audit::InlineAuditStatus::Error => "error",
    };
    let mut out = concat3("\nsecurity-scan:\n  tool: ", result.tool.as_str(), "\n  status: ");
    crate::text::append(&mut out, label);
    crate::text::append(&mut out, "\n");
    let trimmed = crate::proxy::trim_str(result.output.as_str());
    if crate::text::str_chars(trimmed.as_str()).len() > 0 {
        crate::text::append(&mut out, "  output: |\n");
        let body = trim_end_str(result.output.as_str());
        let lines = crate::backend::args::lines_of(body.as_str());
        let ghost lv = views(lines@);
        let ghost head = out@;
        let mut i: usize = 0;
        while i < lines.len()
            invariant
                i <= lines@.len(),
                lv == views(lines@),
                out@ == head + indented_lines(lv.take(i as int)),
            decreases lines@.len() - i,
        {
            assert(lv.take(i + 1).drop_last() =~= lv.take(i as int));
            assert(lv.take(i + 1).last() == lines@[i as int]@);
            crate::text::append(&mut out, "    ");
            crate::text::append(&mut out, lines[i].as_str());
            crate::text::append(&mut out, "\n");
            assert(out@ =~= head + indented_lines(lv.take(i + 1)));
            i = i + 1;
        }
        assert(lv.take(lines@.len() as int) =~= lv);
    }
    out
}

/// The lockfile line of the plan: an audit that does not apply says so; one
/// that applies opens with whether the lockfile is required, then says
/// `present` exactly when one of the expected lockfiles was found and
/// `missing` otherwise, and names the expected files in brackets.
pub proof fn law_lockfile_line_tells_presence(a: LockfileAudit)
    ensures
        !a.applicable ==> lockfile_words(a) == "not-applicable"@,
        a.applicable && a.present ==> starts_with(
            lockfile_words(a),
            (if a.required {
                "required"@
            } else {
                "advisory"@
            }) + ", present ("@,
        ),
        a.applicable && !a.present ==> starts_with(
            lockfile_words(a),
            (if a.required {
                "required"@
            } else {
                "advisory"@
            }) + ", missing ("@,
        ),
        a.applicable ==> crate::text::ends_with(lockfile_words(a), ")"@),
        a.applicable ==> crate::text::contains(lockfile_words(a), join(views(a.expected_files@), " or "@)),
{
    if a.applicable {
        let req = if a.required {
            "required"@
        } else {
            "advisory"@
        };
        let state = if a.present {
            ", present ("@
        } else {
            ", missing ("@
        };
        let files = join(views(a.expected_files@), " or "@);
        let w = lockfile_words(a);
        reveal_strlit(")");
        assert(w =~= (req + state) + files + ")"@);
        assert(w.subrange(0, (req + state).len() as int) =~= req + state);
        assert(w.subrange(w.len() - 1, w.len() as int) =~= ")"@);
        let i = (req + state).len() as int;
        assert(w.subrange(i, i + files.len()) =~= files);
        assert(crate::text::occurs_at(w, files, i));
    }
}

} // verus!
