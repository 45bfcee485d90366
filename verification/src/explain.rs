//! `sbox explain`: what a plan means, in plain words, section by section.

use vstd::prelude::*;

use crate::config::model::{BackendKind, ExecutionMode};
use crate::exec::{trusted_image_needed, trusted_image_required};
use crate::plan::{distinct_hosts, nl, push_kv, push_line};
use crate::resolve::{ExecutionPlan, ProfileSource, ResolvedMount, ResolvedUser};
use crate::text::{append, concat2, concat3, decimal, eq_str, format_decimal, owned, push_string, strings_contain, views};

verus! {

/// The rule under the heading: sixty box-drawing dashes.
pub open spec fn rule_line() -> Seq<char> {
    Seq::new(60, |_i: int| '─')
}

/// The backend's name as a proper noun.
pub open spec fn backend_title(b: BackendKind) -> Seq<char> {
    match b {
        BackendKind::Podman => "Podman"@,
        BackendKind::Docker => "Docker"@,
    }
}

fn backend_title_str(b: BackendKind) -> (r: &'static str)
    ensures
        r@ == backend_title(b),
{
    match b {
        BackendKind::Podman => "Podman",
        BackendKind::Docker => "Docker",
    }
}

/// Where the profile came from, in words.
pub open spec fn origin_words(s: ProfileSource) -> Seq<char> {
    match s {
        ProfileSource::CliOverride => "cli override"@,
        ProfileSource::ExecSubcommand => "exec subcommand"@,
        ProfileSource::Dispatch { rule_name, pattern } => "matched dispatch rule `"@ + rule_name@
            + "` via pattern `"@ + pattern@ + "`"@,
        ProfileSource::DefaultProfile => "default profile"@,
        ProfileSource::ImplementationDefault => "implementation default"@,
        ProfileSource::Shadow => "shadow infrastructure"@,
    }
}

/// Where the profile came from, in words.
pub fn describe_origin(source: &ProfileSource) -> (r: String)
    ensures
        r@ == origin_words(*source),
{
    match source {
        ProfileSource::CliOverride => owned("cli override"),
        ProfileSource::ExecSubcommand => owned("exec subcommand"),
        ProfileSource::Dispatch { rule_name, pattern } => {
            let a = concat3("matched dispatch rule `", rule_name.as_str(), "` via pattern `");
            concat3(a.as_str(), pattern.as_str(), "`")
        },
        ProfileSource::DefaultProfile => owned("default profile"),
        ProfileSource::ImplementationDefault => owned("implementation default"),
        ProfileSource::Shadow => owned("shadow infrastructure"),
    }
}

/// One bullet line per item.
pub open spec fn bullets(v: Seq<Seq<char>>) -> Seq<char>
    decreases v.len(),
{
    if v.len() == 0 {
        Seq::empty()
    } else {
        bullets(v.drop_last()) + nl("    • "@ + v.last())
    }
}

/// The targets of the workspace mounts that can be written.
pub open spec fn writable_targets(ms: Seq<ResolvedMount>) -> Seq<Seq<char>>
    decreases ms.len(),
{
    if ms.len() == 0 {
        Seq::empty()
    } else {
        let m = ms.last();
        let rest = writable_targets(ms.drop_last());
        if !m.read_only && m.is_workspace && m.kind@ != "mask"@ {
            rest.push(m.target@)
        } else {
            rest
        }
    }
}

/// The targets of the masked credential files.
pub open spec fn masked_targets(ms: Seq<ResolvedMount>) -> Seq<Seq<char>>
    decreases ms.len(),
{
    if ms.len() == 0 {
        Seq::empty()
    } else {
        let m = ms.last();
        let rest = masked_targets(ms.drop_last());
        if m.kind@ == "mask"@ {
            rest.push(m.target@)
        } else {
            rest
        }
    }
}

/// The heading.
pub open spec fn heading_text(plan: ExecutionPlan) -> Seq<char> {
    nl("sbox explain: `"@ + plan.command_string@ + "`"@) + nl(rule_line()) + nl(Seq::empty())
}

/// What will run, and where.
pub open spec fn run_text(plan: ExecutionPlan) -> Seq<char> {
    nl("WHAT WILL RUN"@) + (match plan.mode {
        ExecutionMode::Host => nl("  This command runs directly on your host — no container."@),
        ExecutionMode::Sandbox => nl("  This command runs inside a "@ + backend_title(plan.backend) + " container."@)
            + nl("  Image: "@ + plan.image.description@),
    }) + nl("  Profile: "@ + plan.profile_name@ + " ("@ + origin_words(plan.profile_source) + ")"@) + nl(
        Seq::empty(),
    )
}

/// What the network allows.
pub open spec fn network_text(plan: ExecutionPlan) -> Seq<char> {
    let p = plan.policy;
    nl("NETWORK"@) + (if p.network@ == "off"@ {
        nl("  Network access is BLOCKED. The container cannot reach the internet."@) + nl(
            "  This prevents postinstall scripts from phoning home or exfiltrating data."@,
        )
    } else if p.network_allow@.len() == 0 && p.network_allow_patterns@.len() == 0 {
        nl("  Network access is ON with no allow-list — full internet access."@) + nl(
            "  Consider adding `network_allow` to restrict which hosts are reachable."@,
        )
    } else {
        nl("  Network access is restricted to:"@) + bullets(
            distinct_hosts(crate::network::pair_views(p.network_allow@)),
        ) + bullets(pattern_notes(views(p.network_allow_patterns@))) + nl(
            "  Other DNS hostnames are blocked (DNS is disabled and allowed hosts are injected via /etc/hosts)."@,
        ) + nl(
            "  Note: direct IP connections bypass `network_allow` (it is hostname/DNS-based, not a full egress firewall)."@,
        )
    }) + nl(Seq::empty())
}

/// Each pattern followed by `(pattern)`.
pub open spec fn pattern_notes(v: Seq<Seq<char>>) -> Seq<Seq<char>> {
    Seq::new(v.len(), |i: int| v[i] + " (pattern)"@)
}

/// What of the filesystem can be seen and written.
pub open spec fn filesystem_text(plan: ExecutionPlan) -> Seq<char> {
    let w = writable_targets(plan.mounts@);
    let m = masked_targets(plan.mounts@);
    nl("FILESYSTEM"@) + nl("  Your workspace is mounted at "@ + plan.workspace.mount@ + " inside the container."@)
        + (if plan.policy.writable {
        nl("  The entire workspace is writable."@)
    } else if w.len() == 0 {
        nl("  The workspace is READ-ONLY. No files can be modified."@)
    } else {
        nl("  Only these paths are writable:"@) + bullets(w) + nl("  Everything else is read-only."@)
    }) + (if m.len() == 0 {
        Seq::empty()
    } else {
        nl("  These credential files are masked (replaced with /dev/null):"@) + bullets(m)
    }) + nl(Seq::empty())
}

/// Which variables reach the command.
pub open spec fn environment_words(plan: ExecutionPlan) -> Seq<char> {
    let e = plan.environment;
    nl("ENVIRONMENT"@) + (if e.variables@.len() == 0 {
        nl("  No host environment variables are passed into the container."@)
    } else {
        nl("  "@ + decimal(e.variables@.len()) + " variable(s) are available inside the container."@)
    }) + (if e.denied@.len() == 0 {
        Seq::empty()
    } else {
        nl("  These variables are explicitly BLOCKED even if set on the host:"@) + bullets(views(e.denied@))
    }) + nl(Seq::empty())
}

/// Which user the command runs as.
pub open spec fn identity_text(plan: ExecutionPlan) -> Seq<char> {
    nl("IDENTITY"@) + (match plan.user {
        ResolvedUser::Explicit { uid, gid } => nl(
            "  The container runs as UID "@ + decimal(uid as nat) + " / GID "@ + decimal(gid as nat) + "."@,
        ),
        _ => nl("  The container runs as YOUR user (same UID/GID as the host)."@) + nl(
            "  Files created inside the container are owned by you on the host."@,
        ),
    }) + nl(Seq::empty())
}

/// The security summary.
pub open spec fn security_text(plan: ExecutionPlan, strict: bool) -> Seq<char> {
    nl("SECURITY SUMMARY"@) + (if plan.audit.install_style {
        nl("  This is an INSTALL-STYLE command — highest-risk category."@) + nl(
            "  Postinstall scripts run inside the sandbox and cannot:"@,
        ) + nl("    ✓ read your SSH keys, AWS credentials, or ~/.netrc"@) + nl(
            "    ✓ reach arbitrary internet hosts"@,
        ) + nl("    ✓ write outside the designated writable paths"@) + nl(
            "    ✓ exfiltrate tokens blocked by the deny list"@,
        ) + (if plan.policy.no_new_privileges {
            nl("    ✓ gain new privileges (no_new_privileges enforced)"@)
        } else {
            Seq::empty()
        })
    } else {
        nl("  Standard sandboxed execution."@)
    }) + (if strict {
        nl("  Strict security mode is ON."@)
    } else {
        Seq::empty()
    }) + (if trusted_image_needed(plan, strict) {
        nl("  A pinned image digest is required — mutable tags are rejected."@)
    } else {
        Seq::empty()
    })
}

/// The whole explanation.
pub open spec fn prose_text(plan: ExecutionPlan, strict: bool) -> Seq<char> {
    heading_text(plan) + run_text(plan) + network_text(plan) + filesystem_text(plan) + environment_words(plan)
        + identity_text(plan) + security_text(plan, strict)
}


/// Appends one bullet line per item.
fn push_bullets(out: &mut String, items: &Vec<String>)
    ensures
        final(out)@ == old(out)@ + bullets(views(items@)),
{
    let ghost start = out@;
    let ghost iv = views(items@);
    let mut i: usize = 0;
    assert(iv.take(0) =~= Seq::<Seq<char>>::empty());
    while i < items.len()
        invariant
            iv == views(items@),
            i <= iv.len(),
            out@ == start + bullets(iv.take(i as int)),
        decreases iv.len() - i,
    {
        assert(iv.take(i + 1).drop_last() =~= iv.take(i as int));
        assert(iv.take(i + 1).last() == items@[i as int]@);
        let line = concat2("    • ", items[i].as_str());
        push_line(out, line.as_str());
        assert(out@ =~= start + bullets(iv.take(i + 1)));
        i = i + 1;
    }
    assert(iv.take(iv.len() as int) =~= iv);
}

fn heading_section(plan: &ExecutionPlan) -> (r: String)
    ensures
        r@ == heading_text(*plan),
{
    let mut out = String::new();
    let first = concat3("sbox explain: `", plan.command_string.as_str(), "`");
    push_line(&mut out, first.as_str());
    let rule = "────────────────────────────────────────────────────────────";
    proof {
        reveal_strlit("────────────────────────────────────────────────────────────");
        reveal_strlit("");
        assert(rule@ =~= rule_line());
    }
    push_line(&mut out, rule);
    push_line(&mut out, "");
    assert(out@ =~= heading_text(*plan));
    out
}

fn run_section(plan: &ExecutionPlan) -> (r: String)
    ensures
        r@ == run_text(*plan),
{
    let mut out = String::new();
    proof {
        reveal_strlit("");
    }
    push_line(&mut out, "WHAT WILL RUN");
    let ghost head = out@;
    match plan.mode {
        ExecutionMode::Host => {
            push_line(&mut out, "  This command runs directly on your host — no container.");
        },
        ExecutionMode::Sandbox => {
            let a = concat3("  This command runs inside a ", backend_title_str(plan.backend), " container.");
            push_line(&mut out, a.as_str());
            push_kv(&mut out, "  Image: ", plan.image.description.as_str());
        },
    }
    let origin = describe_origin(&plan.profile_source);
    let a = concat3("  Profile: ", plan.profile_name.as_str(), " (");
    let b = concat3(a.as_str(), origin.as_str(), ")");
    push_line(&mut out, b.as_str());
    push_line(&mut out, "");
    assert(out@ =~= run_text(*plan));
    out
}

fn network_section(plan: &ExecutionPlan) -> (r: String)
    ensures
        r@ == network_text(*plan),
{
    let mut out = String::new();
    proof {
        reveal_strlit("");
        reveal_strlit("off");
    }
    let p = &plan.policy;
    push_line(&mut out, "NETWORK");
    let ghost head = out@;
    if eq_str(p.network.as_str(), "off") {
        push_line(&mut out, "  Network access is BLOCKED. The container cannot reach the internet.");
        push_line(&mut out, "  This prevents postinstall scripts from phoning home or exfiltrating data.");
    } else if p.network_allow.len() == 0 && p.network_allow_patterns.len() == 0 {
        push_line(&mut out, "  Network access is ON with no allow-list — full internet access.");
        push_line(&mut out, "  Consider adding `network_allow` to restrict which hosts are reachable.");
    } else {
        push_line(&mut out, "  Network access is restricted to:");
        let hosts = allowed_hosts(&p.network_allow);
        push_bullets(&mut out, &hosts);
        let notes = pattern_lines(&p.network_allow_patterns);
        push_bullets(&mut out, &notes);
        push_line(
            &mut out,
            "  Other DNS hostnames are blocked (DNS is disabled and allowed hosts are injected via /etc/hosts).",
        );
        push_line(
            &mut out,
            "  Note: direct IP connections bypass `network_allow` (it is hostname/DNS-based, not a full egress firewall).",
        );
    }
    push_line(&mut out, "");
    assert(out@ =~= network_text(*plan));
    out
}

/// The allowed hosts, each once, in order of first appearance.
fn allowed_hosts(pairs: &Vec<(String, String)>) -> (r: Vec<String>)
    ensures
        views(r@) == distinct_hosts(crate::network::pair_views(pairs@)),
{
    let ghost pv = crate::network::pair_views(pairs@);
    let mut seen: Vec<String> = Vec::new();
    let mut i: usize = 0;
    while i < pairs.len()
        invariant
            pv == crate::network::pair_views(pairs@),
            i <= pv.len(),
            views(seen@) == distinct_hosts(pv.take(i as int)),
        decreases pv.len() - i,
    {
        assert(pv.take(i + 1).drop_last() =~= pv.take(i as int));
        assert(pv.take(i + 1).last().0 == pairs@[i as int].0@);
        let host = pairs[i].0.as_str();
        if !strings_contain(seen.as_slice(), host) {
            push_string(&mut seen, owned(host));
        }
        i = i + 1;
    }
    assert(pv.take(pv.len() as int) =~= pv);
    seen
}

/// Each pattern followed by `(pattern)`.
fn pattern_lines(patterns: &Vec<String>) -> (r: Vec<String>)
    ensures
        views(r@) == pattern_notes(views(patterns@)),
{
    let mut out: Vec<String> = Vec::new();
    let mut i: usize = 0;
    while i < patterns.len()
        invariant
            i <= patterns@.len(),
            views(out@) == pattern_notes(views(patterns@)).take(i as int),
        decreases patterns@.len() - i,
    {
        let line = concat2(patterns[i].as_str(), " (pattern)");
        let ghost before = views(out@);
        push_string(&mut out, line);
        assert(views(out@) =~= pattern_notes(views(patterns@)).take(i + 1));
        i = i + 1;
    }
    assert(pattern_notes(views(patterns@)).take(patterns@.len() as int) =~= pattern_notes(views(patterns@)));
    out
}

/// The targets of the writable workspace mounts and of the masks, in order.
fn mount_targets(mounts: &Vec<ResolvedMount>) -> (r: (Vec<String>, Vec<String>))
    ensures
        views(r.0@) == writable_targets(mounts@),
        views(r.1@) == masked_targets(mounts@),
{
    proof {
        reveal_strlit("mask");
    }
    let mut writable: Vec<String> = Vec::new();
    let mut masked: Vec<String> = Vec::new();
    let mut i: usize = 0;
    while i < mounts.len()
        invariant
            i <= mounts@.len(),
            views(writable@) == writable_targets(mounts@.take(i as int)),
            views(masked@) == masked_targets(mounts@.take(i as int)),
        decreases mounts@.len() - i,
    {
        assert(mounts@.take(i + 1).drop_last() =~= mounts@.take(i as int));
        assert(mounts@.take(i + 1).last() == mounts@[i as int]);
        let m = &mounts[i];
        let is_mask = eq_str(m.kind.as_str(), "mask");
        if !m.read_only && m.is_workspace && !is_mask {
            push_string(&mut writable, m.target.clone());
        }
        if is_mask {
            push_string(&mut masked, m.target.clone());
        }
        i = i + 1;
    }
    assert(mounts@.take(mounts@.len() as int) =~= mounts@);
    (writable, masked)
}

fn filesystem_section(plan: &ExecutionPlan) -> (r: String)
    ensures
        r@ == filesystem_text(*plan),
{
    let mut out = String::new();
    proof {
        reveal_strlit("");
    }
    push_line(&mut out, "FILESYSTEM");
    let a = concat3("  Your workspace is mounted at ", plan.workspace.mount.as_str(), " inside the container.");
    push_line(&mut out, a.as_str());
    let (writable, masked) = mount_targets(&plan.mounts);
    if plan.policy.writable {
        push_line(&mut out, "  The entire workspace is writable.");
    } else if writable.len() == 0 {
        push_line(&mut out, "  The workspace is READ-ONLY. No files can be modified.");
    } else {
        push_line(&mut out, "  Only these paths are writable:");
        push_bullets(&mut out, &writable);
        push_line(&mut out, "  Everything else is read-only.");
    }
    if masked.len() > 0 {
        push_line(&mut out, "  These credential files are masked (replaced with /dev/null):");
        push_bullets(&mut out, &masked);
    }
    push_line(&mut out, "");
    assert(out@ =~= filesystem_text(*plan));
    out
}

fn environment_section(plan: &ExecutionPlan) -> (r: String)
    ensures
        r@ == environment_words(*plan),
{
    let mut out = String::new();
    proof {
        reveal_strlit("");
    }
    let e = &plan.environment;
    push_line(&mut out, "ENVIRONMENT");
    if e.variables.len() == 0 {
        push_line(&mut out, "  No host environment variables are passed into the container.");
    } else {
        let n = format_decimal(e.variables.len() as u64);
        let a = concat3("  ", n.as_str(), " variable(s) are available inside the container.");
        push_line(&mut out, a.as_str());
    }
    if e.denied.len() > 0 {
        push_line(&mut out, "  These variables are explicitly BLOCKED even if set on the host:");
        push_bullets(&mut out, &e.denied);
    }
    push_line(&mut out, "");
    assert(out@ =~= environment_words(*plan));
    out
}

fn identity_section(plan: &ExecutionPlan) -> (r: String)
    ensures
        r@ == identity_text(*plan),
{
    let mut out = String::new();
    proof {
        reveal_strlit("");
    }
    push_line(&mut out, "IDENTITY");
    match plan.user {
        ResolvedUser::Explicit { uid, gid } => {
            let u = format_decimal(uid as u64);
            let g = format_decimal(gid as u64);
            let a = concat3("  The container runs as UID ", u.as_str(), " / GID ");
            let b = concat3(a.as_str(), g.as_str(), ".");
            push_line(&mut out, b.as_str());
        },
        _ => {
            push_line(&mut out, "  The container runs as YOUR user (same UID/GID as the host).");
            push_line(&mut out, "  Files created inside the container are owned by you on the host.");
        },
    }
    push_line(&mut out, "");
    assert(out@ =~= identity_text(*plan));
    out
}

fn security_section(plan: &ExecutionPlan, strict: bool) -> (r: String)
    ensures
        r@ == security_text(*plan, strict),
{
    let mut out = String::new();
    push_line(&mut out, "SECURITY SUMMARY");
    if plan.audit.install_style {
        push_line(&mut out, "  This is an INSTALL-STYLE command — highest-risk category.");
        push_line(&mut out, "  Postinstall scripts run inside the sandbox and cannot:");
        push_line(&mut out, "    ✓ read your SSH keys, AWS credentials, or ~/.netrc");
        push_line(&mut out, "    ✓ reach arbitrary internet hosts");
        push_line(&mut out, "    ✓ write outside the designated writable paths");
        push_line(&mut out, "    ✓ exfiltrate tokens blocked by the deny list");
        if plan.policy.no_new_privileges {
            push_line(&mut out, "    ✓ gain new privileges (no_new_privileges enforced)");
        }
    } else {
        push_line(&mut out, "  Standard sandboxed execution.");
    }
    if strict {
        push_line(&mut out, "  Strict security mode is ON.");
    }
    if trusted_image_required(plan, strict) {
        push_line(&mut out, "  A pinned image digest is required — mutable tags are rejected.");
    }
    assert(out@ =~= security_text(*plan, strict));
    out
}

/// The plan of a command explained in plain words, as `sbox explain` prints it.
pub fn build_prose(plan: &ExecutionPlan, strict: bool) -> (r: String)
    ensures
        r@ == prose_text(*plan, strict),
{
    let mut out = heading_section(plan);
    let s = run_section(plan);
    append(&mut out, s.as_str());
    let s = network_section(plan);
    append(&mut out, s.as_str());
    let s = filesystem_section(plan);
    append(&mut out, s.as_str());
    let s = environment_section(plan);
    append(&mut out, s.as_str());
    let s = identity_section(plan);
    append(&mut out, s.as_str());
    let s = security_section(plan, strict);
    append(&mut out, s.as_str());
    assert(out@ =~= prose_text(*plan, strict));
    out
}

/// A mount through which the command may write into the workspace: a
/// workspace mount that is not read-only and does not mask a file.
pub open spec fn writes_workspace(m: ResolvedMount) -> bool {
    m.is_workspace && !m.read_only && m.kind@ != "mask"@
}

/// The paths the explanation lists as writable are exactly the targets of
/// the workspace mounts that are not read-only and do not mask a file, in
/// the order of the mounts: every listed path is such a mount's target, and
/// every such mount's target is listed.
pub proof fn law_listed_writable_paths_are_writable_mounts(ms: Seq<ResolvedMount>)
    ensures
        forall|i: int|
            0 <= i < writable_targets(ms).len() ==> exists|j: int|
                0 <= j < ms.len() && writes_workspace(#[trigger] ms[j]) && ms[j].target@ == #[trigger] writable_targets(
                    ms,
                )[i],
        forall|j: int|
            0 <= j < ms.len() && writes_workspace(#[trigger] ms[j]) ==> writable_targets(ms).contains(ms[j].target@),
        writable_targets(ms).len() <= ms.len(),
    decreases ms.len(),
{
    if ms.len() > 0 {
        let rest = ms.drop_last();
        law_listed_writable_paths_are_writable_mounts(rest);
        let w = writable_targets(ms);
        let wr = writable_targets(rest);
        assert forall|i: int| 0 <= i < w.len() implies exists|j: int|
            0 <= j < ms.len() && writes_workspace(#[trigger] ms[j]) && ms[j].target@ == #[trigger] w[i] by {
            if i < wr.len() {
                let j = choose|j: int| 0 <= j < rest.len() && writes_workspace(#[trigger] rest[j]) && rest[j].target@ == wr[i];
                assert(ms[j] == rest[j]);
            } else {
                assert(writes_workspace(ms[ms.len() - 1]));
            }
        }
        assert forall|j: int| 0 <= j < ms.len() && writes_workspace(#[trigger] ms[j]) implies w.contains(ms[j].target@) by {
            if j < rest.len() {
                assert(rest[j] == ms[j]);
                let k = choose|k: int| 0 <= k < wr.len() && wr[k] == ms[j].target@;
                assert(w[k] == wr[k]);
            } else {
                assert(w[w.len() - 1] == ms[j].target@);
            }
        }
    }
}

} // verus!
