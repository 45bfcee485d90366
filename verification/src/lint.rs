//! `sbox lint`: the rules a configuration is held to, and the exit code of
//! their findings.

use vstd::prelude::*;

use crate::config::maps::{dispatch_entries, first_key_index, has_key, profile_entries};
use crate::config::model::{Config, DispatchRule, ProfileConfig};
use crate::text::{
    concat2, concat3, contains, contains_any, ends_with, eq_str, seq_has, str_contains, str_contains_any,
    str_ends_with, str_views, strings_contain, uppercase, views,
};

verus! {

#[derive(Clone, Copy, Debug, PartialEq, Eq, Structural)]
pub enum LintLevel {
    Error,
    Warn,
}

/// One finding: the rule, its level, what it found and how to fix it.
pub struct LintResult {
    pub rule: &'static str,
    pub level: LintLevel,
    pub message: String,
    pub fix: &'static str,
}

impl LintResult {
    pub fn error(rule: &'static str, message: String, fix: &'static str) -> (r: LintResult)
        ensures
            r.rule == rule && r.level == LintLevel::Error && r.message == message && r.fix == fix,
    {
        LintResult { rule, level: LintLevel::Error, message, fix }
    }

    pub fn warn(rule: &'static str, message: String, fix: &'static str) -> (r: LintResult)
        ensures
            r.rule == rule && r.level == LintLevel::Warn && r.message == message && r.fix == fix,
    {
        LintResult { rule, level: LintLevel::Warn, message, fix }
    }
}

/// A finding as plain values.
pub type FindingView = (Seq<char>, LintLevel, Seq<char>, Seq<char>);

pub open spec fn lint_view(f: LintResult) -> FindingView {
    (f.rule@, f.level, f.message@, f.fix@)
}

pub open spec fn lint_views(v: Seq<LintResult>) -> Seq<FindingView> {
    v.map_values(|f: LintResult| lint_view(f))
}

fn push_finding(v: &mut Vec<LintResult>, f: LintResult)
    ensures
        lint_views(final(v)@) == lint_views(old(v)@).push(lint_view(f)),
{
    let ghost before = v@;
    let ghost fv = lint_view(f);
    v.push(f);
    assert(lint_views(v@) =~= lint_views(before).push(fv));
}

/// A profile with `network: on`.
pub open spec fn network_on(p: ProfileConfig) -> bool {
    p.network matches Some(n) && n@ == "on"@
}

fn is_network_on(p: &ProfileConfig) -> (r: bool)
    ensures
        r == network_on(*p),
{
    proof {
        reveal_strlit("on");
    }
    match &p.network {
        Some(n) => eq_str(n.as_str(), "on"),
        None => false,
    }
}

// ---------------------------------------------------------------------------
// The rules
// ---------------------------------------------------------------------------

/// A mutable image: no digest, no local build, and pinning not required.
pub open spec fn unpinned_image_findings(c: Config) -> Seq<FindingView> {
    let required = c.runtime matches Some(rt) && rt.require_pinned_image == Some(true);
    match c.image {
        Some(img) => if !required && img.digest is None && img.build is None {
            seq![
                (
                    "unpinned-image"@,
                    LintLevel::Warn,
                    "image `"@ + (match img.reference {
                        Some(r) => r@,
                        None => "<unknown>"@,
                    }) + "` is a mutable tag — it may change between runs"@,
                    "add `image.digest: sha256:...` or set `runtime.require_pinned_image: true`"@,
                ),
            ]
        } else {
            Seq::empty()
        },
        None => Seq::empty(),
    }
}

/// Profiles with full network access: `network: on` and no allow-list.
pub open spec fn full_network_findings(entries: Seq<(Seq<char>, ProfileConfig)>) -> Seq<FindingView>
    decreases entries.len(),
{
    if entries.len() == 0 {
        Seq::empty()
    } else {
        let rest = full_network_findings(entries.drop_last());
        let (name, p) = entries.last();
        if network_on(p) && p.network_allow@.len() == 0 {
            rest.push(
                (
                    "unrestricted-network"@,
                    LintLevel::Warn,
                    "profile `"@ + name
                        + "` has `network: on` with no `network_allow` — full internet access inside the sandbox"@,
                    "add `network_allow` with specific hostnames, or set `network: off`"@,
                ),
            )
        } else {
            rest
        }
    }
}

/// Allow-list entries that are too broad.
pub open spec fn broad_hosts() -> Seq<Seq<char>> {
    seq!["*"@, "0.0.0.0"@, "github.com"@, "raw.githubusercontent.com"@]
}

/// A broad allow-list entry: a broad host or a subdomain of one.
pub open spec fn broad_host(host: Seq<char>) -> bool {
    exists|i: int| 0 <= i < broad_hosts().len() && (host == #[trigger] broad_hosts()[i] || ends_with(host, "."@ + broad_hosts()[i]))
}

/// The broad entries of one profile's allow-list.
pub open spec fn broad_entries(name: Seq<char>, hosts: Seq<Seq<char>>) -> Seq<FindingView>
    decreases hosts.len(),
{
    if hosts.len() == 0 {
        Seq::empty()
    } else {
        let rest = broad_entries(name, hosts.drop_last());
        if broad_host(hosts.last()) {
            rest.push(
                (
                    "broad-network-allow"@,
                    LintLevel::Warn,
                    "profile `"@ + name + "` allows `"@ + hosts.last() + "` — this may grant broader network access than intended"@,
                    "restrict to the specific registry hostname required by this profile"@,
                ),
            )
        } else {
            rest
        }
    }
}

/// The broad allow-list entries of every profile.
pub open spec fn broad_allow_findings(entries: Seq<(Seq<char>, ProfileConfig)>) -> Seq<FindingView>
    decreases entries.len(),
{
    if entries.len() == 0 {
        Seq::empty()
    } else {
        broad_allow_findings(entries.drop_last()) + broad_entries(entries.last().0, views(entries.last().1.network_allow@))
    }
}

/// Profiles whose allow-list does not stop connections by address.
pub open spec fn raw_ip_findings(entries: Seq<(Seq<char>, ProfileConfig)>) -> Seq<FindingView>
    decreases entries.len(),
{
    if entries.len() == 0 {
        Seq::empty()
    } else {
        let rest = raw_ip_findings(entries.drop_last());
        let (name, p) = entries.last();
        if network_on(p) && p.network_allow@.len() > 0 {
            rest.push(
                (
                    "network-allow-raw-ip-bypass"@,
                    LintLevel::Warn,
                    "profile `"@ + name
                        + "` uses `network_allow` — this restricts DNS/hostnames but does not block direct IP connections"@,
                    "treat `network_allow` as a DNS allow-list; for stronger egress control, use host firewalling or a backend that supports IP-level filtering"@,
                ),
            )
        } else {
            rest
        }
    }
}

/// Name fragments of credential variables.
pub open spec fn credential_fragments() -> Seq<Seq<char>> {
    seq!["TOKEN"@, "SECRET"@, "KEY"@, "PASSWORD"@, "PASSWD"@, "CREDENTIAL"@, "AUTH"@]
}

/// Passed-through credential variables that are not denied.
pub open spec fn passthrough_findings(pass: Seq<Seq<char>>, deny: Seq<Seq<char>>) -> Seq<FindingView>
    decreases pass.len(),
{
    if pass.len() == 0 {
        Seq::empty()
    } else {
        let rest = passthrough_findings(pass.drop_last(), deny);
        let v = pass.last();
        if contains_any(uppercase(v), credential_fragments()) && !seq_has(deny, v) {
            rest.push(
                (
                    "sensitive-passthrough"@,
                    LintLevel::Error,
                    "`"@ + v
                        + "` looks like a credential and is in `pass_through` but not `deny` — it will be visible to code running inside the sandbox"@,
                    "add the variable to `environment.deny` or remove it from `pass_through`"@,
                ),
            )
        } else {
            rest
        }
    }
}

/// Verbs of install-like commands.
pub open spec fn install_verbs() -> Seq<Seq<char>> {
    seq!["install"@, "add"@, "sync"@, "fetch"@, "get"@, "update"@]
}

/// Dispatch rules that route install-like commands to a profile without a role.
pub open spec fn install_role_findings(
    rules: Seq<(Seq<char>, DispatchRule)>,
    profiles: Seq<(Seq<char>, ProfileConfig)>,
) -> Seq<FindingView>
    decreases rules.len(),
{
    if rules.len() == 0 {
        Seq::empty()
    } else {
        let rest = install_role_findings(rules.drop_last(), profiles);
        let (dname, rule) = rules.last();
        let target = rule.profile@;
        if has_key(profiles, target) && profiles[first_key_index(profiles, target).unwrap()].1.role is None
            && exists|j: int| 0 <= j < rule.patterns@.len() && #[trigger] contains_any(rule.patterns@[j]@, install_verbs()) {
            rest.push(
                (
                    "install-role-missing"@,
                    LintLevel::Warn,
                    "dispatch rule `"@ + dname + "` routes install-like commands to profile `"@ + target
                        + "` but the profile has no `role: install`"@,
                    "add `role: install` to the profile to enable lockfile checks and install-style audit"@,
                ),
            )
        } else {
            rest
        }
    }
}

/// An identity with `uid: 0`.
pub open spec fn root_identity_findings(c: Config) -> Seq<FindingView> {
    if c.identity matches Some(id) && id.uid == Some(0u32) {
        seq![
            (
                "root-identity"@,
                LintLevel::Warn,
                "identity sets `uid: 0` — the container runs as root; files created inside will be root-owned on the host (non-rootless Docker) and the attack surface is larger"@,
                "remove `identity.uid` to let sbox map to your host user (default behaviour)"@,
            ),
        ]
    } else {
        Seq::empty()
    }
}

/// No profiles and no dispatch rules (unless a package manager supplies them).
pub open spec fn no_policy_findings(c: Config) -> Seq<FindingView> {
    if c.package_manager is None && profile_entries(c.profiles).len() == 0 && dispatch_entries(c.dispatch).len() == 0 {
        seq![
            (
                "no-policy"@,
                LintLevel::Warn,
                "no profiles or dispatch rules are defined — all commands use the same default policy"@,
                "add profiles and dispatch rules, or use `package_manager:` for a preset"@,
            ),
        ]
    } else {
        Seq::empty()
    }
}

/// Every finding on a configuration, rule by rule.
pub open spec fn all_findings(c: Config) -> Seq<FindingView> {
    let entries = profile_entries(c.profiles);
    unpinned_image_findings(c) + full_network_findings(entries) + broad_allow_findings(entries) + raw_ip_findings(entries)
        + (match c.environment {
        Some(e) => passthrough_findings(views(e.pass_through@), views(e.deny@)),
        None => Seq::empty(),
    }) + install_role_findings(dispatch_entries(c.dispatch), entries) + root_identity_findings(c) + no_policy_findings(c)
}

fn rule_unpinned_image(config: &Config, out: &mut Vec<LintResult>)
    ensures
        lint_views(final(out)@) == lint_views(old(out)@) + unpinned_image_findings(*config),
{
    let required = match &config.runtime {
        Some(rt) => matches!(rt.require_pinned_image, Some(true)),
        None => false,
    };
    match &config.image {
        Some(img) => {
            if !required && img.digest.is_none() && img.build.is_none() {
                let r = match &img.reference {
                    Some(x) => x.as_str(),
                    None => "<unknown>",
                };
                let m = concat3("image `", r, "` is a mutable tag — it may change between runs");
                push_finding(
                    out,
                    LintResult::warn(
                        "unpinned-image",
                        m,
                        "add `image.digest: sha256:...` or set `runtime.require_pinned_image: true`",
                    ),
                );
            }
        },
        None => {},
    }
    assert(lint_views(out@) =~= lint_views(old(out)@) + unpinned_image_findings(*config));
}

fn rule_profiles(config: &Config, out: &mut Vec<LintResult>)
    ensures
        lint_views(final(out)@) == lint_views(old(out)@) + full_network_findings(profile_entries(config.profiles))
            + broad_allow_findings(profile_entries(config.profiles)) + raw_ip_findings(profile_entries(config.profiles)),
{
    let ghost entries = profile_entries(config.profiles);
    let n = crate::config::maps::profiles_len(&config.profiles);
    let ghost s0 = lint_views(out@);
    let mut i: usize = 0;
    assert(entries.take(0) =~= Seq::<(Seq<char>, ProfileConfig)>::empty());
    assert(s0 + full_network_findings(entries.take(0)) =~= s0);
    while i < n
        invariant
            entries == profile_entries(config.profiles),
            n == entries.len(),
            i <= n,
            lint_views(out@) == s0 + full_network_findings(entries.take(i as int)),
        decreases n - i,
    {
        let (name, p) = crate::config::maps::profiles_at(&config.profiles, i);
        assert(entries.take(i + 1).drop_last() =~= entries.take(i as int));
        assert(entries.take(i + 1).last() == entries[i as int]);
        if is_network_on(p) && p.network_allow.len() == 0 {
            let m = concat3(
                "profile `",
                name.as_str(),
                "` has `network: on` with no `network_allow` — full internet access inside the sandbox",
            );
            push_finding(
                out,
                LintResult::warn("unrestricted-network", m, "add `network_allow` with specific hostnames, or set `network: off`"),
            );
        }
        assert(lint_views(out@) =~= s0 + full_network_findings(entries.take(i + 1)));
        i = i + 1;
    }
    assert(entries.take(n as int) =~= entries);
    let ghost s1 = lint_views(out@);
    let mut i: usize = 0;
    assert(s1 + broad_allow_findings(entries.take(0)) =~= s1);
    while i < n
        invariant
            entries == profile_entries(config.profiles),
            n == entries.len(),
            i <= n,
            lint_views(out@) == s1 + broad_allow_findings(entries.take(i as int)),
        decreases n - i,
    {
        let (name, p) = crate::config::maps::profiles_at(&config.profiles, i);
        assert(entries.take(i + 1).drop_last() =~= entries.take(i as int));
        assert(entries.take(i + 1).last() == entries[i as int]);
        let ghost hosts = views(p.network_allow@);
        let ghost before = lint_views(out@);
        let mut k: usize = 0;
        assert(hosts.take(0) =~= Seq::<Seq<char>>::empty());
        assert(before + broad_entries(name@, hosts.take(0)) =~= before);
        while k < p.network_allow.len()
            invariant
                hosts == views(p.network_allow@),
                k <= hosts.len(),
                lint_views(out@) == before + broad_entries(name@, hosts.take(k as int)),
            decreases hosts.len() - k,
        {
            assert(hosts.take(k + 1).drop_last() =~= hosts.take(k as int));
            assert(hosts.take(k + 1).last() == p.network_allow@[k as int]@);
            let host = p.network_allow[k].as_str();
            if is_broad_host(host) {
                let a = concat3("profile `", name.as_str(), "` allows `");
                let m = concat3(a.as_str(), host, "` — this may grant broader network access than intended");
                push_finding(
                    out,
                    LintResult::warn("broad-network-allow", m, "restrict to the specific registry hostname required by this profile"),
                );
            }
            assert(lint_views(out@) =~= before + broad_entries(name@, hosts.take(k + 1)));
            k = k + 1;
        }
        assert(hosts.take(hosts.len() as int) =~= hosts);
        assert(lint_views(out@) =~= s1 + broad_allow_findings(entries.take(i + 1)));
        i = i + 1;
    }
    let ghost s2 = lint_views(out@);
    let mut i: usize = 0;
    assert(s2 + raw_ip_findings(entries.take(0)) =~= s2);
    while i < n
        invariant
            entries == profile_entries(config.profiles),
            n == entries.len(),
            i <= n,
            lint_views(out@) == s2 + raw_ip_findings(entries.take(i as int)),
        decreases n - i,
    {
        let (name, p) = crate::config::maps::profiles_at(&config.profiles, i);
        assert(entries.take(i + 1).drop_last() =~= entries.take(i as int));
        assert(entries.take(i + 1).last() == entries[i as int]);
        if is_network_on(p) && p.network_allow.len() > 0 {
            let m = concat3(
                "profile `",
                name.as_str(),
                "` uses `network_allow` — this restricts DNS/hostnames but does not block direct IP connections",
            );
            push_finding(
                out,
                LintResult::warn(
                    "network-allow-raw-ip-bypass",
                    m,
                    "treat `network_allow` as a DNS allow-list; for stronger egress control, use host firewalling or a backend that supports IP-level filtering",
                ),
            );
        }
        assert(lint_views(out@) =~= s2 + raw_ip_findings(entries.take(i + 1)));
        i = i + 1;
    }
    assert(lint_views(out@) =~= lint_views(old(out)@) + full_network_findings(entries) + broad_allow_findings(entries)
        + raw_ip_findings(entries));
}

/// Whether an allow-list entry is too broad.
pub fn is_broad_host(host: &str) -> (r: bool)
    ensures
        r == broad_host(host@),
{
    let broad = ["*", "0.0.0.0", "github.com", "raw.githubusercontent.com"];
    assert(str_views(broad@) =~= broad_hosts());
    let mut i: usize = 0;
    while i < broad.len()
        invariant
            i <= broad@.len(),
            str_views(broad@) == broad_hosts(),
            forall|j: int| 0 <= j < i ==> !(host@ == #[trigger] broad_hosts()[j] || ends_with(host@, "."@ + broad_hosts()[j])),
        decreases broad@.len() - i,
    {
        assert(broad_hosts()[i as int] == broad@[i as int]@);
        let dotted = concat2(".", broad[i]);
        if eq_str(host, broad[i]) || str_ends_with(host, dotted.as_str()) {
            return true;
        }
        i = i + 1;
    }
    false
}

fn rule_passthrough(pass: &Vec<String>, deny: &Vec<String>, out: &mut Vec<LintResult>)
    ensures
        lint_views(final(out)@) == lint_views(old(out)@) + passthrough_findings(views(pass@), views(deny@)),
{
    let ghost pv = views(pass@);
    let ghost s0 = lint_views(out@);
    let frags = ["TOKEN", "SECRET", "KEY", "PASSWORD", "PASSWD", "CREDENTIAL", "AUTH"];
    assert(str_views(frags@) =~= credential_fragments());
    let mut i: usize = 0;
    assert(pv.take(0) =~= Seq::<Seq<char>>::empty());
    assert(s0 + passthrough_findings(pv.take(0), views(deny@)) =~= s0);
    while i < pass.len()
        invariant
            pv == views(pass@),
            str_views(frags@) == credential_fragments(),
            i <= pv.len(),
            lint_views(out@) == s0 + passthrough_findings(pv.take(i as int), views(deny@)),
        decreases pv.len() - i,
    {
        assert(pv.take(i + 1).drop_last() =~= pv.take(i as int));
        assert(pv.take(i + 1).last() == pass@[i as int]@);
        let v = pass[i].as_str();
        let upper = crate::text::to_uppercase(v);
        if str_contains_any(upper.as_str(), &frags) && !strings_contain(deny.as_slice(), v) {
            let m = concat3(
                "`",
                v,
                "` looks like a credential and is in `pass_through` but not `deny` — it will be visible to code running inside the sandbox",
            );
            push_finding(
                out,
                LintResult::error(
                    "sensitive-passthrough",
                    m,
                    "add the variable to `environment.deny` or remove it from `pass_through`",
                ),
            );
        }
        assert(lint_views(out@) =~= s0 + passthrough_findings(pv.take(i + 1), views(deny@)));
        i = i + 1;
    }
    assert(pv.take(pv.len() as int) =~= pv);
}

fn has_install_pattern(patterns: &Vec<String>) -> (r: bool)
    ensures
        r == exists|j: int| 0 <= j < patterns@.len() && #[trigger] contains_any(patterns@[j]@, install_verbs()),
{
    let verbs = ["install", "add", "sync", "fetch", "get", "update"];
    assert(str_views(verbs@) =~= install_verbs());
    let mut j: usize = 0;
    while j < patterns.len()
        invariant
            j <= patterns@.len(),
            str_views(verbs@) == install_verbs(),
            forall|k: int| 0 <= k < j ==> !#[trigger] contains_any(patterns@[k]@, install_verbs()),
        decreases patterns@.len() - j,
    {
        if str_contains_any(patterns[j].as_str(), &verbs) {
            return true;
        }
        j = j + 1;
    }
    false
}

fn rule_install_role(config: &Config, out: &mut Vec<LintResult>)
    ensures
        lint_views(final(out)@) == lint_views(old(out)@) + install_role_findings(
            dispatch_entries(config.dispatch),
            profile_entries(config.profiles),
        ),
{
    let ghost rules = dispatch_entries(config.dispatch);
    let ghost profiles = profile_entries(config.profiles);
    let ghost s0 = lint_views(out@);
    let n = crate::config::maps::dispatch_len(&config.dispatch);
    let mut i: usize = 0;
    assert(rules.take(0) =~= Seq::<(Seq<char>, DispatchRule)>::empty());
    assert(s0 + install_role_findings(rules.take(0), profiles) =~= s0);
    while i < n
        invariant
            rules == dispatch_entries(config.dispatch),
            profiles == profile_entries(config.profiles),
            n == rules.len(),
            i <= n,
            lint_views(out@) == s0 + install_role_findings(rules.take(i as int), profiles),
        decreases n - i,
    {
        let (dname, rule) = crate::config::maps::dispatch_at(&config.dispatch, i);
        assert(rules.take(i + 1).drop_last() =~= rules.take(i as int));
        assert(rules.take(i + 1).last() == rules[i as int]);
        match crate::config::maps::profiles_index_of(&config.profiles, rule.profile.as_str()) {
            Some(k) => {
                let (_, p) = crate::config::maps::profiles_at(&config.profiles, k);
                proof {
                    assert(has_key(profiles, rule.profile@)) by {
                        assert(profiles[k as int].0 == rule.profile@);
                    }
                    let fk = first_key_index(profiles, rule.profile@);
                    assert(fk == Some(k as int)) by {
                        let c = choose|c: int| 0 <= c < profiles.len() && profiles[c].0 == rule.profile@
                            && forall|j: int| 0 <= j < c ==> profiles[j].0 != rule.profile@;
                        if c < k {
                        } else if c > k {
                        }
                    }
                }
                if p.role.is_none() && has_install_pattern(&rule.patterns) {
                    let a = concat3("dispatch rule `", dname.as_str(), "` routes install-like commands to profile `");
                    let m = concat3(a.as_str(), rule.profile.as_str(), "` but the profile has no `role: install`");
                    push_finding(
                        out,
                        LintResult::warn(
                            "install-role-missing",
                            m,
                            "add `role: install` to the profile to enable lockfile checks and install-style audit",
                        ),
                    );
                }
            },
            None => {},
        }
        assert(lint_views(out@) =~= s0 + install_role_findings(rules.take(i + 1), profiles));
        i = i + 1;
    }
    assert(rules.take(n as int) =~= rules);
}

/// Every finding on a configuration, rule by rule.
pub fn run_all_rules(config: &Config) -> (r: Vec<LintResult>)
    ensures
        lint_views(r@) == all_findings(*config),
{
    let mut out: Vec<LintResult> = Vec::new();
    assert(lint_views(out@) =~= Seq::<FindingView>::empty());
    rule_unpinned_image(config, &mut out);
    rule_profiles(config, &mut out);
    let ghost s3 = lint_views(out@);
    match &config.environment {
        Some(e) => rule_passthrough(&e.pass_through, &e.deny, &mut out),
        None => {},
    }
    let ghost s4 = lint_views(out@);
    rule_install_role(config, &mut out);
    let ghost s5 = lint_views(out@);
    let root = match &config.identity {
        Some(id) => matches!(id.uid, Some(0u32)),
        None => false,
    };
    if root {
        push_finding(
            &mut out,
            LintResult::warn(
                "root-identity",
                crate::text::owned(
                    "identity sets `uid: 0` — the container runs as root; files created inside will be root-owned on the host (non-rootless Docker) and the attack surface is larger",
                ),
                "remove `identity.uid` to let sbox map to your host user (default behaviour)",
            ),
        );
    }
    let ghost s6 = lint_views(out@);
    if config.package_manager.is_none() && crate::config::maps::profiles_len(&config.profiles) == 0
        && crate::config::maps::dispatch_len(&config.dispatch) == 0 {
        push_finding(
            &mut out,
            LintResult::warn(
                "no-policy",
                crate::text::owned("no profiles or dispatch rules are defined — all commands use the same default policy"),
                "add profiles and dispatch rules, or use `package_manager:` for a preset",
            ),
        );
    }
    assert(lint_views(out@) =~= all_findings(*config));
    out
}

/// The exit code of the findings: 2 with an error, or with a warning in
/// strict mode; 1 with a warning; 0 otherwise.
pub open spec fn lint_exit_code(levels: Seq<LintLevel>, strict: bool) -> u8 {
    if exists|i: int| 0 <= i < levels.len() && levels[i] == LintLevel::Error {
        2
    } else if exists|i: int| 0 <= i < levels.len() && levels[i] == LintLevel::Warn {
        if strict {
            2
        } else {
            1
        }
    } else {
        0
    }
}

/// The exit code of the findings.
pub fn exit_code(findings: &Vec<LintResult>, strict: bool) -> (r: u8)
    ensures
        r == lint_exit_code(findings@.map_values(|f: LintResult| f.level), strict),
{
    let ghost levels = findings@.map_values(|f: LintResult| f.level);
    let mut errors = false;
    let mut warns = false;
    let mut i: usize = 0;
    while i < findings.len()
        invariant
            levels == findings@.map_values(|f: LintResult| f.level),
            i <= findings@.len(),
            errors == exists|j: int| 0 <= j < i && levels[j] == LintLevel::Error,
            warns == exists|j: int| 0 <= j < i && levels[j] == LintLevel::Warn,
        decreases findings@.len() - i,
    {
        assert(levels[i as int] == findings@[i as int].level);
        match findings[i].level {
            LintLevel::Error => {
                errors = true;
            },
            LintLevel::Warn => {
                warns = true;
            },
        }
        i = i + 1;
    }
    if errors {
        2
    } else if warns {
        if strict {
            2
        } else {
            1
        }
    } else {
        0
    }
}

} // verus!
