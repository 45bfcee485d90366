//! `sbox doctor`: the checks it reports and how they decide its exit code.

use vstd::prelude::*;

use crate::config::model::{BackendKind, Config, ExecutionMode};
use crate::error::SboxError;
use crate::paths::{is_absolute, path_eq, path_eq_str, path_is_absolute, path_join, path_join_str};
use crate::resolve::{CliBackendKind, ExecutionPlan, ResolvedImageSource, ResolvedUser};
use crate::text::{
    concat2, concat3, eq_str, join, join_strings, owned, push_string, seq_has, starts_with, str_starts_with,
    str_views, views,
};

verus! {

#[derive(Clone, Copy, Debug, PartialEq, Eq, Structural)]
pub enum CheckLevel {
    Pass,
    Warn,
    Fail,
}

/// One line of the report.
pub struct CheckResult {
    pub name: &'static str,
    pub level: CheckLevel,
    pub detail: String,
}

impl CheckResult {
    pub fn pass(name: &'static str, detail: String) -> (r: CheckResult)
        ensures
            r.name == name && r.level == CheckLevel::Pass && r.detail == detail,
    {
        CheckResult { name, level: CheckLevel::Pass, detail }
    }

    pub fn warn(name: &'static str, detail: String) -> (r: CheckResult)
        ensures
            r.name == name && r.level == CheckLevel::Warn && r.detail == detail,
    {
        CheckResult { name, level: CheckLevel::Warn, detail }
    }

    pub fn fail(name: &'static str, detail: String) -> (r: CheckResult)
        ensures
            r.name == name && r.level == CheckLevel::Fail && r.detail == detail,
    {
        CheckResult { name, level: CheckLevel::Fail, detail }
    }
}

/// A check as plain values: name, level, detail.
pub open spec fn check_view(c: CheckResult) -> (Seq<char>, CheckLevel, Seq<char>) {
    (c.name@, c.level, c.detail@)
}

pub open spec fn check_views(v: Seq<CheckResult>) -> Seq<(Seq<char>, CheckLevel, Seq<char>)> {
    v.map_values(|c: CheckResult| check_view(c))
}

/// The label of a level.
pub open spec fn level_word(l: CheckLevel) -> Seq<char> {
    match l {
        CheckLevel::Pass => "PASS"@,
        CheckLevel::Warn => "WARN"@,
        CheckLevel::Fail => "FAIL"@,
    }
}

/// The label of a level.
pub fn level_label(level: CheckLevel) -> (r: &'static str)
    ensures
        r@ == level_word(level),
{
    match level {
        CheckLevel::Pass => "PASS",
        CheckLevel::Warn => "WARN",
        CheckLevel::Fail => "FAIL",
    }
}

/// The exit code of a report: 10 when a check failed, 1 in strict mode when
/// one warned, 0 otherwise.
pub open spec fn exit_code_for(levels: Seq<CheckLevel>, strict: bool) -> u8 {
    if exists|i: int| 0 <= i < levels.len() && levels[i] == CheckLevel::Fail {
        10
    } else if strict && exists|i: int| 0 <= i < levels.len() && levels[i] == CheckLevel::Warn {
        1
    } else {
        0
    }
}

/// The exit code of a report.
pub fn determine_exit_code(checks: &Vec<CheckResult>, strict: bool) -> (r: u8)
    ensures
        r == exit_code_for(checks@.map_values(|c: CheckResult| c.level), strict),
{
    let ghost levels = checks@.map_values(|c: CheckResult| c.level);
    let mut any_fail = false;
    let mut any_warn = false;
    let mut i: usize = 0;
    while i < checks.len()
        invariant
            levels == checks@.map_values(|c: CheckResult| c.level),
            i <= checks@.len(),
            any_fail == exists|j: int| 0 <= j < i && levels[j] == CheckLevel::Fail,
            any_warn == exists|j: int| 0 <= j < i && levels[j] == CheckLevel::Warn,
        decreases checks@.len() - i,
    {
        assert(levels[i as int] == checks@[i as int].level);
        match checks[i].level {
            CheckLevel::Fail => {
                any_fail = true;
            },
            CheckLevel::Warn => {
                any_warn = true;
            },
            CheckLevel::Pass => {},
        }
        i = i + 1;
    }
    if any_fail {
        10
    } else if strict && any_warn {
        1
    } else {
        0
    }
}

/// The engine the doctor checks.
#[derive(Clone, Copy, Debug, PartialEq, Eq, Structural)]
pub enum DoctorBackend {
    Podman,
    Docker,
}

/// The engine the doctor checks: the command line's, else the configured
/// one, else podman.
pub fn resolve_backend(cli_backend: Option<CliBackendKind>, config_backend: Option<BackendKind>) -> (r: DoctorBackend)
    ensures
        r == match cli_backend {
            Some(CliBackendKind::Docker) => DoctorBackend::Docker,
            Some(CliBackendKind::Podman) => DoctorBackend::Podman,
            None => if config_backend == Some(BackendKind::Docker) {
                DoctorBackend::Docker
            } else {
                DoctorBackend::Podman
            },
        },
{
    match cli_backend {
        Some(CliBackendKind::Docker) => DoctorBackend::Docker,
        Some(CliBackendKind::Podman) => DoctorBackend::Podman,
        None => match config_backend {
            Some(BackendKind::Docker) => DoctorBackend::Docker,
            _ => DoctorBackend::Podman,
        },
    }
}

// ---------------------------------------------------------------------------
// Risky configuration
// ---------------------------------------------------------------------------

/// Names of variables that carry credentials.
pub open spec fn credential_env_names() -> Seq<Seq<char>> {
    seq![
        "SSH_AUTH_SOCK"@, "GITHUB_TOKEN"@, "GH_TOKEN"@, "NPM_TOKEN"@, "NODE_AUTH_TOKEN"@, "PYPI_TOKEN"@,
        "DOCKER_CONFIG"@, "KUBECONFIG"@, "GOOGLE_APPLICATION_CREDENTIALS"@, "AZURE_CLIENT_SECRET"@,
        "AWS_SESSION_TOKEN"@, "AWS_SECRET_ACCESS_KEY"@, "AWS_ACCESS_KEY_ID"@,
    ]
}

/// Prefixes of cloud and CI credential variables.
pub open spec fn credential_env_prefixes() -> Seq<Seq<char>> {
    seq!["AWS_"@, "GCP_"@, "GOOGLE_"@, "AZURE_"@, "CI_JOB_"@, "CLOUDSDK_"@]
}

/// A variable that carries credentials: a known name or a known prefix.
pub open spec fn credential_env(name: Seq<char>) -> bool {
    seq_has(credential_env_names(), name) || exists|i: int|
        0 <= i < credential_env_prefixes().len() && starts_with(name, #[trigger] credential_env_prefixes()[i])
}

/// Whether a variable carries credentials.
pub fn looks_like_sensitive_env(name: &str) -> (r: bool)
    ensures
        r == credential_env(name@),
{
    let exact = [
        "SSH_AUTH_SOCK", "GITHUB_TOKEN", "GH_TOKEN", "NPM_TOKEN", "NODE_AUTH_TOKEN", "PYPI_TOKEN", "DOCKER_CONFIG",
        "KUBECONFIG", "GOOGLE_APPLICATION_CREDENTIALS", "AZURE_CLIENT_SECRET", "AWS_SESSION_TOKEN",
        "AWS_SECRET_ACCESS_KEY", "AWS_ACCESS_KEY_ID",
    ];
    let prefixes = ["AWS_", "GCP_", "GOOGLE_", "AZURE_", "CI_JOB_", "CLOUDSDK_"];
    assert(str_views(exact@) =~= credential_env_names());
    assert(str_views(prefixes@) =~= credential_env_prefixes());
    let mut i: usize = 0;
    while i < exact.len()
        invariant
            i <= exact@.len(),
            str_views(exact@) == credential_env_names(),
            forall|j: int| 0 <= j < i ==> credential_env_names()[j] != name@,
        decreases exact@.len() - i,
    {
        assert(credential_env_names()[i as int] == exact@[i as int]@);
        if eq_str(exact[i], name) {
            return true;
        }
        i = i + 1;
    }
    let mut k: usize = 0;
    while k < prefixes.len()
        invariant
            k <= prefixes@.len(),
            str_views(prefixes@) == credential_env_prefixes(),
            !seq_has(credential_env_names(), name@),
            forall|j: int| 0 <= j < k ==> !starts_with(name@, #[trigger] credential_env_prefixes()[j]),
        decreases prefixes@.len() - k,
    {
        assert(credential_env_prefixes()[k as int] == prefixes@[k as int]@);
        if str_starts_with(name, prefixes[k]) {
            return true;
        }
        k = k + 1;
    }
    false
}

/// Host paths whose mounting exposes credentials or the engine.
pub open spec fn risky_exact_paths() -> Seq<Seq<char>> {
    seq![
        "/var/run/docker.sock"@, "/run/docker.sock"@, "/var/run/podman/podman.sock"@, "/run/podman/podman.sock"@,
        "/home"@, "/root"@, "/Users"@,
    ]
}

/// Entries below the home directory that hold credentials.
pub open spec fn risky_home_entries() -> Seq<Seq<char>> {
    seq![".ssh"@, ".aws"@, ".kube"@, ".config/gcloud"@, ".gnupg"@, ".git-credentials"@, ".npmrc"@, ".pypirc"@, ".netrc"@]
}

/// A mount source that exposes credentials: a `~` path, or an absolute path
/// that is an engine socket, a home root, the home directory or a
/// credential entry below it.
pub open spec fn risky_mount_source(source: Seq<char>, home: Option<Seq<char>>) -> bool {
    if source == "~"@ || starts_with(source, "~/"@) {
        true
    } else if !is_absolute(source) {
        false
    } else {
        ||| exists|i: int| 0 <= i < risky_exact_paths().len() && path_eq(source, #[trigger] risky_exact_paths()[i])
        ||| match home {
            Some(h) => path_eq(source, h) || exists|i: int|
                0 <= i < risky_home_entries().len() && path_eq(source, path_join(h, #[trigger] risky_home_entries()[i])),
            None => false,
        }
    }
}

/// Whether a mount source exposes credentials; `home` is the home directory.
pub fn looks_like_sensitive_mount(source: &str, home: Option<&str>) -> (r: bool)
    ensures
        r == risky_mount_source(
            source@,
            match home {
                Some(h) => Some(h@),
                None => None,
            },
        ),
{
    proof {
        reveal_strlit("~");
        reveal_strlit("~/");
    }
    if eq_str(source, "~") || str_starts_with(source, "~/") {
        return true;
    }
    if !path_is_absolute(source) {
        return false;
    }
    let exact = [
        "/var/run/docker.sock", "/run/docker.sock", "/var/run/podman/podman.sock", "/run/podman/podman.sock", "/home",
        "/root", "/Users",
    ];
    assert(str_views(exact@) =~= risky_exact_paths());
    let mut i: usize = 0;
    while i < exact.len()
        invariant
            i <= exact@.len(),
            str_views(exact@) == risky_exact_paths(),
            !(source@ == "~"@ || starts_with(source@, "~/"@)),
            is_absolute(source@),
            forall|j: int| 0 <= j < i ==> !path_eq(source@, #[trigger] risky_exact_paths()[j]),
        decreases exact@.len() - i,
    {
        assert(risky_exact_paths()[i as int] == exact@[i as int]@);
        if path_eq_str(source, exact[i]) {
            assert(path_eq(source@, risky_exact_paths()[i as int]));
            return true;
        }
        i = i + 1;
    }
    match home {
        None => false,
        Some(h) => {
            if path_eq_str(source, h) {
                return true;
            }
            let entries = [".ssh", ".aws", ".kube", ".config/gcloud", ".gnupg", ".git-credentials", ".npmrc", ".pypirc", ".netrc"];
            assert(str_views(entries@) =~= risky_home_entries());
            let mut k: usize = 0;
            while k < entries.len()
                invariant
                    k <= entries@.len(),
                    str_views(entries@) == risky_home_entries(),
                    home == Some(h),
                    !(source@ == "~"@ || starts_with(source@, "~/"@)),
                    is_absolute(source@),
                    forall|j: int| 0 <= j < k ==> !path_eq(source@, path_join(h@, #[trigger] risky_home_entries()[j])),
                decreases entries@.len() - k,
            {
                assert(risky_home_entries()[k as int] == entries@[k as int]@);
                let p = path_join_str(h, entries[k]);
                if path_eq_str(source, p.as_str()) {
                    assert(path_eq(source@, path_join(h@, risky_home_entries()[k as int])));
                    return true;
                }
                k = k + 1;
            }
            false
        },
    }
}

/// The names among `names` that carry credentials, in order.
pub open spec fn credential_names(names: Seq<Seq<char>>) -> Seq<Seq<char>> {
    names.filter(|n: Seq<char>| credential_env(n))
}

/// The sandbox profiles with network access, by name, in map order.
pub open spec fn networked_sandbox_profiles(entries: Seq<(Seq<char>, crate::config::model::ProfileConfig)>) -> Seq<Seq<char>>
    decreases entries.len(),
{
    if entries.len() == 0 {
        Seq::empty()
    } else {
        let rest = networked_sandbox_profiles(entries.drop_last());
        let p = entries.last().1;
        let net = match p.network {
            Some(n) => n@,
            None => "off"@,
        };
        if p.mode == ExecutionMode::Sandbox && net != "off"@ {
            rest.push(entries.last().0)
        } else {
            rest
        }
    }
}

/// The explicit mount sources that expose credentials, in order.
pub open spec fn risky_mount_sources(mounts: Seq<crate::config::model::MountConfig>, home: Option<Seq<char>>) -> Seq<Seq<char>>
    decreases mounts.len(),
{
    if mounts.len() == 0 {
        Seq::empty()
    } else {
        let rest = risky_mount_sources(mounts.drop_last(), home);
        match mounts.last().source {
            Some(src) => if risky_mount_source(src@, home) {
                rest.push(src@)
            } else {
                rest
            },
            None => rest,
        }
    }
}

/// The warnings about a configuration: credential variables passed through,
/// networked sandbox profiles that can see them, credential paths mounted.
pub open spec fn config_warnings(c: Config, home: Option<Seq<char>>) -> Seq<(Seq<char>, CheckLevel, Seq<char>)> {
    let sensitive = match c.environment {
        Some(e) => credential_names(views(e.pass_through@)),
        None => Seq::empty(),
    };
    let risky_profiles = networked_sandbox_profiles(crate::config::maps::profile_entries(c.profiles));
    let risky_mounts = risky_mount_sources(c.mounts@, home);
    (if sensitive.len() > 0 {
        seq![("env-policy"@, CheckLevel::Warn, "sensitive host variables are passed through: "@ + join(sensitive, ", "@))]
    } else {
        Seq::empty()
    }) + (if sensitive.len() > 0 && risky_profiles.len() > 0 {
        seq![
            (
                "install-policy"@,
                CheckLevel::Warn,
                "network-enabled sandbox profiles can see sensitive pass-through vars: "@ + join(risky_profiles, ", "@),
            ),
        ]
    } else {
        Seq::empty()
    }) + if risky_mounts.len() > 0 {
        seq![("mount-policy"@, CheckLevel::Warn, "sensitive host paths are mounted explicitly: "@ + join(risky_mounts, ", "@))]
    } else {
        Seq::empty()
    }
}

fn push_check(v: &mut Vec<CheckResult>, c: CheckResult)
    ensures
        check_views(final(v)@) == check_views(old(v)@).push(check_view(c)),
{
    let ghost before = v@;
    let ghost cv = check_view(c);
    v.push(c);
    assert(check_views(v@) =~= check_views(before).push(cv));
}

fn credential_pass_through(names: &Vec<String>) -> (r: Vec<String>)
    ensures
        views(r@) == credential_names(views(names@)),
{
    let ghost nv = views(names@);
    let mut out: Vec<String> = Vec::new();
    let mut i: usize = 0;
    assert(nv.take(0).filter(|n: Seq<char>| credential_env(n)) =~= Seq::<Seq<char>>::empty());
    assert(views(out@) =~= Seq::<Seq<char>>::empty());
    while i < names.len()
        invariant
            nv == views(names@),
            i <= nv.len(),
            views(out@) == nv.take(i as int).filter(|n: Seq<char>| credential_env(n)),
        decreases nv.len() - i,
    {
        proof {
            nv.take(i as int).lemma_filter_push(nv[i as int], |n: Seq<char>| credential_env(n));
            assert(nv.take(i as int).push(nv[i as int]) =~= nv.take(i + 1));
        }
        assert(nv[i as int] == names@[i as int]@);
        if looks_like_sensitive_env(names[i].as_str()) {
            push_string(&mut out, names[i].clone());
        }
        i = i + 1;
    }
    assert(nv.take(nv.len() as int) =~= nv);
    out
}

/// The warnings about a configuration; `home` is the home directory.
pub fn risky_config_warnings(config: &Config, home: Option<&str>) -> (r: Vec<CheckResult>)
    ensures
        check_views(r@) == config_warnings(
            *config,
            match home {
                Some(h) => Some(h@),
                None => None,
            },
        ),
{
    let ghost hv = match home {
        Some(h) => Some(h@),
        None => None::<Seq<char>>,
    };
    let mut checks: Vec<CheckResult> = Vec::new();
    assert(check_views(checks@) =~= Seq::<(Seq<char>, CheckLevel, Seq<char>)>::empty());
    let sensitive = match &config.environment {
        Some(e) => credential_pass_through(&e.pass_through),
        None => {
            let v: Vec<String> = Vec::new();
            assert(views(v@) =~= Seq::<Seq<char>>::empty());
            v
        },
    };
    if sensitive.len() > 0 {
        let d = concat2("sensitive host variables are passed through: ", join_strings(sensitive.as_slice(), ", ").as_str());
        push_check(&mut checks, CheckResult::warn("env-policy", d));
    }
    let ghost c1 = check_views(checks@);
    let ghost entries = crate::config::maps::profile_entries(config.profiles);
    let mut risky: Vec<String> = Vec::new();
    let n = crate::config::maps::profiles_len(&config.profiles);
    let mut i: usize = 0;
    assert(entries.take(0) =~= Seq::<(Seq<char>, crate::config::model::ProfileConfig)>::empty());
    assert(views(risky@) =~= Seq::<Seq<char>>::empty());
    while i < n
        invariant
            entries == crate::config::maps::profile_entries(config.profiles),
            n == entries.len(),
            i <= n,
            views(risky@) == networked_sandbox_profiles(entries.take(i as int)),
        decreases n - i,
    {
        proof {
            reveal_strlit("off");
        }
        let (name, p) = crate::config::maps::profiles_at(&config.profiles, i);
        assert(entries.take(i + 1).drop_last() =~= entries.take(i as int));
        assert(entries.take(i + 1).last() == entries[i as int]);
        let networked = match &p.network {
            Some(net) => !eq_str(net.as_str(), "off"),
            None => false,
        };
        if p.mode == ExecutionMode::Sandbox && networked {
            push_string(&mut risky, name.clone());
        }
        i = i + 1;
    }
    assert(entries.take(n as int) =~= entries);
    if sensitive.len() > 0 && risky.len() > 0 {
        let d = concat2(
            "network-enabled sandbox profiles can see sensitive pass-through vars: ",
            join_strings(risky.as_slice(), ", ").as_str(),
        );
        push_check(&mut checks, CheckResult::warn("install-policy", d));
    }
    let ghost c2 = check_views(checks@);
    let mut mounts: Vec<String> = Vec::new();
    let mut k: usize = 0;
    assert(config.mounts@.take(0) =~= Seq::<crate::config::model::MountConfig>::empty());
    assert(views(mounts@) =~= Seq::<Seq<char>>::empty());
    while k < config.mounts.len()
        invariant
            k <= config.mounts@.len(),
            hv == match home {
                Some(h) => Some(h@),
                None => None::<Seq<char>>,
            },
            views(mounts@) == risky_mount_sources(config.mounts@.take(k as int), hv),
        decreases config.mounts@.len() - k,
    {
        assert(config.mounts@.take(k + 1).drop_last() =~= config.mounts@.take(k as int));
        assert(config.mounts@.take(k + 1).last() == config.mounts@[k as int]);
        match &config.mounts[k].source {
            Some(src) => {
                if looks_like_sensitive_mount(src.as_str(), home) {
                    push_string(&mut mounts, src.clone());
                }
            },
            None => {},
        }
        k = k + 1;
    }
    assert(config.mounts@.take(config.mounts@.len() as int) =~= config.mounts@);
    if mounts.len() > 0 {
        let d = concat2("sensitive host paths are mounted explicitly: ", join_strings(mounts.as_slice(), ", ").as_str());
        push_check(&mut checks, CheckResult::warn("mount-policy", d));
    }
    assert(check_views(checks@) =~= config_warnings(*config, hv));
    checks
}

/// Names of host dependency artifacts that should not be in a workspace.
pub open spec fn risky_artifact_names() -> Seq<Seq<char>> {
    seq![".venv"@, "node_modules"@, ".npmrc"@, ".yarnrc"@, ".yarnrc.yml"@, ".pnpm-store"@]
}

/// Whether an entry of the workspace is a host dependency artifact.
pub fn is_risky_artifact(name: &str) -> (r: bool)
    ensures
        r == seq_has(risky_artifact_names(), name@),
{
    let names = [".venv", "node_modules", ".npmrc", ".yarnrc", ".yarnrc.yml", ".pnpm-store"];
    assert(str_views(names@) =~= risky_artifact_names());
    let mut i: usize = 0;
    while i < names.len()
        invariant
            i <= names@.len(),
            str_views(names@) == risky_artifact_names(),
            forall|j: int| 0 <= j < i ==> risky_artifact_names()[j] != name@,
        decreases names@.len() - i,
    {
        assert(risky_artifact_names()[i as int] == names@[i as int]@);
        if eq_str(names[i], name) {
            return true;
        }
        i = i + 1;
    }
    false
}

/// The workspace scan goes into a directory at a depth below three whose
/// name does not start with a dot.
pub fn scan_descends(depth: usize, is_dir: bool, name: &str) -> (r: bool)
    ensures
        r == (depth < 3 && is_dir && !starts_with(name@, "."@)),
{
    depth < 3 && is_dir && !str_starts_with(name, ".")
}

/// The warning about the artifacts the workspace scan found, if any.
pub fn workspace_state_warnings(findings: &Vec<String>) -> (r: Vec<CheckResult>)
    ensures
        check_views(r@) == if findings@.len() > 0 {
            seq![
                (
                    "workspace-state"@,
                    CheckLevel::Warn,
                    "host dependency artifacts exist in the workspace: "@ + join(views(findings@), ", "@),
                ),
            ]
        } else {
            Seq::empty()
        },
{
    let mut checks: Vec<CheckResult> = Vec::new();
    assert(check_views(checks@) =~= Seq::<(Seq<char>, CheckLevel, Seq<char>)>::empty());
    if findings.len() > 0 {
        let d = concat2(
            "host dependency artifacts exist in the workspace: ",
            join_strings(findings.as_slice(), ", ").as_str(),
        );
        push_check(&mut checks, CheckResult::warn("workspace-state", d));
    }
    checks
}

// ---------------------------------------------------------------------------
// Engine checks
// ---------------------------------------------------------------------------

/// What inspecting podman's signature policy found.
pub enum SignatureSupport {
    /// Verification works, with this policy file.
    Available { policy: String },
    /// Verification does not work, for this reason (with the policy file, if found).
    Unavailable { policy: Option<String>, reason: String },
    /// The inspection itself failed with this message.
    Failed { message: String },
}

/// The check of signature verification: a failure when the configuration
/// asks for it and it cannot be done, otherwise a pass or a warning.
pub open spec fn signature_check(requested: bool, s: SignatureSupport) -> (Seq<char>, CheckLevel, Seq<char>) {
    match s {
        SignatureSupport::Available { policy } => if requested {
            ("signature-verify"@, CheckLevel::Pass, "requested and supported via "@ + policy@)
        } else {
            ("signature-verify"@, CheckLevel::Pass, "available via "@ + policy@ + " (not requested by config)"@)
        },
        SignatureSupport::Unavailable { policy, reason } => {
            let detail = match policy {
                Some(p) => reason@ + " ("@ + p@ + ")"@,
                None => reason@,
            };
            if requested {
                ("signature-verify"@, CheckLevel::Fail, detail)
            } else {
                ("signature-verify"@, CheckLevel::Warn, "not currently usable: "@ + detail)
            }
        },
        SignatureSupport::Failed { message } => if requested {
            ("signature-verify"@, CheckLevel::Fail, message@)
        } else {
            ("signature-verify"@, CheckLevel::Warn, message@)
        },
    }
}

/// The check of signature verification; `requested` is whether the
/// configuration's image asks for it.
pub fn signature_verification_check(requested: bool, support: &SignatureSupport) -> (r: CheckResult)
    ensures
        check_view(r) == signature_check(requested, *support),
{
    match support {
        SignatureSupport::Available { policy } => if requested {
            CheckResult::pass("signature-verify", concat2("requested and supported via ", policy.as_str()))
        } else {
            CheckResult::pass("signature-verify", concat3("available via ", policy.as_str(), " (not requested by config)"))
        },
        SignatureSupport::Unavailable { policy, reason } => {
            let detail = match policy {
                Some(p) => {
                    let a = concat3(reason.as_str(), " (", p.as_str());
                    concat2(a.as_str(), ")")
                },
                None => reason.clone(),
            };
            if requested {
                CheckResult::fail("signature-verify", detail)
            } else {
                CheckResult::warn("signature-verify", concat2("not currently usable: ", detail.as_str()))
            }
        },
        SignatureSupport::Failed { message } => if requested {
            CheckResult::fail("signature-verify", message.clone())
        } else {
            CheckResult::warn("signature-verify", message.clone())
        },
    }
}

/// The check of rootless mode from what `podman info` printed (or why it failed).
pub fn rootless_check(output: &Result<String, String>) -> (r: CheckResult)
    ensures
        check_view(r) == match output {
            Ok(o) => if crate::proxy::trim(o@) == "true"@ {
                ("rootless"@, CheckLevel::Pass, "rootless mode is available"@)
            } else {
                ("rootless"@, CheckLevel::Fail, "podman reported rootless="@ + crate::proxy::trim(o@))
            },
            Err(d) => ("rootless"@, CheckLevel::Fail, d@),
        },
{
    proof {
        reveal_strlit("true");
    }
    match output {
        Ok(o) => {
            let t = crate::proxy::trim_str(o.as_str());
            if eq_str(t.as_str(), "true") {
                CheckResult::pass("rootless", owned("rootless mode is available"))
            } else {
                CheckResult::fail("rootless", concat2("podman reported rootless=", t.as_str()))
            }
        },
        Err(d) => CheckResult::fail("rootless", d.clone()),
    }
}

/// What a finished command gives: its output, trimmed, when it succeeded;
/// else its error output, trimmed, or its exit status when that is empty.
pub open spec fn capture_result(success: bool, stdout: Seq<char>, stderr: Seq<char>, code: Option<i32>) -> Result<Seq<char>, Seq<char>> {
    if success {
        Ok(crate::proxy::trim(stdout))
    } else if crate::proxy::trim(stderr).len() == 0 {
        Err(
            "command exited with status "@ + match code {
                Some(c) => crate::text::signed_decimal(c as int),
                None => "1"@,
            },
        )
    } else {
        Err(crate::proxy::trim(stderr))
    }
}

/// What a finished command gives.
pub fn capture_outcome(success: bool, stdout: &str, stderr: &str, code: Option<i32>) -> (r: Result<String, String>)
    ensures
        match r {
            Ok(o) => capture_result(success, stdout@, stderr@, code) == Ok::<Seq<char>, Seq<char>>(o@),
            Err(e) => capture_result(success, stdout@, stderr@, code) == Err::<Seq<char>, Seq<char>>(e@),
        },
{
    if success {
        return Ok(crate::proxy::trim_str(stdout));
    }
    let e = crate::proxy::trim_str(stderr);
    if crate::text::str_chars(e.as_str()).len() == 0 {
        let n = match code {
            Some(c) => crate::text::format_signed(c),
            None => owned("1"),
        };
        proof {
            reveal_strlit("1");
        }
        Err(concat2("command exited with status ", n.as_str()))
    } else {
        Err(e)
    }
}

/// What the workspace mount probe runs.
pub struct MountCheckRequest {
    pub image: String,
    pub workspace_root: String,
    pub workspace_mount: String,
    pub sandbox_cwd: String,
    pub userns_keep_id: bool,
}

/// The mount probe of a resolved plan, or why there is none.
pub fn mount_check_request(plan: &Result<ExecutionPlan, SboxError>) -> (r: Result<MountCheckRequest, String>)
    ensures
        match plan {
            Err(e) => r matches Err(m) && m@ == "unable to resolve workspace mount test: "@
                + crate::error::error_message(*e),
            Ok(p) => r matches Ok(q) && q.image@ == match p.image.source {
                ResolvedImageSource::Reference(x) => x@,
                ResolvedImageSource::Build { tag, .. } => tag@,
            } && q.workspace_root@ == p.workspace.root@ && q.workspace_mount@ == p.workspace.mount@
                && q.sandbox_cwd@ == p.workspace.sandbox_cwd@ && q.userns_keep_id == (p.user is KeepId),
        },
{
    match plan {
        Err(e) => Err(concat2("unable to resolve workspace mount test: ", e.message().as_str())),
        Ok(p) => {
            let image = match &p.image.source {
                ResolvedImageSource::Reference(x) => x.clone(),
                ResolvedImageSource::Build { tag, .. } => tag.clone(),
            };
            Ok(
                MountCheckRequest {
                    image,
                    workspace_root: p.workspace.root.clone(),
                    workspace_mount: p.workspace.mount.clone(),
                    sandbox_cwd: p.workspace.sandbox_cwd.clone(),
                    userns_keep_id: matches!(p.user, ResolvedUser::KeepId),
                },
            )
        },
    }
}

/// The words of `podman` that probe the workspace mount.
pub open spec fn probe_words(q: MountCheckRequest) -> Seq<Seq<char>> {
    seq!["run"@, "--rm"@] + (if q.userns_keep_id {
        seq!["--userns"@, "keep-id"@]
    } else {
        Seq::empty()
    }) + seq![
        "--mount"@,
        "type=bind,src="@ + q.workspace_root@ + ",target="@ + q.workspace_mount@ + ",relabel=private,readonly=false"@,
        "--workdir"@,
        q.sandbox_cwd@,
        "--entrypoint"@,
        "/bin/sh"@,
        q.image@,
        "-lc"@,
        "pwd >/dev/null && test -r ."@,
    ]
}

/// The words of `podman` that probe the workspace mount.
pub fn podman_mount_probe_args(q: &MountCheckRequest) -> (r: Vec<String>)
    ensures
        views(r@) == probe_words(*q),
{
    let mut args: Vec<String> = Vec::new();
    push_string(&mut args, owned("run"));
    push_string(&mut args, owned("--rm"));
    if q.userns_keep_id {
        push_string(&mut args, owned("--userns"));
        push_string(&mut args, owned("keep-id"));
    }
    push_string(&mut args, owned("--mount"));
    let a = concat3("type=bind,src=", q.workspace_root.as_str(), ",target=");
    push_string(&mut args, concat3(a.as_str(), q.workspace_mount.as_str(), ",relabel=private,readonly=false"));
    push_string(&mut args, owned("--workdir"));
    push_string(&mut args, q.sandbox_cwd.clone());
    push_string(&mut args, owned("--entrypoint"));
    push_string(&mut args, owned("/bin/sh"));
    push_string(&mut args, q.image.clone());
    push_string(&mut args, owned("-lc"));
    push_string(&mut args, owned("pwd >/dev/null && test -r ."));
    assert(views(args@) =~= probe_words(*q));
    args
}

/// The check of the workspace mount probe's outcome.
pub fn workspace_mount_check(q: &MountCheckRequest, outcome: &Result<(), String>) -> (r: CheckResult)
    ensures
        check_view(r) == match outcome {
            Ok(()) => (
                "workspace-mount"@,
                CheckLevel::Pass,
                "workspace mounted at "@ + q.workspace_mount@ + " with cwd "@ + q.sandbox_cwd@,
            ),
            Err(d) => ("workspace-mount"@, CheckLevel::Fail, d@),
        },
{
    match outcome {
        Ok(()) => CheckResult::pass(
            "workspace-mount",
            concat2(concat3("workspace mounted at ", q.workspace_mount.as_str(), " with cwd ").as_str(), q.sandbox_cwd.as_str()),
        ),
        Err(d) => CheckResult::fail("workspace-mount", d.clone()),
    }
}

} // verus!
