//! Resolution of a command against the configuration into an execution plan:
//! which profile, image, policy, environment, mounts and user it runs with.

use vstd::prelude::*;

use crate::config::maps::{
    dispatch_at, dispatch_entries, dispatch_len, first_key_index, has_key, profile_entries,
    profiles_at, profiles_index_of, profiles_len,
};
use crate::config::model::{
    BackendKind, CacheConfig, CapabilitiesSpec, Config, DispatchRule, EnvironmentConfig, ExecutionMode,
    ImageConfig, MountType, ProfileConfig, ProfileRole, PullPolicy, SecretConfig,
};
use crate::dispatch::{command_line, command_string, wildcard_matches};
use crate::error::SboxError;
use crate::hash::{stable_hash, stable_hash_of};
use crate::config::load::LoadedConfig;
use crate::environment::{command_views, env_view, environment_of, lockfile_audit_for, pre_run_commands, sensitive_pass};
use crate::workspace::{mount_views, planned_mounts, workspace_for};
use crate::network::{allow_list_active, allow_pairs, allow_patterns, dns_view, pair_views, resolve_network_allow};
use crate::paths::{is_absolute, path_join, path_join_str};
use crate::text::{
    concat2, concat3, contains, eq_str, has_char, owned, owned_all, push_string, sanitize,
    sanitize_name, seq_has, starts_with, str_contains, str_has_char, str_starts_with, str_views,
    strings_contain, views,
};

verus! {

/// Everything needed to run one command.
pub struct ExecutionPlan {
    pub command: Vec<String>,
    pub command_string: String,
    pub backend: BackendKind,
    pub image: ResolvedImage,
    pub profile_name: String,
    pub profile_source: ProfileSource,
    pub mode: ExecutionMode,
    pub mode_source: ModeSource,
    pub workspace: ResolvedWorkspace,
    pub policy: ResolvedPolicy,
    pub environment: ResolvedEnvironment,
    pub mounts: Vec<ResolvedMount>,
    pub caches: Vec<ResolvedCache>,
    pub secrets: Vec<ResolvedSecret>,
    pub user: ResolvedUser,
    pub audit: ExecutionAudit,
}

pub struct ExecutionAudit {
    pub install_style: bool,
    pub trusted_image_required: bool,
    pub sensitive_pass_through_vars: Vec<String>,
    pub lockfile: LockfileAudit,
    /// Host commands to run before the sandboxed one, each as its words.
    pub pre_run: Vec<Vec<String>>,
}

pub struct LockfileAudit {
    pub applicable: bool,
    pub required: bool,
    pub present: bool,
    pub expected_files: Vec<String>,
}

pub struct ResolvedImage {
    pub description: String,
    pub source: ResolvedImageSource,
    pub trust: ImageTrust,
    pub verify_signature: bool,
}

pub enum ResolvedImageSource {
    Reference(String),
    Build { recipe_path: String, tag: String },
}

#[derive(Clone, Copy, Debug, PartialEq, Eq, Structural)]
pub enum ImageTrust {
    PinnedDigest,
    MutableReference,
    LocalBuild,
}

pub struct ResolvedWorkspace {
    pub root: String,
    pub invocation_dir: String,
    pub effective_host_dir: String,
    pub mount: String,
    pub sandbox_cwd: String,
    pub cwd_mapping: CwdMapping,
}

#[derive(Clone, Copy, Debug, PartialEq, Eq, Structural)]
pub enum CwdMapping {
    InvocationMapped,
    WorkspaceRootFallback,
}

pub struct ResolvedPolicy {
    pub network: String,
    pub writable: bool,
    pub ports: Vec<String>,
    pub no_new_privileges: bool,
    pub read_only_rootfs: bool,
    pub reuse_container: bool,
    pub reusable_session_name: Option<String>,
    pub cap_drop: Vec<String>,
    pub cap_add: Vec<String>,
    pub pull_policy: Option<String>,
    /// `(hostname, ip)` pairs injected as `--add-host` entries.
    pub network_allow: Vec<(String, String)>,
    /// The wildcard patterns of `network_allow`, kept for display.
    pub network_allow_patterns: Vec<String>,
}

pub struct ResolvedEnvironment {
    pub variables: Vec<ResolvedEnvVar>,
    pub denied: Vec<String>,
}

pub struct ResolvedEnvVar {
    pub name: String,
    pub value: String,
    pub source: EnvVarSource,
}

#[derive(Clone, Copy, Debug, PartialEq, Eq, Structural)]
pub enum EnvVarSource {
    PassThrough,
    SetValue,
}

pub struct ResolvedMount {
    pub kind: String,
    pub source: Option<String>,
    pub target: String,
    pub read_only: bool,
    pub is_workspace: bool,
    /// Create the host source directory when it does not exist.
    pub create: bool,
}

pub struct ResolvedCache {
    pub name: String,
    pub target: String,
    pub source: Option<String>,
    pub read_only: bool,
}

pub struct ResolvedSecret {
    pub name: String,
    pub source: String,
    pub target: String,
}

#[derive(Clone, Copy, Debug, PartialEq, Eq, Structural)]
pub enum ResolvedUser {
    Default,
    KeepId,
    Explicit { uid: u32, gid: u32 },
}

pub enum ProfileSource {
    CliOverride,
    ExecSubcommand,
    Dispatch { rule_name: String, pattern: String },
    DefaultProfile,
    ImplementationDefault,
    /// The plan was derived from the project's own container setup.
    Shadow,
}

#[derive(Clone, Copy, Debug, PartialEq, Eq, Structural)]
pub enum ModeSource {
    CliOverride,
    Profile,
    /// No profile chose the mode; the sandbox default applies.
    Default,
}

/// What a command is resolved for.
pub enum ResolutionTarget {
    Run,
    Exec { profile: String },
    Shell,
    Plan,
}

#[derive(Clone, Copy, Debug, PartialEq, Eq, Structural)]
pub enum CliBackendKind {
    Podman,
    Docker,
}

#[derive(Clone, Copy, Debug, PartialEq, Eq, Structural)]
pub enum CliExecutionMode {
    Host,
    Sandbox,
}

/// The command-line flags that override the configuration.
pub struct CliOverrides {
    pub backend: Option<CliBackendKind>,
    pub image: Option<String>,
    pub profile: Option<String>,
    pub mode: Option<CliExecutionMode>,
}

/// What resolution learns from the host: the process environment, which
/// container engines are on `PATH`, resolver answers for allow-listed hosts,
/// the files of the workspace, and which host paths exist.
pub struct HostFacts {
    /// The process environment, name and value.
    pub env: Vec<(String, String)>,
    /// An executable `podman` is on `PATH`.
    pub podman_on_path: bool,
    /// An executable `docker` is on `PATH`.
    pub docker_on_path: bool,
    /// Addresses each host name resolves to, in resolver order.
    pub dns: Vec<(String, Vec<String>)>,
    /// Files below the workspace root, relative to it, in walk order.
    pub workspace_files: Vec<String>,
    /// Host paths that exist.
    pub existing_paths: Vec<String>,
}

// ---------------------------------------------------------------------------
// Small rules
// ---------------------------------------------------------------------------

/// The `--pull` value of a pull policy.
pub open spec fn pull_policy_word(p: PullPolicy) -> Seq<char> {
    match p {
        PullPolicy::Always => "always"@,
        PullPolicy::IfMissing => "missing"@,
        PullPolicy::Never => "never"@,
    }
}

/// The `--pull` value of a pull policy.
pub fn pull_policy_flag(policy: PullPolicy) -> (r: String)
    ensures
        r@ == pull_policy_word(policy),
{
    match policy {
        PullPolicy::Always => owned("always"),
        PullPolicy::IfMissing => owned("missing"),
        PullPolicy::Never => owned("never"),
    }
}

/// The capabilities a profile drops and adds.
pub open spec fn capabilities_of(p: ProfileConfig) -> (Seq<Seq<char>>, Seq<Seq<char>>) {
    match p.capabilities {
        Some(CapabilitiesSpec::Structured(cfg)) => (views(cfg.drop@), views(cfg.add@)),
        Some(CapabilitiesSpec::Keyword(k)) => if k@ == "drop-all"@ {
            (seq!["all"@], Seq::empty())
        } else {
            (Seq::empty(), Seq::empty())
        },
        Some(CapabilitiesSpec::List(values)) => (Seq::empty(), views(values@)),
        None => (Seq::empty(), Seq::empty()),
    }
}

/// The capabilities a profile drops and adds: the structured form as written,
/// `drop-all` as dropping `all`, a plain list as additions.
pub fn resolve_capabilities(profile: &ProfileConfig) -> (r: (Vec<String>, Vec<String>))
    ensures
        (views(r.0@), views(r.1@)) == capabilities_of(*profile),
{
    let empty1: Vec<String> = Vec::new();
    let empty2: Vec<String> = Vec::new();
    assert(views(empty1@) =~= Seq::<Seq<char>>::empty());
    assert(views(empty2@) =~= Seq::<Seq<char>>::empty());
    match &profile.capabilities {
        Some(CapabilitiesSpec::Structured(cfg)) => (
            crate::text::clone_strings(&cfg.drop),
            crate::text::clone_strings(&cfg.add),
        ),
        Some(CapabilitiesSpec::Keyword(keyword)) => {
            if eq_str(keyword.as_str(), "drop-all") {
                let mut all: Vec<String> = Vec::new();
                push_string(&mut all, owned("all"));
                assert(views(all@) =~= seq!["all"@]);
                (all, empty2)
            } else {
                (empty1, empty2)
            }
        },
        Some(CapabilitiesSpec::List(values)) => (empty1, crate::text::clone_strings(values)),
        None => (empty1, empty2),
    }
}

/// Profile names that mark an install step when no role is declared.
pub open spec fn install_profile_names() -> Seq<Seq<char>> {
    seq!["install"@, "deps"@, "dependency-install"@, "bootstrap"@]
}

/// Subcommands that install dependencies.
pub open spec fn install_words() -> Seq<Seq<char>> {
    seq!["install"@, "ci"@, "sync"@, "add"@]
}

/// A command line that installs dependencies: its subcommand (second word)
/// is `install`, `ci`, `sync` or `add`, as in `pip install requests`.
pub open spec fn install_command(command: Seq<Seq<char>>) -> bool {
    command.len() > 1 && seq_has(install_words(), command[1])
}

/// A run is install-style: the profile's role says so, or, without a role,
/// the profile's name is a conventional install name or contains `install`,
/// or the command itself installs dependencies.
pub open spec fn install_style(role: Option<ProfileRole>, name: Seq<char>, command: Seq<Seq<char>>) -> bool {
    match role {
        Some(ProfileRole::Install) => true,
        Some(_) => false,
        None => seq_has(install_profile_names(), name) || contains(name, "install"@) || install_command(command),
    }
}

/// Whether a command line installs dependencies.
pub fn is_install_command(command: &Vec<String>) -> (r: bool)
    ensures
        r == install_command(views(command@)),
{
    if command.len() < 2 {
        return false;
    }
    let words = ["install", "ci", "sync", "add"];
    assert(str_views(words@) =~= install_words());
    assert(views(command@)[1] == command@[1]@);
    let mut i: usize = 0;
    while i < 4
        invariant
            i <= 4,
            command@.len() > 1,
            views(command@)[1] == command@[1]@,
            str_views(words@) == install_words(),
            forall|j: int| 0 <= j < i ==> install_words()[j] != command@[1]@,
        decreases 4 - i,
    {
        assert(str_views(words@)[i as int] == words[i as int]@);
        if eq_str(words[i], command[1].as_str()) {
            assert(install_words()[i as int] == command@[1]@);
            return true;
        }
        i = i + 1;
    }
    false
}

/// Whether a run of `command` under a profile is install-style.
pub fn is_install_style(role: Option<ProfileRole>, profile_name: &str, command: &Vec<String>) -> (r: bool)
    ensures
        r == install_style(role, profile_name@, views(command@)),
{
    if role.is_none() && is_install_command(command) {
        return true;
    }
    match role {
        Some(ProfileRole::Install) => true,
        Some(_) => false,
        None => {
            let names = ["install", "deps", "dependency-install", "bootstrap"];
            assert(str_views(names@) =~= install_profile_names());
            let mut i: usize = 0;
            while i < 4
                invariant
                    i <= 4,
                    role is None,
                    str_views(names@) == install_profile_names(),
                    forall|j: int| 0 <= j < i ==> install_profile_names()[j] != profile_name@,
                decreases 4 - i,
            {
                assert(str_views(names@)[i as int] == names[i as int]@);
                if eq_str(names[i], profile_name) {
                    assert(install_profile_names()[i as int] == profile_name@);
                    assert(seq_has(install_profile_names(), profile_name@));
                    return true;
                }
                i = i + 1;
            }
            str_contains(profile_name, "install")
        },
    }
}

/// Environment variable names that carry credentials.
pub open spec fn sensitive_env_names() -> Seq<Seq<char>> {
    seq![
        "SSH_AUTH_SOCK"@, "GITHUB_TOKEN"@, "GH_TOKEN"@, "NPM_TOKEN"@, "NODE_AUTH_TOKEN"@, "PYPI_TOKEN"@,
        "DOCKER_CONFIG"@, "KUBECONFIG"@, "GOOGLE_APPLICATION_CREDENTIALS"@, "AZURE_CLIENT_SECRET"@,
        "AWS_SESSION_TOKEN"@, "AWS_SECRET_ACCESS_KEY"@, "AWS_ACCESS_KEY_ID"@,
    ]
}

/// Prefixes of cloud-provider credential variables.
pub open spec fn sensitive_env_prefixes() -> Seq<Seq<char>> {
    seq!["AWS_"@, "GCP_"@, "GOOGLE_"@, "AZURE_"@, "CLOUDSDK_"@]
}

/// `name` is a known credential variable or has a cloud-provider prefix.
pub open spec fn sensitive_env(name: Seq<char>) -> bool {
    seq_has(sensitive_env_names(), name) || exists|i: int|
        0 <= i < sensitive_env_prefixes().len() && starts_with(name, #[trigger] sensitive_env_prefixes()[i])
}

/// Whether an environment variable name looks like it carries credentials.
pub fn looks_like_sensitive_env(name: &str) -> (r: bool)
    ensures
        r == sensitive_env(name@),
{
    let exact = [
        "SSH_AUTH_SOCK", "GITHUB_TOKEN", "GH_TOKEN", "NPM_TOKEN", "NODE_AUTH_TOKEN", "PYPI_TOKEN",
        "DOCKER_CONFIG", "KUBECONFIG", "GOOGLE_APPLICATION_CREDENTIALS", "AZURE_CLIENT_SECRET",
        "AWS_SESSION_TOKEN", "AWS_SECRET_ACCESS_KEY", "AWS_ACCESS_KEY_ID",
    ];
    let prefixes = ["AWS_", "GCP_", "GOOGLE_", "AZURE_", "CLOUDSDK_"];
    assert(str_views(exact@) =~= sensitive_env_names());
    assert(str_views(prefixes@) =~= sensitive_env_prefixes());
    let mut i: usize = 0;
    while i < 13
        invariant
            i <= 13,
            str_views(exact@) == sensitive_env_names(),
            forall|j: int| 0 <= j < i ==> sensitive_env_names()[j] != name@,
        decreases 13 - i,
    {
        assert(str_views(exact@)[i as int] == exact[i as int]@);
        if eq_str(exact[i], name) {
            return true;
        }
        i = i + 1;
    }
    let mut k: usize = 0;
    while k < 5
        invariant
            k <= 5,
            str_views(prefixes@) == sensitive_env_prefixes(),
            !seq_has(sensitive_env_names(), name@),
            forall|j: int| 0 <= j < k ==> !starts_with(name@, #[trigger] sensitive_env_prefixes()[j]),
        decreases 5 - k,
    {
        assert(str_views(prefixes@)[k as int] == prefixes[k as int]@);
        if str_starts_with(name, prefixes[k]) {
            return true;
        }
        k = k + 1;
    }
    false
}

/// An optional string by its characters.
pub open spec fn opt_chars(o: Option<String>) -> Option<Seq<char>> {
    match o {
        Some(s) => Some(s@),
        None => None,
    }
}

/// The image reference with the digest attached, unless it already names one.
pub open spec fn with_digest(reference: Seq<char>, digest: Option<Seq<char>>) -> Seq<char> {
    match digest {
        Some(d) => if !has_char(reference, '@') {
            reference + "@"@ + d
        } else {
            reference
        },
        None => reference,
    }
}

/// `reference@digest`, unless the reference already carries a digest.
pub fn attach_digest(reference: &str, digest: &Option<String>) -> (r: String)
    ensures
        r@ == with_digest(reference@, opt_chars(*digest)),
{
    match digest {
        Some(d) => {
            if !str_has_char(reference, '@') {
                concat3(reference, "@", d.as_str())
            } else {
                owned(reference)
            }
        },
        None => owned(reference),
    }
}

/// How far an image reference can be trusted: pinned by digest or mutable.
pub open spec fn reference_trust(reference: Seq<char>, digest: Option<Seq<char>>) -> ImageTrust {
    if digest is Some || contains(reference, "@sha256:"@) {
        ImageTrust::PinnedDigest
    } else {
        ImageTrust::MutableReference
    }
}

/// Classifies an image reference: a digest, given or embedded, pins it.
pub fn classify_reference_trust(reference: &str, digest: &Option<String>) -> (r: ImageTrust)
    ensures
        r == reference_trust(reference@, opt_chars(*digest)),
{
    if digest.is_some() || str_contains(reference, "@sha256:") {
        ImageTrust::PinnedDigest
    } else {
        ImageTrust::MutableReference
    }
}

/// The image reference of a named image preset.
pub open spec fn preset_reference(preset: Seq<char>) -> Option<Seq<char>> {
    if preset == "python"@ {
        Some("python:3.13-slim"@)
    } else if preset == "node"@ {
        Some("node:22-bookworm-slim"@)
    } else if preset == "rust"@ {
        Some("rust:1-bookworm"@)
    } else if preset == "go"@ {
        Some("golang:1.24-bookworm"@)
    } else if preset == "java"@ {
        Some("eclipse-temurin:21-jdk"@)
    } else if preset == "php"@ {
        Some("php:8.3-cli-bookworm"@)
    } else if preset == "polyglot"@ {
        Some("ubuntu:24.04"@)
    } else {
        None
    }
}

/// The image reference of a named image preset; an unknown name is an error.
pub fn resolve_preset_reference(preset: &str) -> (r: Result<String, SboxError>)
    ensures
        r is Ok == preset_reference(preset@) is Some,
        r matches Ok(s) ==> s@ == preset_reference(preset@)->0,
        r matches Err(e) ==> e matches SboxError::UnknownPreset { name } && name@ == preset@,
{
    if eq_str(preset, "python") {
        Ok(owned("python:3.13-slim"))
    } else if eq_str(preset, "node") {
        Ok(owned("node:22-bookworm-slim"))
    } else if eq_str(preset, "rust") {
        Ok(owned("rust:1-bookworm"))
    } else if eq_str(preset, "go") {
        Ok(owned("golang:1.24-bookworm"))
    } else if eq_str(preset, "java") {
        Ok(owned("eclipse-temurin:21-jdk"))
    } else if eq_str(preset, "php") {
        Ok(owned("php:8.3-cli-bookworm"))
    } else if eq_str(preset, "polyglot") {
        Ok(owned("ubuntu:24.04"))
    } else {
        Err(SboxError::UnknownPreset { name: owned(preset) })
    }
}

/// A resolved cache of a configured one.
pub open spec fn cache_resolves_to(c: CacheConfig, r: ResolvedCache) -> bool {
    r.name@ == c.name@ && r.target@ == c.target@ && opt_chars(r.source) == opt_chars(c.source) && r.read_only
        == (c.read_only == Some(true))
}

/// The caches of the configuration, read-only only where declared.
pub fn resolve_caches(caches: &Vec<CacheConfig>) -> (r: Vec<ResolvedCache>)
    ensures
        r@.len() == caches@.len(),
        forall|i: int| 0 <= i < caches@.len() ==> cache_resolves_to(caches@[i], #[trigger] r@[i]),
{
    let mut out: Vec<ResolvedCache> = Vec::new();
    let mut i: usize = 0;
    while i < caches.len()
        invariant
            i <= caches@.len(),
            out@.len() == i,
            forall|j: int| 0 <= j < i ==> cache_resolves_to(caches@[j], #[trigger] out@[j]),
        decreases caches@.len() - i,
    {
        let c = &caches[i];
        out.push(ResolvedCache {
            name: c.name.clone(),
            target: c.target.clone(),
            source: crate::text::clone_opt(&c.source),
            read_only: c.read_only == Some(true),
        });
        i = i + 1;
    }
    out
}

/// A secret reaches the active profile: it names no profiles or names this
/// one, and the profile's role is not among those it is denied to.
pub open spec fn secret_applies(s: SecretConfig, profile: Seq<char>, role: Option<ProfileRole>) -> bool {
    (s.when_profiles@.len() == 0 || seq_has(views(s.when_profiles@), profile)) && match role {
        Some(r) => !s.deny_roles@.contains(r),
        None => true,
    }
}

/// The secrets that apply to the active profile, in order.
pub open spec fn applicable_secrets(secrets: Seq<SecretConfig>, profile: Seq<char>, role: Option<ProfileRole>, n: int) -> Seq<(Seq<char>, Seq<char>, Seq<char>)>
    decreases n,
{
    if n <= 0 {
        Seq::empty()
    } else {
        applicable_secrets(secrets, profile, role, n - 1) + if secret_applies(secrets[n - 1], profile, role) {
            seq![(secrets[n - 1].name@, secrets[n - 1].source@, secrets[n - 1].target@)]
        } else {
            Seq::empty()
        }
    }
}

/// Resolved secrets, by their characters.
pub open spec fn secret_views(v: Seq<ResolvedSecret>) -> Seq<(Seq<char>, Seq<char>, Seq<char>)> {
    v.map_values(|s: ResolvedSecret| (s.name@, s.source@, s.target@))
}

fn role_denied(roles: &Vec<ProfileRole>, role: ProfileRole) -> (r: bool)
    ensures
        r == roles@.contains(role),
{
    let mut i: usize = 0;
    while i < roles.len()
        invariant
            i <= roles@.len(),
            forall|j: int| 0 <= j < i ==> roles@[j] != role,
        decreases roles@.len() - i,
    {
        if roles[i] == role {
            assert(roles@[i as int] == role);
            return true;
        }
        i = i + 1;
    }
    false
}

/// The secrets that apply to the active profile and role.
pub fn resolve_secrets(secrets: &Vec<SecretConfig>, active_profile: &str, active_role: Option<ProfileRole>) -> (r: Vec<ResolvedSecret>)
    ensures
        secret_views(r@) == applicable_secrets(secrets@, active_profile@, active_role, secrets@.len() as int),
{
    let mut out: Vec<ResolvedSecret> = Vec::new();
    let mut i: usize = 0;
    while i < secrets.len()
        invariant
            i <= secrets@.len(),
            secret_views(out@) == applicable_secrets(secrets@, active_profile@, active_role, i as int),
        decreases secrets@.len() - i,
    {
        let s = &secrets[i];
        let profile_ok = s.when_profiles.len() == 0 || strings_contain(s.when_profiles.as_slice(), active_profile);
        let role_ok = match active_role {
            Some(role) => !role_denied(&s.deny_roles, role),
            None => true,
        };
        let ghost before = out@;
        if profile_ok && role_ok {
            out.push(ResolvedSecret { name: s.name.clone(), source: s.source.clone(), target: s.target.clone() });
        }
        assert(secret_views(out@) =~= applicable_secrets(secrets@, active_profile@, active_role, i + 1));
        i = i + 1;
    }
    out
}

/// The user the container runs as: explicit ids when both are configured,
/// else the invoking user's id mapping when asked for (by default when rootless).
pub open spec fn user_for(c: Config, rootless: bool) -> ResolvedUser {
    match c.identity {
        Some(identity) => match (identity.uid, identity.gid) {
            (Some(uid), Some(gid)) => ResolvedUser::Explicit { uid, gid },
            _ => if (match identity.map_user {
                Some(m) => m,
                None => rootless,
            }) {
                ResolvedUser::KeepId
            } else {
                ResolvedUser::Default
            },
        },
        None => if rootless {
            ResolvedUser::KeepId
        } else {
            ResolvedUser::Default
        },
    }
}

/// The user the container runs as.
pub fn resolve_user(config: &Config, rootless: bool) -> (r: ResolvedUser)
    ensures
        r == user_for(*config, rootless),
{
    match &config.identity {
        Some(identity) => match (identity.uid, identity.gid) {
            (Some(uid), Some(gid)) => ResolvedUser::Explicit { uid, gid },
            _ => {
                let map_user = match identity.map_user {
                    Some(m) => m,
                    None => rootless,
                };
                if map_user {
                    ResolvedUser::KeepId
                } else {
                    ResolvedUser::Default
                }
            },
        },
        None => if rootless {
            ResolvedUser::KeepId
        } else {
            ResolvedUser::Default
        },
    }
}

/// The name of a reusable container session: the configured template with
/// `{profile}` and `{workspace_hash}` filled in, or `sbox-<hash>-<profile>`,
/// with every character outside `[A-Za-z0-9_.-]` replaced by `-`.
pub open spec fn session_name(template: Option<Seq<char>>, workspace_root: Seq<char>, profile: Seq<char>) -> Seq<char> {
    sanitize(
        match template {
            Some(t) => replace_all(replace_all(t, "{profile}"@, profile), "{workspace_hash}"@, stable_hash_of(workspace_root)),
            None => "sbox-"@ + stable_hash_of(workspace_root) + "-"@ + profile,
        },
    )
}

/// `s` with every occurrence of `from`, scanned left to right, replaced by `to`
/// (`str::replace`).
pub open spec fn replace_all(s: Seq<char>, from: Seq<char>, to: Seq<char>) -> Seq<char>
    decreases s.len(),
{
    if from.len() == 0 {
        crate::text::interleave(s, to)
    } else if s.len() == 0 {
        s
    } else if starts_with(s, from) {
        to + replace_all(s.skip(from.len() as int), from, to)
    } else {
        seq![s[0]] + replace_all(s.drop_first(), from, to)
    }
}

/// `s.replace(from, to)`.
pub fn replace_str(s: &str, from: &str, to: &str) -> (r: String)
    ensures
        r@ == replace_all(s@, from@, to@),
{
    let cs = crate::text::str_chars(s);
    let cf = crate::text::str_chars(from);
    if cf.len() == 0 {
        return crate::text::interleave_str(s, to);
    }
    let ct = crate::text::str_chars(to);
    let mut out: Vec<char> = Vec::new();
    let mut i: usize = 0;
    assert(s@.skip(0) =~= s@);
    while i < cs.len()
        invariant
            cs@ == s@,
            cf@ == from@,
            ct@ == to@,
            from@.len() > 0,
            i <= cs@.len(),
            out@ + replace_all(s@.skip(i as int), from@, to@) == replace_all(s@, from@, to@),
        decreases cs@.len() - i,
    {
        let ghost t = s@.skip(i as int);
        if crate::text::chars_occur_at(&cs, &cf, i) {
            assert(t.subrange(0, from@.len() as int) =~= s@.subrange(i as int, i + from@.len()));
            assert(t.skip(from@.len() as int) =~= s@.skip(i + from@.len()));
            let ghost before = out@;
            let mut k: usize = 0;
            while k < ct.len()
                invariant
                    k <= ct@.len(),
                    out@ == before + ct@.take(k as int),
                decreases ct@.len() - k,
            {
                out.push(ct[k]);
                assert(ct@.take(k + 1) =~= ct@.take(k as int).push(ct@[k as int]));
                k = k + 1;
            }
            assert(ct@.take(ct@.len() as int) =~= ct@);
            assert(out@ + replace_all(s@.skip(i + from@.len()), from@, to@) =~= before + replace_all(t, from@, to@));
            i = i + cf.len();
        } else {
            proof {
                if starts_with(t, from@) {
                    assert(t.subrange(0, from@.len() as int) =~= s@.subrange(i as int, i + from@.len()));
                }
                assert(t.drop_first() =~= s@.skip(i + 1));
            }
            let ghost before = out@;
            out.push(cs[i]);
            assert(out@ + replace_all(s@.skip(i + 1), from@, to@) =~= before + replace_all(t, from@, to@));
            i = i + 1;
        }
    }
    assert(s@.skip(cs@.len() as int) =~= Seq::<char>::empty());
    assert(out@ =~= replace_all(s@, from@, to@));
    crate::text::string_from_chars(&out)
}

/// The name of the reusable container session of a profile in a workspace.
pub fn reusable_session_name(config: &Config, workspace_root: &str, profile_name: &str) -> (r: String)
    ensures
        r@ == session_name(
            match config.runtime {
                Some(rt) => opt_chars(rt.container_name),
                None => None,
            },
            workspace_root@,
            profile_name@,
        ),
{
    let hash = stable_hash(workspace_root);
    let base = match &config.runtime {
        Some(rt) => match &rt.container_name {
            Some(template) => {
                proof {
                    reveal_strlit("{profile}");
                    reveal_strlit("{workspace_hash}");
                }
                let first = replace_str(template.as_str(), "{profile}", profile_name);
                replace_str(first.as_str(), "{workspace_hash}", hash.as_str())
            },
            None => {
                let head = concat3("sbox-", hash.as_str(), "-");
                concat2(head.as_str(), profile_name)
            },
        },
        None => {
            let head = concat3("sbox-", hash.as_str(), "-");
            concat2(head.as_str(), profile_name)
        },
    };
    sanitize_name(base.as_str())
}

// ---------------------------------------------------------------------------
// The image
// ---------------------------------------------------------------------------

/// The image section names an image: by reference, build recipe or preset.
pub open spec fn image_named(img: ImageConfig) -> bool {
    img.reference is Some || img.build is Some || img.preset is Some
}

/// The resolved image is `desc`, pulled by reference `reference`, with the
/// given trust and signature check.
pub open spec fn is_reference_image(r: ResolvedImage, desc: Seq<char>, reference: Seq<char>, trust: ImageTrust, verify: bool) -> bool {
    &&& r.description@ == desc
    &&& r.source matches ResolvedImageSource::Reference(x) && x@ == reference
    &&& r.trust == trust
    &&& r.verify_signature == verify
}

/// The tag of a locally built image: the configured one, else one derived
/// from the recipe path.
pub open spec fn build_tag(tag: Option<Seq<char>>, recipe: Seq<char>) -> Seq<char> {
    match tag {
        Some(t) => t,
        None => "sbox-build-"@ + stable_hash_of(recipe),
    }
}

/// What an image section resolves to, `suffix` ending its description:
/// a reference with its digest attached, a build of the recipe below the
/// workspace root, or the reference of a preset (an unknown preset fails).
pub open spec fn section_image(img: ImageConfig, root: Seq<char>, suffix: Seq<char>, r: Result<ResolvedImage, SboxError>) -> bool {
    let digest = opt_chars(img.digest);
    let verify = img.verify_signature == Some(true);
    if img.reference is Some {
        let rr = with_digest(img.reference.unwrap()@, digest);
        r is Ok && is_reference_image(r.unwrap(), "ref:"@ + rr + suffix, rr, reference_trust(rr, digest), verify)
    } else if img.build is Some {
        let recipe = path_join(root, img.build.unwrap()@);
        &&& r is Ok
        &&& r.unwrap().description@ == "build:"@ + recipe + suffix
        &&& r.unwrap().source matches ResolvedImageSource::Build { recipe_path, tag } && recipe_path@ == recipe && tag@
            == build_tag(opt_chars(img.tag), recipe)
        &&& r.unwrap().trust == ImageTrust::LocalBuild
        &&& r.unwrap().verify_signature == verify
    } else {
        let preset = img.preset.unwrap()@;
        match preset_reference(preset) {
            Some(reference) => {
                let rr = with_digest(reference, digest);
                r is Ok && is_reference_image(
                    r.unwrap(),
                    "preset:"@ + preset + " -> ref:"@ + rr + suffix,
                    rr,
                    reference_trust(rr, digest),
                    verify,
                )
            },
            None => r matches Err(SboxError::UnknownPreset { name }) && name@ == preset,
        }
    }
}

/// The image of a run: the command line's reference, else the profile's
/// image section, else the configuration's.
pub open spec fn image_for(
    cli_image: Option<Seq<char>>,
    image: ImageConfig,
    profile_image: Option<ImageConfig>,
    root: Seq<char>,
    r: Result<ResolvedImage, SboxError>,
) -> bool {
    match cli_image {
        Some(reference) => r is Ok && is_reference_image(
            r.unwrap(),
            "ref:"@ + reference + " (cli override)"@,
            reference,
            reference_trust(reference, None),
            false,
        ),
        None => if profile_image is Some && image_named(profile_image.unwrap()) {
            section_image(profile_image.unwrap(), root, " (profile override)"@, r)
        } else if image_named(image) {
            section_image(image, root, ""@, r)
        } else {
            r matches Err(SboxError::ConfigValidation { message }) && message@
                == "`image` must define exactly one of `ref`, `build`, or `preset`"@
        },
    }
}

fn section_image_exec(img: &ImageConfig, root: &str, suffix: &str) -> (r: Result<ResolvedImage, SboxError>)
    requires
        image_named(*img),
    ensures
        section_image(*img, root@, suffix@, r),
{
    let verify = img.verify_signature == Some(true);
    proof {
        reveal_strlit("ref:");
        reveal_strlit("build:");
        reveal_strlit("preset:");
        reveal_strlit(" -> ref:");
        reveal_strlit("sbox-build-");
    }
    match &img.reference {
        Some(reference) => {
            let rr = attach_digest(reference.as_str(), &img.digest);
            let desc = concat3("ref:", rr.as_str(), suffix);
            let trust = classify_reference_trust(rr.as_str(), &img.digest);
            return Ok(ResolvedImage { description: desc, source: ResolvedImageSource::Reference(rr), trust, verify_signature: verify });
        },
        None => {},
    }
    match &img.build {
        Some(build) => {
            let recipe = path_join_str(root, build.as_str());
            let tag = match &img.tag {
                Some(t) => t.clone(),
                None => {
                    let h = stable_hash(recipe.as_str());
                    concat2("sbox-build-", h.as_str())
                },
            };
            let desc = concat3("build:", recipe.as_str(), suffix);
            return Ok(
                ResolvedImage {
                    description: desc,
                    source: ResolvedImageSource::Build { recipe_path: recipe, tag },
                    trust: ImageTrust::LocalBuild,
                    verify_signature: verify,
                },
            );
        },
        None => {},
    }
    let preset = match &img.preset {
        Some(p) => p,
        None => {
            assert(false);
            return Err(SboxError::ConfigValidation { message: String::new() });
        },
    };
    match resolve_preset_reference(preset.as_str()) {
        Ok(reference) => {
            let rr = attach_digest(reference.as_str(), &img.digest);
            let head = concat3("preset:", preset.as_str(), " -> ref:");
            let desc = concat3(head.as_str(), rr.as_str(), suffix);
            let trust = classify_reference_trust(rr.as_str(), &img.digest);
            Ok(ResolvedImage { description: desc, source: ResolvedImageSource::Reference(rr), trust, verify_signature: verify })
        },
        Err(e) => Err(e),
    }
}

/// The image a command runs in.
pub fn resolve_image(
    cli_image: &Option<String>,
    image: &ImageConfig,
    profile_image: &Option<ImageConfig>,
    workspace_root: &str,
) -> (r: Result<ResolvedImage, SboxError>)
    ensures
        image_for(opt_chars(*cli_image), *image, *profile_image, workspace_root@, r),
{
    proof {
        reveal_strlit("ref:");
        reveal_strlit(" (cli override)");
        reveal_strlit(" (profile override)");
        reveal_strlit("");
    }
    match cli_image {
        Some(reference) => {
            let desc = concat3("ref:", reference.as_str(), " (cli override)");
            let none: Option<String> = None;
            let trust = classify_reference_trust(reference.as_str(), &none);
            return Ok(
                ResolvedImage {
                    description: desc,
                    source: ResolvedImageSource::Reference(reference.clone()),
                    trust,
                    verify_signature: false,
                },
            );
        },
        None => {},
    }
    match profile_image {
        Some(pi) => {
            if pi.reference.is_some() || pi.build.is_some() || pi.preset.is_some() {
                return section_image_exec(pi, workspace_root, " (profile override)");
            }
        },
        None => {},
    }
    if image.reference.is_some() || image.build.is_some() || image.preset.is_some() {
        return section_image_exec(image, workspace_root, "");
    }
    Err(
        SboxError::ConfigValidation {
            message: owned("`image` must define exactly one of `ref`, `build`, or `preset`"),
        },
    )
}

// ---------------------------------------------------------------------------
// The policy
// ---------------------------------------------------------------------------

/// Whether a profile reuses one container across runs: its own setting, else
/// the runtime's, else not.
pub open spec fn reuse_of(c: Config, p: ProfileConfig) -> bool {
    match p.reuse_container {
        Some(b) => b,
        None => match c.runtime {
            Some(rt) => rt.reuse_container == Some(true),
            None => false,
        },
    }
}

/// The pull policy of a run: the profile image's, else the image section's,
/// else the runtime's.
pub open spec fn pull_of(c: Config, p: ProfileConfig) -> Option<PullPolicy> {
    let from_profile = match p.image {
        Some(img) => img.pull_policy,
        None => None,
    };
    let from_image = match c.image {
        Some(img) => img.pull_policy,
        None => None,
    };
    let from_runtime = match c.runtime {
        Some(rt) => rt.pull_policy,
        None => None,
    };
    if from_profile is Some {
        from_profile
    } else if from_image is Some {
        from_image
    } else {
        from_runtime
    }
}

/// The policy a profile runs under.
pub open spec fn policy_for(
    c: Config,
    profile_name: Seq<char>,
    p: ProfileConfig,
    mode: ExecutionMode,
    root: Seq<char>,
    dns: Seq<(Seq<char>, Seq<Seq<char>>)>,
    r: ResolvedPolicy,
) -> bool {
    let reuse = reuse_of(c, p);
    let active = allow_list_active(views(p.network_allow@), opt_chars(p.network));
    &&& r.network@ == match p.network {
        Some(n) => n@,
        None => "off"@,
    }
    &&& r.writable == (p.writable != Some(false))
    &&& views(r.ports@) == if mode == ExecutionMode::Sandbox {
        views(p.ports@)
    } else {
        Seq::empty()
    }
    &&& r.no_new_privileges == (p.no_new_privileges != Some(false))
    &&& r.read_only_rootfs == (p.read_only_rootfs == Some(true))
    &&& r.reuse_container == reuse
    &&& opt_chars(r.reusable_session_name) == if reuse {
        Some(
            session_name(
                match c.runtime {
                    Some(rt) => opt_chars(rt.container_name),
                    None => None,
                },
                root,
                profile_name,
            ),
        )
    } else {
        None
    }
    &&& (views(r.cap_drop@), views(r.cap_add@)) == capabilities_of(p)
    &&& opt_chars(r.pull_policy) == match pull_of(c, p) {
        Some(pp) => Some(pull_policy_word(pp)),
        None => None,
    }
    &&& active ==> pair_views(r.network_allow@) == allow_pairs(views(p.network_allow@), dns)
        && views(r.network_allow_patterns@) == allow_patterns(views(p.network_allow@))
    &&& !active ==> r.network_allow@.len() == 0 && r.network_allow_patterns@.len() == 0
}

/// The policy a profile runs under; `dns` holds the resolver's answers for
/// the allow-listed hosts.
pub fn resolve_policy(
    config: &Config,
    profile_name: &str,
    profile: &ProfileConfig,
    mode: ExecutionMode,
    workspace_root: &str,
    dns: &Vec<(String, Vec<String>)>,
) -> (r: ResolvedPolicy)
    ensures
        policy_for(*config, profile_name@, *profile, mode, workspace_root@, dns_view(dns@), r),
{
    let (cap_drop, cap_add) = resolve_capabilities(profile);
    let reuse_container = match profile.reuse_container {
        Some(b) => b,
        None => match &config.runtime {
            Some(rt) => rt.reuse_container == Some(true),
            None => false,
        },
    };
    let from_profile = match &profile.image {
        Some(img) => img.pull_policy,
        None => None,
    };
    let from_image = match &config.image {
        Some(img) => img.pull_policy,
        None => None,
    };
    let from_runtime = match &config.runtime {
        Some(rt) => rt.pull_policy,
        None => None,
    };
    let chosen = if from_profile.is_some() {
        from_profile
    } else if from_image.is_some() {
        from_image
    } else {
        from_runtime
    };
    let pull_policy = match chosen {
        Some(pp) => Some(pull_policy_flag(pp)),
        None => None,
    };
    let (network_allow, network_allow_patterns) = resolve_network_allow(&profile.network_allow, &profile.network, dns);
    proof {
        reveal_strlit("off");
    }
    let ports = if mode == ExecutionMode::Sandbox {
        crate::text::clone_strings(&profile.ports)
    } else {
        crate::text::none()
    };
    ResolvedPolicy {
        network: match &profile.network {
            Some(n) => n.clone(),
            None => owned("off"),
        },
        writable: profile.writable != Some(false),
        ports,
        no_new_privileges: profile.no_new_privileges != Some(false),
        read_only_rootfs: profile.read_only_rootfs == Some(true),
        reuse_container,
        reusable_session_name: if reuse_container {
            Some(reusable_session_name(config, workspace_root, profile_name))
        } else {
            None
        },
        cap_drop,
        cap_add,
        pull_policy,
        network_allow,
        network_allow_patterns,
    }
}

// ---------------------------------------------------------------------------
// Profile, mode and backend
// ---------------------------------------------------------------------------

/// Where a chosen profile came from, by the characters of its fields.
pub enum SourceView {
    CliOverride,
    ExecSubcommand,
    Dispatch(Seq<char>, Seq<char>),
    DefaultProfile,
    ImplementationDefault,
    Shadow,
}

/// A profile source by the characters of its fields.
pub open spec fn source_view(s: ProfileSource) -> SourceView {
    match s {
        ProfileSource::CliOverride => SourceView::CliOverride,
        ProfileSource::ExecSubcommand => SourceView::ExecSubcommand,
        ProfileSource::Dispatch { rule_name, pattern } => SourceView::Dispatch(rule_name@, pattern@),
        ProfileSource::DefaultProfile => SourceView::DefaultProfile,
        ProfileSource::ImplementationDefault => SourceView::ImplementationDefault,
        ProfileSource::Shadow => SourceView::Shadow,
    }
}

/// The position of the first pattern that matches the command line.
pub open spec fn first_match(patterns: Seq<Seq<char>>, cmd: Seq<char>) -> Option<int>
    decreases patterns.len(),
{
    if patterns.len() == 0 {
        None
    } else if wildcard_matches(patterns[0], cmd) {
        Some(0)
    } else {
        match first_match(patterns.drop_first(), cmd) {
            Some(j) => Some(j + 1),
            None => None,
        }
    }
}

/// The first dispatch rule, in declaration order, with a pattern matching the
/// command line: its name, the first such pattern, and its profile.
pub open spec fn dispatch_choice(rules: Seq<(Seq<char>, DispatchRule)>, cmd: Seq<char>) -> Option<(Seq<char>, Seq<char>, Seq<char>)>
    decreases rules.len(),
{
    if rules.len() == 0 {
        None
    } else {
        let pats = views(rules[0].1.patterns@);
        match first_match(pats, cmd) {
            Some(j) => Some((rules[0].0, pats[j], rules[0].1.profile@)),
            None => dispatch_choice(rules.drop_first(), cmd),
        }
    }
}

/// The fallback profile: `default` when there is one, else the first.
pub open spec fn fallback_choice(profiles: Seq<(Seq<char>, ProfileConfig)>) -> Option<(Seq<char>, SourceView)> {
    if has_key(profiles, "default"@) {
        Some(("default"@, SourceView::DefaultProfile))
    } else if profiles.len() > 0 {
        Some((profiles[0].0, SourceView::ImplementationDefault))
    } else {
        None
    }
}

/// The profile chosen for a command: the command line's, the `exec`
/// subcommand's, for a shell the fallback, otherwise the first dispatch
/// rule that matches and else the fallback.
pub open spec fn profile_choice(
    cli_profile: Option<Seq<char>>,
    target: ResolutionTarget,
    profiles: Seq<(Seq<char>, ProfileConfig)>,
    rules: Seq<(Seq<char>, DispatchRule)>,
    cmd: Seq<char>,
) -> Option<(Seq<char>, SourceView)> {
    match cli_profile {
        Some(n) => Some((n, SourceView::CliOverride)),
        None => match target {
            ResolutionTarget::Exec { profile } => Some((profile@, SourceView::ExecSubcommand)),
            ResolutionTarget::Shell => fallback_choice(profiles),
            _ => match dispatch_choice(rules, cmd) {
                Some((rule, pattern, profile)) => Some((profile, SourceView::Dispatch(rule, pattern))),
                None => fallback_choice(profiles),
            },
        },
    }
}

/// The outcome of choosing a profile: the chosen one when it exists, an
/// unknown-profile error when it does not, and a failure naming the command
/// (`<shell>` for a shell) when nothing could be chosen.
pub open spec fn profile_outcome(
    cli_profile: Option<Seq<char>>,
    target: ResolutionTarget,
    profiles: Seq<(Seq<char>, ProfileConfig)>,
    rules: Seq<(Seq<char>, DispatchRule)>,
    cmd: Seq<char>,
    r: Result<(String, ProfileSource), SboxError>,
) -> bool {
    match profile_choice(cli_profile, target, profiles, rules, cmd) {
        Some((name, source)) => if has_key(profiles, name) {
            r is Ok && r.unwrap().0@ == name && source_view(r.unwrap().1) == source
        } else {
            r matches Err(SboxError::UnknownProfile { name: n }) && n@ == name
        },
        None => r matches Err(SboxError::ProfileResolutionFailed { command }) && command@ == if target is Shell {
            "<shell>"@
        } else {
            cmd
        },
    }
}

fn ensure_profile_exists(config: &Config, name: &str, source: ProfileSource) -> (r: Result<(String, ProfileSource), SboxError>)
    ensures
        has_key(profile_entries(config.profiles), name@) ==> r is Ok && r.unwrap().0@ == name@ && r.unwrap().1 == source,
        !has_key(profile_entries(config.profiles), name@) ==> (r matches Err(SboxError::UnknownProfile { name: n }) && n@
            == name@),
{
    match profiles_index_of(&config.profiles, name) {
        Some(_) => Ok((owned(name), source)),
        None => Err(SboxError::UnknownProfile { name: owned(name) }),
    }
}

fn fallback_profile(config: &Config, failed: String) -> (r: Result<(String, ProfileSource), SboxError>)
    ensures
        match fallback_choice(profile_entries(config.profiles)) {
            Some((name, source)) => r is Ok && r.unwrap().0@ == name && source_view(r.unwrap().1) == source,
            None => r matches Err(SboxError::ProfileResolutionFailed { command }) && command@ == failed@,
        },
{
    proof {
        reveal_strlit("default");
    }
    match profiles_index_of(&config.profiles, "default") {
        Some(_) => return Ok((owned("default"), ProfileSource::DefaultProfile)),
        None => {},
    }
    if profiles_len(&config.profiles) > 0 {
        let (name, _) = profiles_at(&config.profiles, 0);
        return Ok((name.clone(), ProfileSource::ImplementationDefault));
    }
    Err(SboxError::ProfileResolutionFailed { command: failed })
}

fn first_matching_pattern(patterns: &Vec<String>, cmd: &str) -> (r: Option<usize>)
    ensures
        r matches Some(j) ==> j < patterns@.len() && first_match(views(patterns@), cmd@) == Some(j as int),
        r is None ==> first_match(views(patterns@), cmd@) is None,
{
    let ghost pv = views(patterns@);
    let mut i: usize = 0;
    assert(pv.skip(0) =~= pv);
    while i < patterns.len()
        invariant
            pv == views(patterns@),
            i <= pv.len(),
            forall|j: int| 0 <= j < i ==> !wildcard_matches(#[trigger] pv[j], cmd@),
            first_match(pv, cmd@) == match first_match(pv.skip(i as int), cmd@) {
                Some(j) => Some(j + i),
                None => None,
            },
        decreases pv.len() - i,
    {
        assert(pv.skip(i as int)[0] == patterns@[i as int]@);
        if crate::dispatch::matches(patterns[i].as_str(), cmd) {
            return Some(i);
        }
        assert(pv.skip(i as int).drop_first() =~= pv.skip(i + 1));
        i = i + 1;
    }
    None
}

fn dispatch_profile(config: &Config, cmd: &str) -> (r: Option<(String, String, String)>)
    ensures
        match dispatch_choice(dispatch_entries(config.dispatch), cmd@) {
            Some((rule, pattern, profile)) => r is Some && r.unwrap().0@ == rule && r.unwrap().1@ == pattern
                && r.unwrap().2@ == profile,
            None => r is None,
        },
{
    let ghost rules = dispatch_entries(config.dispatch);
    let n = dispatch_len(&config.dispatch);
    let mut i: usize = 0;
    assert(rules.skip(0) =~= rules);
    while i < n
        invariant
            rules == dispatch_entries(config.dispatch),
            n == rules.len(),
            i <= n,
            dispatch_choice(rules, cmd@) == dispatch_choice(rules.skip(i as int), cmd@),
        decreases n - i,
    {
        let (rule_name, rule) = dispatch_at(&config.dispatch, i);
        assert(rules.skip(i as int)[0] == rules[i as int]);
        match first_matching_pattern(&rule.patterns, cmd) {
            Some(j) => {
                assert(views(rule.patterns@)[j as int] == rule.patterns@[j as int]@);
                assert(rules.skip(i as int).len() > 0);
                assert(dispatch_choice(rules.skip(i as int), cmd@) == Some(
                    (rules[i as int].0, views(rules[i as int].1.patterns@)[j as int], rules[i as int].1.profile@),
                ));
                return Some((rule_name.clone(), rule.patterns[j].clone(), rule.profile.clone()));
            },
            None => {},
        }
        assert(rules.skip(i as int).drop_first() =~= rules.skip(i + 1));
        i = i + 1;
    }
    None
}

/// The profile a command runs with, and where the choice came from.
pub fn resolve_profile(
    cli_profile: &Option<String>,
    config: &Config,
    target: &ResolutionTarget,
    command: &Vec<String>,
) -> (r: Result<(String, ProfileSource), SboxError>)
    ensures
        profile_outcome(
            opt_chars(*cli_profile),
            *target,
            profile_entries(config.profiles),
            dispatch_entries(config.dispatch),
            command_line(views(command@)),
            r,
        ),
{
    match cli_profile {
        Some(name) => return ensure_profile_exists(config, name.as_str(), ProfileSource::CliOverride),
        None => {},
    }
    match target {
        ResolutionTarget::Exec { profile } => return ensure_profile_exists(
            config,
            profile.as_str(),
            ProfileSource::ExecSubcommand,
        ),
        ResolutionTarget::Shell => {
            proof {
                reveal_strlit("<shell>");
            }
            return fallback_profile(config, owned("<shell>"));
        },
        _ => {},
    }
    let cmd = command_string(command.as_slice());
    match dispatch_profile(config, cmd.as_str()) {
        Some((rule_name, pattern, profile)) => ensure_profile_exists(
            config,
            profile.as_str(),
            ProfileSource::Dispatch { rule_name, pattern },
        ),
        None => fallback_profile(config, cmd),
    }
}

/// The execution mode of a run and where it came from: the command line's,
/// else the profile's.
pub open spec fn mode_for(cli_mode: Option<CliExecutionMode>, p: ProfileConfig) -> (ExecutionMode, ModeSource) {
    match cli_mode {
        Some(CliExecutionMode::Host) => (ExecutionMode::Host, ModeSource::CliOverride),
        Some(CliExecutionMode::Sandbox) => (ExecutionMode::Sandbox, ModeSource::CliOverride),
        None => (p.mode, ModeSource::Profile),
    }
}

/// The execution mode of a run.
pub fn resolve_mode(cli_mode: Option<CliExecutionMode>, profile: &ProfileConfig) -> (r: (ExecutionMode, ModeSource))
    ensures
        r == mode_for(cli_mode, *profile),
{
    match cli_mode {
        Some(CliExecutionMode::Host) => (ExecutionMode::Host, ModeSource::CliOverride),
        Some(CliExecutionMode::Sandbox) => (ExecutionMode::Sandbox, ModeSource::CliOverride),
        None => (profile.mode, ModeSource::Profile),
    }
}

/// The engine found on `PATH`: podman first, then docker, else podman.
pub open spec fn detected_backend(podman_on_path: bool, docker_on_path: bool) -> BackendKind {
    if podman_on_path {
        BackendKind::Podman
    } else if docker_on_path {
        BackendKind::Docker
    } else {
        BackendKind::Podman
    }
}

/// The engine to use when neither the command line nor the runtime names one.
pub fn detect_backend(podman_on_path: bool, docker_on_path: bool) -> (r: BackendKind)
    ensures
        r == detected_backend(podman_on_path, docker_on_path),
{
    if podman_on_path {
        BackendKind::Podman
    } else if docker_on_path {
        BackendKind::Docker
    } else {
        BackendKind::Podman
    }
}

/// The container engine of a run: the command line's, else the runtime's,
/// else the one found on `PATH`.
pub open spec fn backend_for(cli_backend: Option<CliBackendKind>, c: Config, podman_on_path: bool, docker_on_path: bool) -> BackendKind {
    match cli_backend {
        Some(CliBackendKind::Podman) => BackendKind::Podman,
        Some(CliBackendKind::Docker) => BackendKind::Docker,
        None => match c.runtime {
            Some(rt) => match rt.backend {
                Some(b) => b,
                None => detected_backend(podman_on_path, docker_on_path),
            },
            None => detected_backend(podman_on_path, docker_on_path),
        },
    }
}

/// The container engine of a run.
pub fn resolve_backend(cli_backend: Option<CliBackendKind>, config: &Config, podman_on_path: bool, docker_on_path: bool) -> (r: BackendKind)
    ensures
        r == backend_for(cli_backend, *config, podman_on_path, docker_on_path),
{
    match cli_backend {
        Some(CliBackendKind::Podman) => BackendKind::Podman,
        Some(CliBackendKind::Docker) => BackendKind::Docker,
        None => match &config.runtime {
            Some(rt) => match rt.backend {
                Some(b) => b,
                None => detect_backend(podman_on_path, docker_on_path),
            },
            None => detect_backend(podman_on_path, docker_on_path),
        },
    }
}

// ---------------------------------------------------------------------------
// The plan
// ---------------------------------------------------------------------------

/// The configuration can be planned against: it has a workspace with a mount
/// point, an image section, and a target for every mount (what validation
/// guarantees).
pub open spec fn plannable(c: Config) -> bool {
    &&& c.workspace is Some
    &&& c.workspace.unwrap().mount is Some
    &&& c.image is Some
    &&& forall|i: int| 0 <= i < c.mounts@.len() ==> (#[trigger] c.mounts@[i]).target is Some
}

/// Containers run rootless unless the runtime says otherwise.
pub open spec fn rootless_of(c: Config) -> bool {
    match c.runtime {
        Some(rt) => rt.rootless != Some(false),
        None => true,
    }
}

/// An image with a pinned digest is required: by the profile or the runtime.
pub open spec fn trusted_image_required_of(c: Config, p: ProfileConfig) -> bool {
    p.require_pinned_image == Some(true) || match c.runtime {
        Some(rt) => rt.require_pinned_image == Some(true),
        None => false,
    }
}

/// Everything but the image of a plan for the profile `name` (`p`).
pub open spec fn plan_body(
    cli: CliOverrides,
    loaded: LoadedConfig,
    command: Seq<Seq<char>>,
    host: HostFacts,
    name: Seq<char>,
    source: SourceView,
    p: ProfileConfig,
    plan: ExecutionPlan,
) -> bool {
    let c = loaded.config;
    let root = loaded.workspace_root@;
    let mount = c.workspace.unwrap().mount.unwrap()@;
    let install = install_style(p.role, name, command);
    &&& views(plan.command@) == command
    &&& plan.command_string@ == command_line(command)
    &&& plan.profile_name@ == name
    &&& source_view(plan.profile_source) == source
    &&& plan.backend == backend_for(cli.backend, c, host.podman_on_path, host.docker_on_path)
    &&& (plan.mode, plan.mode_source) == mode_for(cli.mode, p)
    &&& workspace_for(root, loaded.invocation_dir@, mount, plan.workspace)
    &&& policy_for(c, name, p, plan.mode, root, dns_view(host.dns@), plan.policy)
    &&& match c.environment {
        Some(e) => environment_of(e, env_view(host.env@), plan.environment),
        None => plan.environment.variables@.len() == 0 && plan.environment.denied@.len() == 0,
    }
    &&& mount_views(plan.mounts@) == planned_mounts(c, p, root, mount, plan.policy.writable, views(host.workspace_files@))
    &&& plan.caches@.len() == c.caches@.len()
    &&& forall|i: int| 0 <= i < c.caches@.len() ==> cache_resolves_to(c.caches@[i], #[trigger] plan.caches@[i])
    &&& secret_views(plan.secrets@) == applicable_secrets(c.secrets@, name, p.role, c.secrets@.len() as int)
    &&& plan.user == user_for(c, rootless_of(c))
    &&& plan.audit.install_style == install
    &&& plan.audit.trusted_image_required == trusted_image_required_of(c, p)
    &&& views(plan.audit.sensitive_pass_through_vars@) == sensitive_pass(plan.environment.variables@)
    &&& lockfile_audit_for(
        views(p.lockfile_files@),
        install,
        plan.workspace.effective_host_dir@,
        p.require_lockfile,
        views(host.existing_paths@),
        plan.audit.lockfile,
    )
    &&& command_views(plan.audit.pre_run@) == pre_run_commands(views(p.pre_run@))
}

/// The outcome of planning a command: a failed profile choice, else a failed
/// image resolution, else the plan for the chosen profile.
pub open spec fn plan_outcome(
    cli: CliOverrides,
    loaded: LoadedConfig,
    target: ResolutionTarget,
    command: Seq<Seq<char>>,
    host: HostFacts,
    r: Result<ExecutionPlan, SboxError>,
) -> bool {
    let c = loaded.config;
    let profiles = profile_entries(c.profiles);
    let cmd = command_line(command);
    match profile_choice(opt_chars(cli.profile), target, profiles, dispatch_entries(c.dispatch), cmd) {
        Some((name, source)) => if has_key(profiles, name) {
            let p = profiles[first_key_index(profiles, name).unwrap()].1;
            match r {
                Ok(plan) => image_for(opt_chars(cli.image), c.image.unwrap(), p.image, loaded.workspace_root@, Ok(plan.image))
                    && plan_body(cli, loaded, command, host, name, source, p, plan),
                Err(e) => image_for(opt_chars(cli.image), c.image.unwrap(), p.image, loaded.workspace_root@, Err(e)),
            }
        } else {
            r matches Err(SboxError::UnknownProfile { name: n }) && n@ == name
        },
        None => r matches Err(SboxError::ProfileResolutionFailed { command }) && command@ == if target is Shell {
            "<shell>"@
        } else {
            cmd
        },
    }
}

/// Resolves a command against a loaded configuration into the plan it runs
/// under. `host` carries what the host was found to hold.
pub fn resolve_execution_plan(
    cli: &CliOverrides,
    loaded: &LoadedConfig,
    target: &ResolutionTarget,
    command: &Vec<String>,
    host: &HostFacts,
) -> (r: Result<ExecutionPlan, SboxError>)
    requires
        plannable(loaded.config),
    ensures
        plan_outcome(*cli, *loaded, *target, views(command@), *host, r),
        r matches Ok(plan) ==> (crate::workspace::config_binds_sourced(loaded.config)
            ==> crate::backend::args::binds_have_sources(plan.mounts@)),
{
    let config = &loaded.config;
    let (profile_name, profile_source) = match resolve_profile(&cli.profile, config, target, command) {
        Ok(x) => x,
        Err(e) => return Err(e),
    };
    let idx = match profiles_index_of(&config.profiles, profile_name.as_str()) {
        Some(i) => i,
        None => {
            return Err(SboxError::UnknownProfile { name: profile_name });
        },
    };
    let (_, profile) = profiles_at(&config.profiles, idx);
    proof {
        let profiles = profile_entries(config.profiles);
        assert(profiles[idx as int].0 == profile_name@);
        let k = first_key_index(profiles, profile_name@).unwrap();
        assert(profiles[k].0 == profile_name@);
        assert(k == idx) by {
            if k < idx {
                assert(profiles[k].0 != profile_name@);
            }
            if (idx as int) < k {
                assert(profiles[idx as int].0 != profile_name@);
            }
        }
    }
    let workspace = match &config.workspace {
        Some(w) => w,
        None => {
            assert(false);
            return Err(SboxError::ConfigValidation { message: String::new() });
        },
    };
    let mount = match &workspace.mount {
        Some(m) => m,
        None => {
            assert(false);
            return Err(SboxError::ConfigValidation { message: String::new() });
        },
    };
    let image_config = match &config.image {
        Some(i) => i,
        None => {
            assert(false);
            return Err(SboxError::ConfigValidation { message: String::new() });
        },
    };
    let (mode, mode_source) = resolve_mode(cli.mode, profile);
    let backend = resolve_backend(cli.backend, config, host.podman_on_path, host.docker_on_path);
    let resolved_workspace = crate::workspace::resolve_workspace(
        loaded.workspace_root.as_str(),
        loaded.invocation_dir.as_str(),
        mount.as_str(),
    );
    let image = match resolve_image(&cli.image, image_config, &profile.image, loaded.workspace_root.as_str()) {
        Ok(i) => i,
        Err(e) => return Err(e),
    };
    let policy = resolve_policy(
        config,
        profile_name.as_str(),
        profile,
        mode,
        resolved_workspace.root.as_str(),
        &host.dns,
    );
    let environment = match &config.environment {
        Some(e) => crate::environment::resolve_environment(e, &host.env),
        None => ResolvedEnvironment { variables: Vec::new(), denied: Vec::new() },
    };
    let mounts = crate::workspace::resolve_mounts(
        config,
        profile,
        resolved_workspace.root.as_str(),
        resolved_workspace.mount.as_str(),
        policy.writable,
        &host.workspace_files,
    );
    let caches = resolve_caches(&config.caches);
    let secrets = resolve_secrets(&config.secrets, profile_name.as_str(), profile.role);
    let rootless = match &config.runtime {
        Some(rt) => rt.rootless != Some(false),
        None => true,
    };
    let user = resolve_user(config, rootless);
    let install_style = is_install_style(profile.role, profile_name.as_str(), command);
    let trusted_image_required = profile.require_pinned_image == Some(true) || match &config.runtime {
        Some(rt) => rt.require_pinned_image == Some(true),
        None => false,
    };
    let sensitive = crate::environment::resolved_sensitive_pass_through_vars(&environment);
    let lockfile = crate::environment::resolve_lockfile_audit(
        &profile.lockfile_files,
        install_style,
        resolved_workspace.effective_host_dir.as_str(),
        profile.require_lockfile,
        &host.existing_paths,
    );
    let pre_run = crate::environment::parse_pre_run_commands(&profile.pre_run);
    let audit = ExecutionAudit {
        install_style,
        trusted_image_required,
        sensitive_pass_through_vars: sensitive,
        lockfile,
        pre_run,
    };
    proof {
        if crate::workspace::config_binds_sourced(loaded.config) {
            crate::workspace::lemma_planned_binds_have_sources(
                *config,
                *profile,
                resolved_workspace.root@,
                resolved_workspace.mount@,
                policy.writable,
                views(host.workspace_files@),
                mounts@,
            );
        }
    }
    Ok(
        ExecutionPlan {
            command_string: command_string(command.as_slice()),
            command: crate::text::clone_strings(command),
            backend,
            image,
            profile_name,
            profile_source,
            mode,
            mode_source,
            workspace: resolved_workspace,
            policy,
            environment,
            mounts,
            caches,
            secrets,
            user,
            audit,
        },
    )
}

// ---------------------------------------------------------------------------
// Laws of planning
// ---------------------------------------------------------------------------

/// A profile named on the command line wins over dispatch rules and
/// defaults: a plan made with one runs under it.
pub proof fn law_cli_profile_overrides_dispatch(
    cli: CliOverrides,
    loaded: LoadedConfig,
    target: ResolutionTarget,
    command: Seq<Seq<char>>,
    host: HostFacts,
    plan: ExecutionPlan,
)
    requires
        plan_outcome(cli, loaded, target, command, host, Ok(plan)),
        cli.profile is Some,
    ensures
        plan.profile_name@ == cli.profile->0@,
        plan.profile_source is CliOverride,
{
    let c = loaded.config;
    let profiles = profile_entries(c.profiles);
    let name = cli.profile->0@;
    assert(opt_chars(cli.profile) == Some(name));
    assert(profile_choice(opt_chars(cli.profile), target, profiles, dispatch_entries(c.dispatch), command_line(command))
        == Some((name, SourceView::CliOverride)));
    assert(has_key(profiles, name));
    let p = profiles[first_key_index(profiles, name).unwrap()].1;
    assert(plan_body(cli, loaded, command, host, name, SourceView::CliOverride, p, plan));
}

/// Without a profile on the command line, a command that a dispatch rule
/// matches runs under the profile of the first such rule, in declaration
/// order, and the plan names the rule and the pattern.
pub proof fn law_first_matching_dispatch_rule_wins(
    cli: CliOverrides,
    loaded: LoadedConfig,
    target: ResolutionTarget,
    command: Seq<Seq<char>>,
    host: HostFacts,
    plan: ExecutionPlan,
)
    requires
        plan_outcome(cli, loaded, target, command, host, Ok(plan)),
        cli.profile is None,
        target is Run || target is Plan,
        dispatch_choice(dispatch_entries(loaded.config.dispatch), command_line(command)) is Some,
    ensures
        ({
            let (rule, pattern, profile) = dispatch_choice(
                dispatch_entries(loaded.config.dispatch),
                command_line(command),
            ).unwrap();
            &&& plan.profile_name@ == profile
            &&& plan.profile_source matches ProfileSource::Dispatch { rule_name, pattern: pat } && rule_name@ == rule
                && pat@ == pattern
        }),
{
}

/// Host mode publishes no ports; the sandbox keeps the profile's.
pub proof fn law_host_mode_strips_ports(
    cli: CliOverrides,
    loaded: LoadedConfig,
    target: ResolutionTarget,
    command: Seq<Seq<char>>,
    host: HostFacts,
    plan: ExecutionPlan,
)
    requires
        plan_outcome(cli, loaded, target, command, host, Ok(plan)),
        plan.mode == ExecutionMode::Host,
    ensures
        plan.policy.ports@.len() == 0,
{
    let c = loaded.config;
    let profiles = profile_entries(c.profiles);
    let (name, source) = profile_choice(opt_chars(cli.profile), target, profiles, dispatch_entries(c.dispatch), command_line(command)).unwrap();
    let p = profiles[first_key_index(profiles, name).unwrap()].1;
    assert(views(plan.policy.ports@).len() == plan.policy.ports@.len());
}

/// A denied variable never reaches a plan: no variable of a plan's
/// environment is on the configuration's deny list.
pub proof fn law_plan_environment_excludes_denied(
    cli: CliOverrides,
    loaded: LoadedConfig,
    target: ResolutionTarget,
    command: Seq<Seq<char>>,
    host: HostFacts,
    plan: ExecutionPlan,
)
    requires
        plan_outcome(cli, loaded, target, command, host, Ok(plan)),
        loaded.config.environment is Some,
    ensures
        forall|i: int|
            0 <= i < plan.environment.variables@.len() ==> !seq_has(
                views(loaded.config.environment->0.deny@),
                (#[trigger] plan.environment.variables@[i]).name@,
            ),
{
    crate::environment::law_denied_variables_are_never_resolved(
        loaded.config.environment->0,
        env_view(host.env@),
        plan.environment,
    );
}

} // verus!
