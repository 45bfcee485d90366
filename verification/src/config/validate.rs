//! Validation of a configuration: every rule violation becomes one error line.

use vstd::prelude::*;

use crate::config::maps::{
    dispatch_at, dispatch_entries, dispatch_len, has_key, profile_entries, profiles_at,
    profiles_index_of, profiles_len,
};
use crate::config::model::{
    CacheConfig, CapabilitiesSpec, Config, DispatchRule, EnvironmentConfig, ExecutionMode,
    ImageConfig, MountConfig, MountType, ProfileConfig, ProfileRole, SecretConfig,
    WorkspaceConfig,
};
use crate::error::SboxError;
use crate::paths::{
    has_parent_component, is_absolute, path_eq, path_eq_str, path_has_parent_component,
    path_is_absolute, path_join, path_join_str, strip_leading, strip_leading_str,
};
use crate::text::{
    add_all, concat2, concat3, contains, decimal, none, one, ends_with, format_decimal, is_blank, join, join_strings,
    lemma_views_add, owned, push_string, seq_has, starts_with, str_contains, str_ends_with,
    str_is_blank, str_starts_with, strings_contain, views,
};

verus! {

// ---------------------------------------------------------------------------
// Messages
// ---------------------------------------------------------------------------

pub open spec fn msg_version(v: u32) -> Seq<char> {
    "unsupported config version `"@ + decimal(v as nat) + "`; expected `1`"@
}

pub open spec fn msg_map_user_conflict() -> Seq<char> {
    "`identity.map_user: true` conflicts with `runtime.rootless: false`; --userns keep-id is only valid in rootless Podman"@
}

pub open spec fn msg_pinned_global() -> Seq<char> {
    "`runtime.require_pinned_image: true` requires `image.digest` to be set (or all sandbox profiles to have per-profile image digests)"@
}

/// The `image:` block (or a profile's override) has a digest.
pub open spec fn image_has_digest(image: Option<ImageConfig>) -> bool {
    image matches Some(i) && i.digest is Some
}

/// Every sandbox profile overrides the image with a digest.
pub open spec fn all_sandbox_profiles_have_digest(profiles: Seq<(Seq<char>, ProfileConfig)>) -> bool {
    forall|i: int|
        0 <= i < profiles.len() && profiles[i].1.mode == ExecutionMode::Sandbox ==> image_has_digest(
            #[trigger] profiles[i].1.image,
        )
}

/// Errors of the `runtime:` block.
pub open spec fn runtime_errors(c: Config) -> Seq<Seq<char>> {
    match c.runtime {
        None => seq!["`runtime` section is required"@],
        Some(rt) => (if rt.rootless == Some(false) && (c.identity matches Some(id) && id.map_user
            == Some(true)) {
            seq![msg_map_user_conflict()]
        } else {
            Seq::empty()
        }) + (if rt.require_pinned_image == Some(true) && !image_has_digest(c.image)
            && !all_sandbox_profiles_have_digest(profile_entries(c.profiles)) {
            seq![msg_pinned_global()]
        } else {
            Seq::empty()
        }),
    }
}

/// Errors of one `workspace.writable_paths` entry.
pub open spec fn writable_path_errors(p: Seq<char>) -> Seq<Seq<char>> {
    if is_blank(p) {
        seq!["`workspace.writable_paths` entries must not be empty"@]
    } else if is_absolute(p) {
        seq!["`workspace.writable_paths` entry must be a relative path: `"@ + p + "`"@]
    } else if has_parent_component(p) {
        seq!["`workspace.writable_paths` entry must not contain `..`: `"@ + p + "`"@]
    } else {
        Seq::empty()
    }
}

/// Errors of one `workspace.exclude_paths` entry.
pub open spec fn exclude_path_errors(p: Seq<char>) -> Seq<Seq<char>> {
    if is_blank(p) {
        seq!["`workspace.exclude_paths` entries must not be empty"@]
    } else if is_absolute(strip_leading(p, "**/"@)) {
        seq!["`workspace.exclude_paths` entry must be a relative pattern: `"@ + p + "`"@]
    } else {
        Seq::empty()
    }
}

/// Errors of the first `n` writable paths.
pub open spec fn writable_paths_errors_upto(ps: Seq<String>, n: int) -> Seq<Seq<char>>
    decreases n,
{
    if n <= 0 {
        Seq::empty()
    } else {
        writable_paths_errors_upto(ps, n - 1) + writable_path_errors(ps[n - 1]@)
    }
}

/// Errors of the first `n` exclude patterns.
pub open spec fn exclude_paths_errors_upto(ps: Seq<String>, n: int) -> Seq<Seq<char>>
    decreases n,
{
    if n <= 0 {
        Seq::empty()
    } else {
        exclude_paths_errors_upto(ps, n - 1) + exclude_path_errors(ps[n - 1]@)
    }
}

/// Errors of `workspace.mount`.
pub open spec fn workspace_mount_errors(mount: Option<String>) -> Seq<Seq<char>> {
    match mount {
        None => seq!["`workspace.mount` is required"@],
        Some(m) => if m@.len() == 0 {
            seq!["`workspace.mount` is required"@]
        } else if !is_absolute(m@) {
            seq!["`workspace.mount` must be an absolute path: `"@ + m@ + "`"@]
        } else {
            Seq::empty()
        },
    }
}

/// Errors of the `workspace:` block.
pub open spec fn workspace_errors(c: Config) -> Seq<Seq<char>> {
    match c.workspace {
        None => seq!["`workspace` section is required"@],
        Some(ws) => workspace_mount_errors(ws.mount) + writable_paths_errors_upto(
            ws.writable_paths@,
            ws.writable_paths@.len() as int,
        ) + exclude_paths_errors_upto(ws.exclude_paths@, ws.exclude_paths@.len() as int),
    }
}

/// Errors of an image block.
pub open spec fn image_errors(image: ImageConfig) -> Seq<Seq<char>> {
    let count = (if image.reference is Some { 1int } else { 0 }) + (if image.build is Some { 1int } else { 0 })
        + (if image.preset is Some { 1int } else { 0 });
    (if count == 0 {
        seq!["`image` must define exactly one of `ref`, `build`, or `preset`"@]
    } else if count > 1 {
        seq!["`image.ref`, `image.build`, and `image.preset` are mutually exclusive"@]
    } else {
        Seq::empty()
    }) + match image.digest {
        None => Seq::empty(),
        Some(d) => (if !starts_with(d@, "sha256:"@) {
            seq!["`image.digest` must start with `sha256:`: `"@ + d@ + "`"@]
        } else {
            Seq::empty()
        }) + (if image.build is Some {
            seq!["`image.digest` cannot be used with `image.build`"@]
        } else {
            Seq::empty()
        }),
    }
}

/// Errors of the first `n` pass-through names that also appear in `deny`.
pub open spec fn env_errors_upto(env: EnvironmentConfig, n: int) -> Seq<Seq<char>>
    decreases n,
{
    if n <= 0 {
        Seq::empty()
    } else {
        env_errors_upto(env, n - 1) + if seq_has(views(env.deny@), env.pass_through@[n - 1]@) {
            seq![
                "environment variable `"@ + env.pass_through@[n - 1]@
                    + "` cannot appear in both `pass_through` and `deny`"@,
            ]
        } else {
            Seq::empty()
        }
    }
}

/// Errors of the `environment:` block.
pub open spec fn environment_errors(c: Config) -> Seq<Seq<char>> {
    match c.environment {
        None => Seq::empty(),
        Some(env) => env_errors_upto(env, env.pass_through@.len() as int),
    }
}

/// Some cache before position `i` has the same name as cache `i`.
pub open spec fn earlier_cache_name(caches: Seq<CacheConfig>, i: int) -> bool {
    exists|j: int| 0 <= j < i && #[trigger] caches[j].name@ == caches[i].name@
}

/// Some cache before position `i`, with a non-blank target, has the same target as cache `i`.
pub open spec fn earlier_cache_target(caches: Seq<CacheConfig>, i: int) -> bool {
    exists|j: int| 0 <= j < i && !is_blank(#[trigger] caches[j].target@) && caches[j].target@ == caches[i].target@
}

/// Errors of cache `i`.
pub open spec fn cache_errors(caches: Seq<CacheConfig>, i: int) -> Seq<Seq<char>> {
    let cache = caches[i];
    (if is_blank(cache.name@) {
        seq!["cache names must not be empty"@]
    } else {
        Seq::empty()
    }) + (if is_blank(cache.target@) {
        seq!["cache `"@ + cache.name@ + "` must define `target`"@]
    } else {
        (if !is_absolute(cache.target@) {
            seq!["cache `"@ + cache.name@ + "` target must be absolute: `"@ + cache.target@ + "`"@]
        } else {
            Seq::empty()
        }) + (if earlier_cache_target(caches, i) {
            seq!["duplicate cache target `"@ + cache.target@ + "`"@]
        } else {
            Seq::empty()
        })
    }) + (if earlier_cache_name(caches, i) {
        seq!["duplicate cache name `"@ + cache.name@ + "`"@]
    } else {
        Seq::empty()
    })
}

/// Errors of the first `n` caches.
pub open spec fn caches_errors_upto(caches: Seq<CacheConfig>, n: int) -> Seq<Seq<char>>
    decreases n,
{
    if n <= 0 {
        Seq::empty()
    } else {
        caches_errors_upto(caches, n - 1) + cache_errors(caches, n - 1)
    }
}

/// The home directory `home` names a directory that is exactly `path`.
pub open spec fn home_join_eq(home: Option<Seq<char>>, suffix: Seq<char>, path: Seq<char>) -> bool {
    home matches Some(h) && path_eq(path, path_join(h, suffix))
}

/// `path` is a full home-directory root.
pub open spec fn is_home_root(path: Seq<char>, home: Option<Seq<char>>) -> bool {
    ||| (home matches Some(h) && path_eq(path, h))
    ||| path_eq(path, "/home"@)
    ||| path_eq(path, "/root"@)
    ||| path_eq(path, "/Users"@)
}

/// Host sockets whose mounting hands out control of a container engine.
pub open spec fn sensitive_exact_paths() -> Seq<Seq<char>> {
    seq!["/var/run/docker.sock"@, "/run/docker.sock"@, "/var/run/podman/podman.sock"@, "/run/podman/podman.sock"@]
}

/// Credential directories and files below the home directory.
pub open spec fn sensitive_home_entries() -> Seq<Seq<char>> {
    seq![
        ".ssh"@, ".aws"@, ".kube"@, ".config/gcloud"@, ".gnupg"@, ".docker"@,
        ".git-credentials"@, ".npmrc"@, ".pypirc"@, ".netrc"@, ".docker/config.json"@,
    ]
}

/// `path` is a host credential or socket path.
pub open spec fn is_sensitive_host_path(path: Seq<char>, home: Option<Seq<char>>) -> bool {
    ||| exists|i: int| 0 <= i < sensitive_exact_paths().len() && path_eq(path, #[trigger] sensitive_exact_paths()[i])
    ||| exists|i: int| 0 <= i < sensitive_home_entries().len() && home_join_eq(home, #[trigger] sensitive_home_entries()[i], path)
}

/// Why mounting `source` is unsafe, if it is.
pub open spec fn mount_source_safety(source: Seq<char>, home: Option<Seq<char>>) -> Option<Seq<char>> {
    if source == "~"@ || starts_with(source, "~/"@) {
        Some("must not mount home-directory paths implicitly: `"@ + source + "`"@)
    } else if !is_absolute(source) {
        None
    } else if is_home_root(source, home) {
        Some("must not mount full home-directory roots: `"@ + source + "`"@)
    } else if is_sensitive_host_path(source, home) {
        Some("must not mount sensitive host credential or socket paths: `"@ + source + "`"@)
    } else {
        None
    }
}

/// The target of a mount, empty when it has none.
pub open spec fn mount_target(m: MountConfig) -> Seq<char> {
    match m.target {
        Some(t) => t@,
        None => Seq::empty(),
    }
}

/// Some mount before position `i` has the same non-empty target as mount `i`.
pub open spec fn earlier_mount_target(mounts: Seq<MountConfig>, i: int) -> bool {
    exists|j: int|
        0 <= j < i && mount_target(#[trigger] mounts[j]).len() > 0 && mount_target(mounts[j]) == mount_target(
            mounts[i],
        )
}

/// Errors of mount `i`, labelled `mount #<i+1>`.
pub open spec fn mount_errors(mounts: Seq<MountConfig>, i: int, home: Option<Seq<char>>) -> Seq<Seq<char>> {
    let m = mounts[i];
    let label = "mount #"@ + decimal((i + 1) as nat);
    (match m.target {
        None => seq![label + " must define `target`"@],
        Some(t) => if t@.len() == 0 {
            seq![label + " must define `target`"@]
        } else {
            (if !is_absolute(t@) {
                seq![label + " target must be absolute: `"@ + t@ + "`"@]
            } else {
                Seq::empty()
            }) + (if earlier_mount_target(mounts, i) {
                seq![label + " reuses mount target `"@ + t@ + "`"@]
            } else {
                Seq::empty()
            })
        },
    }) + (if m.mount_type == MountType::Bind && m.source is None {
        seq![label + " with `type: bind` must define `source`"@]
    } else {
        Seq::empty()
    }) + (if m.mount_type == MountType::Tmpfs && m.source is Some {
        seq![label + " with `type: tmpfs` must not define `source`"@]
    } else {
        Seq::empty()
    }) + match m.source {
        Some(s) => match mount_source_safety(s@, home) {
            Some(why) => seq![label + " "@ + why],
            None => Seq::empty(),
        },
        None => Seq::empty(),
    }
}

/// Errors of the first `n` mounts.
pub open spec fn mounts_errors_upto(mounts: Seq<MountConfig>, n: int, home: Option<Seq<char>>) -> Seq<Seq<char>>
    decreases n,
{
    if n <= 0 {
        Seq::empty()
    } else {
        mounts_errors_upto(mounts, n - 1, home) + mount_errors(mounts, n - 1, home)
    }
}

/// Unknown profiles among the first `n` names of `when_profiles`.
pub open spec fn when_profiles_errors_upto(
    secret: SecretConfig,
    profiles: Seq<(Seq<char>, ProfileConfig)>,
    n: int,
) -> Seq<Seq<char>>
    decreases n,
{
    if n <= 0 {
        Seq::empty()
    } else {
        when_profiles_errors_upto(secret, profiles, n - 1) + if !has_key(profiles, secret.when_profiles@[n - 1]@) {
            seq![
                "secret `"@ + secret.name@ + "` references unknown profile `"@ + secret.when_profiles@[n
                    - 1]@ + "`"@,
            ]
        } else {
            Seq::empty()
        }
    }
}

/// Some secret before position `i` has the same name as secret `i`.
pub open spec fn earlier_secret_name(secrets: Seq<SecretConfig>, i: int) -> bool {
    exists|j: int| 0 <= j < i && #[trigger] secrets[j].name@ == secrets[i].name@
}

/// Errors of secret `i`.
pub open spec fn secret_errors(
    secrets: Seq<SecretConfig>,
    i: int,
    profiles: Seq<(Seq<char>, ProfileConfig)>,
) -> Seq<Seq<char>> {
    let s = secrets[i];
    (if is_blank(s.name@) {
        seq!["secret names must not be empty"@]
    } else {
        Seq::empty()
    }) + (if is_blank(s.source@) || is_blank(s.target@) {
        seq!["secret `"@ + s.name@ + "` must define non-empty `source` and `target`"@]
    } else {
        Seq::empty()
    }) + (if earlier_secret_name(secrets, i) {
        seq!["duplicate secret name `"@ + s.name@ + "`"@]
    } else {
        Seq::empty()
    }) + (if !is_blank(s.target@) && !is_absolute(s.target@) {
        seq!["secret `"@ + s.name@ + "` target must be absolute: `"@ + s.target@ + "`"@]
    } else {
        Seq::empty()
    }) + when_profiles_errors_upto(s, profiles, s.when_profiles@.len() as int)
}

/// Errors of the first `n` secrets.
pub open spec fn secrets_errors_upto(
    secrets: Seq<SecretConfig>,
    profiles: Seq<(Seq<char>, ProfileConfig)>,
    n: int,
) -> Seq<Seq<char>>
    decreases n,
{
    if n <= 0 {
        Seq::empty()
    } else {
        secrets_errors_upto(secrets, profiles, n - 1) + secret_errors(secrets, n - 1, profiles)
    }
}

pub open spec fn msg_capabilities_keyword(name: Seq<char>, keyword: Seq<char>) -> Seq<char> {
    "profile `"@ + name + "` has unknown capabilities keyword `"@ + keyword
        + "`; use `drop-all`, a list `[CAP_NAME, ...]`, or a structured form `{ drop: [...], add: [...] }`"@
}

/// Empty entries among the first `n` of a profile's `network_allow`.
pub open spec fn network_allow_errors_upto(name: Seq<char>, allow: Seq<String>, n: int) -> Seq<Seq<char>>
    decreases n,
{
    if n <= 0 {
        Seq::empty()
    } else {
        network_allow_errors_upto(name, allow, n - 1) + if is_blank(allow[n - 1]@) {
            seq!["profile `"@ + name + "` has an empty entry in `network_allow`"@]
        } else {
            Seq::empty()
        }
    }
}

/// Errors of one profile.
pub open spec fn profile_errors(name: Seq<char>, p: ProfileConfig, global_image: Option<ImageConfig>) -> Seq<Seq<char>> {
    (match p.image {
        Some(img) => image_errors(img),
        None => Seq::empty(),
    }) + (if p.mode == ExecutionMode::Host && p.ports@.len() > 0 {
        seq!["profile `"@ + name + "` cannot expose ports in `host` mode"@]
    } else {
        Seq::empty()
    }) + (match p.capabilities {
        Some(CapabilitiesSpec::Keyword(k)) => if k@ != "drop-all"@ {
            seq![msg_capabilities_keyword(name, k@)]
        } else {
            Seq::empty()
        },
        _ => Seq::empty(),
    }) + network_allow_errors_upto(name, p.network_allow@, p.network_allow@.len() as int) + (if p.network_allow@.len()
        > 0 && (p.network matches Some(n) && n@ == "off"@) {
        seq![
            "profile `"@ + name
                + "` sets `network_allow` but `network: off` — allow-listing has no effect when network is disabled"@,
        ]
    } else {
        Seq::empty()
    }) + (if p.require_pinned_image == Some(true) && !image_has_digest(p.image) && !image_has_digest(global_image) {
        seq![
            "profile `"@ + name
                + "` sets `require_pinned_image: true` but no image digest is configured (set `image.digest` globally or in the profile's image override)"@,
        ]
    } else {
        Seq::empty()
    })
}

/// Errors of the first `n` profiles.
pub open spec fn profiles_errors_upto(
    profiles: Seq<(Seq<char>, ProfileConfig)>,
    global_image: Option<ImageConfig>,
    n: int,
) -> Seq<Seq<char>>
    decreases n,
{
    if n <= 0 {
        Seq::empty()
    } else {
        profiles_errors_upto(profiles, global_image, n - 1) + profile_errors(
            profiles[n - 1].0,
            profiles[n - 1].1,
            global_image,
        )
    }
}

/// Errors of one dispatch rule.
pub open spec fn dispatch_rule_errors(name: Seq<char>, rule: DispatchRule, profiles: Seq<(Seq<char>, ProfileConfig)>) -> Seq<Seq<char>> {
    (if rule.patterns@.len() == 0 {
        seq!["dispatch rule `"@ + name + "` must define at least one pattern"@]
    } else {
        Seq::empty()
    }) + (if !has_key(profiles, rule.profile@) {
        seq!["dispatch rule `"@ + name + "` references unknown profile `"@ + rule.profile@ + "`"@]
    } else {
        Seq::empty()
    })
}

/// Errors of the first `n` dispatch rules.
pub open spec fn dispatch_errors_upto(
    rules: Seq<(Seq<char>, DispatchRule)>,
    profiles: Seq<(Seq<char>, ProfileConfig)>,
    n: int,
) -> Seq<Seq<char>>
    decreases n,
{
    if n <= 0 {
        Seq::empty()
    } else {
        dispatch_errors_upto(rules, profiles, n - 1) + dispatch_rule_errors(rules[n - 1].0, rules[n - 1].1, profiles)
    }
}

/// Every error of a configuration, in the order they are reported; `home` is
/// the home directory that sensitive mount sources are judged against.
pub open spec fn config_errors(c: Config, home: Option<Seq<char>>) -> Seq<Seq<char>> {
    let profiles = profile_entries(c.profiles);
    (if c.version != 1 {
        seq![msg_version(c.version)]
    } else {
        Seq::empty()
    }) + runtime_errors(c) + workspace_errors(c) + (match c.image {
        Some(img) => image_errors(img),
        None => seq!["`image` section is required"@],
    }) + environment_errors(c) + (if profiles.len() == 0 {
        seq!["at least one profile must be defined"@]
    } else {
        Seq::empty()
    }) + caches_errors_upto(c.caches@, c.caches@.len() as int) + mounts_errors_upto(
        c.mounts@,
        c.mounts@.len() as int,
        home,
    ) + secrets_errors_upto(c.secrets@, profiles, c.secrets@.len() as int) + profiles_errors_upto(
        profiles,
        c.image,
        profiles.len() as int,
    ) + dispatch_errors_upto(dispatch_entries(c.dispatch), profiles, dispatch_entries(c.dispatch).len() as int)
}

/// The configuration breaks no rule.
pub open spec fn config_is_valid(c: Config, home: Option<Seq<char>>) -> bool {
    config_errors(c, home).len() == 0
}

} // verus!

verus! {

// ---------------------------------------------------------------------------
// Checks
// ---------------------------------------------------------------------------

fn opt_is_digest(image: &Option<ImageConfig>) -> (r: bool)
    ensures
        r == image_has_digest(*image),
{
    match image {
        Some(i) => i.digest.is_some(),
        None => false,
    }
}

fn all_sandbox_have_digest(c: &Config) -> (r: bool)
    ensures
        r == all_sandbox_profiles_have_digest(profile_entries(c.profiles)),
{
    let n = profiles_len(&c.profiles);
    let mut i: usize = 0;
    while i < n
        invariant
            n == profile_entries(c.profiles).len(),
            i <= n,
            forall|j: int|
                0 <= j < i && profile_entries(c.profiles)[j].1.mode == ExecutionMode::Sandbox
                    ==> image_has_digest(#[trigger] profile_entries(c.profiles)[j].1.image),
        decreases n - i,
    {
        let (_, p) = profiles_at(&c.profiles, i);
        if p.mode == ExecutionMode::Sandbox && !opt_is_digest(&p.image) {
            return false;
        }
        i = i + 1;
    }
    true
}

fn check_runtime(c: &Config) -> (r: Vec<String>)
    ensures
        views(r@) == runtime_errors(*c),
{
    match &c.runtime {
        None => one(owned("`runtime` section is required")),
        Some(rt) => {
            let mut out = none();
            if rt.rootless == Some(false) {
                if let Some(identity) = &c.identity {
                    if identity.map_user == Some(true) {
                        push_string(
                            &mut out,
                            owned(
                                "`identity.map_user: true` conflicts with `runtime.rootless: false`; --userns keep-id is only valid in rootless Podman",
                            ),
                        );
                    }
                }
            }
            let ghost first = views(out@);
            if rt.require_pinned_image == Some(true) {
                if !opt_is_digest(&c.image) {
                    if !all_sandbox_have_digest(c) {
                        push_string(
                            &mut out,
                            owned(
                                "`runtime.require_pinned_image: true` requires `image.digest` to be set (or all sandbox profiles to have per-profile image digests)",
                            ),
                        );
                    }
                }
            }
            assert(views(out@) =~= runtime_errors(*c));
            out
        },
    }
}

fn check_writable_path(p: &String) -> (r: Vec<String>)
    ensures
        views(r@) == writable_path_errors(p@),
{
    if str_is_blank(p.as_str()) {
        one(owned("`workspace.writable_paths` entries must not be empty"))
    } else if path_is_absolute(p.as_str()) {
        one(concat3("`workspace.writable_paths` entry must be a relative path: `", p.as_str(), "`"))
    } else if path_has_parent_component(p.as_str()) {
        one(concat3("`workspace.writable_paths` entry must not contain `..`: `", p.as_str(), "`"))
    } else {
        none()
    }
}

fn check_exclude_path(p: &String) -> (r: Vec<String>)
    ensures
        views(r@) == exclude_path_errors(p@),
{
    if str_is_blank(p.as_str()) {
        one(owned("`workspace.exclude_paths` entries must not be empty"))
    } else {
        let effective = strip_leading_str(p.as_str(), "**/");
        if path_is_absolute(effective.as_str()) {
            one(concat3("`workspace.exclude_paths` entry must be a relative pattern: `", p.as_str(), "`"))
        } else {
            none()
        }
    }
}

fn check_workspace(c: &Config) -> (r: Vec<String>)
    ensures
        views(r@) == workspace_errors(*c),
{
    match &c.workspace {
        None => one(owned("`workspace` section is required")),
        Some(ws) => {
            let mut out = match &ws.mount {
                None => one(owned("`workspace.mount` is required")),
                Some(m) => {
                    if m.as_str().is_empty() {
                        one(owned("`workspace.mount` is required"))
                    } else if !path_is_absolute(m.as_str()) {
                        one(concat3("`workspace.mount` must be an absolute path: `", m.as_str(), "`"))
                    } else {
                        none()
                    }
                },
            };
            assert(views(out@) == workspace_mount_errors(ws.mount));
            let mut i: usize = 0;
            while i < ws.writable_paths.len()
                invariant
                    i <= ws.writable_paths@.len(),
                    views(out@) == workspace_mount_errors(ws.mount) + writable_paths_errors_upto(
                        ws.writable_paths@,
                        i as int,
                    ),
                decreases ws.writable_paths@.len() - i,
            {
                let item = check_writable_path(&ws.writable_paths[i]);
                add_all(&mut out, item);
                i = i + 1;
            }
            let ghost mid = views(out@);
            let mut k: usize = 0;
            while k < ws.exclude_paths.len()
                invariant
                    k <= ws.exclude_paths@.len(),
                    views(out@) == mid + exclude_paths_errors_upto(ws.exclude_paths@, k as int),
                decreases ws.exclude_paths@.len() - k,
            {
                let item = check_exclude_path(&ws.exclude_paths[k]);
                add_all(&mut out, item);
                k = k + 1;
            }
            out
        },
    }
}

/// The errors of an image block.
pub fn validate_image(image: &ImageConfig) -> (r: Vec<String>)
    ensures
        views(r@) == image_errors(*image),
{
    let count: u8 = (if image.reference.is_some() { 1u8 } else { 0u8 }) + (if image.build.is_some() { 1u8 } else { 0u8 })
        + (if image.preset.is_some() { 1u8 } else { 0u8 });
    let mut out = if count == 0 {
        one(owned("`image` must define exactly one of `ref`, `build`, or `preset`"))
    } else if count > 1 {
        one(owned("`image.ref`, `image.build`, and `image.preset` are mutually exclusive"))
    } else {
        none()
    };
    if let Some(digest) = &image.digest {
        if !str_starts_with(digest.as_str(), "sha256:") {
            push_string(&mut out, concat3("`image.digest` must start with `sha256:`: `", digest.as_str(), "`"));
        }
        if image.build.is_some() {
            push_string(&mut out, owned("`image.digest` cannot be used with `image.build`"));
        }
    }
    assert(views(out@) =~= image_errors(*image));
    out
}

fn check_environment(c: &Config) -> (r: Vec<String>)
    ensures
        views(r@) == environment_errors(*c),
{
    let mut out = none();
    if let Some(env) = &c.environment {
        let mut i: usize = 0;
        while i < env.pass_through.len()
            invariant
                i <= env.pass_through@.len(),
                views(out@) == env_errors_upto(*env, i as int),
            decreases env.pass_through@.len() - i,
        {
            let name = &env.pass_through[i];
            if strings_contain(env.deny.as_slice(), name.as_str()) {
                push_string(
                    &mut out,
                    concat3("environment variable `", name.as_str(), "` cannot appear in both `pass_through` and `deny`"),
                );
            }
            assert(views(out@) =~= env_errors_upto(*env, i + 1));
            i = i + 1;
        }
    }
    out
}

fn check_cache(caches: &Vec<CacheConfig>, i: usize) -> (r: Vec<String>)
    requires
        i < caches@.len(),
    ensures
        views(r@) == cache_errors(caches@, i as int),
{
    let cache = &caches[i];
    let mut out = none();
    if str_is_blank(cache.name.as_str()) {
        push_string(&mut out, owned("cache names must not be empty"));
    }
    let ghost a = views(out@);
    if str_is_blank(cache.target.as_str()) {
        push_string(&mut out, concat3("cache `", cache.name.as_str(), "` must define `target`"));
    } else {
        if !path_is_absolute(cache.target.as_str()) {
            let head = concat3("cache `", cache.name.as_str(), "` target must be absolute: `");
            push_string(&mut out, concat3(head.as_str(), cache.target.as_str(), "`"));
        }
        let mut dup = false;
        let mut j: usize = 0;
        while j < i
            invariant
                i < caches@.len(),
                j <= i,
                dup == exists|k: int|
                    0 <= k < j && !is_blank(#[trigger] caches@[k].target@) && caches@[k].target@
                        == caches@[i as int].target@,
            decreases i - j,
        {
            if !str_is_blank(caches[j].target.as_str()) && crate::text::eq_str(
                caches[j].target.as_str(),
                caches[i].target.as_str(),
            ) {
                dup = true;
            }
            j = j + 1;
        }
        if dup {
            push_string(&mut out, concat3("duplicate cache target `", cache.target.as_str(), "`"));
        }
    }
    let mut dup_name = false;
    let mut j: usize = 0;
    while j < i
        invariant
            i < caches@.len(),
            j <= i,
            dup_name == exists|k: int| 0 <= k < j && #[trigger] caches@[k].name@ == caches@[i as int].name@,
        decreases i - j,
    {
        if crate::text::eq_str(caches[j].name.as_str(), caches[i].name.as_str()) {
            dup_name = true;
        }
        j = j + 1;
    }
    if dup_name {
        push_string(&mut out, concat3("duplicate cache name `", cache.name.as_str(), "`"));
    }
    assert(views(out@) =~= cache_errors(caches@, i as int));
    out
}

fn check_caches(caches: &Vec<CacheConfig>) -> (r: Vec<String>)
    ensures
        views(r@) == caches_errors_upto(caches@, caches@.len() as int),
{
    let mut out = none();
    let mut i: usize = 0;
    while i < caches.len()
        invariant
            i <= caches@.len(),
            views(out@) == caches_errors_upto(caches@, i as int),
        decreases caches@.len() - i,
    {
        let item = check_cache(caches, i);
        add_all(&mut out, item);
        i = i + 1;
    }
    out
}

/// Whether `path` equals `home` joined with `suffix`.
fn home_join_eq_exec(home: Option<&str>, suffix: &str, path: &str) -> (r: bool)
    ensures
        r == home_join_eq(opt_view(home), suffix@, path@),
{
    match home {
        Some(h) => {
            let joined = path_join_str(h, suffix);
            path_eq_str(path, joined.as_str())
        },
        None => false,
    }
}

/// The characters of an optional string slice.
pub open spec fn opt_view(s: Option<&str>) -> Option<Seq<char>> {
    match s {
        Some(x) => Some(x@),
        None => None,
    }
}

/// `path` is a full home-directory root (the home directory, `/home`, `/root`, `/Users`).
fn home_root(path: &str, home: Option<&str>) -> (r: bool)
    ensures
        r == is_home_root(path@, opt_view(home)),
{
    let h = match home {
        Some(h) => path_eq_str(path, h),
        None => false,
    };
    h || path_eq_str(path, "/home") || path_eq_str(path, "/root") || path_eq_str(path, "/Users")
}

/// `path` is a container-engine socket or a credential path below the home directory.
fn sensitive_host_path(path: &str, home: Option<&str>) -> (r: bool)
    ensures
        r == is_sensitive_host_path(path@, opt_view(home)),
{
    let exact = [
        "/var/run/docker.sock",
        "/run/docker.sock",
        "/var/run/podman/podman.sock",
        "/run/podman/podman.sock",
    ];
    let below_home = [
        ".ssh",
        ".aws",
        ".kube",
        ".config/gcloud",
        ".gnupg",
        ".docker",
        ".git-credentials",
        ".npmrc",
        ".pypirc",
        ".netrc",
        ".docker/config.json",
    ];
    assert(crate::text::str_views(exact@) =~= sensitive_exact_paths());
    assert(crate::text::str_views(below_home@) =~= sensitive_home_entries());
    let mut i: usize = 0;
    while i < 4
        invariant
            i <= 4,
            crate::text::str_views(exact@) == sensitive_exact_paths(),
            forall|j: int| 0 <= j < i ==> !path_eq(path@, #[trigger] sensitive_exact_paths()[j]),
        decreases 4 - i,
    {
        assert(crate::text::str_views(exact@)[i as int] == exact[i as int]@);
        if path_eq_str(path, exact[i]) {
            return true;
        }
        i = i + 1;
    }
    let mut k: usize = 0;
    while k < 11
        invariant
            k <= 11,
            crate::text::str_views(below_home@) == sensitive_home_entries(),
            forall|j: int| 0 <= j < 4 ==> !path_eq(path@, #[trigger] sensitive_exact_paths()[j]),
            forall|j: int| 0 <= j < k ==> !home_join_eq(opt_view(home), #[trigger] sensitive_home_entries()[j], path@),
        decreases 11 - k,
    {
        assert(crate::text::str_views(below_home@)[k as int] == below_home[k as int]@);
        if home_join_eq_exec(home, below_home[k], path) {
            return true;
        }
        k = k + 1;
    }
    false
}

/// Why mounting `source` is unsafe, if it is.
pub fn validate_mount_source_safety(source: &str, home: Option<&str>) -> (r: Option<String>)
    ensures
        r is Some == mount_source_safety(source@, opt_view(home)) is Some,
        r matches Some(m) ==> m@ == mount_source_safety(source@, opt_view(home))->0,
{
    if crate::text::eq_str(source, "~") || str_starts_with(source, "~/") {
        return Some(concat3("must not mount home-directory paths implicitly: `", source, "`"));
    }
    if !path_is_absolute(source) {
        return None;
    }
    if home_root(source, home) {
        return Some(concat3("must not mount full home-directory roots: `", source, "`"));
    }
    if sensitive_host_path(source, home) {
        return Some(concat3("must not mount sensitive host credential or socket paths: `", source, "`"));
    }
    None
}

fn check_mount(mounts: &Vec<MountConfig>, i: usize, home: Option<&str>) -> (r: Vec<String>)
    requires
        i < mounts@.len(),
    ensures
        views(r@) == mount_errors(mounts@, i as int, opt_view(home)),
{
    let m = &mounts[i];
    let count = mounts.len();
    assert(i < count);
    let number = format_decimal(i as u64 + 1);
    let label = concat2("mount #", number.as_str());
    let mut out = none();
    match &m.target {
        None => push_string(&mut out, concat2(label.as_str(), " must define `target`")),
        Some(t) => {
            if t.as_str().is_empty() {
                push_string(&mut out, concat2(label.as_str(), " must define `target`"));
            } else {
                if !path_is_absolute(t.as_str()) {
                    let head = concat2(label.as_str(), " target must be absolute: `");
                    push_string(&mut out, concat3(head.as_str(), t.as_str(), "`"));
                }
                let mut dup = false;
                let mut j: usize = 0;
                while j < i
                    invariant
                        i < mounts@.len(),
                        j <= i,
                        mounts@[i as int].target matches Some(tt) && tt@ == t@,
                        dup == exists|k: int|
                            0 <= k < j && mount_target(#[trigger] mounts@[k]).len() > 0 && mount_target(
                                mounts@[k],
                            ) == mount_target(mounts@[i as int]),
                    decreases i - j,
                {
                    if let Some(other) = &mounts[j].target {
                        if !other.as_str().is_empty() && crate::text::eq_str(other.as_str(), t.as_str()) {
                            dup = true;
                        }
                    }
                    j = j + 1;
                }
                if dup {
                    let head = concat2(label.as_str(), " reuses mount target `");
                    push_string(&mut out, concat3(head.as_str(), t.as_str(), "`"));
                }
            }
        },
    }
    if m.mount_type == MountType::Bind && m.source.is_none() {
        push_string(&mut out, concat2(label.as_str(), " with `type: bind` must define `source`"));
    }
    if m.mount_type == MountType::Tmpfs && m.source.is_some() {
        push_string(&mut out, concat2(label.as_str(), " with `type: tmpfs` must not define `source`"));
    }
    if let Some(source) = &m.source {
        if let Some(why) = validate_mount_source_safety(source.as_str(), home) {
            push_string(&mut out, concat3(label.as_str(), " ", why.as_str()));
        }
    }
    assert(views(out@) =~= mount_errors(mounts@, i as int, opt_view(home)));
    out
}

fn check_mounts(mounts: &Vec<MountConfig>, home: Option<&str>) -> (r: Vec<String>)
    ensures
        views(r@) == mounts_errors_upto(mounts@, mounts@.len() as int, opt_view(home)),
{
    let mut out = none();
    let mut i: usize = 0;
    while i < mounts.len()
        invariant
            i <= mounts@.len(),
            views(out@) == mounts_errors_upto(mounts@, i as int, opt_view(home)),
        decreases mounts@.len() - i,
    {
        let item = check_mount(mounts, i, home);
        add_all(&mut out, item);
        i = i + 1;
    }
    out
}

fn check_secret(
    secrets: &Vec<SecretConfig>,
    i: usize,
    profiles: &indexmap::IndexMap<String, ProfileConfig>,
) -> (r: Vec<String>)
    requires
        i < secrets@.len(),
    ensures
        views(r@) == secret_errors(secrets@, i as int, profile_entries(*profiles)),
{
    let secret = &secrets[i];
    let mut out = none();
    if str_is_blank(secret.name.as_str()) {
        push_string(&mut out, owned("secret names must not be empty"));
    }
    if str_is_blank(secret.source.as_str()) || str_is_blank(secret.target.as_str()) {
        push_string(&mut out, concat3("secret `", secret.name.as_str(), "` must define non-empty `source` and `target`"));
    }
    let mut dup = false;
    let mut j: usize = 0;
    while j < i
        invariant
            i < secrets@.len(),
            j <= i,
            dup == exists|k: int| 0 <= k < j && #[trigger] secrets@[k].name@ == secrets@[i as int].name@,
        decreases i - j,
    {
        if crate::text::eq_str(secrets[j].name.as_str(), secrets[i].name.as_str()) {
            dup = true;
        }
        j = j + 1;
    }
    if dup {
        push_string(&mut out, concat3("duplicate secret name `", secret.name.as_str(), "`"));
    }
    if !str_is_blank(secret.target.as_str()) && !path_is_absolute(secret.target.as_str()) {
        let head = concat3("secret `", secret.name.as_str(), "` target must be absolute: `");
        push_string(&mut out, concat3(head.as_str(), secret.target.as_str(), "`"));
    }
    let ghost before = views(out@);
    let mut k: usize = 0;
    while k < secret.when_profiles.len()
        invariant
            k <= secret.when_profiles@.len(),
            views(out@) == before + when_profiles_errors_upto(*secret, profile_entries(*profiles), k as int),
        decreases secret.when_profiles@.len() - k,
    {
        let name = &secret.when_profiles[k];
        if profiles_index_of(profiles, name.as_str()).is_none() {
            let head = concat3("secret `", secret.name.as_str(), "` references unknown profile `");
            push_string(&mut out, concat3(head.as_str(), name.as_str(), "`"));
        } else {
            assert(has_key(profile_entries(*profiles), name@));
        }
        assert(views(out@) =~= before + when_profiles_errors_upto(*secret, profile_entries(*profiles), k + 1));
        k = k + 1;
    }
    assert(views(out@) =~= secret_errors(secrets@, i as int, profile_entries(*profiles)));
    out
}

fn check_secrets(c: &Config) -> (r: Vec<String>)
    ensures
        views(r@) == secrets_errors_upto(c.secrets@, profile_entries(c.profiles), c.secrets@.len() as int),
{
    let mut out = none();
    let mut i: usize = 0;
    while i < c.secrets.len()
        invariant
            i <= c.secrets@.len(),
            views(out@) == secrets_errors_upto(c.secrets@, profile_entries(c.profiles), i as int),
        decreases c.secrets@.len() - i,
    {
        let item = check_secret(&c.secrets, i, &c.profiles);
        add_all(&mut out, item);
        i = i + 1;
    }
    out
}

fn check_profile(name: &String, p: &ProfileConfig, global_image: &Option<ImageConfig>) -> (r: Vec<String>)
    ensures
        views(r@) == profile_errors(name@, *p, *global_image),
{
    let mut out = match &p.image {
        Some(img) => validate_image(img),
        None => none(),
    };
    if p.mode == ExecutionMode::Host && p.ports.len() > 0 {
        push_string(&mut out, concat3("profile `", name.as_str(), "` cannot expose ports in `host` mode"));
    }
    if let Some(CapabilitiesSpec::Keyword(keyword)) = &p.capabilities {
        if !crate::text::eq_str(keyword.as_str(), "drop-all") {
            let head = concat3("profile `", name.as_str(), "` has unknown capabilities keyword `");
            push_string(
                &mut out,
                concat3(
                    head.as_str(),
                    keyword.as_str(),
                    "`; use `drop-all`, a list `[CAP_NAME, ...]`, or a structured form `{ drop: [...], add: [...] }`",
                ),
            );
        }
    }
    let ghost before = views(out@);
    let mut i: usize = 0;
    while i < p.network_allow.len()
        invariant
            i <= p.network_allow@.len(),
            views(out@) == before + network_allow_errors_upto(name@, p.network_allow@, i as int),
        decreases p.network_allow@.len() - i,
    {
        if str_is_blank(p.network_allow[i].as_str()) {
            push_string(&mut out, concat3("profile `", name.as_str(), "` has an empty entry in `network_allow`"));
        }
        assert(views(out@) =~= before + network_allow_errors_upto(name@, p.network_allow@, i + 1));
        i = i + 1;
    }
    let network_off = match &p.network {
        Some(n) => crate::text::eq_str(n.as_str(), "off"),
        None => false,
    };
    if p.network_allow.len() > 0 && network_off {
        push_string(
            &mut out,
            concat3(
                "profile `",
                name.as_str(),
                "` sets `network_allow` but `network: off` — allow-listing has no effect when network is disabled",
            ),
        );
    }
    if p.require_pinned_image == Some(true) {
        if !opt_is_digest(&p.image) && !opt_is_digest(global_image) {
            push_string(
                &mut out,
                concat3(
                    "profile `",
                    name.as_str(),
                    "` sets `require_pinned_image: true` but no image digest is configured (set `image.digest` globally or in the profile's image override)",
                ),
            );
        }
    }
    assert(views(out@) =~= profile_errors(name@, *p, *global_image));
    out
}

fn check_profiles(c: &Config) -> (r: Vec<String>)
    ensures
        views(r@) == profiles_errors_upto(
            profile_entries(c.profiles),
            c.image,
            profile_entries(c.profiles).len() as int,
        ),
{
    let mut out = none();
    let n = profiles_len(&c.profiles);
    let mut i: usize = 0;
    while i < n
        invariant
            n == profile_entries(c.profiles).len(),
            i <= n,
            views(out@) == profiles_errors_upto(profile_entries(c.profiles), c.image, i as int),
        decreases n - i,
    {
        let (name, p) = profiles_at(&c.profiles, i);
        let item = check_profile(name, p, &c.image);
        add_all(&mut out, item);
        i = i + 1;
    }
    out
}

fn check_dispatch(c: &Config) -> (r: Vec<String>)
    ensures
        views(r@) == dispatch_errors_upto(
            dispatch_entries(c.dispatch),
            profile_entries(c.profiles),
            dispatch_entries(c.dispatch).len() as int,
        ),
{
    let mut out = none();
    let n = dispatch_len(&c.dispatch);
    let mut i: usize = 0;
    while i < n
        invariant
            n == dispatch_entries(c.dispatch).len(),
            i <= n,
            views(out@) == dispatch_errors_upto(dispatch_entries(c.dispatch), profile_entries(c.profiles), i as int),
        decreases n - i,
    {
        let ghost before = views(out@);
        let (name, rule) = dispatch_at(&c.dispatch, i);
        if rule.patterns.len() == 0 {
            push_string(&mut out, concat3("dispatch rule `", name.as_str(), "` must define at least one pattern"));
        }
        if profiles_index_of(&c.profiles, rule.profile.as_str()).is_none() {
            let head = concat3("dispatch rule `", name.as_str(), "` references unknown profile `");
            push_string(&mut out, concat3(head.as_str(), rule.profile.as_str(), "`"));
        } else {
            assert(has_key(profile_entries(c.profiles), rule.profile@));
        }
        assert(views(out@) =~= dispatch_errors_upto(
            dispatch_entries(c.dispatch),
            profile_entries(c.profiles),
            i + 1,
        ));
        i = i + 1;
    }
    out
}

/// All rule violations of a configuration, in the order they are reported.
pub fn config_error_list(config: &Config, home: Option<&str>) -> (r: Vec<String>)
    ensures
        views(r@) == config_errors(*config, opt_view(home)),
{
    let mut errors = if config.version != 1 {
        let number = format_decimal(config.version as u64);
        one(concat3("unsupported config version `", number.as_str(), "`; expected `1`"))
    } else {
        none()
    };
    add_all(&mut errors, check_runtime(config));
    add_all(&mut errors, check_workspace(config));
    match &config.image {
        Some(image) => add_all(&mut errors, validate_image(image)),
        None => add_all(&mut errors, one(owned("`image` section is required"))),
    }
    add_all(&mut errors, check_environment(config));
    if profiles_len(&config.profiles) == 0 {
        push_string(&mut errors, owned("at least one profile must be defined"));
    }
    add_all(&mut errors, check_caches(&config.caches));
    add_all(&mut errors, check_mounts(&config.mounts, home));
    add_all(&mut errors, check_secrets(config));
    add_all(&mut errors, check_profiles(config));
    add_all(&mut errors, check_dispatch(config));
    assert(views(errors@) =~= config_errors(*config, opt_view(home)));
    errors
}

/// Validates a configuration. Every violated rule contributes one line to the
/// error message, in the order of `config_errors`; the configuration is
/// accepted exactly when no rule is violated. `home` is the user's home
/// directory, against which mount sources are judged.
pub fn validate_config(config: &Config, home: Option<&str>) -> (r: Result<(), SboxError>)
    ensures
        r is Ok <==> config_is_valid(*config, opt_view(home)),
        r matches Err(e) ==> e matches SboxError::ConfigValidation { message }
            && message@ == join(config_errors(*config, opt_view(home)), "\n"@),
{
    let errors = config_error_list(config, home);
    if errors.len() == 0 {
        Ok(())
    } else {
        Err(SboxError::ConfigValidation { message: join_strings(errors.as_slice(), "\n") })
    }
}

// ---------------------------------------------------------------------------
// Warnings
// ---------------------------------------------------------------------------

/// Fragments that mark a path as holding credentials.
pub open spec fn credential_markers() -> Seq<Seq<char>> {
    seq![
        "npmrc"@, "netrc"@, "pypirc"@, "token"@, "secret"@, "credential"@, "id_rsa"@, "id_ed25519"@,
        "id_ecdsa"@, "id_dsa"@, ".aws/"@, ".ssh/"@, "auth.json"@,
    ]
}

/// Whether the already-lowercased path `lower` holds a credential marker.
pub fn has_credential_marker(lower: &str) -> (r: bool)
    ensures
        r == crate::text::contains_any(lower@, credential_markers()),
{
    let markers = [
        "npmrc", "netrc", "pypirc", "token", "secret", "credential", "id_rsa", "id_ed25519", "id_ecdsa",
        "id_dsa", ".aws/", ".ssh/", "auth.json",
    ];
    assert(crate::text::str_views(markers@) =~= credential_markers());
    crate::text::str_contains_any(lower, &markers)
}

/// Whether `path` looks like it holds credentials: a credential marker occurs
/// in its lowercase form.
pub fn looks_like_credential(path: &str) -> (r: bool)
    ensures
        r == crate::text::contains_any(crate::text::lowercase(path@), credential_markers()),
{
    let lower = crate::text::to_lowercase(path);
    has_credential_marker(lower.as_str())
}

pub open spec fn msg_latest(reference: Seq<char>) -> Seq<char> {
    "image `"@ + reference
        + "` uses `:latest` — consider pinning to a specific version or digest for reproducibility and supply-chain safety"@
}

/// The `:latest` warning for an image block, if its reference ends with `:latest`.
pub open spec fn latest_warnings(image: Option<ImageConfig>) -> Seq<Seq<char>> {
    match image {
        Some(img) => match img.reference {
            Some(r) => if ends_with(r@, ":latest"@) {
                seq![msg_latest(r@)]
            } else {
                Seq::empty()
            },
            None => Seq::empty(),
        },
        None => Seq::empty(),
    }
}

/// `:latest` warnings of the first `n` profiles.
pub open spec fn profile_latest_warnings_upto(profiles: Seq<(Seq<char>, ProfileConfig)>, n: int) -> Seq<Seq<char>>
    decreases n,
{
    if n <= 0 {
        Seq::empty()
    } else {
        profile_latest_warnings_upto(profiles, n - 1) + latest_warnings(profiles[n - 1].1.image)
    }
}

/// An install profile with unrestricted network.
pub open spec fn is_open_install_profile(p: ProfileConfig) -> bool {
    p.role == Some(ProfileRole::Install) && (p.network matches Some(n) && n@ == "on"@) && p.network_allow@.len() == 0
}

/// Open-network warnings of the first `n` profiles.
pub open spec fn open_install_warnings_upto(profiles: Seq<(Seq<char>, ProfileConfig)>, n: int) -> Seq<Seq<char>>
    decreases n,
{
    if n <= 0 {
        Seq::empty()
    } else {
        open_install_warnings_upto(profiles, n - 1) + if is_open_install_profile(profiles[n - 1].1) {
            seq![
                "install profile `"@ + profiles[n - 1].0
                    + "` uses `network: on` without `network_allow` — postinstall scripts have unrestricted internet access. Add `network_allow` to restrict outbound connections to registry hostnames only."@,
            ]
        } else {
            Seq::empty()
        }
    }
}

/// A secret that looks like a credential and is mounted into every profile.
pub open spec fn is_unrestricted_credential(s: SecretConfig) -> bool {
    crate::text::contains_any(crate::text::lowercase(s.source@), credential_markers()) && s.deny_roles@.len() == 0
        && s.when_profiles@.len() == 0
}

/// Unrestricted-credential warnings of the first `n` secrets.
pub open spec fn credential_warnings_upto(secrets: Seq<SecretConfig>, n: int) -> Seq<Seq<char>>
    decreases n,
{
    if n <= 0 {
        Seq::empty()
    } else {
        credential_warnings_upto(secrets, n - 1) + if is_unrestricted_credential(secrets[n - 1]) {
            seq![
                "secret `"@ + secrets[n - 1].name@ + "` (source: "@ + secrets[n - 1].source@
                    + ") is not restricted from install profiles — postinstall scripts can read it. Add `deny_roles: [install]` to block it from install-phase containers."@,
            ]
        } else {
            Seq::empty()
        }
    }
}

/// Some profile has the install role.
pub open spec fn has_install_profile(profiles: Seq<(Seq<char>, ProfileConfig)>) -> bool {
    exists|i: int| 0 <= i < profiles.len() && #[trigger] profiles[i].1.role == Some(ProfileRole::Install)
}

/// The non-fatal warnings of a configuration, in order.
pub open spec fn config_warnings(c: Config) -> Seq<Seq<char>> {
    let profiles = profile_entries(c.profiles);
    latest_warnings(c.image) + profile_latest_warnings_upto(profiles, profiles.len() as int)
        + open_install_warnings_upto(profiles, profiles.len() as int) + if has_install_profile(profiles) {
        credential_warnings_upto(c.secrets@, c.secrets@.len() as int)
    } else {
        Seq::empty()
    }
}

fn image_latest_warning(image: &Option<ImageConfig>) -> (r: Vec<String>)
    ensures
        views(r@) == latest_warnings(*image),
{
    if let Some(img) = image {
        if let Some(reference) = &img.reference {
            if str_ends_with(reference.as_str(), ":latest") {
                return one(concat3(
                    "image `",
                    reference.as_str(),
                    "` uses `:latest` — consider pinning to a specific version or digest for reproducibility and supply-chain safety",
                ));
            }
        }
    }
    none()
}

/// Collects the non-fatal warnings of a configuration: `:latest` image
/// references, install profiles with unrestricted network, and credential-like
/// secrets that install profiles can read.
pub fn collect_config_warnings(config: &Config) -> (r: Vec<String>)
    ensures
        views(r@) == config_warnings(*config),
{
    let mut warnings = image_latest_warning(&config.image);
    let ghost w0 = views(warnings@);
    let n = profiles_len(&config.profiles);
    let mut i: usize = 0;
    while i < n
        invariant
            n == profile_entries(config.profiles).len(),
            i <= n,
            views(warnings@) == w0 + profile_latest_warnings_upto(profile_entries(config.profiles), i as int),
        decreases n - i,
    {
        let (_, p) = profiles_at(&config.profiles, i);
        add_all(&mut warnings, image_latest_warning(&p.image));
        assert(views(warnings@) =~= w0 + profile_latest_warnings_upto(profile_entries(config.profiles), i + 1));
        i = i + 1;
    }
    let ghost w1 = views(warnings@);
    let mut has_install = false;
    let mut i: usize = 0;
    while i < n
        invariant
            n == profile_entries(config.profiles).len(),
            i <= n,
            views(warnings@) == w1 + open_install_warnings_upto(profile_entries(config.profiles), i as int),
            has_install == exists|j: int|
                0 <= j < i && #[trigger] profile_entries(config.profiles)[j].1.role == Some(ProfileRole::Install),
        decreases n - i,
    {
        let (name, p) = profiles_at(&config.profiles, i);
        let network_on = match &p.network {
            Some(net) => crate::text::eq_str(net.as_str(), "on"),
            None => false,
        };
        if p.role == Some(ProfileRole::Install) {
            has_install = true;
        }
        if p.role == Some(ProfileRole::Install) && network_on && p.network_allow.len() == 0 {
            push_string(
                &mut warnings,
                concat3(
                    "install profile `",
                    name.as_str(),
                    "` uses `network: on` without `network_allow` — postinstall scripts have unrestricted internet access. Add `network_allow` to restrict outbound connections to registry hostnames only.",
                ),
            );
        }
        assert(views(warnings@) =~= w1 + open_install_warnings_upto(profile_entries(config.profiles), i + 1));
        i = i + 1;
    }
    let ghost w2 = views(warnings@);
    if has_install {
        let mut k: usize = 0;
        while k < config.secrets.len()
            invariant
                k <= config.secrets@.len(),
                views(warnings@) == w2 + credential_warnings_upto(config.secrets@, k as int),
            decreases config.secrets@.len() - k,
        {
            let secret = &config.secrets[k];
            if looks_like_credential(secret.source.as_str()) && secret.deny_roles.len() == 0
                && secret.when_profiles.len() == 0 {
                let head = concat3("secret `", secret.name.as_str(), "` (source: ");
                push_string(
                    &mut warnings,
                    concat3(
                        head.as_str(),
                        secret.source.as_str(),
                        ") is not restricted from install profiles — postinstall scripts can read it. Add `deny_roles: [install]` to block it from install-phase containers.",
                    ),
                );
            }
            assert(views(warnings@) =~= w2 + credential_warnings_upto(config.secrets@, k + 1));
            k = k + 1;
        }
    }
    assert(views(warnings@) =~= config_warnings(*config));
    warnings
}

} // verus!
