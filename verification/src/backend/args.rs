//! Pieces of container-engine command lines shared by the backends: flags,
//! mounts, caches, secrets, host paths, and the caller's identity.

use vstd::prelude::*;

use crate::error::SboxError;
use crate::hash::{stable_hash, stable_hash_of};
use crate::paths::{components, is_absolute, path_is_absolute, path_join, path_join_str};
use crate::resolve::{opt_chars, ExecutionPlan, ResolvedCache, ResolvedEnvVar, ResolvedMount, ResolvedSecret};
use crate::text::{
    concat2, concat3, decimal, eq_str, format_decimal, has_char, owned, push_string, sanitize,
    sanitize_name, seq_has, split_char, split_chars_on, split_words, starts_with, str_chars,
    str_has_char, str_skip, str_starts_with, string_from_chars, strings_contain, views, words,
};

verus! {

/// What a backend learns from the host when it builds a command line: the
/// home directory, the text of `/proc/self/status` (empty when unreadable),
/// and which host paths exist.
pub struct HostContext {
    pub home: Option<String>,
    pub proc_status: String,
    pub existing_paths: Vec<String>,
}

/// `true` or `false`, as the engines spell booleans.
pub open spec fn bool_word(b: bool) -> Seq<char> {
    if b {
        "true"@
    } else {
        "false"@
    }
}

/// `true` or `false`.
pub fn bool_string(value: bool) -> (r: &'static str)
    ensures
        r@ == bool_word(value),
{
    if value {
        "true"
    } else {
        "false"
    }
}

/// `flag value` for each value, in order.
pub open spec fn flag_pairs(flag: Seq<char>, vals: Seq<Seq<char>>) -> Seq<Seq<char>>
    decreases vals.len(),
{
    if vals.len() == 0 {
        Seq::empty()
    } else {
        flag_pairs(flag, vals.drop_last()) + seq![flag, vals.last()]
    }
}

/// Appends `flag value` for each value.
pub fn push_flag_pairs(args: &mut Vec<String>, flag: &str, vals: &Vec<String>)
    ensures
        views(final(args)@) == views(old(args)@) + flag_pairs(flag@, views(vals@)),
{
    let ghost start = views(args@);
    let mut i: usize = 0;
    assert(views(vals@).take(0) =~= Seq::<Seq<char>>::empty());
    while i < vals.len()
        invariant
            i <= vals@.len(),
            views(args@) == start + flag_pairs(flag@, views(vals@).take(i as int)),
        decreases vals@.len() - i,
    {
        assert(views(vals@).take(i + 1).drop_last() =~= views(vals@).take(i as int));
        assert(views(vals@).take(i + 1).last() == vals@[i as int]@);
        push_string(args, owned(flag));
        push_string(args, vals[i].clone());
        assert(views(args@) =~= start + flag_pairs(flag@, views(vals@).take(i + 1)));
        i = i + 1;
    }
    assert(views(vals@).take(vals@.len() as int) =~= views(vals@));
}

/// Appends two words.
pub fn push2(args: &mut Vec<String>, a: &str, b: &str)
    ensures
        views(final(args)@) == views(old(args)@) + seq![a@, b@],
{
    let ghost start = views(args@);
    push_string(args, owned(a));
    push_string(args, owned(b));
    assert(views(args@) =~= start + seq![a@, b@]);
}

/// The `--network` words of a network setting: `none` for `off`, nothing for
/// `on`, the setting itself otherwise.
pub open spec fn network_args(network: Seq<char>) -> Seq<Seq<char>> {
    if network == "off"@ {
        seq!["--network"@, "none"@]
    } else if network == "on"@ {
        Seq::empty()
    } else {
        seq!["--network"@, network]
    }
}

/// Appends the `--network` words of a network setting.
pub fn push_network_args(args: &mut Vec<String>, network: &str)
    ensures
        views(final(args)@) == views(old(args)@) + network_args(network@),
{
    if eq_str(network, "off") {
        push2(args, "--network", "none");
    } else if eq_str(network, "on") {
        assert(views(args@) =~= views(args@) + Seq::<Seq<char>>::empty());
    } else {
        push2(args, "--network", network);
    }
}

/// The words of the hardening flags: a read-only root file system, no new
/// privileges, then the dropped and added capabilities.
pub open spec fn security_args(read_only_rootfs: bool, no_new_privileges: bool, cap_drop: Seq<Seq<char>>, cap_add: Seq<Seq<char>>) -> Seq<Seq<char>> {
    (if read_only_rootfs {
        seq!["--read-only"@]
    } else {
        Seq::empty()
    }) + (if no_new_privileges {
        seq!["--security-opt"@, "no-new-privileges"@]
    } else {
        Seq::empty()
    }) + flag_pairs("--cap-drop"@, cap_drop) + flag_pairs("--cap-add"@, cap_add)
}

/// Appends the hardening flags.
pub fn push_security_args(args: &mut Vec<String>, read_only_rootfs: bool, no_new_privileges: bool, cap_drop: &Vec<String>, cap_add: &Vec<String>)
    ensures
        views(final(args)@) == views(old(args)@) + security_args(
            read_only_rootfs,
            no_new_privileges,
            views(cap_drop@),
            views(cap_add@),
        ),
{
    let ghost start = views(args@);
    if read_only_rootfs {
        push_string(args, owned("--read-only"));
    }
    let ghost a1 = views(args@);
    if no_new_privileges {
        push2(args, "--security-opt", "no-new-privileges");
    }
    let ghost a2 = views(args@);
    push_flag_pairs(args, "--cap-drop", cap_drop);
    push_flag_pairs(args, "--cap-add", cap_add);
    proof {
        reveal_strlit("--read-only");
        assert(a1 =~= start + if read_only_rootfs {
            seq!["--read-only"@]
        } else {
            Seq::<Seq<char>>::empty()
        });
        assert(a2 =~= a1 + if no_new_privileges {
            seq!["--security-opt"@, "no-new-privileges"@]
        } else {
            Seq::<Seq<char>>::empty()
        });
    }
    assert(views(args@) =~= start + security_args(read_only_rootfs, no_new_privileges, views(cap_drop@), views(cap_add@)));
}

/// `name=value` for each variable, after `--env`.
pub open spec fn env_args(vars: Seq<ResolvedEnvVar>) -> Seq<Seq<char>>
    decreases vars.len(),
{
    if vars.len() == 0 {
        Seq::empty()
    } else {
        env_args(vars.drop_last()) + seq!["--env"@, vars.last().name@ + "="@ + vars.last().value@]
    }
}

/// Appends `--env name=value` for each variable.
pub fn push_env_args(args: &mut Vec<String>, vars: &Vec<ResolvedEnvVar>)
    ensures
        views(final(args)@) == views(old(args)@) + env_args(vars@),
{
    let ghost start = views(args@);
    let mut i: usize = 0;
    assert(vars@.take(0) =~= Seq::<ResolvedEnvVar>::empty());
    while i < vars.len()
        invariant
            i <= vars@.len(),
            views(args@) == start + env_args(vars@.take(i as int)),
        decreases vars@.len() - i,
    {
        assert(vars@.take(i + 1).drop_last() =~= vars@.take(i as int));
        assert(vars@.take(i + 1).last() == vars@[i as int]);
        let v = &vars[i];
        let kv = concat3(v.name.as_str(), "=", v.value.as_str());
        push2(args, "--env", kv.as_str());
        assert(views(args@) =~= start + env_args(vars@.take(i + 1)));
        i = i + 1;
    }
    assert(vars@.take(vars@.len() as int) =~= vars@);
}

// ---------------------------------------------------------------------------
// Mounts
// ---------------------------------------------------------------------------

/// A mount kind the engines know: `bind`, `tmpfs` or `mask`.
pub open spec fn known_mount_kind(kind: Seq<char>) -> bool {
    kind == "bind"@ || kind == "tmpfs"@ || kind == "mask"@
}

/// Every bind mount names its source.
pub open spec fn binds_have_sources(ms: Seq<ResolvedMount>) -> bool {
    forall|i: int| 0 <= i < ms.len() && (#[trigger] ms[i]).kind@ == "bind"@ ==> ms[i].source is Some
}

/// The words of one mount: a bind of its source, a tmpfs (`:ro` when
/// read-only), or a read-only bind of `/dev/null` over a masked file.
pub open spec fn mount_args(m: ResolvedMount) -> Seq<Seq<char>> {
    if m.kind@ == "bind"@ {
        seq![
            "--mount"@,
            "type=bind,src="@ + m.source.unwrap()@ + ",target="@ + m.target@ + ",readonly="@ + bool_word(m.read_only),
        ]
    } else if m.kind@ == "tmpfs"@ {
        seq!["--tmpfs"@, if m.read_only { m.target@ + ":ro"@ } else { m.target@ }]
    } else {
        seq!["--mount"@, "type=bind,src=/dev/null,target="@ + m.target@ + ",readonly=true"@]
    }
}

/// The words of all mounts, in order.
pub open spec fn mounts_args(ms: Seq<ResolvedMount>) -> Seq<Seq<char>>
    decreases ms.len(),
{
    if ms.len() == 0 {
        Seq::empty()
    } else {
        mounts_args(ms.drop_last()) + mount_args(ms.last())
    }
}

/// The kind of the first mount no engine knows, if any.
pub open spec fn first_unknown_mount(ms: Seq<ResolvedMount>) -> Option<Seq<char>>
    decreases ms.len(),
{
    if ms.len() == 0 {
        None
    } else if !known_mount_kind(ms[0].kind@) {
        Some(ms[0].kind@)
    } else {
        first_unknown_mount(ms.drop_first())
    }
}

/// Appends the words of one mount, or fails on a kind no engine knows.
pub fn append_mount_args(args: &mut Vec<String>, mount: &ResolvedMount) -> (r: Result<(), SboxError>)
    requires
        mount.kind@ == "bind"@ ==> mount.source is Some,
    ensures
        known_mount_kind(mount.kind@) ==> r is Ok && views(final(args)@) == views(old(args)@) + mount_args(*mount),
        !known_mount_kind(mount.kind@) ==> (r matches Err(SboxError::UnsupportedMountType { mount_type })
            && mount_type@ == mount.kind@),
{
    proof {
        reveal_strlit("bind");
        reveal_strlit("tmpfs");
        reveal_strlit("mask");
        reveal_strlit("type=bind,src=");
        reveal_strlit(",target=");
        reveal_strlit(",readonly=");
        reveal_strlit(":ro");
        reveal_strlit("type=bind,src=/dev/null,target=");
        reveal_strlit(",readonly=true");
    }
    if eq_str(mount.kind.as_str(), "bind") {
        let source = match &mount.source {
            Some(s) => s,
            None => {
                assert(false);
                return Ok(());
            },
        };
        let a = concat3("type=bind,src=", source.as_str(), ",target=");
        let b = concat3(a.as_str(), mount.target.as_str(), ",readonly=");
        let c = concat2(b.as_str(), bool_string(mount.read_only));
        push2(args, "--mount", c.as_str());
        Ok(())
    } else if eq_str(mount.kind.as_str(), "tmpfs") {
        let spec = if mount.read_only {
            concat2(mount.target.as_str(), ":ro")
        } else {
            mount.target.clone()
        };
        push2(args, "--tmpfs", spec.as_str());
        Ok(())
    } else if eq_str(mount.kind.as_str(), "mask") {
        let a = concat3("type=bind,src=/dev/null,target=", mount.target.as_str(), ",readonly=true");
        push2(args, "--mount", a.as_str());
        Ok(())
    } else {
        Err(SboxError::UnsupportedMountType { mount_type: mount.kind.clone() })
    }
}

/// Appends the words of all mounts, or fails on the first kind no engine knows.
pub fn push_mounts_args(args: &mut Vec<String>, mounts: &Vec<ResolvedMount>) -> (r: Result<(), SboxError>)
    requires
        binds_have_sources(mounts@),
    ensures
        match first_unknown_mount(mounts@) {
            Some(kind) => r matches Err(SboxError::UnsupportedMountType { mount_type }) && mount_type@ == kind,
            None => r is Ok && views(final(args)@) == views(old(args)@) + mounts_args(mounts@),
        },
{
    let ghost start = views(args@);
    let mut i: usize = 0;
    assert(mounts@.take(0) =~= Seq::<ResolvedMount>::empty());
    assert(mounts@.skip(0) =~= mounts@);
    while i < mounts.len()
        invariant
            i <= mounts@.len(),
            binds_have_sources(mounts@),
            views(args@) == start + mounts_args(mounts@.take(i as int)),
            first_unknown_mount(mounts@) == first_unknown_mount(mounts@.skip(i as int)),
        decreases mounts@.len() - i,
    {
        let m = &mounts[i];
        assert(mounts@.skip(i as int)[0] == *m);
        match append_mount_args(args, m) {
            Ok(()) => {},
            Err(e) => return Err(e),
        }
        assert(mounts@.take(i + 1).drop_last() =~= mounts@.take(i as int));
        assert(mounts@.take(i + 1).last() == *m);
        assert(mounts@.skip(i as int).drop_first() =~= mounts@.skip(i + 1));
        i = i + 1;
    }
    assert(mounts@.take(mounts@.len() as int) =~= mounts@);
    Ok(())
}

// ---------------------------------------------------------------------------
// Host paths, caches and secrets
// ---------------------------------------------------------------------------

/// The host path a cache or secret source names: `~` and `~/…` below the home
/// directory (none without one), an absolute path as it is, a path-like
/// relative one (`./`, `../`, or holding a `/`) below `base`, else none.
pub open spec fn host_path(input: Seq<char>, base: Seq<char>, home: Option<Seq<char>>) -> Option<Seq<char>> {
    if starts_with(input, "~/"@) || input == "~"@ {
        match home {
            None => None,
            Some(h) => {
                let rest = if starts_with(input, "~/"@) {
                    input.skip(2)
                } else {
                    Seq::empty()
                };
                Some(
                    if rest.len() > 0 {
                        path_join(h, rest)
                    } else {
                        h
                    },
                )
            },
        }
    } else if is_absolute(input) {
        Some(input)
    } else if starts_with(input, "./"@) || starts_with(input, "../"@) || has_char(input, '/') {
        Some(path_join(base, input))
    } else {
        None
    }
}

/// The host path a cache or secret source names, if it names one.
pub fn try_resolve_host_path(input: &str, base: &str, home: &Option<String>) -> (r: Option<String>)
    ensures
        match host_path(input@, base@, opt_chars(*home)) {
            Some(p) => r is Some && r.unwrap()@ == p,
            None => r is None,
        },
{
    proof {
        reveal_strlit("~/");
        reveal_strlit("~");
        reveal_strlit("./");
        reveal_strlit("../");
        reveal_strlit("");
    }
    if str_starts_with(input, "~/") || eq_str(input, "~") {
        let h = match home {
            Some(h) => h,
            None => return None,
        };
        let rest = if str_starts_with(input, "~/") {
            str_skip(input, 2)
        } else {
            let e = String::new();
            assert(e@ =~= Seq::<char>::empty());
            e
        };
        if eq_str(rest.as_str(), "") {
            assert(rest@.len() == 0);
            return Some(h.clone());
        }
        assert(rest@.len() > 0) by {
            if rest@.len() == 0 {
                assert(rest@ =~= ""@);
            }
        }
        return Some(path_join_str(h.as_str(), rest.as_str()));
    }
    if path_is_absolute(input) {
        return Some(owned(input));
    }
    if str_starts_with(input, "./") || str_starts_with(input, "../") || str_has_char(input, '/') {
        return Some(path_join_str(base, input));
    }
    None
}

/// The volume of a cache without a source, scoped to the workspace.
pub open spec fn scoped_cache(root: Seq<char>, name: Seq<char>) -> Seq<char> {
    "sbox-cache-"@ + stable_hash_of(root) + "-"@ + sanitize(name)
}

/// The volume name of a cache without a source.
pub fn scoped_cache_name(workspace_root: &str, cache_name: &str) -> (r: String)
    ensures
        r@ == scoped_cache(workspace_root@, cache_name@),
{
    let h = stable_hash(workspace_root);
    let s = sanitize_volume_name(cache_name);
    let a = concat3("sbox-cache-", h.as_str(), "-");
    concat2(a.as_str(), s.as_str())
}

/// A volume name with every character outside `[A-Za-z0-9_.-]` made `-`.
pub fn sanitize_volume_name(name: &str) -> (r: String)
    ensures
        r@ == sanitize(name@),
{
    sanitize_name(name)
}

/// The `--mount` value of a cache: a bind of the host path its source names
/// (relabelled privately under podman), a named volume otherwise, and a
/// workspace-scoped volume when it has no source.
pub open spec fn cache_mount(c: ResolvedCache, root: Seq<char>, home: Option<Seq<char>>, podman: bool) -> Seq<char> {
    match c.source {
        Some(s) => match host_path(s@, root, home) {
            Some(p) => "type=bind,src="@ + p + ",target="@ + c.target@ + (if podman {
                ",relabel=private,readonly="@
            } else {
                ",readonly="@
            }) + bool_word(c.read_only),
            None => "type=volume,src="@ + s@ + ",target="@ + c.target@ + ",readonly="@ + bool_word(c.read_only),
        },
        None => "type=volume,src="@ + scoped_cache(root, c.name@) + ",target="@ + c.target@ + ",readonly="@ + bool_word(
            c.read_only,
        ),
    }
}

/// `--mount` and its value for each cache.
pub open spec fn caches_args(cs: Seq<ResolvedCache>, root: Seq<char>, home: Option<Seq<char>>, podman: bool) -> Seq<Seq<char>>
    decreases cs.len(),
{
    if cs.len() == 0 {
        Seq::empty()
    } else {
        caches_args(cs.drop_last(), root, home, podman) + seq!["--mount"@, cache_mount(cs.last(), root, home, podman)]
    }
}

/// The home directory by its characters.
pub open spec fn home_view(ctx: HostContext) -> Option<Seq<char>> {
    opt_chars(ctx.home)
}

fn cache_mount_value(c: &ResolvedCache, root: &str, home: &Option<String>, podman: bool) -> (r: String)
    ensures
        r@ == cache_mount(*c, root@, opt_chars(*home), podman),
{
    proof {
        reveal_strlit("type=bind,src=");
        reveal_strlit("type=volume,src=");
        reveal_strlit(",target=");
        reveal_strlit(",readonly=");
        reveal_strlit(",relabel=private,readonly=");
    }
    let ro = bool_string(c.read_only);
    match &c.source {
        Some(s) => match try_resolve_host_path(s.as_str(), root, home) {
            Some(p) => {
                let a = concat3("type=bind,src=", p.as_str(), ",target=");
                let tail = if podman {
                    ",relabel=private,readonly="
                } else {
                    ",readonly="
                };
                let b = concat3(a.as_str(), c.target.as_str(), tail);
                concat2(b.as_str(), ro)
            },
            None => {
                let a = concat3("type=volume,src=", s.as_str(), ",target=");
                let b = concat3(a.as_str(), c.target.as_str(), ",readonly=");
                concat2(b.as_str(), ro)
            },
        },
        None => {
            let v = scoped_cache_name(root, c.name.as_str());
            let a = concat3("type=volume,src=", v.as_str(), ",target=");
            let b = concat3(a.as_str(), c.target.as_str(), ",readonly=");
            concat2(b.as_str(), ro)
        },
    }
}

/// Appends `--mount` and its value for each cache.
pub fn push_caches_args(args: &mut Vec<String>, caches: &Vec<ResolvedCache>, root: &str, home: &Option<String>, podman: bool)
    ensures
        views(final(args)@) == views(old(args)@) + caches_args(caches@, root@, opt_chars(*home), podman),
{
    let ghost hv = opt_chars(*home);
    let ghost start = views(args@);
    let mut i: usize = 0;
    assert(caches@.take(0) =~= Seq::<ResolvedCache>::empty());
    while i < caches.len()
        invariant
            i <= caches@.len(),
            hv == opt_chars(*home),
            views(args@) == start + caches_args(caches@.take(i as int), root@, hv, podman),
        decreases caches@.len() - i,
    {
        assert(caches@.take(i + 1).drop_last() =~= caches@.take(i as int));
        assert(caches@.take(i + 1).last() == caches@[i as int]);
        let value = cache_mount_value(&caches[i], root, home, podman);
        push2(args, "--mount", value.as_str());
        assert(views(args@) =~= start + caches_args(caches@.take(i + 1), root@, hv, podman));
        i = i + 1;
    }
    assert(caches@.take(caches@.len() as int) =~= caches@);
}

/// How a secret's source checks out: the existing host path it names, or why
/// it cannot be used.
pub enum SecretCheck {
    Found(Seq<char>),
    Unsupported,
    Missing(Seq<char>),
}

/// Checks a secret's source against the host.
pub open spec fn secret_check(s: ResolvedSecret, root: Seq<char>, home: Option<Seq<char>>, existing: Seq<Seq<char>>) -> SecretCheck {
    match host_path(s.source@, root, home) {
        None => SecretCheck::Unsupported,
        Some(p) => if seq_has(existing, p) {
            SecretCheck::Found(p)
        } else {
            SecretCheck::Missing(p)
        },
    }
}

/// The error a failed secret check reports.
pub open spec fn secret_error_matches(s: ResolvedSecret, check: SecretCheck, e: SboxError) -> bool {
    match check {
        SecretCheck::Unsupported => e matches SboxError::UnsupportedSecretSource { name, secret_source } && name@
            == s.name@ && secret_source@ == s.source@,
        SecretCheck::Missing(p) => e matches SboxError::HostPathNotFound { kind, name, path } && kind@
            == "secret source"@ && name@ == s.name@ && path@ == p,
        SecretCheck::Found(_) => false,
    }
}

/// The host path of a secret's source, which must be path-like and exist.
pub fn validate_secret_source(secret: &ResolvedSecret, workspace_root: &str, ctx: &HostContext) -> (r: Result<String, SboxError>)
    ensures
        match secret_check(*secret, workspace_root@, home_view(*ctx), views(ctx.existing_paths@)) {
            SecretCheck::Found(p) => r is Ok && r.unwrap()@ == p,
            c => r is Err && secret_error_matches(*secret, c, r->Err_0),
        },
{
    match try_resolve_host_path(secret.source.as_str(), workspace_root, &ctx.home) {
        None => Err(SboxError::UnsupportedSecretSource { name: secret.name.clone(), secret_source: secret.source.clone() }),
        Some(path) => {
            if strings_contain(ctx.existing_paths.as_slice(), path.as_str()) {
                Ok(path)
            } else {
                proof {
                    reveal_strlit("secret source");
                }
                Err(SboxError::HostPathNotFound { kind: owned("secret source"), name: secret.name.clone(), path })
            }
        },
    }
}

/// The first secret whose source does not check out, if any.
pub open spec fn first_bad_secret(ss: Seq<ResolvedSecret>, root: Seq<char>, home: Option<Seq<char>>, existing: Seq<Seq<char>>) -> Option<int>
    decreases ss.len(),
{
    if ss.len() == 0 {
        None
    } else if !(secret_check(ss[0], root, home, existing) is Found) {
        Some(0)
    } else {
        match first_bad_secret(ss.drop_first(), root, home, existing) {
            Some(j) => Some(j + 1),
            None => None,
        }
    }
}

/// The `--mount` value of a checked secret, read-only (relabelled privately
/// under podman).
pub open spec fn secret_mount(path: Seq<char>, target: Seq<char>, podman: bool) -> Seq<char> {
    "type=bind,src="@ + path + ",target="@ + target + if podman {
        ",relabel=private,readonly=true"@
    } else {
        ",readonly=true"@
    }
}

/// `--mount` and its value for each secret whose source checks out.
pub open spec fn secrets_args(ss: Seq<ResolvedSecret>, root: Seq<char>, home: Option<Seq<char>>, existing: Seq<Seq<char>>, podman: bool) -> Seq<Seq<char>>
    decreases ss.len(),
{
    if ss.len() == 0 {
        Seq::empty()
    } else {
        secrets_args(ss.drop_last(), root, home, existing, podman) + match secret_check(ss.last(), root, home, existing) {
            SecretCheck::Found(p) => seq!["--mount"@, secret_mount(p, ss.last().target@, podman)],
            _ => Seq::empty(),
        }
    }
}

/// Appends the mount of each secret, failing on the first whose source does
/// not check out.
pub fn push_secrets_args(args: &mut Vec<String>, secrets: &Vec<ResolvedSecret>, root: &str, ctx: &HostContext, podman: bool) -> (r: Result<(), SboxError>)
    ensures
        match first_bad_secret(secrets@, root@, home_view(*ctx), views(ctx.existing_paths@)) {
            Some(j) => r is Err && secret_error_matches(
                secrets@[j],
                secret_check(secrets@[j], root@, home_view(*ctx), views(ctx.existing_paths@)),
                r->Err_0,
            ),
            None => r is Ok && views(final(args)@) == views(old(args)@) + secrets_args(
                secrets@,
                root@,
                home_view(*ctx),
                views(ctx.existing_paths@),
                podman,
            ),
        },
{
    let ghost hv = home_view(*ctx);
    let ghost ex = views(ctx.existing_paths@);
    let ghost start = views(args@);
    let mut i: usize = 0;
    assert(secrets@.take(0) =~= Seq::<ResolvedSecret>::empty());
    assert(secrets@.skip(0) =~= secrets@);
    proof {
        reveal_strlit("type=bind,src=");
        reveal_strlit(",target=");
        reveal_strlit(",readonly=true");
        reveal_strlit(",relabel=private,readonly=true");
    }
    while i < secrets.len()
        invariant
            i <= secrets@.len(),
            hv == home_view(*ctx),
            ex == views(ctx.existing_paths@),
            views(args@) == start + secrets_args(secrets@.take(i as int), root@, hv, ex, podman),
            forall|j: int| 0 <= j < i ==> secret_check(#[trigger] secrets@[j], root@, hv, ex) is Found,
            first_bad_secret(secrets@, root@, hv, ex) == match first_bad_secret(secrets@.skip(i as int), root@, hv, ex) {
                Some(j) => Some(j + i),
                None => None,
            },
        decreases secrets@.len() - i,
    {
        let s = &secrets[i];
        assert(secrets@.skip(i as int)[0] == *s);
        let path = match validate_secret_source(s, root, ctx) {
            Ok(p) => p,
            Err(e) => return Err(e),
        };
        let a = concat3("type=bind,src=", path.as_str(), ",target=");
        let tail = if podman {
            ",relabel=private,readonly=true"
        } else {
            ",readonly=true"
        };
        let value = concat3(a.as_str(), s.target.as_str(), tail);
        push2(args, "--mount", value.as_str());
        assert(secrets@.take(i + 1).drop_last() =~= secrets@.take(i as int));
        assert(secrets@.take(i + 1).last() == *s);
        assert(views(args@) =~= start + secrets_args(secrets@.take(i + 1), root@, hv, ex, podman));
        assert(secrets@.skip(i as int).drop_first() =~= secrets@.skip(i + 1));
        i = i + 1;
    }
    assert(secrets@.take(secrets@.len() as int) =~= secrets@);
    Ok(())
}

/// A mount whose host source is missing: a bind whose source is not among
/// the existing paths and that is not to be created.
pub open spec fn mount_source_missing(m: ResolvedMount, existing: Seq<Seq<char>>) -> bool {
    m.kind@ == "bind"@ && !m.create && match m.source {
        Some(src) => !seq_has(existing, src@),
        None => false,
    }
}

/// The first mount whose source is missing, if any.
pub open spec fn first_missing_mount(ms: Seq<ResolvedMount>, existing: Seq<Seq<char>>) -> Option<int>
    decreases ms.len(),
{
    if ms.len() == 0 {
        None
    } else if mount_source_missing(ms[0], existing) {
        Some(0)
    } else {
        match first_missing_mount(ms.drop_first(), existing) {
            Some(j) => Some(j + 1),
            None => None,
        }
    }
}

/// The outcome of the checks before a run: every bind source exists (or is
/// to be created), then every secret's source checks out.
pub open spec fn runtime_inputs_outcome(
    ms: Seq<ResolvedMount>,
    ss: Seq<ResolvedSecret>,
    root: Seq<char>,
    ctx: HostContext,
    r: Result<(), SboxError>,
) -> bool {
    let ex = views(ctx.existing_paths@);
    match first_missing_mount(ms, ex) {
        Some(j) => r matches Err(SboxError::HostPathNotFound { kind, name, path }) && kind@ == "mount source"@
            && name@ == ms[j].target@ && path@ == ms[j].source.unwrap()@,
        None => match first_bad_secret(ss, root, home_view(ctx), ex) {
            Some(j) => r is Err && secret_error_matches(ss[j], secret_check(ss[j], root, home_view(ctx), ex), r->Err_0),
            None => r is Ok,
        },
    }
}

/// Checks the host side of mounts and secrets before a run.
pub fn validate_runtime_inputs_with_mounts(
    mounts: &Vec<ResolvedMount>,
    secrets: &Vec<ResolvedSecret>,
    workspace_root: &str,
    ctx: &HostContext,
) -> (r: Result<(), SboxError>)
    ensures
        runtime_inputs_outcome(mounts@, secrets@, workspace_root@, *ctx, r),
{
    proof {
        reveal_strlit("bind");
        reveal_strlit("mount source");
    }
    let ghost ex = views(ctx.existing_paths@);
    let mut i: usize = 0;
    assert(mounts@.skip(0) =~= mounts@);
    while i < mounts.len()
        invariant
            i <= mounts@.len(),
            ex == views(ctx.existing_paths@),
            first_missing_mount(mounts@, ex) == match first_missing_mount(mounts@.skip(i as int), ex) {
                Some(j) => Some(j + i),
                None => None,
            },
        decreases mounts@.len() - i,
    {
        let m = &mounts[i];
        assert(mounts@.skip(i as int)[0] == *m);
        assert(mounts@.skip(i as int).drop_first() =~= mounts@.skip(i + 1));
        if eq_str(m.kind.as_str(), "bind") && !m.create {
            match &m.source {
                Some(src) => {
                    if !strings_contain(ctx.existing_paths.as_slice(), src.as_str()) {
                        return Err(
                            SboxError::HostPathNotFound {
                                kind: owned("mount source"),
                                name: m.target.clone(),
                                path: src.clone(),
                            },
                        );
                    }
                },
                None => {},
            }
        }
        i = i + 1;
    }
    assert(mounts@.skip(mounts@.len() as int) =~= Seq::<ResolvedMount>::empty());
    let ghost hv = home_view(*ctx);
    let mut k: usize = 0;
    assert(secrets@.skip(0) =~= secrets@);
    while k < secrets.len()
        invariant
            k <= secrets@.len(),
            ex == views(ctx.existing_paths@),
            hv == home_view(*ctx),
            first_missing_mount(mounts@, ex) is None,
            first_bad_secret(secrets@, workspace_root@, hv, ex) == match first_bad_secret(
                secrets@.skip(k as int),
                workspace_root@,
                hv,
                ex,
            ) {
                Some(j) => Some(j + k),
                None => None,
            },
        decreases secrets@.len() - k,
    {
        let s = &secrets[k];
        assert(secrets@.skip(k as int)[0] == *s);
        assert(secrets@.skip(k as int).drop_first() =~= secrets@.skip(k + 1));
        match validate_secret_source(s, workspace_root, ctx) {
            Ok(_) => {},
            Err(e) => {
                return Err(e);
            },
        }
        k = k + 1;
    }
    assert(secrets@.skip(secrets@.len() as int) =~= Seq::<ResolvedSecret>::empty());
    Ok(())
}

/// Checks the host side of a plan's mounts and secrets before a run.
pub fn validate_runtime_inputs(plan: &ExecutionPlan, ctx: &HostContext) -> (r: Result<(), SboxError>)
    ensures
        runtime_inputs_outcome(plan.mounts@, plan.secrets@, plan.workspace.root@, *ctx, r),
{
    validate_runtime_inputs_with_mounts(&plan.mounts, &plan.secrets, plan.workspace.root.as_str(), ctx)
}

// ---------------------------------------------------------------------------
// The caller's identity
// ---------------------------------------------------------------------------

/// The value of a run of ASCII digits.
pub open spec fn digits_value(d: Seq<char>) -> nat
    decreases d.len(),
{
    if d.len() == 0 {
        0
    } else {
        digits_value(d.drop_last()) * 10 + ((d.last() as nat) - ('0' as nat)) as nat
    }
}

/// Every character is an ASCII digit.
pub open spec fn all_digits(d: Seq<char>) -> bool {
    forall|i: int| 0 <= i < d.len() ==> '0' <= #[trigger] d[i] <= '9'
}

/// `str::parse::<u32>`: an optional `+`, then at least one ASCII digit, with
/// a value that fits.
pub open spec fn parse_u32(w: Seq<char>) -> Option<u32> {
    let d = if w.len() > 0 && w[0] == '+' {
        w.drop_first()
    } else {
        w
    };
    if d.len() == 0 || !all_digits(d) || digits_value(d) > u32::MAX {
        None
    } else {
        Some(digits_value(d) as u32)
    }
}

proof fn lemma_digits_value_grows(d: Seq<char>, k: int)
    requires
        0 <= k <= d.len(),
        all_digits(d),
    ensures
        digits_value(d.take(k)) <= digits_value(d),
    decreases d.len() - k,
{
    if k < d.len() {
        lemma_digits_value_grows(d, k + 1);
        assert(d.take(k + 1).drop_last() =~= d.take(k));
        assert('0' <= d[k] <= '9');
    } else {
        assert(d.take(k) =~= d);
    }
}

/// Parses a decimal `u32` as `str::parse` does.
pub fn parse_u32_str(w: &str) -> (r: Option<u32>)
    ensures
        r == parse_u32(w@),
{
    let cs = str_chars(w);
    let mut start: usize = 0;
    if cs.len() > 0 && cs[0] == '+' {
        start = 1;
    }
    let ghost d = if w@.len() > 0 && w@[0] == '+' {
        w@.drop_first()
    } else {
        w@
    };
    assert(d =~= cs@.skip(start as int));
    if start >= cs.len() {
        return None;
    }
    let mut acc: u64 = 0;
    let mut i: usize = start;
    while i < cs.len()
        invariant
            cs@ == w@,
            d == cs@.skip(start as int),
            d == (if w@.len() > 0 && w@[0] == '+' {
                w@.drop_first()
            } else {
                w@
            }),
            start <= i <= cs@.len(),
            acc == digits_value(d.take(i - start)),
            acc <= u32::MAX,
            all_digits(d.take(i - start)),
        decreases cs@.len() - i,
    {
        let c = cs[i];
        assert(d.take(i + 1 - start).drop_last() =~= d.take(i - start));
        assert(d.take(i + 1 - start).last() == c);
        if !('0' <= c && c <= '9') {
            assert(!all_digits(d)) by {
                assert(d[i - start] == c);
            }
            return None;
        }
        let digit = (c as u32 - '0' as u32) as u64;
        acc = acc * 10 + digit;
        assert(all_digits(d.take(i + 1 - start))) by {
            assert forall|j: int| 0 <= j < d.take(i + 1 - start).len() implies '0' <= #[trigger] d.take(i + 1 - start)[j] <= '9' by {
                if j < i - start {
                    assert(d.take(i + 1 - start)[j] == d.take(i - start)[j]);
                }
            }
        }
        if acc > 4294967295 {
            proof {
                if all_digits(d) {
                    lemma_digits_value_grows(d, i + 1 - start);
                }
            }
            return None;
        }
        i = i + 1;
    }
    assert(d.take(cs@.len() - start) =~= d);
    Some(acc as u32)
}

/// The lines of a text (`str::lines`): split at `\n`, without a final empty
/// piece, each without a trailing `\r`.
pub open spec fn text_lines(s: Seq<char>) -> Seq<Seq<char>> {
    let pieces = split_char(s, '\n');
    let kept = if pieces.last().len() == 0 {
        pieces.drop_last()
    } else {
        pieces
    };
    kept.map_values(|l: Seq<char>| if l.len() > 0 && l.last() == '\r' { l.drop_last() } else { l })
}

/// The lines of a text (`str::lines`).
pub fn lines_of(s: &str) -> (r: Vec<String>)
    ensures
        views(r@) == text_lines(s@),
{
    let cs = str_chars(s);
    let pieces = split_chars_on(&cs, '\n');
    proof {
        crate::text::lemma_split_char_nonempty(s@, '\n');
    }
    let ghost ps = split_char(s@, '\n');
    let n = if pieces[pieces.len() - 1].len() == 0 {
        pieces.len() - 1
    } else {
        pieces.len()
    };
    let ghost lines = text_lines(s@);
    assert(lines.len() == n);
    let mut out: Vec<String> = Vec::new();
    let mut i: usize = 0;
    while i < n
        invariant
            crate::text::seg_views(pieces@) == ps,
            ps == split_char(s@, '\n'),
            lines == text_lines(s@),
            n == lines.len(),
            n <= pieces@.len(),
            i <= n,
            views(out@) == lines.take(i as int),
        decreases n - i,
    {
        let piece = &pieces[i];
        let line = if piece.len() > 0 && piece[piece.len() - 1] == '\r' {
            let mut t: Vec<char> = Vec::new();
            let mut k: usize = 0;
            while k < piece.len() - 1
                invariant
                    piece@.len() > 0,
                    k <= piece@.len() - 1,
                    t@ == piece@.take(k as int),
                decreases piece@.len() - 1 - k,
            {
                t.push(piece[k]);
                assert(piece@.take(k + 1) =~= piece@.take(k as int).push(piece@[k as int]));
                k = k + 1;
            }
            assert(t@ =~= piece@.drop_last());
            string_from_chars(&t)
        } else {
            string_from_chars(piece.as_slice())
        };
        assert(ps[i as int] == piece@);
        assert(lines[i as int] == line@);
        let ghost before = views(out@);
        let ghost lv = line@;
        out.push(line);
        assert(views(out@) =~= before.push(lv));
        assert(views(out@) =~= lines.take(i + 1));
        i = i + 1;
    }
    assert(lines.take(n as int) =~= lines);
    out
}

/// The first line that begins with `key`, if any.
pub open spec fn first_line_with(lines: Seq<Seq<char>>, key: Seq<char>) -> Option<Seq<char>>
    decreases lines.len(),
{
    if lines.len() == 0 {
        None
    } else if starts_with(lines[0], key) {
        Some(lines[0])
    } else {
        first_line_with(lines.drop_first(), key)
    }
}

/// The id after `key` in a `/proc/<pid>/status` text: the second word of the
/// first line that begins with `key`, as a `u32`; 0 when there is none.
pub open spec fn proc_id(status: Seq<char>, key: Seq<char>) -> u32 {
    match first_line_with(text_lines(status), key) {
        Some(l) => if words(l).len() > 1 {
            match parse_u32(words(l)[1]) {
                Some(v) => v,
                None => 0,
            }
        } else {
            0
        },
        None => 0,
    }
}

/// The id after `key` in a `/proc/<pid>/status` text.
pub fn parse_proc_id(status: &str, key: &str) -> (r: u32)
    ensures
        r == proc_id(status@, key@),
{
    let cs = str_chars(status);
    let pieces = split_chars_on(&cs, '\n');
    proof {
        crate::text::lemma_split_char_nonempty(status@, '\n');
    }
    let ghost ps = split_char(status@, '\n');
    let n = if pieces[pieces.len() - 1].len() == 0 {
        pieces.len() - 1
    } else {
        pieces.len()
    };
    let ghost lines = text_lines(status@);
    assert(lines.len() == n);
    let mut i: usize = 0;
    assert(lines.skip(0) =~= lines);
    while i < n
        invariant
            crate::text::seg_views(pieces@) == ps,
            ps == split_char(status@, '\n'),
            lines == text_lines(status@),
            n == lines.len(),
            n <= pieces@.len(),
            i <= n,
            first_line_with(lines, key@) == first_line_with(lines.skip(i as int), key@),
        decreases n - i,
    {
        let piece = &pieces[i];
        let line = if piece.len() > 0 && piece[piece.len() - 1] == '\r' {
            let mut t: Vec<char> = Vec::new();
            let mut k: usize = 0;
            while k < piece.len() - 1
                invariant
                    piece@.len() > 0,
                    k <= piece@.len() - 1,
                    t@ == piece@.take(k as int),
                decreases piece@.len() - 1 - k,
            {
                t.push(piece[k]);
                assert(piece@.take(k + 1) =~= piece@.take(k as int).push(piece@[k as int]));
                k = k + 1;
            }
            assert(t@ =~= piece@.drop_last());
            string_from_chars(&t)
        } else {
            string_from_chars(piece.as_slice())
        };
        assert(ps[i as int] == piece@);
        assert(lines[i as int] == line@);
        assert(lines.skip(i as int)[0] == line@);
        if str_starts_with(line.as_str(), key) {
            let ws = split_words(line.as_str());
            if ws.len() > 1 {
                assert(words(line@)[1] == ws@[1]@);
                return match parse_u32_str(ws[1].as_str()) {
                    Some(v) => v,
                    None => 0,
                };
            }
            return 0;
        }
        assert(lines.skip(i as int).drop_first() =~= lines.skip(i + 1));
        i = i + 1;
    }
    0
}

/// The caller's user and group ids, from the text of `/proc/self/status`.
pub fn current_uid_gid(proc_status: &str) -> (r: (u32, u32))
    ensures
        r == (proc_id(proc_status@, "Uid:"@), proc_id(proc_status@, "Gid:"@)),
{
    (parse_proc_id(proc_status, "Uid:"), parse_proc_id(proc_status, "Gid:"))
}

/// `uid:gid` in decimal.
pub open spec fn user_spec(uid: u32, gid: u32) -> Seq<char> {
    decimal(uid as nat) + ":"@ + decimal(gid as nat)
}

/// `uid:gid` in decimal.
pub fn format_user(uid: u32, gid: u32) -> (r: String)
    ensures
        r@ == user_spec(uid, gid),
{
    let u = format_decimal(uid as u64);
    let g = format_decimal(gid as u64);
    concat3(u.as_str(), ":", g.as_str())
}

/// The `exec` words that run a plan's command in its session container.
pub open spec fn exec_words(plan: crate::resolve::ExecutionPlan, session: Seq<char>, tty: bool) -> Seq<Seq<char>> {
    seq!["exec"@, "-i"@] + (if tty {
        seq!["-t"@]
    } else {
        Seq::empty()
    }) + seq!["--workdir"@, plan.workspace.sandbox_cwd@] + env_args(plan.environment.variables@) + seq![session]
        + views(plan.command@)
}

/// The `exec` arguments that run a plan's command in its session container.
pub fn build_exec_args(plan: &crate::resolve::ExecutionPlan, session_name: &str, tty: bool) -> (r: Vec<String>)
    ensures
        views(r@) == exec_words(*plan, session_name@, tty),
{
    let mut args: Vec<String> = Vec::new();
    assert(views(args@) =~= Seq::<Seq<char>>::empty());
    push2(&mut args, "exec", "-i");
    if tty {
        push_string(&mut args, owned("-t"));
    }
    proof {
        reveal_strlit("-t");
    }
    push2(&mut args, "--workdir", plan.workspace.sandbox_cwd.as_str());
    push_env_args(&mut args, &plan.environment.variables);
    push_string(&mut args, owned(session_name));
    let cmd = crate::text::clone_strings(&plan.command);
    crate::text::add_all(&mut args, cmd);
    assert(views(args@) =~= exec_words(*plan, session_name@, tty));
    args
}

/// `flag` is followed by `v` somewhere in `words`.
pub open spec fn follows(words: Seq<Seq<char>>, flag: Seq<char>, v: Seq<char>) -> bool {
    exists|k: int| 0 <= k && k + 1 < words.len() && #[trigger] words[k] == flag && words[k + 1] == v
}

/// `flag value` pairs: the flag at each even place, the values in order at
/// the odd ones.
pub proof fn lemma_flag_pairs_shape(flag: Seq<char>, vals: Seq<Seq<char>>)
    ensures
        flag_pairs(flag, vals).len() == 2 * vals.len(),
        forall|i: int| 0 <= i < vals.len() ==> #[trigger] flag_pairs(flag, vals)[2 * i] == flag,
        forall|i: int| 0 <= i < vals.len() ==> flag_pairs(flag, vals)[2 * i + 1] == #[trigger] vals[i],
    decreases vals.len(),
{
    if vals.len() > 0 {
        lemma_flag_pairs_shape(flag, vals.drop_last());
        let fp = flag_pairs(flag, vals);
        let fr = flag_pairs(flag, vals.drop_last());
        assert(fp == fr + seq![flag, vals.last()]);
        assert forall|i: int| 0 <= i < vals.len() implies fp[2 * i] == flag && fp[2 * i + 1] == #[trigger] vals[i] by {
            if i < vals.len() - 1 {
                assert(vals.drop_last()[i] == vals[i]);
                assert(fp[2 * i] == fr[2 * i]);
                assert(fp[2 * i + 1] == fr[2 * i + 1]);
            } else {
                assert(2 * i == fr.len());
                assert(fp[2 * i] == flag);
                assert(fp[2 * i + 1] == vals.last());
            }
        }
        assert forall|i: int| 0 <= i < vals.len() implies #[trigger] fp[2 * i] == flag by {
            assert(vals[i] == vals[i]);
        }
    }
}

/// What follows a flag in some words still follows it with words around.
pub proof fn lemma_follows_in_context(a: Seq<Seq<char>>, s: Seq<Seq<char>>, b: Seq<Seq<char>>, flag: Seq<char>, v: Seq<char>)
    requires
        follows(s, flag, v),
    ensures
        follows(a + s + b, flag, v),
{
    let k = choose|k: int| 0 <= k && k + 1 < s.len() && #[trigger] s[k] == flag && s[k + 1] == v;
    let w = a + s + b;
    assert(w[a.len() + k] == s[k]);
    assert(w[a.len() + k + 1] == s[k + 1]);
}

/// Every capability the policy adds appears in the hardening flags right
/// after `--cap-add`, and every capability it drops right after
/// `--cap-drop`.
pub proof fn law_capabilities_follow_their_flags(
    read_only_rootfs: bool,
    no_new_privileges: bool,
    cap_drop: Seq<Seq<char>>,
    cap_add: Seq<Seq<char>>,
)
    ensures
        forall|i: int|
            0 <= i < cap_add.len() ==> follows(
                security_args(read_only_rootfs, no_new_privileges, cap_drop, cap_add),
                "--cap-add"@,
                #[trigger] cap_add[i],
            ),
        forall|i: int|
            0 <= i < cap_drop.len() ==> follows(
                security_args(read_only_rootfs, no_new_privileges, cap_drop, cap_add),
                "--cap-drop"@,
                #[trigger] cap_drop[i],
            ),
{
    let head = (if read_only_rootfs {
        seq!["--read-only"@]
    } else {
        Seq::empty()
    }) + (if no_new_privileges {
        seq!["--security-opt"@, "no-new-privileges"@]
    } else {
        Seq::empty()
    });
    let drops = flag_pairs("--cap-drop"@, cap_drop);
    let adds = flag_pairs("--cap-add"@, cap_add);
    let w = security_args(read_only_rootfs, no_new_privileges, cap_drop, cap_add);
    assert(w =~= head + drops + adds);
    lemma_flag_pairs_shape("--cap-drop"@, cap_drop);
    lemma_flag_pairs_shape("--cap-add"@, cap_add);
    assert forall|i: int| 0 <= i < cap_add.len() implies follows(w, "--cap-add"@, #[trigger] cap_add[i]) by {
        let k = head.len() + drops.len() + 2 * i;
        assert(w[k] == adds[2 * i]);
        assert(w[k + 1] == adds[2 * i + 1]);
    }
    assert forall|i: int| 0 <= i < cap_drop.len() implies follows(w, "--cap-drop"@, #[trigger] cap_drop[i]) by {
        let k = head.len() + 2 * i;
        assert(w[k] == drops[2 * i]);
        assert(w[k + 1] == drops[2 * i + 1]);
    }
}

} // verus!
