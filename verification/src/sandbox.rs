//! The native sandbox's decisions: which variables are scrubbed, which paths
//! are granted read-only or read-write, whether outbound connections are
//! restricted, and which `.env` files are masked.
//!
//! The kernel work (Landlock rules, namespaces, bind mounts) is done with
//! what is decided here.

use vstd::prelude::*;

use crate::paths::{path_join, path_join_str};
use crate::policy::CommandPolicy;
use crate::text::{
    concat2, contains, owned, push_string, seq_has, split_char, starts_with, str_contains, str_starts_with,
    strings_contain, str_views, uppercase, views,
};

verus! {

/// The native sandbox.
pub struct NativeSandbox;

/// Name prefixes of variables that hold credentials.
pub open spec fn sensitive_prefixes() -> Seq<Seq<char>> {
    seq!["AWS_"@, "GITHUB_TOKEN"@, "NPM_TOKEN"@, "SLACK_TOKEN"@, "SECRET_"@, "PRIVATE_KEY"@, "DATABASE_URL"@, "PASSWORD"@]
}

/// A variable is sensitive when its name, in upper case, starts with a
/// credential prefix or holds `SECRET`, `TOKEN` or `KEY`.
pub open spec fn sensitive_env(key: Seq<char>) -> bool {
    let u = uppercase(key);
    ||| exists|i: int| 0 <= i < sensitive_prefixes().len() && starts_with(u, #[trigger] sensitive_prefixes()[i])
    ||| contains(u, "SECRET"@)
    ||| contains(u, "TOKEN"@)
    ||| contains(u, "KEY"@)
}

/// System directories granted read-only.
pub open spec fn system_dirs() -> Seq<Seq<char>> {
    seq!["/usr"@, "/lib"@, "/lib64"@, "/etc"@, "/bin"@, "/sbin"@, "/dev"@, "/proc"@]
}

/// Toolchain directories below the home directory granted read-only.
pub open spec fn toolchain_names() -> Seq<Seq<char>> {
    seq![".rustup"@, ".cargo"@, ".nvm"@, ".pyenv"@, ".bun"@, ".local"@]
}

/// The toolchain directories of a home directory.
pub open spec fn toolchain_dirs(home: Option<Seq<char>>) -> Seq<Seq<char>> {
    match home {
        Some(h) => toolchain_names().map_values(|d: Seq<char>| path_join(h, d)),
        None => Seq::empty(),
    }
}

/// The directories of `PATH`.
pub open spec fn path_dirs(path_var: Option<Seq<char>>) -> Seq<Seq<char>> {
    match path_var {
        Some(p) => split_char(p, ':'),
        None => Seq::empty(),
    }
}

/// The paths among `paths` that exist, in order.
pub open spec fn existing_among(paths: Seq<Seq<char>>, existing: Seq<Seq<char>>) -> Seq<Seq<char>>
    decreases paths.len(),
{
    if paths.len() == 0 {
        Seq::empty()
    } else {
        let rest = existing_among(paths.drop_last(), existing);
        if seq_has(existing, paths.last()) {
            rest.push(paths.last())
        } else {
            rest
        }
    }
}

/// The names of the sensitive variables of an environment, in order.
pub open spec fn sensitive_names(env: Seq<(Seq<char>, Seq<char>)>) -> Seq<Seq<char>>
    decreases env.len(),
{
    if env.len() == 0 {
        Seq::empty()
    } else {
        let rest = sensitive_names(env.drop_last());
        if sensitive_env(env.last().0) {
            rest.push(env.last().0)
        } else {
            rest
        }
    }
}

/// A file name of the `.env` family: `.env` or `.env.<anything>`.
pub open spec fn env_file_name(name: Seq<char>) -> bool {
    name == ".env"@ || starts_with(name, ".env."@)
}

/// The `.env` files among the file names of a directory, as paths.
pub open spec fn env_files(dir: Seq<char>, names: Seq<Seq<char>>) -> Seq<Seq<char>>
    decreases names.len(),
{
    if names.len() == 0 {
        Seq::empty()
    } else {
        let rest = env_files(dir, names.drop_last());
        if env_file_name(names.last()) {
            rest.push(path_join(dir, names.last()))
        } else {
            rest
        }
    }
}

/// What the sandbox learns from the host.
pub struct SandboxFacts {
    /// The process environment, name and value.
    pub env: Vec<(String, String)>,
    /// `HOME`, when set.
    pub home: Option<String>,
    /// `PATH`, when set.
    pub path_var: Option<String>,
    /// Host paths that exist.
    pub existing_paths: Vec<String>,
    /// The working directory.
    pub cwd: String,
    /// The names of the regular files in the working directory.
    pub cwd_files: Vec<String>,
}

/// What the sandbox does around a command.
pub struct SandboxPlan {
    /// Variables removed from the command's environment.
    pub removed_env: Vec<String>,
    /// Outbound TCP connections are denied.
    pub restrict_connect: bool,
    /// Directories granted read access, in order.
    pub read_only: Vec<String>,
    /// Paths granted full access, in order.
    pub read_write: Vec<String>,
    /// The command runs in a network namespace of its own.
    pub new_net_namespace: bool,
    /// Files over which `/dev/null` is bound.
    pub masked_files: Vec<String>,
}

pub open spec fn opt_view(o: Option<String>) -> Option<Seq<char>> {
    match o {
        Some(s) => Some(s@),
        None => None,
    }
}

/// The environment as pairs of character sequences.
pub open spec fn env_views(env: Seq<(String, String)>) -> Seq<(Seq<char>, Seq<char>)> {
    env.map_values(|p: (String, String)| (p.0@, p.1@))
}

/// The sandbox around a command: sensitive variables removed (unless
/// `allow_env` lets them through), outbound connections denied unless the
/// command has network and `allow_net_out` is given (so a command without
/// network is denied them even if its namespace cannot be made), system, toolchain and `PATH`
/// directories read-only, the policy's writable paths read-write (each
/// when it exists), its own network namespace when the command has no
/// network, and the `.env` files of the working directory masked (unless
/// `allow_env`).
pub open spec fn plan_is(
    p: CommandPolicy,
    allow_net_out: bool,
    allow_env: bool,
    f: SandboxFacts,
    r: SandboxPlan,
) -> bool {
    let ex = views(f.existing_paths@);
    &&& views(r.removed_env@) == if allow_env {
        Seq::empty()
    } else {
        sensitive_names(env_views(f.env@))
    }
    &&& r.restrict_connect == !(p.network_enabled && allow_net_out)
    &&& views(r.read_only@) == existing_among(
        system_dirs() + toolchain_dirs(opt_view(f.home)) + path_dirs(opt_view(f.path_var)),
        ex,
    )
    &&& views(r.read_write@) == existing_among(views(p.writable_paths@), ex)
    &&& r.new_net_namespace == !p.network_enabled
    &&& views(r.masked_files@) == if allow_env {
        Seq::empty()
    } else {
        env_files(f.cwd@, views(f.cwd_files@))
    }
}

impl NativeSandbox {
    /// Whether a variable holds credentials.
    pub fn is_sensitive_env(key: &str) -> (r: bool)
        ensures
            r == sensitive_env(key@),
    {
        let upper = crate::text::to_uppercase(key);
        let prefixes = ["AWS_", "GITHUB_TOKEN", "NPM_TOKEN", "SLACK_TOKEN", "SECRET_", "PRIVATE_KEY", "DATABASE_URL", "PASSWORD"];
        assert(str_views(prefixes@) =~= sensitive_prefixes());
        let mut i: usize = 0;
        while i < prefixes.len()
            invariant
                i <= 8,
                prefixes@.len() == 8,
                str_views(prefixes@) == sensitive_prefixes(),
                upper@ == uppercase(key@),
                forall|j: int| 0 <= j < i ==> !starts_with(upper@, #[trigger] sensitive_prefixes()[j]),
            decreases 8 - i,
        {
            assert(sensitive_prefixes()[i as int] == prefixes@[i as int]@);
            if str_starts_with(upper.as_str(), prefixes[i]) {
                return true;
            }
            i = i + 1;
        }
        str_contains(upper.as_str(), "SECRET") || str_contains(upper.as_str(), "TOKEN") || str_contains(
            upper.as_str(),
            "KEY",
        )
    }

    /// The sandbox around a command.
    pub fn plan(policy: &CommandPolicy, allow_net_out: bool, allow_env: bool, facts: &SandboxFacts) -> (r: SandboxPlan)
        ensures
            plan_is(*policy, allow_net_out, allow_env, *facts, r),
    {
        let removed_env = if allow_env {
            let v: Vec<String> = Vec::new();
            assert(views(v@) =~= Seq::<Seq<char>>::empty());
            v
        } else {
            sensitive_env_names(&facts.env)
        };
        let mut candidates: Vec<String> = Vec::new();
        let system = ["/usr", "/lib", "/lib64", "/etc", "/bin", "/sbin", "/dev", "/proc"];
        assert(str_views(system@) =~= system_dirs());
        append_strs(&mut candidates, &system);
        let ghost after_system = views(candidates@);
        match &facts.home {
            Some(h) => {
                let names = [".rustup", ".cargo", ".nvm", ".pyenv", ".bun", ".local"];
                assert(str_views(names@) =~= toolchain_names());
                let mut k: usize = 0;
                while k < names.len()
                    invariant
                        k <= 6,
                        names@.len() == 6,
                        str_views(names@) == toolchain_names(),
                        views(candidates@) == after_system + toolchain_names().map_values(
                            |d: Seq<char>| path_join(h@, d),
                        ).take(k as int),
                    decreases 6 - k,
                {
                    assert(toolchain_names()[k as int] == names@[k as int]@);
                    push_string(&mut candidates, path_join_str(h.as_str(), names[k]));
                    assert(views(candidates@) =~= after_system + toolchain_names().map_values(
                        |d: Seq<char>| path_join(h@, d),
                    ).take(k + 1));
                    k = k + 1;
                }
                assert(toolchain_names().map_values(|d: Seq<char>| path_join(h@, d)).take(6)
                    =~= toolchain_names().map_values(|d: Seq<char>| path_join(h@, d)));
            },
            None => {
                assert(after_system + toolchain_dirs(opt_view(facts.home)) =~= after_system);
            },
        }
        let ghost after_tools = views(candidates@);
        match &facts.path_var {
            Some(pv) => {
                let cs = crate::text::str_chars(pv.as_str());
                let segs = crate::text::split_chars_on(&cs, ':');
                let mut k: usize = 0;
                while k < segs.len()
                    invariant
                        k <= segs@.len(),
                        crate::text::seg_views(segs@) == split_char(pv@, ':'),
                        views(candidates@) == after_tools + split_char(pv@, ':').take(k as int),
                    decreases segs@.len() - k,
                {
                    assert(crate::text::seg_views(segs@)[k as int] == segs@[k as int]@);
                    push_string(&mut candidates, crate::text::string_from_chars(segs[k].as_slice()));
                    assert(views(candidates@) =~= after_tools + split_char(pv@, ':').take(k + 1));
                    k = k + 1;
                }
                assert(split_char(pv@, ':').take(segs@.len() as int) =~= split_char(pv@, ':'));
            },
            None => {
                assert(after_tools + path_dirs(opt_view(facts.path_var)) =~= after_tools);
            },
        }
        assert(views(candidates@) =~= system_dirs() + toolchain_dirs(opt_view(facts.home)) + path_dirs(
            opt_view(facts.path_var),
        ));
        let read_only = keep_existing(&candidates, &facts.existing_paths);
        let read_write = keep_existing(&policy.writable_paths, &facts.existing_paths);
        let masked_files = if allow_env {
            let v: Vec<String> = Vec::new();
            assert(views(v@) =~= Seq::<Seq<char>>::empty());
            v
        } else {
            env_file_paths(facts.cwd.as_str(), &facts.cwd_files)
        };
        SandboxPlan {
            removed_env,
            restrict_connect: !(policy.network_enabled && allow_net_out),
            read_only,
            read_write,
            new_net_namespace: !policy.network_enabled,
            masked_files,
        }
    }
}

fn append_strs(out: &mut Vec<String>, items: &[&str])
    ensures
        views(final(out)@) == views(old(out)@) + str_views(items@),
{
    let ghost start = views(out@);
    let mut i: usize = 0;
    while i < items.len()
        invariant
            i <= items@.len(),
            views(out@) == start + str_views(items@).take(i as int),
        decreases items@.len() - i,
    {
        push_string(out, owned(items[i]));
        assert(views(out@) =~= start + str_views(items@).take(i + 1));
        i = i + 1;
    }
    assert(str_views(items@).take(items@.len() as int) =~= str_views(items@));
}

/// The names of the sensitive variables of an environment, in order.
fn sensitive_env_names(env: &Vec<(String, String)>) -> (r: Vec<String>)
    ensures
        views(r@) == sensitive_names(env_views(env@)),
{
    let ghost ev = env_views(env@);
    let mut out: Vec<String> = Vec::new();
    let mut i: usize = 0;
    assert(ev.take(0) =~= Seq::<(Seq<char>, Seq<char>)>::empty());
    assert(views(out@) =~= Seq::<Seq<char>>::empty());
    while i < env.len()
        invariant
            ev == env_views(env@),
            i <= ev.len(),
            views(out@) == sensitive_names(ev.take(i as int)),
        decreases ev.len() - i,
    {
        assert(ev.take(i + 1).drop_last() =~= ev.take(i as int));
        assert(ev.take(i + 1).last().0 == env@[i as int].0@);
        if NativeSandbox::is_sensitive_env(env[i].0.as_str()) {
            push_string(&mut out, env[i].0.clone());
        }
        i = i + 1;
    }
    assert(ev.take(ev.len() as int) =~= ev);
    out
}

/// The paths of `paths` that exist, in order.
fn keep_existing(paths: &Vec<String>, existing: &Vec<String>) -> (r: Vec<String>)
    ensures
        views(r@) == existing_among(views(paths@), views(existing@)),
{
    let ghost pv = views(paths@);
    let mut out: Vec<String> = Vec::new();
    let mut i: usize = 0;
    assert(pv.take(0) =~= Seq::<Seq<char>>::empty());
    assert(views(out@) =~= Seq::<Seq<char>>::empty());
    while i < paths.len()
        invariant
            pv == views(paths@),
            i <= pv.len(),
            views(out@) == existing_among(pv.take(i as int), views(existing@)),
        decreases pv.len() - i,
    {
        assert(pv.take(i + 1).drop_last() =~= pv.take(i as int));
        assert(pv.take(i + 1).last() == paths@[i as int]@);
        if strings_contain(existing.as_slice(), paths[i].as_str()) {
            push_string(&mut out, paths[i].clone());
        }
        i = i + 1;
    }
    assert(pv.take(pv.len() as int) =~= pv);
    out
}

/// The `.env` files among the file names of a directory, as paths.
fn env_file_paths(dir: &str, names: &Vec<String>) -> (r: Vec<String>)
    ensures
        views(r@) == env_files(dir@, views(names@)),
{
    proof {
        reveal_strlit(".env");
        reveal_strlit(".env.");
    }
    let ghost nv = views(names@);
    let mut out: Vec<String> = Vec::new();
    let mut i: usize = 0;
    assert(nv.take(0) =~= Seq::<Seq<char>>::empty());
    assert(views(out@) =~= Seq::<Seq<char>>::empty());
    while i < names.len()
        invariant
            nv == views(names@),
            i <= nv.len(),
            views(out@) == env_files(dir@, nv.take(i as int)),
        decreases nv.len() - i,
    {
        assert(nv.take(i + 1).drop_last() =~= nv.take(i as int));
        assert(nv.take(i + 1).last() == names@[i as int]@);
        let n = names[i].as_str();
        if crate::text::eq_str(n, ".env") || str_starts_with(n, ".env.") {
            push_string(&mut out, path_join_str(dir, n));
        }
        i = i + 1;
    }
    assert(nv.take(nv.len() as int) =~= nv);
    out
}

/// Every name of `sensitive_names(env)` is sensitive, and every sensitive
/// name of `env` is among them.
proof fn lemma_sensitive_names(env: Seq<(Seq<char>, Seq<char>)>)
    ensures
        forall|j: int| 0 <= j < sensitive_names(env).len() ==> sensitive_env(#[trigger] sensitive_names(env)[j]),
        forall|i: int|
            0 <= i < env.len() && sensitive_env(#[trigger] env[i].0) ==> seq_has(sensitive_names(env), env[i].0),
    decreases env.len(),
{
    if env.len() > 0 {
        let rest = env.drop_last();
        lemma_sensitive_names(rest);
        assert forall|i: int| 0 <= i < env.len() && sensitive_env(#[trigger] env[i].0) implies seq_has(
            sensitive_names(env),
            env[i].0,
        ) by {
            if i < env.len() - 1 {
                assert(rest[i] == env[i]);
                let k = choose|k: int| 0 <= k < sensitive_names(rest).len() && sensitive_names(rest)[k] == rest[i].0;
                if sensitive_env(env.last().0) {
                    assert(sensitive_names(env)[k] == sensitive_names(rest)[k]);
                }
            } else {
                assert(sensitive_names(env).last() == env.last().0);
            }
        }
    }
}

/// Scrubbing: unless `--allow-env` lets them through, exactly the variables
/// whose names mark credentials are removed from the command's environment,
/// so none of them reaches the command.
pub proof fn law_scrubbing_removes_exactly_the_credentials(
    p: CommandPolicy,
    allow_net_out: bool,
    f: SandboxFacts,
    r: SandboxPlan,
)
    requires
        plan_is(p, allow_net_out, false, f, r),
    ensures
        forall|i: int|
            0 <= i < f.env@.len() ==> (seq_has(views(r.removed_env@), #[trigger] f.env@[i].0@) <==> sensitive_env(
                f.env@[i].0@,
            )),
{
    let ev = env_views(f.env@);
    lemma_sensitive_names(ev);
    assert forall|i: int| 0 <= i < f.env@.len() implies (seq_has(views(r.removed_env@), #[trigger] f.env@[i].0@)
        <==> sensitive_env(f.env@[i].0@)) by {
        assert(ev[i].0 == f.env@[i].0@);
        if seq_has(views(r.removed_env@), f.env@[i].0@) {
            let k = choose|k: int| 0 <= k < views(r.removed_env@).len() && views(r.removed_env@)[k] == f.env@[i].0@;
            assert(sensitive_env(sensitive_names(ev)[k]));
        }
    }
}


/// A granted path `g` reaches `p`: it is `p` or a directory above it.
pub open spec fn covers(g: Seq<char>, p: Seq<char>) -> bool {
    p == g || starts_with(p, g + "/"@)
}

/// The credential directories of a home directory: `~/.ssh` and `~/.aws`.
pub open spec fn credential_dirs(home: Seq<char>) -> Seq<Seq<char>> {
    seq![path_join(home, ".ssh"@), path_join(home, ".aws"@)]
}

proof fn lemma_existing_among_from(paths: Seq<Seq<char>>, existing: Seq<Seq<char>>, k: int)
    requires
        0 <= k < existing_among(paths, existing).len(),
    ensures
        seq_has(paths, existing_among(paths, existing)[k]),
    decreases paths.len(),
{
    if paths.len() > 0 {
        let rest = existing_among(paths.drop_last(), existing);
        if k < rest.len() {
            lemma_existing_among_from(paths.drop_last(), existing, k);
            let j = choose|j: int| 0 <= j < paths.drop_last().len() && paths.drop_last()[j] == rest[k];
            assert(paths[j] == rest[k]);
        } else {
            assert(paths[paths.len() - 1] == paths.last());
        }
    }
}

proof fn lemma_toolchain_misses_credentials(h: Seq<char>, n: Seq<char>, c: Seq<char>)
    requires
        n.len() >= 4,
        c.len() == 4,
        n[0] == '.',
        c[0] == '.',
        n[1] != c[1],
        !is_absolute_name(n),
        !is_absolute_name(c),
    ensures
        !covers(path_join(h, n), path_join(h, c)),
{
    let g = path_join(h, n);
    let p = path_join(h, c);
    let base = if h.len() == 0 {
        Seq::<char>::empty()
    } else if h.last() == '/' {
        h
    } else {
        h + seq!['/']
    };
    assert(g =~= base + n);
    assert(p =~= base + c);
    assert(g[base.len() as int + 1] == n[1]);
    assert(p[base.len() as int + 1] == c[1]);
    assert(p != g);
    assert((g + "/"@).len() > p.len()) by {
        reveal_strlit("/");
    }
}

/// A path name that starts at the root.
pub open spec fn is_absolute_name(n: Seq<char>) -> bool {
    crate::paths::is_absolute(n)
}

/// Credentials stay out of reach of the toolchain grants: every path the
/// sandbox grants (read-only or read-write) that reaches `~/.ssh` or
/// `~/.aws` is a system directory, a directory of `PATH`, or one of the
/// command's own writable paths; the toolchain directories below the home
/// directory never do.
pub proof fn law_credential_dirs_reached_only_by_explicit_grants(
    p: CommandPolicy,
    allow_net_out: bool,
    allow_env: bool,
    f: SandboxFacts,
    r: SandboxPlan,
    home: Seq<char>,
)
    requires
        plan_is(p, allow_net_out, allow_env, f, r),
        f.home matches Some(h) && h@ == home,
    ensures
        forall|i: int, k: int|
            0 <= i < r.read_only@.len() && 0 <= k < 2 && #[trigger] covers(r.read_only@[i]@, #[trigger] credential_dirs(home)[k])
                ==> seq_has(system_dirs(), r.read_only@[i]@) || seq_has(path_dirs(opt_view(f.path_var)), r.read_only@[i]@),
        forall|i: int, k: int|
            0 <= i < r.read_write@.len() && 0 <= k < 2 && #[trigger] covers(r.read_write@[i]@, #[trigger] credential_dirs(home)[k])
                ==> seq_has(views(p.writable_paths@), r.read_write@[i]@),
{
    let ex = views(f.existing_paths@);
    let cands = system_dirs() + toolchain_dirs(opt_view(f.home)) + path_dirs(opt_view(f.path_var));
    assert forall|i: int, k: int|
        0 <= i < r.read_only@.len() && 0 <= k < 2 && #[trigger] covers(r.read_only@[i]@, #[trigger] credential_dirs(home)[k])
        implies seq_has(system_dirs(), r.read_only@[i]@) || seq_has(path_dirs(opt_view(f.path_var)), r.read_only@[i]@) by {
        assert(views(r.read_only@)[i] == r.read_only@[i]@);
        lemma_existing_among_from(cands, ex, i);
        let g = r.read_only@[i]@;
        let j = choose|j: int| 0 <= j < cands.len() && cands[j] == g;
        let sl = system_dirs().len();
        let tl = toolchain_dirs(opt_view(f.home)).len();
        if j < sl {
            assert(system_dirs()[j] == g);
        } else if j < sl + tl {
            let t = j - sl;
            assert(toolchain_dirs(opt_view(f.home))[t] == g);
            assert(g == path_join(home, toolchain_names()[t]));
            let n = toolchain_names()[t];
            reveal_strlit(".ssh");
            reveal_strlit(".aws");
            reveal_strlit(".rustup");
            reveal_strlit(".cargo");
            reveal_strlit(".nvm");
            reveal_strlit(".pyenv");
            reveal_strlit(".bun");
            reveal_strlit(".local");
            let c = if k == 0 { ".ssh"@ } else { ".aws"@ };
            assert(credential_dirs(home)[k] == path_join(home, c));
            lemma_toolchain_misses_credentials(home, n, c);
            assert(false);
        } else {
            assert(path_dirs(opt_view(f.path_var))[j - sl - tl] == g);
        }
    }
    assert forall|i: int, k: int|
        0 <= i < r.read_write@.len() && 0 <= k < 2 && #[trigger] covers(r.read_write@[i]@, #[trigger] credential_dirs(home)[k])
        implies seq_has(views(p.writable_paths@), r.read_write@[i]@) by {
        assert(views(r.read_write@)[i] == r.read_write@[i]@);
        lemma_existing_among_from(views(p.writable_paths@), ex, i);
    }
}

} // verus!
