//! What `sbox clean` removes: which kinds of resources, and their names.

use vstd::prelude::*;

use crate::backend::args::{scoped_cache, scoped_cache_name, text_lines};
use crate::config::maps::{profile_entries, profiles_at, profiles_len};
use crate::config::model::{CacheConfig, Config};
use crate::error::SboxError;
use crate::hash::{stable_hash, stable_hash_of};
use crate::paths::{path_join, path_join_str};
use crate::proxy::{trim, trim_str};
use crate::resolve::{opt_chars, reusable_session_name, reuse_of, session_name};
use crate::text::{concat2, starts_with, str_starts_with, views};

verus! {

/// The flags of `sbox clean`.
pub struct CleanCommand {
    pub all: bool,
    pub sessions: bool,
    pub images: bool,
    pub caches: bool,
    pub global_scope: bool,
}

impl Default for CleanCommand {
    fn default() -> (r: Self)
        ensures
            !r.all && !r.sessions && !r.images && !r.caches && !r.global_scope,
    {
        CleanCommand { all: false, sessions: false, images: false, caches: false, global_scope: false }
    }
}

/// The kinds of resources one clean removes.
#[derive(Debug, Clone, Copy)]
pub struct CleanScope {
    pub sessions: bool,
    pub images: bool,
    pub caches: bool,
}

/// The scope of a clean: everything with `--all`, the sessions when no kind
/// is named, else the kinds named.
pub open spec fn scope_of(c: CleanCommand) -> (bool, bool, bool) {
    if c.all {
        (true, true, true)
    } else if !c.sessions && !c.images && !c.caches {
        (true, false, false)
    } else {
        (c.sessions, c.images, c.caches)
    }
}

impl CleanScope {
    /// The scope a clean command asks for.
    pub fn from_command(command: &CleanCommand) -> (r: CleanScope)
        ensures
            (r.sessions, r.images, r.caches) == scope_of(*command),
    {
        if command.all {
            return CleanScope { sessions: true, images: true, caches: true };
        }
        if !command.sessions && !command.images && !command.caches {
            return CleanScope { sessions: true, images: false, caches: false };
        }
        CleanScope { sessions: command.sessions, images: command.images, caches: command.caches }
    }
}

/// The tag of the image a workspace builds from its recipe, if it builds one.
pub open spec fn derived_tag(c: Config, root: Seq<char>) -> Option<Seq<char>> {
    match c.image {
        Some(img) => match img.build {
            Some(b) => match img.tag {
                Some(t) => Some(t@),
                None => Some("sbox-build-"@ + stable_hash_of(path_join(root, b@))),
            },
            None => None,
        },
        None => None,
    }
}

/// The tag of the image the workspace builds, if it builds one.
pub fn derived_image_tag(config: &Config, workspace_root: &str) -> (r: Option<String>)
    ensures
        opt_chars(r) == derived_tag(*config, workspace_root@),
{
    let image = match &config.image {
        Some(i) => i,
        None => return None,
    };
    let build = match &image.build {
        Some(b) => b,
        None => return None,
    };
    match &image.tag {
        Some(t) => return Some(t.clone()),
        None => {},
    }
    let recipe = path_join_str(workspace_root, build.as_str());
    let h = stable_hash(recipe.as_str());
    Some(concat2("sbox-build-", h.as_str()))
}

/// The volumes of the caches that have no source, in order.
pub open spec fn implicit_volumes(caches: Seq<CacheConfig>, root: Seq<char>) -> Seq<Seq<char>>
    decreases caches.len(),
{
    if caches.len() == 0 {
        Seq::empty()
    } else {
        implicit_volumes(caches.drop_last(), root) + if caches.last().source is None {
            seq![scoped_cache(root, caches.last().name@)]
        } else {
            Seq::empty()
        }
    }
}

/// The volume names of the workspace's caches that have no source.
pub fn cache_volume_names(caches: &Vec<CacheConfig>, workspace_root: &str) -> (r: Vec<String>)
    ensures
        views(r@) == implicit_volumes(caches@, workspace_root@),
{
    let mut out: Vec<String> = Vec::new();
    let mut i: usize = 0;
    assert(views(out@) =~= implicit_volumes(caches@.take(0), workspace_root@));
    while i < caches.len()
        invariant
            i <= caches@.len(),
            views(out@) == implicit_volumes(caches@.take(i as int), workspace_root@),
        decreases caches@.len() - i,
    {
        assert(caches@.take(i + 1).drop_last() =~= caches@.take(i as int));
        assert(caches@.take(i + 1).last() == caches@[i as int]);
        let ghost before = views(out@);
        if caches[i].source.is_none() {
            let name = scoped_cache_name(workspace_root, caches[i].name.as_str());
            let ghost nv = name@;
            out.push(name);
            assert(views(out@) =~= before.push(nv));
        }
        assert(views(out@) =~= implicit_volumes(caches@.take(i + 1), workspace_root@));
        i = i + 1;
    }
    assert(caches@.take(caches@.len() as int) =~= caches@);
    out
}

/// The session names of the profiles that reuse a container, in profile order.
pub open spec fn session_names(c: Config, entries: Seq<(Seq<char>, crate::config::model::ProfileConfig)>, root: Seq<char>) -> Seq<Seq<char>>
    decreases entries.len(),
{
    if entries.len() == 0 {
        Seq::empty()
    } else {
        session_names(c, entries.drop_last(), root) + if reuse_of(c, entries.last().1) {
            seq![
                session_name(
                    match c.runtime {
                        Some(rt) => opt_chars(rt.container_name),
                        None => None,
                    },
                    root,
                    entries.last().0,
                ),
            ]
        } else {
            Seq::empty()
        }
    }
}

/// The names of the reusable session containers of a workspace.
pub fn reusable_session_names(config: &Config, workspace_root: &str) -> (r: Vec<String>)
    ensures
        views(r@) == session_names(*config, profile_entries(config.profiles), workspace_root@),
{
    let ghost entries = profile_entries(config.profiles);
    let n = profiles_len(&config.profiles);
    let mut out: Vec<String> = Vec::new();
    let mut i: usize = 0;
    assert(views(out@) =~= session_names(*config, entries.take(0), workspace_root@));
    while i < n
        invariant
            entries == profile_entries(config.profiles),
            n == entries.len(),
            i <= n,
            views(out@) == session_names(*config, entries.take(i as int), workspace_root@),
        decreases n - i,
    {
        let (name, profile) = profiles_at(&config.profiles, i);
        assert(entries.take(i + 1).drop_last() =~= entries.take(i as int));
        assert(entries.take(i + 1).last() == entries[i as int]);
        let reuse = match profile.reuse_container {
            Some(b) => b,
            None => match &config.runtime {
                Some(rt) => rt.reuse_container == Some(true),
                None => false,
            },
        };
        let ghost before = views(out@);
        if reuse {
            let s = reusable_session_name(config, workspace_root, name.as_str());
            let ghost sv = s@;
            out.push(s);
            assert(views(out@) =~= before.push(sv));
        }
        assert(views(out@) =~= session_names(*config, entries.take(i + 1), workspace_root@));
        i = i + 1;
    }
    assert(entries.take(n as int) =~= entries);
    out
}

/// The trimmed lines of an engine's listing that begin with `prefix`.
pub open spec fn listed_names(lines: Seq<Seq<char>>, prefix: Seq<char>) -> Seq<Seq<char>>
    decreases lines.len(),
{
    if lines.len() == 0 {
        Seq::empty()
    } else {
        listed_names(lines.drop_last(), prefix) + if starts_with(trim(lines.last()), prefix) {
            seq![trim(lines.last())]
        } else {
            Seq::empty()
        }
    }
}

/// The names in an engine's listing (one per line) that begin with `prefix`.
pub fn names_with_prefix(listing: &str, prefix: &str) -> (r: Vec<String>)
    ensures
        views(r@) == listed_names(text_lines(listing@), prefix@),
{
    let lines = crate::backend::args::lines_of(listing);
    let ghost ls = text_lines(listing@);
    let mut out: Vec<String> = Vec::new();
    let mut i: usize = 0;
    assert(views(out@) =~= listed_names(ls.take(0), prefix@));
    while i < lines.len()
        invariant
            views(lines@) == ls,
            i <= ls.len(),
            views(out@) == listed_names(ls.take(i as int), prefix@),
        decreases ls.len() - i,
    {
        assert(ls.take(i + 1).drop_last() =~= ls.take(i as int));
        assert(ls.take(i + 1).last() == lines@[i as int]@);
        let t = trim_str(lines[i].as_str());
        let ghost before = views(out@);
        if str_starts_with(t.as_str(), prefix) {
            let ghost tv = t@;
            out.push(t);
            assert(views(out@) =~= before.push(tv));
        }
        assert(views(out@) =~= listed_names(ls.take(i + 1), prefix@));
        i = i + 1;
    }
    assert(ls.take(ls.len() as int) =~= ls);
    out
}


/// A kind of podman resource that `sbox clean` removes.
#[derive(Clone, Copy, Debug, PartialEq, Eq, Structural)]
pub enum Removal {
    Image,
    Volume,
    Container,
}

/// The words of `podman` that force-remove a resource.
pub open spec fn removal_words(kind: Removal, name: Seq<char>) -> Seq<Seq<char>> {
    match kind {
        Removal::Image => seq!["image"@, "rm"@, "-f"@, name],
        Removal::Volume => seq!["volume"@, "rm"@, "-f"@, name],
        Removal::Container => seq!["rm"@, "-f"@, name],
    }
}

/// The words of `podman` that force-remove a resource.
pub fn removal_args(kind: Removal, name: &str) -> (r: Vec<String>)
    ensures
        views(r@) == removal_words(kind, name@),
{
    let mut v: Vec<String> = Vec::new();
    match kind {
        Removal::Image => {
            crate::text::push_string(&mut v, crate::text::owned("image"));
        },
        Removal::Volume => {
            crate::text::push_string(&mut v, crate::text::owned("volume"));
        },
        Removal::Container => {},
    }
    crate::text::push_string(&mut v, crate::text::owned("rm"));
    crate::text::push_string(&mut v, crate::text::owned("-f"));
    crate::text::push_string(&mut v, crate::text::owned(name));
    assert(views(v@) =~= removal_words(kind, name@));
    v
}

/// A removal succeeds when podman succeeds or exits with 1 (nothing to
/// remove); any other status is an error naming the command.
pub fn removal_outcome(kind: Removal, name: &str, success: bool, code: Option<i32>) -> (r: Result<(), SboxError>)
    ensures
        (success || code == Some(1i32)) ==> r is Ok,
        !(success || code == Some(1i32)) ==> (r matches Err(SboxError::BackendCommandFailed { backend, command, status })
            && backend@ == "podman"@ && command@ == "podman "@ + crate::text::join(removal_words(kind, name@), " "@)
            && status == match code {
            Some(c) => c,
            None => 1,
        }),
{
    if success || code == Some(1i32) {
        return Ok(());
    }
    let words = removal_args(kind, name);
    let line = crate::text::join_strings(words.as_slice(), " ");
    let status = match code {
        Some(c) => c,
        None => 1,
    };
    Err(SboxError::BackendCommandFailed { backend: crate::text::owned("podman"), command: concat2("podman ", line.as_str()), status })
}

/// The scope of a clean: `--all` selects every kind of resource; naming no
/// kind selects the sessions alone; otherwise the scope is exactly the kinds
/// named, so `--caches` selects the caches, `--images` the images and
/// `--sessions` the sessions.
pub proof fn law_clean_scope_is_what_was_named(c: CleanCommand)
    ensures
        c.all ==> scope_of(c) == (true, true, true),
        !c.all && (c.sessions || c.images || c.caches) ==> scope_of(c) == (c.sessions, c.images, c.caches),
        !c.all && !c.sessions && !c.images && !c.caches ==> scope_of(c) == (true, false, false),
        !c.all && c.caches ==> scope_of(c).2,
        !c.all && !c.caches ==> !scope_of(c).2,
{
}

} // verus!
