//! The workspace inside the sandbox: where the invocation directory lands,
//! which mounts the container gets, and which workspace files are masked.

use vstd::prelude::*;

use crate::config::model::{Config, MountConfig, MountType, ProfileConfig};
use crate::dispatch::wildcard_matches;
use crate::paths::{
    components, path_join, path_join_str, sandbox_path, strip_leading, strip_leading_str,
    strip_path_prefix, strip_path_prefix_parts, join_sandbox_parts,
};
use crate::resolve::{CwdMapping, ResolvedMount, ResolvedWorkspace};
use crate::text::{
    concat3, eq_str, has_char, owned, seg_views, seq_has, split_char, split_chars_on, str_chars,
    str_has_char, str_views, string_from_chars, views,
};

verus! {

/// `glob_match(s, pattern)`: `*` in the pattern stands for any run of
/// characters, every other character for itself.
pub fn glob_match(s: &str, pattern: &str) -> (r: bool)
    ensures
        r == wildcard_matches(pattern@, s@),
{
    crate::dispatch::matches(pattern, s)
}

/// The last `/`-separated piece of a path: its file name.
pub open spec fn last_piece(p: Seq<char>) -> Seq<char> {
    split_char(p, '/').last()
}

/// Each pattern component matches the path component in the same place,
/// and there are as many of each: a `*` stays within its component.
pub open spec fn components_match(pats: Seq<Seq<char>>, parts: Seq<Seq<char>>) -> bool {
    pats.len() == parts.len() && forall|i: int| 0 <= i < pats.len() ==> wildcard_matches(#[trigger] pats[i], parts[i])
}

/// A workspace-relative path matches an exclusion pattern: with any leading
/// `**/` removed, a pattern holding a `/` is matched against the whole path
/// component by component, any other against the file name; `*` never
/// matches across a `/`.
pub open spec fn exclude_matches(path: Seq<char>, pattern: Seq<char>) -> bool {
    let e = strip_leading(pattern, "**/"@);
    if has_char(e, '/') {
        components_match(split_char(e, '/'), split_char(path, '/'))
    } else {
        wildcard_matches(e, last_piece(path))
    }
}

fn pieces(s: &str) -> (r: Vec<String>)
    ensures
        views(r@) == split_char(s@, '/'),
{
    let cs = str_chars(s);
    let segs = split_chars_on(&cs, '/');
    let mut out: Vec<String> = Vec::new();
    let mut i: usize = 0;
    while i < segs.len()
        invariant
            i <= segs@.len(),
            seg_views(segs@) == split_char(s@, '/'),
            views(out@) == seg_views(segs@).take(i as int),
        decreases segs@.len() - i,
    {
        crate::text::push_string(&mut out, string_from_chars(segs[i].as_slice()));
        assert(views(out@) =~= seg_views(segs@).take(i + 1));
        i = i + 1;
    }
    assert(seg_views(segs@).take(segs@.len() as int) =~= seg_views(segs@));
    out
}

/// Whether a workspace-relative path matches an exclusion pattern.
pub fn exclude_pattern_matches(relative_path: &str, pattern: &str) -> (r: bool)
    ensures
        r == exclude_matches(relative_path@, pattern@),
{
    let effective = strip_leading_str(pattern, "**/");
    if str_has_char(effective.as_str(), '/') {
        let pats = pieces(effective.as_str());
        let parts = pieces(relative_path);
        let ghost pv = views(pats@);
        let ghost sv = views(parts@);
        if pats.len() != parts.len() {
            return false;
        }
        let mut i: usize = 0;
        while i < pats.len()
            invariant
                pats@.len() == parts@.len(),
                pv == views(pats@),
                sv == views(parts@),
                i <= pats@.len(),
                exclude_matches(relative_path@, pattern@) == components_match(pv, sv),
                forall|j: int| 0 <= j < i ==> wildcard_matches(#[trigger] pv[j], sv[j]),
            decreases pats@.len() - i,
        {
            assert(pv[i as int] == pats@[i as int]@);
            assert(sv[i as int] == parts@[i as int]@);
            if !glob_match(parts[i].as_str(), pats[i].as_str()) {
                assert(!wildcard_matches(pv[i as int], sv[i as int]));
                return false;
            }
            i = i + 1;
        }
        true
    } else {
        let cs = str_chars(relative_path);
        let segs = split_chars_on(&cs, '/');
        proof {
            crate::text::lemma_split_char_nonempty(relative_path@, '/');
        }
        let last = &segs[segs.len() - 1];
        assert(last@ == seg_views(segs@).last());
        let name = string_from_chars(last.as_slice());
        glob_match(name.as_str(), effective.as_str())
    }
}

/// A `*` of an exclusion pattern never matches across a `/`: a path matched
/// by a pattern that keeps a `/` has exactly as many components as the
/// pattern, each matched by the pattern's component in its place.
pub proof fn law_exclude_star_stays_in_component(path: Seq<char>, pattern: Seq<char>)
    requires
        has_char(strip_leading(pattern, "**/"@), '/'),
        exclude_matches(path, pattern),
    ensures
        split_char(path, '/').len() == split_char(strip_leading(pattern, "**/"@), '/').len(),
        forall|i: int|
            0 <= i < split_char(path, '/').len() ==> wildcard_matches(
                #[trigger] split_char(strip_leading(pattern, "**/"@), '/')[i],
                split_char(path, '/')[i],
            ),
{
}

/// Directories the workspace walk does not enter: version control, package
/// and build output, tool caches.
pub open spec fn skipped_dirs() -> Seq<Seq<char>> {
    seq![
        ".git"@,
        "node_modules"@,
        "target"@,
        ".venv"@,
        "__pycache__"@,
        "vendor"@,
        "dist"@,
        "build"@,
        ".cache"@,
        ".gradle"@,
        ".tox"@,
    ]
}

/// Whether the workspace walk skips a directory of this name.
pub fn walk_skips_dir(name: &str) -> (r: bool)
    ensures
        r == seq_has(skipped_dirs(), name@),
{
    let names = [
        ".git",
        "node_modules",
        "target",
        ".venv",
        "__pycache__",
        "vendor",
        "dist",
        "build",
        ".cache",
        ".gradle",
        ".tox",
    ];
    assert(str_views(names@) =~= skipped_dirs());
    let mut i: usize = 0;
    while i < 11
        invariant
            i <= 11,
            str_views(names@) == skipped_dirs(),
            forall|j: int| 0 <= j < i ==> skipped_dirs()[j] != name@,
        decreases 11 - i,
    {
        assert(str_views(names@)[i as int] == names[i as int]@);
        if eq_str(names[i], name) {
            assert(skipped_dirs()[i as int] == name@);
            return true;
        }
        i = i + 1;
    }
    false
}

/// A workspace file the walk reaches: no directory on its way is skipped.
pub open spec fn walk_reaches(path: Seq<char>) -> bool {
    forall|i: int| 0 <= i < split_char(path, '/').len() - 1 ==> !seq_has(skipped_dirs(), #[trigger] split_char(path, '/')[i])
}

/// The workspace files an exclusion pattern masks, in walk order.
pub open spec fn excluded(files: Seq<Seq<char>>, pattern: Seq<char>) -> Seq<Seq<char>>
    decreases files.len(),
{
    if files.len() == 0 {
        Seq::empty()
    } else {
        excluded(files.drop_last(), pattern) + if walk_reaches(files.last()) && exclude_matches(files.last(), pattern) {
            seq![files.last()]
        } else {
            Seq::empty()
        }
    }
}

/// Whether the walk reaches a workspace-relative file.
fn reaches(path: &str) -> (r: bool)
    ensures
        r == walk_reaches(path@),
{
    let cs = str_chars(path);
    let segs = split_chars_on(&cs, '/');
    proof {
        crate::text::lemma_split_char_nonempty(path@, '/');
    }
    let mut i: usize = 0;
    while i < segs.len() - 1
        invariant
            seg_views(segs@) == split_char(path@, '/'),
            segs@.len() >= 1,
            i + 1 <= segs@.len(),
            forall|j: int| 0 <= j < i ==> !seq_has(skipped_dirs(), #[trigger] split_char(path@, '/')[j]),
        decreases segs@.len() - i,
    {
        let name = string_from_chars(segs[i].as_slice());
        assert(split_char(path@, '/')[i as int] == segs@[i as int]@);
        if walk_skips_dir(name.as_str()) {
            return false;
        }
        i = i + 1;
    }
    true
}

/// The workspace files, relative to its root in walk order, that an
/// exclusion pattern masks.
pub fn excluded_files(files: &Vec<String>, pattern: &str) -> (r: Vec<String>)
    ensures
        views(r@) == excluded(views(files@), pattern@),
{
    let mut out: Vec<String> = Vec::new();
    let mut i: usize = 0;
    assert(views(out@) =~= excluded(views(files@).take(0), pattern@));
    while i < files.len()
        invariant
            i <= files@.len(),
            views(out@) == excluded(views(files@).take(i as int), pattern@),
        decreases files@.len() - i,
    {
        assert(views(files@).take(i + 1).drop_last() =~= views(files@).take(i as int));
        assert(views(files@).take(i + 1).last() == files@[i as int]@);
        let f = files[i].as_str();
        if reaches(f) && exclude_pattern_matches(f, pattern) {
            let ghost before = views(out@);
            out.push(owned(f));
            assert(views(out@) =~= before.push(f@));
        }
        i = i + 1;
    }
    assert(views(files@).take(files@.len() as int) =~= views(files@));
    out
}

// ---------------------------------------------------------------------------
// The workspace
// ---------------------------------------------------------------------------

/// Where the command runs: the invocation directory's place below the mount
/// when it lies inside the workspace, else the mount point itself.
pub open spec fn workspace_for(root: Seq<char>, invocation_dir: Seq<char>, mount: Seq<char>, w: ResolvedWorkspace) -> bool {
    &&& w.root@ == root
    &&& w.invocation_dir@ == invocation_dir
    &&& w.mount@ == mount
    &&& match strip_path_prefix(invocation_dir, root) {
        Some(parts) => {
            &&& w.effective_host_dir@ == invocation_dir
            &&& w.sandbox_cwd@ == sandbox_path(mount, parts)
            &&& w.cwd_mapping == CwdMapping::InvocationMapped
        },
        None => {
            &&& w.effective_host_dir@ == root
            &&& w.sandbox_cwd@ == mount
            &&& w.cwd_mapping == CwdMapping::WorkspaceRootFallback
        },
    }
}

/// The workspace as the sandbox sees it.
pub fn resolve_workspace(workspace_root: &str, invocation_dir: &str, mount: &str) -> (r: ResolvedWorkspace)
    ensures
        workspace_for(workspace_root@, invocation_dir@, mount@, r),
{
    match strip_path_prefix_parts(invocation_dir, workspace_root) {
        Some(parts) => ResolvedWorkspace {
            root: owned(workspace_root),
            invocation_dir: owned(invocation_dir),
            effective_host_dir: owned(invocation_dir),
            mount: owned(mount),
            sandbox_cwd: join_sandbox_parts(mount, &parts),
            cwd_mapping: CwdMapping::InvocationMapped,
        },
        None => ResolvedWorkspace {
            root: owned(workspace_root),
            invocation_dir: owned(invocation_dir),
            effective_host_dir: owned(workspace_root),
            mount: owned(mount),
            sandbox_cwd: owned(mount),
            cwd_mapping: CwdMapping::WorkspaceRootFallback,
        },
    }
}

// ---------------------------------------------------------------------------
// Mounts
// ---------------------------------------------------------------------------

/// A mount by its fields: kind, source, target, read-only, workspace, create.
pub type MountView = (Seq<char>, Option<Seq<char>>, Seq<char>, bool, bool, bool);

/// A resolved mount by its fields.
pub open spec fn mount_view(m: ResolvedMount) -> MountView {
    (
        m.kind@,
        match m.source {
            Some(s) => Some(s@),
            None => None,
        },
        m.target@,
        m.read_only,
        m.is_workspace,
        m.create,
    )
}

/// Resolved mounts by their fields.
pub open spec fn mount_views(v: Seq<ResolvedMount>) -> Seq<MountView> {
    v.map_values(|m: ResolvedMount| mount_view(m))
}

/// The workspace is mounted writable: the workspace section allows it (by
/// default it does) and so does the profile.
pub open spec fn workspace_writable(c: Config, profile_writable: bool) -> bool {
    (match c.workspace {
        Some(w) => w.writable != Some(false),
        None => true,
    }) && profile_writable
}

/// The paths kept writable inside a read-only workspace: the profile's list
/// when it has one, else the workspace section's.
pub open spec fn writable_paths_of(c: Config, p: ProfileConfig) -> Seq<Seq<char>> {
    match p.writable_paths {
        Some(v) => views(v@),
        None => match c.workspace {
            Some(w) => views(w.writable_paths@),
            None => Seq::empty(),
        },
    }
}

/// The exclusion patterns of the workspace section.
pub open spec fn exclude_patterns_of(c: Config) -> Seq<Seq<char>> {
    match c.workspace {
        Some(w) => views(w.exclude_paths@),
        None => Seq::empty(),
    }
}

/// A writable bind mount of a path below the workspace, created when absent.
pub open spec fn writable_path_mount(root: Seq<char>, mount: Seq<char>, rel: Seq<char>) -> MountView {
    ("bind"@, Some(path_join(root, rel)), mount + "/"@ + rel, false, true, true)
}

/// A configured mount: binds take their source relative to the workspace
/// root, tmpfs mounts have none.
pub open spec fn config_mount(m: MountConfig, root: Seq<char>) -> MountView {
    (
        match m.mount_type {
            MountType::Bind => "bind"@,
            MountType::Tmpfs => "tmpfs"@,
        },
        match m.mount_type {
            MountType::Bind => match m.source {
                Some(s) => Some(path_join(root, s@)),
                None => None,
            },
            MountType::Tmpfs => None,
        },
        match m.target {
            Some(t) => t@,
            None => Seq::empty(),
        },
        m.read_only == Some(true),
        false,
        false,
    )
}

/// A `/dev/null` overlay hiding a workspace file.
pub open spec fn mask_mount(mount: Seq<char>, rel: Seq<char>) -> MountView {
    ("mask"@, None, mount + "/"@ + rel, true, true, false)
}

/// The masks of every pattern, pattern by pattern, each over the files it matches.
pub open spec fn mask_mounts(patterns: Seq<Seq<char>>, files: Seq<Seq<char>>, mount: Seq<char>) -> Seq<MountView>
    decreases patterns.len(),
{
    if patterns.len() == 0 {
        Seq::empty()
    } else {
        mask_mounts(patterns.drop_last(), files, mount) + excluded(files, patterns.last()).map_values(
            |f: Seq<char>| mask_mount(mount, f),
        )
    }
}

/// The mounts of a run: the workspace (read-only unless writable), the
/// writable paths inside a read-only workspace, the configured mounts, and
/// the masks over excluded files.
pub open spec fn planned_mounts(
    c: Config,
    p: ProfileConfig,
    root: Seq<char>,
    mount: Seq<char>,
    profile_writable: bool,
    files: Seq<Seq<char>>,
) -> Seq<MountView> {
    let ww = workspace_writable(c, profile_writable);
    seq![("bind"@, Some(root), mount, !ww, true, false)] + (if ww {
        Seq::empty()
    } else {
        writable_paths_of(c, p).map_values(|rel: Seq<char>| writable_path_mount(root, mount, rel))
    }) + c.mounts@.map_values(|m: MountConfig| config_mount(m, root)) + mask_mounts(
        exclude_patterns_of(c),
        files,
        mount,
    )
}

fn push_mount(v: &mut Vec<ResolvedMount>, m: ResolvedMount)
    ensures
        mount_views(final(v)@) == mount_views(old(v)@).push(mount_view(m)),
{
    let ghost before = v@;
    v.push(m);
    assert(mount_views(v@) =~= mount_views(before).push(mount_view(m)));
}

fn writable_path_mounts(out: &mut Vec<ResolvedMount>, paths: &Vec<String>, root: &str, mount: &str)
    ensures
        mount_views(final(out)@) == mount_views(old(out)@) + views(paths@).map_values(
            |rel: Seq<char>| writable_path_mount(root@, mount@, rel),
        ),
{
    let ghost start = mount_views(out@);
    let mut i: usize = 0;
    while i < paths.len()
        invariant
            i <= paths@.len(),
            mount_views(out@) == start + views(paths@).take(i as int).map_values(
                |rel: Seq<char>| writable_path_mount(root@, mount@, rel),
            ),
        decreases paths@.len() - i,
    {
        let rel = paths[i].as_str();
        push_mount(
            out,
            ResolvedMount {
                kind: owned("bind"),
                source: Some(path_join_str(root, rel)),
                target: concat3(mount, "/", rel),
                read_only: false,
                is_workspace: true,
                create: true,
            },
        );
        proof {
            reveal_strlit("bind");
            reveal_strlit("/");
        }
        assert(views(paths@).take(i + 1).map_values(|rel: Seq<char>| writable_path_mount(root@, mount@, rel))
            =~= views(paths@).take(i as int).map_values(|rel: Seq<char>| writable_path_mount(root@, mount@, rel)).push(
            writable_path_mount(root@, mount@, rel@),
        ));
        i = i + 1;
    }
    assert(views(paths@).take(paths@.len() as int) =~= views(paths@));
}

fn config_mounts(out: &mut Vec<ResolvedMount>, mounts: &Vec<MountConfig>, root: &str)
    requires
        forall|i: int| 0 <= i < mounts@.len() ==> (#[trigger] mounts@[i]).target is Some,
    ensures
        mount_views(final(out)@) == mount_views(old(out)@) + mounts@.map_values(|m: MountConfig| config_mount(m, root@)),
{
    let ghost start = mount_views(out@);
    let mut i: usize = 0;
    while i < mounts.len()
        invariant
            i <= mounts@.len(),
            forall|j: int| 0 <= j < mounts@.len() ==> (#[trigger] mounts@[j]).target is Some,
            mount_views(out@) == start + mounts@.take(i as int).map_values(|m: MountConfig| config_mount(m, root@)),
        decreases mounts@.len() - i,
    {
        let m = &mounts[i];
        let source = match m.mount_type {
            MountType::Bind => match &m.source {
                Some(s) => Some(path_join_str(root, s.as_str())),
                None => None,
            },
            MountType::Tmpfs => None,
        };
        let kind = match m.mount_type {
            MountType::Bind => owned("bind"),
            MountType::Tmpfs => owned("tmpfs"),
        };
        let target = match &m.target {
            Some(t) => t.clone(),
            None => String::new(),
        };
        assert(m.target is Some);
        push_mount(
            out,
            ResolvedMount {
                kind,
                source,
                target,
                read_only: m.read_only == Some(true),
                is_workspace: false,
                create: false,
            },
        );
        assert(mounts@.take(i + 1).map_values(|m: MountConfig| config_mount(m, root@)) =~= mounts@.take(
            i as int,
        ).map_values(|m: MountConfig| config_mount(m, root@)).push(config_mount(*m, root@)));
        i = i + 1;
    }
    assert(mounts@.take(mounts@.len() as int) =~= mounts@);
}

fn mask_mounts_into(out: &mut Vec<ResolvedMount>, patterns: &Vec<String>, files: &Vec<String>, mount: &str)
    ensures
        mount_views(final(out)@) == mount_views(old(out)@) + mask_mounts(views(patterns@), views(files@), mount@),
{
    let ghost start = mount_views(out@);
    let mut i: usize = 0;
    assert(mask_mounts(views(patterns@).take(0), views(files@), mount@) =~= Seq::<MountView>::empty());
    while i < patterns.len()
        invariant
            i <= patterns@.len(),
            mount_views(out@) == start + mask_mounts(views(patterns@).take(i as int), views(files@), mount@),
        decreases patterns@.len() - i,
    {
        assert(views(patterns@).take(i + 1).drop_last() =~= views(patterns@).take(i as int));
        assert(views(patterns@).take(i + 1).last() == patterns@[i as int]@);
        let matched = excluded_files(files, patterns[i].as_str());
        let ghost mid = mount_views(out@);
        let mut k: usize = 0;
        while k < matched.len()
            invariant
                k <= matched@.len(),
                mount_views(out@) == mid + views(matched@).take(k as int).map_values(
                    |f: Seq<char>| mask_mount(mount@, f),
                ),
            decreases matched@.len() - k,
        {
            push_mount(
                out,
                ResolvedMount {
                    kind: owned("mask"),
                    source: None,
                    target: concat3(mount, "/", matched[k].as_str()),
                    read_only: true,
                    is_workspace: true,
                    create: false,
                },
            );
            proof {
                reveal_strlit("mask");
                reveal_strlit("/");
            }
            assert(views(matched@).take(k + 1).map_values(|f: Seq<char>| mask_mount(mount@, f)) =~= views(
                matched@,
            ).take(k as int).map_values(|f: Seq<char>| mask_mount(mount@, f)).push(
                mask_mount(mount@, matched@[k as int]@),
            ));
            k = k + 1;
        }
        assert(views(matched@).take(matched@.len() as int) =~= views(matched@));
        i = i + 1;
    }
    assert(views(patterns@).take(patterns@.len() as int) =~= views(patterns@));
}

/// The mounts of a run, in the order the container engine applies them.
/// `files` are the workspace files relative to its root, in walk order.
pub fn resolve_mounts(
    config: &Config,
    profile: &ProfileConfig,
    workspace_root: &str,
    workspace_mount: &str,
    profile_writable: bool,
    files: &Vec<String>,
) -> (r: Vec<ResolvedMount>)
    requires
        forall|i: int| 0 <= i < config.mounts@.len() ==> (#[trigger] config.mounts@[i]).target is Some,
    ensures
        mount_views(r@) == planned_mounts(
            *config,
            *profile,
            workspace_root@,
            workspace_mount@,
            profile_writable,
            views(files@),
        ),
{
    let ws_writable = match &config.workspace {
        Some(w) => w.writable != Some(false),
        None => true,
    } && profile_writable;
    let mut mounts: Vec<ResolvedMount> = Vec::new();
    assert(mount_views(mounts@) =~= Seq::<MountView>::empty());
    proof {
        reveal_strlit("bind");
    }
    push_mount(
        &mut mounts,
        ResolvedMount {
            kind: owned("bind"),
            source: Some(owned(workspace_root)),
            target: owned(workspace_mount),
            read_only: !ws_writable,
            is_workspace: true,
            create: false,
        },
    );
    let ghost first = mount_views(mounts@);
    if !ws_writable {
        match &profile.writable_paths {
            Some(paths) => writable_path_mounts(&mut mounts, paths, workspace_root, workspace_mount),
            None => match &config.workspace {
                Some(w) => writable_path_mounts(&mut mounts, &w.writable_paths, workspace_root, workspace_mount),
                None => {
                    let none: Vec<String> = Vec::new();
                    writable_path_mounts(&mut mounts, &none, workspace_root, workspace_mount);
                    assert(views(none@) =~= Seq::<Seq<char>>::empty());
                },
            },
        }
    } else {
        assert(first + Seq::<MountView>::empty() =~= first);
    }
    config_mounts(&mut mounts, &config.mounts, workspace_root);
    match &config.workspace {
        Some(w) => mask_mounts_into(&mut mounts, &w.exclude_paths, files, workspace_mount),
        None => {
            let none: Vec<String> = Vec::new();
            mask_mounts_into(&mut mounts, &none, files, workspace_mount);
            assert(views(none@) =~= Seq::<Seq<char>>::empty());
        },
    }
    mounts
}


/// Every configured bind mount names its source (validation asks for it).
pub open spec fn config_binds_sourced(c: Config) -> bool {
    forall|i: int| 0 <= i < c.mounts@.len() && (#[trigger] c.mounts@[i]).mount_type == MountType::Bind ==> c.mounts@[i].source is Some
}

proof fn lemma_masks_are_masks(patterns: Seq<Seq<char>>, files: Seq<Seq<char>>, mount: Seq<char>)
    ensures
        forall|k: int| 0 <= k < mask_mounts(patterns, files, mount).len() ==> (#[trigger] mask_mounts(patterns, files, mount)[k]).0 == "mask"@,
    decreases patterns.len(),
{
    if patterns.len() > 0 {
        lemma_masks_are_masks(patterns.drop_last(), files, mount);
        let a = mask_mounts(patterns.drop_last(), files, mount);
        let b = excluded(files, patterns.last()).map_values(|f: Seq<char>| mask_mount(mount, f));
        assert forall|k: int| 0 <= k < (a + b).len() implies (#[trigger] (a + b)[k]).0 == "mask"@ by {
            if k >= a.len() {
                assert((a + b)[k] == b[k - a.len()]);
            } else {
                assert((a + b)[k] == a[k]);
            }
        }
    }
}

/// The mounts planned for a run give every bind a source when the
/// configured binds name theirs: the workspace and its writable paths
/// always do, masks are no binds.
pub proof fn lemma_planned_binds_have_sources(
    c: Config,
    p: ProfileConfig,
    root: Seq<char>,
    mount: Seq<char>,
    profile_writable: bool,
    files: Seq<Seq<char>>,
    ms: Seq<ResolvedMount>,
)
    requires
        mount_views(ms) == planned_mounts(c, p, root, mount, profile_writable, files),
        config_binds_sourced(c),
    ensures
        crate::backend::args::binds_have_sources(ms),
{
    reveal_strlit("bind");
    reveal_strlit("tmpfs");
    reveal_strlit("mask");
    assert("tmpfs"@[0] != "bind"@[0]);
    assert("mask"@[0] != "bind"@[0]);
    let ww = workspace_writable(c, profile_writable);
    let a: Seq<MountView> = seq![("bind"@, Some(root), mount, !ww, true, false)];
    let b: Seq<MountView> = if ww {
        Seq::empty()
    } else {
        writable_paths_of(c, p).map_values(|rel: Seq<char>| writable_path_mount(root, mount, rel))
    };
    let cm = c.mounts@.map_values(|m: MountConfig| config_mount(m, root));
    let mm = mask_mounts(exclude_patterns_of(c), files, mount);
    lemma_masks_are_masks(exclude_patterns_of(c), files, mount);
    let all = planned_mounts(c, p, root, mount, profile_writable, files);
    assert(all == a + b + cm + mm);
    assert forall|i: int| 0 <= i < ms.len() && (#[trigger] ms[i]).kind@ == "bind"@ implies ms[i].source is Some by {
        assert(mount_views(ms)[i] == mount_view(ms[i]));
        let v = all[i];
        if i < a.len() {
            assert(v == a[i]);
        } else if i < a.len() + b.len() {
            assert(v == b[i - a.len()]);
        } else if i < a.len() + b.len() + cm.len() {
            let j = i - a.len() - b.len();
            assert(v == cm[j]);
            assert(v == config_mount(c.mounts@[j], root));
            if c.mounts@[j].mount_type == MountType::Tmpfs {
                assert(v.0 == "tmpfs"@);
            }
        } else {
            let j = i - a.len() - b.len() - cm.len();
            assert(v == mm[j]);
        }
    }
}

} // verus!
