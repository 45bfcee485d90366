//! Decisions taken just before a container runs: which output files are
//! seeded or copied out afterwards, what a new lockfile starts with, which
//! image runs, and whether its signature is checked.

use vstd::prelude::*;

use crate::error::SboxError;
use crate::paths::{components, path_components};
use crate::proxy::{trim, trim_str};
use crate::resolve::{ExecutionPlan, ResolvedImageSource, ResolvedMount};
use crate::text::{
    concat3, eq_str, has_char, owned, seq_has, seg_views, split_char, starts_with, str_starts_with, strings_contain,
    views, words,
};

verus! {

/// `Path::file_name`: the last component, unless it is `..` or there is none.
pub open spec fn file_name_of(p: Seq<char>) -> Option<Seq<char>> {
    let c = components(p);
    if c.len() > 0 && c.last() != ".."@ {
        Some(c.last())
    } else {
        None
    }
}

/// `Path::extension().is_some()`: the file name has a `.` after its first character.
pub open spec fn has_extension(p: Seq<char>) -> bool {
    match file_name_of(p) {
        Some(n) => exists|i: int| 1 <= i < n.len() && n[i] == '.',
        None => false,
    }
}

proof fn lemma_extension_at(p: Seq<char>, n: Seq<char>, k: int)
    requires
        file_name_of(p) == Some(n),
        1 <= k < n.len(),
        n[k] == '.',
    ensures
        has_extension(p),
{
    let fname = file_name_of(p).unwrap();
    assert(fname == n);
    assert(fname[k] == '.');
}

/// The file name of a path.
pub fn file_name(p: &str) -> (r: Option<String>)
    ensures
        match file_name_of(p@) {
            Some(n) => r is Some && r->Some_0@ == n,
            None => r is None,
        },
{
    proof {
        reveal_strlit("..");
    }
    let c = path_components(p);
    if c.len() == 0 {
        return None;
    }
    assert(seg_views(c@)[c@.len() - 1] == c@[c@.len() - 1]@);
    let last = crate::text::string_from_chars(c[c.len() - 1].as_slice());
    if eq_str(last.as_str(), "..") {
        None
    } else {
        Some(last)
    }
}

/// Whether a path has an extension.
pub fn path_has_extension(p: &str) -> (r: bool)
    ensures
        r == has_extension(p@),
{
    match file_name(p) {
        None => false,
        Some(n) => {
            let cs = crate::text::str_chars(n.as_str());
            let mut i: usize = 1;
            while i < cs.len()
                invariant
                    cs@ == n@,
                    file_name_of(p@) == Some(n@),
                    1 <= i,
                    forall|j: int| 1 <= j < i && j < cs@.len() ==> cs@[j] != '.',
                decreases cs@.len() - i,
            {
                if cs[i] == '.' {
                    proof {
                        lemma_extension_at(p@, n@, i as int);
                    }
                    return true;
                }
                i = i + 1;
            }
            false
        },
    }
}

/// A bind mount of an output file that should exist before the run: to be
/// created, writable, a file (it has an extension), and missing.
pub open spec fn needs_seed(m: ResolvedMount, existing: Seq<Seq<char>>) -> bool {
    m.kind@ == "bind"@ && m.create && !m.read_only && match m.source {
        Some(s) => has_extension(s@) && !seq_has(existing, s@),
        None => false,
    }
}

/// The sources of the output files to seed before a run, in order.
pub open spec fn seed_sources(ms: Seq<ResolvedMount>, existing: Seq<Seq<char>>) -> Seq<Seq<char>>
    decreases ms.len(),
{
    if ms.len() == 0 {
        Seq::empty()
    } else {
        let rest = seed_sources(ms.drop_last(), existing);
        if needs_seed(ms.last(), existing) {
            rest.push(ms.last().source.unwrap()@)
        } else {
            rest
        }
    }
}

/// The sources of the output files to seed before a run.
pub fn outputs_to_seed(mounts: &Vec<ResolvedMount>, existing: &Vec<String>) -> (r: Vec<String>)
    ensures
        views(r@) == seed_sources(mounts@, views(existing@)),
{
    proof {
        reveal_strlit("bind");
    }
    let mut out: Vec<String> = Vec::new();
    let mut i: usize = 0;
    assert(mounts@.take(0) =~= Seq::<ResolvedMount>::empty());
    assert(views(out@) =~= Seq::<Seq<char>>::empty());
    while i < mounts.len()
        invariant
            i <= mounts@.len(),
            views(out@) == seed_sources(mounts@.take(i as int), views(existing@)),
        decreases mounts@.len() - i,
    {
        assert(mounts@.take(i + 1).drop_last() =~= mounts@.take(i as int));
        assert(mounts@.take(i + 1).last() == mounts@[i as int]);
        let m = &mounts[i];
        if eq_str(m.kind.as_str(), "bind") && m.create && !m.read_only {
            match &m.source {
                Some(s) => {
                    if path_has_extension(s.as_str()) && !strings_contain(existing.as_slice(), s.as_str()) {
                        crate::text::push_string(&mut out, s.clone());
                    }
                },
                None => {},
            }
        }
        i = i + 1;
    }
    assert(mounts@.take(mounts@.len() as int) =~= mounts@);
    out
}

/// An output file to copy out of the container after the run.
pub struct PendingOutput {
    pub container_target: String,
    pub final_path: String,
}

/// A bind mount whose file is copied out after the run instead of being
/// mounted: to be created, a file, and still missing.
pub open spec fn is_pending(m: ResolvedMount, existing: Seq<Seq<char>>) -> bool {
    m.kind@ == "bind"@ && m.create && match m.source {
        Some(s) => has_extension(s@) && !seq_has(existing, s@),
        None => false,
    }
}

/// The mounts kept for the run, in order.
pub open spec fn kept_mounts(ms: Seq<ResolvedMount>, existing: Seq<Seq<char>>) -> Seq<ResolvedMount>
    decreases ms.len(),
{
    if ms.len() == 0 {
        Seq::empty()
    } else {
        let rest = kept_mounts(ms.drop_last(), existing);
        if is_pending(ms.last(), existing) {
            rest
        } else {
            rest.push(ms.last())
        }
    }
}

/// The files copied out after the run: container path and host path, in order.
pub open spec fn pending_files(ms: Seq<ResolvedMount>, existing: Seq<Seq<char>>) -> Seq<(Seq<char>, Seq<char>)>
    decreases ms.len(),
{
    if ms.len() == 0 {
        Seq::empty()
    } else {
        let rest = pending_files(ms.drop_last(), existing);
        if is_pending(ms.last(), existing) {
            rest.push((ms.last().target@, ms.last().source.unwrap()@))
        } else {
            rest
        }
    }
}

/// A mount by its fields' characters.
pub open spec fn mount_fields(m: ResolvedMount) -> (Seq<char>, Option<Seq<char>>, Seq<char>, bool, bool, bool) {
    (
        m.kind@,
        match m.source {
            Some(s) => Some(s@),
            None => None,
        },
        m.target@,
        m.read_only,
        m.is_workspace,
        m.create,
    )
}

fn copy_mount(m: &ResolvedMount) -> (r: ResolvedMount)
    ensures
        mount_fields(r) == mount_fields(*m),
{
    ResolvedMount {
        kind: m.kind.clone(),
        source: match &m.source {
            Some(s) => Some(s.clone()),
            None => None,
        },
        target: m.target.clone(),
        read_only: m.read_only,
        is_workspace: m.is_workspace,
        create: m.create,
    }
}

/// Splits the mounts into those passed to the engine and the output files
/// copied out after the run; `existing` are the host paths that exist once
/// the seeds are written.
pub fn partition_pending_outputs(mounts: &Vec<ResolvedMount>, existing: &Vec<String>) -> (r: (
    Vec<ResolvedMount>,
    Vec<PendingOutput>,
))
    ensures
        r.0@.map_values(|m: ResolvedMount| mount_fields(m)) == kept_mounts(mounts@, views(existing@)).map_values(
            |m: ResolvedMount| mount_fields(m),
        ),
        r.1@.map_values(|p: PendingOutput| (p.container_target@, p.final_path@)) == pending_files(
            mounts@,
            views(existing@),
        ),
{
    proof {
        reveal_strlit("bind");
    }
    let ghost ex = views(existing@);
    let mut kept: Vec<ResolvedMount> = Vec::new();
    let mut pending: Vec<PendingOutput> = Vec::new();
    let mut i: usize = 0;
    assert(mounts@.take(0) =~= Seq::<ResolvedMount>::empty());
    while i < mounts.len()
        invariant
            ex == views(existing@),
            i <= mounts@.len(),
            kept@.map_values(|m: ResolvedMount| mount_fields(m)) == kept_mounts(mounts@.take(i as int), ex).map_values(
                |m: ResolvedMount| mount_fields(m),
            ),
            pending@.map_values(|p: PendingOutput| (p.container_target@, p.final_path@)) == pending_files(
                mounts@.take(i as int),
                ex,
            ),
        decreases mounts@.len() - i,
    {
        assert(mounts@.take(i + 1).drop_last() =~= mounts@.take(i as int));
        assert(mounts@.take(i + 1).last() == mounts@[i as int]);
        let m = &mounts[i];
        let pending_here = eq_str(m.kind.as_str(), "bind") && m.create && match &m.source {
            Some(s) => path_has_extension(s.as_str()) && !strings_contain(existing.as_slice(), s.as_str()),
            None => false,
        };
        assert(pending_here == is_pending(*m, ex));
        let ghost kb = kept@;
        let ghost pb = pending@;
        if pending_here {
            let src = match &m.source {
                Some(s) => s.clone(),
                None => String::new(),
            };
            pending.push(PendingOutput { container_target: m.target.clone(), final_path: src });
            assert(pending@.map_values(|p: PendingOutput| (p.container_target@, p.final_path@)) =~= pb.map_values(
                |p: PendingOutput| (p.container_target@, p.final_path@),
            ).push((m.target@, m.source.unwrap()@)));
            assert(kept@ == kb);
        } else {
            let c = copy_mount(m);
            kept.push(c);
            assert(kept@.map_values(|m: ResolvedMount| mount_fields(m)) =~= kb.map_values(
                |m: ResolvedMount| mount_fields(m),
            ).push(mount_fields(*m)));
            assert(kept_mounts(mounts@.take(i + 1), ex) == kept_mounts(mounts@.take(i as int), ex).push(*m));
            assert(kept_mounts(mounts@.take(i + 1), ex).map_values(|m: ResolvedMount| mount_fields(m)) =~= kept_mounts(
                mounts@.take(i as int),
                ex,
            ).map_values(|m: ResolvedMount| mount_fields(m)).push(mount_fields(*m)));
        }
        i = i + 1;
    }
    assert(mounts@.take(mounts@.len() as int) =~= mounts@);
    (kept, pending)
}

// ---------------------------------------------------------------------------
// Lockfile seeds
// ---------------------------------------------------------------------------

/// The value of the first `requires-python = …` line of a `pyproject.toml`'s
/// lines: the text between quotes (double or single), else the first word;
/// lines starting with `#` are skipped, a line with an empty value is passed
/// over, and a `requires-python` line without `=` or without a value ends
/// the search with nothing.
pub open spec fn requires_python_in(lines: Seq<Seq<char>>) -> Option<Seq<char>>
    decreases lines.len(),
{
    if lines.len() == 0 {
        None
    } else {
        let t = trim(lines[0]);
        if starts_with(t, "#"@) || !starts_with(t, "requires-python"@) {
            requires_python_in(lines.drop_first())
        } else {
            let rest = trim(t.skip(15));
            if !starts_with(rest, "="@) {
                None
            } else {
                let r2 = trim(rest.skip(1));
                let value = if starts_with(r2, "\""@) {
                    Some(split_char(r2.skip(1), '"')[0])
                } else if starts_with(r2, "'"@) {
                    Some(split_char(r2.skip(1), '\'')[0])
                } else if words(r2).len() > 0 {
                    Some(words(r2)[0])
                } else {
                    None
                };
                match value {
                    None => None,
                    Some(v) => if v.len() > 0 {
                        Some(v)
                    } else {
                        requires_python_in(lines.drop_first())
                    },
                }
            }
        }
    }
}

fn first_piece(s: &str, c: char) -> (r: String)
    ensures
        r@ == split_char(s@, c)[0],
{
    let cs = crate::text::str_chars(s);
    let segs = crate::text::split_chars_on(&cs, c);
    proof {
        crate::text::lemma_split_char_nonempty(s@, c);
    }
    assert(seg_views(segs@)[0] == segs@[0]@);
    crate::text::string_from_chars(segs[0].as_slice())
}

/// The `requires-python` value of a `pyproject.toml`'s text.
pub fn read_requires_python(content: &str) -> (r: Option<String>)
    ensures
        match requires_python_in(crate::backend::args::text_lines(content@)) {
            Some(v) => r is Some && r->Some_0@ == v,
            None => r is None,
        },
{
    proof {
        reveal_strlit("#");
        reveal_strlit("requires-python");
        reveal_strlit("=");
        reveal_strlit("\"");
        reveal_strlit("'");
    }
    let lines = crate::backend::args::lines_of(content);
    let ghost lv = views(lines@);
    let mut i: usize = 0;
    assert(lv.skip(0) =~= lv);
    while i < lines.len()
        invariant
            lv == views(lines@),
            lv == crate::backend::args::text_lines(content@),
            i <= lv.len(),
            requires_python_in(lv) == requires_python_in(lv.skip(i as int)),
        decreases lv.len() - i,
    {
        proof {
            reveal_strlit("#");
            reveal_strlit("requires-python");
            reveal_strlit("=");
            reveal_strlit("\"");
            reveal_strlit("'");
        }
        assert(lv.skip(i as int)[0] == lines@[i as int]@);
        assert(lv.skip(i as int).drop_first() =~= lv.skip(i + 1));
        let t = trim_str(lines[i].as_str());
        if !str_starts_with(t.as_str(), "#") && str_starts_with(t.as_str(), "requires-python") {
            let after = crate::text::str_skip(t.as_str(), 15);
            let rest = trim_str(after.as_str());
            if !str_starts_with(rest.as_str(), "=") {
                return None;
            }
            let after_eq = crate::text::str_skip(rest.as_str(), 1);
            let r2 = trim_str(after_eq.as_str());
            let value = if str_starts_with(r2.as_str(), "\"") {
                let inner = crate::text::str_skip(r2.as_str(), 1);
                Some(first_piece(inner.as_str(), '"'))
            } else if str_starts_with(r2.as_str(), "'") {
                let inner = crate::text::str_skip(r2.as_str(), 1);
                Some(first_piece(inner.as_str(), '\''))
            } else {
                let w = crate::text::split_words(r2.as_str());
                if w.len() > 0 {
                    Some(w[0].clone())
                } else {
                    None
                }
            };
            match value {
                None => {
                    return None;
                },
                Some(v) => {
                    if crate::text::str_chars(v.as_str()).len() > 0 {
                        return Some(v);
                    }
                },
            }
        }
        i = i + 1;
    }
    None
}

/// What a new lockfile starts with, so that tools that read it before
/// writing it can parse it.
pub open spec fn seed_text(file_name: Seq<char>, requires_python: Option<Seq<char>>) -> Seq<char> {
    if file_name == "uv.lock"@ {
        "version = 1\nrequires-python = \""@ + match requires_python {
            Some(v) => v,
            None => ">=3.8"@,
        } + "\"\n"@
    } else if file_name == "Cargo.lock"@ {
        "version = 3\n"@
    } else if file_name == "package-lock.json"@ {
        "{\"lockfileVersion\":3}"@
    } else if file_name == "composer.lock"@ {
        "{}"@
    } else {
        Seq::empty()
    }
}

/// What a new lockfile starts with; `pyproject` is the text of the
/// workspace's `pyproject.toml`, when it could be read.
pub fn lockfile_seed(file_name: &str, pyproject: &Option<String>) -> (r: String)
    ensures
        r@ == seed_text(
            file_name@,
            match pyproject {
                Some(t) => requires_python_in(crate::backend::args::text_lines(t@)),
                None => None,
            },
        ),
{
    proof {
        reveal_strlit("uv.lock");
        reveal_strlit("Cargo.lock");
        reveal_strlit("package-lock.json");
        reveal_strlit("composer.lock");
    }
    if eq_str(file_name, "uv.lock") {
        let rp = match pyproject {
            Some(t) => read_requires_python(t.as_str()),
            None => None,
        };
        let v = match rp {
            Some(v) => v,
            None => owned(">=3.8"),
        };
        concat3("version = 1\nrequires-python = \"", v.as_str(), "\"\n")
    } else if eq_str(file_name, "Cargo.lock") {
        owned("version = 3\n")
    } else if eq_str(file_name, "package-lock.json") {
        owned("{\"lockfileVersion\":3}")
    } else if eq_str(file_name, "composer.lock") {
        owned("{}")
    } else {
        String::new()
    }
}

// ---------------------------------------------------------------------------
// The image
// ---------------------------------------------------------------------------

/// The image a plan runs: its reference, or its local build's tag once the
/// build has been made.
pub fn resolve_container_image(plan: &ExecutionPlan) -> (r: String)
    ensures
        r@ == match plan.image.source {
            ResolvedImageSource::Reference(x) => x@,
            ResolvedImageSource::Build { tag, .. } => tag@,
        },
{
    match &plan.image.source {
        ResolvedImageSource::Reference(x) => x.clone(),
        ResolvedImageSource::Build { tag, .. } => tag.clone(),
    }
}

/// The reference whose signature is checked before a run: none when the
/// plan does not ask for it; a local build cannot be checked.
pub fn signature_target(plan: &ExecutionPlan) -> (r: Result<Option<String>, SboxError>)
    ensures
        !plan.image.verify_signature ==> r matches Ok(None),
        plan.image.verify_signature ==> match plan.image.source {
            ResolvedImageSource::Reference(x) => r matches Ok(Some(y)) && y@ == x@,
            ResolvedImageSource::Build { tag, .. } => r matches Err(
                SboxError::SignatureVerificationUnavailable { image, reason },
            ) && image@ == tag@ && reason@ == "signature verification is not implemented for local build images"@,
        },
{
    if !plan.image.verify_signature {
        return Ok(None);
    }
    match &plan.image.source {
        ResolvedImageSource::Reference(x) => Ok(Some(x.clone())),
        ResolvedImageSource::Build { tag, .. } => Err(
            SboxError::SignatureVerificationUnavailable {
                image: tag.clone(),
                reason: owned("signature verification is not implemented for local build images"),
            },
        ),
    }
}


/// The name a one-off container gets when output files are copied out of
/// it after the run: `sbox-<pid>`, from this process's id; none otherwise.
pub fn run_container_name(has_pending: bool, pid: u32) -> (r: Option<String>)
    ensures
        has_pending ==> (r matches Some(n) && n@ == "sbox-"@ + crate::text::decimal(pid as nat)),
        !has_pending ==> r is None,
{
    if has_pending {
        let n = crate::text::format_decimal(pid as u64);
        Some(crate::text::concat2("sbox-", n.as_str()))
    } else {
        None
    }
}

/// The words of `podman` that copy an output file out of the container.
pub fn copy_out_args(container_name: &str, p: &PendingOutput) -> (r: Vec<String>)
    ensures
        views(r@) == seq!["cp"@, container_name@ + ":"@ + p.container_target@, p.final_path@],
{
    let mut v: Vec<String> = Vec::new();
    crate::text::push_string(&mut v, owned("cp"));
    crate::text::push_string(&mut v, crate::text::concat3(container_name, ":", p.container_target.as_str()));
    crate::text::push_string(&mut v, p.final_path.clone());
    assert(views(v@) =~= seq!["cp"@, container_name@ + ":"@ + p.container_target@, p.final_path@]);
    v
}

} // verus!
