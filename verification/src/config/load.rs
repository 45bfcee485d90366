//! Where the configuration is found and which workspace it describes: path
//! normalization, the search for `sbox.yaml`, and the checks a freshly read
//! configuration goes through.

use vstd::prelude::*;

use crate::config::model::Config;
use crate::config::package_manager::{elaborate, elaborates, msg_unknown_pm, preset_named};
use crate::config::validate::validate_config;
use crate::error::SboxError;
use crate::paths::{components, is_absolute, path_components, path_is_absolute, path_join, path_join_str};
use crate::text::{concat2, join, join_strings, owned, seg_views, string_from_chars, views};

verus! {

/// Where to look for the configuration, as given on the command line.
pub struct LoadOptions {
    pub workspace: Option<String>,
    pub config: Option<String>,
}

/// A configuration read, elaborated and validated, with the directories it
/// applies to.
pub struct LoadedConfig {
    pub invocation_dir: String,
    pub workspace_root: String,
    pub config_path: String,
    pub config: Config,
}

/// The components left after resolving `..` against the ones before it (a
/// `..` with nothing before it is dropped).
pub open spec fn normalized_parts(parts: Seq<Seq<char>>) -> Seq<Seq<char>>
    decreases parts.len(),
{
    if parts.len() == 0 {
        Seq::empty()
    } else {
        let s = normalized_parts(parts.drop_last());
        if parts.last() == seq!['.', '.'] {
            if s.len() > 0 {
                s.drop_last()
            } else {
                s
            }
        } else {
            s.push(parts.last())
        }
    }
}

/// A path with `.` dropped and `..` resolved lexically; an empty relative
/// result is `.`.
pub open spec fn normalize(p: Seq<char>) -> Seq<char> {
    let st = normalized_parts(components(p));
    if is_absolute(p) {
        seq!['/'] + join(st, seq!['/'])
    } else if st.len() == 0 {
        seq!['.']
    } else {
        join(st, seq!['/'])
    }
}

/// `path` made absolute against `base`, then normalized.
pub open spec fn absolutized(path: Seq<char>, base: Seq<char>) -> Seq<char> {
    normalize(path_join(base, path))
}

fn parts_to_strings(parts: &Vec<Vec<char>>) -> (r: Vec<String>)
    ensures
        views(r@) == seg_views(parts@),
{
    let mut out: Vec<String> = Vec::new();
    let mut i: usize = 0;
    while i < parts.len()
        invariant
            i <= parts@.len(),
            views(out@) == seg_views(parts@).take(i as int),
        decreases parts@.len() - i,
    {
        let ghost before = views(out@);
        assert(seg_views(parts@)[i as int] == parts@[i as int]@);
        let s = string_from_chars(parts[i].as_slice());
        assert(s@ == parts@[i as int]@);
        out.push(s);
        assert(views(out@) =~= before.push(s@));
        assert(views(out@) =~= seg_views(parts@).take(i + 1));
        i = i + 1;
    }
    assert(seg_views(parts@).take(parts@.len() as int) =~= seg_views(parts@));
    out
}

/// Lexical normalization of a path (`.` dropped, `..` resolved).
pub fn normalize_path(path: &str) -> (r: String)
    ensures
        r@ == normalize(path@),
{
    let comps = path_components(path);
    let parts = parts_to_strings(&comps);
    let ghost ps = views(parts@);
    let mut stack: Vec<String> = Vec::new();
    let mut i: usize = 0;
    assert(views(stack@) =~= normalized_parts(ps.take(0)));
    while i < parts.len()
        invariant
            ps == views(parts@),
            i <= ps.len(),
            views(stack@) == normalized_parts(ps.take(i as int)),
        decreases ps.len() - i,
    {
        assert(ps.take(i + 1).drop_last() =~= ps.take(i as int));
        assert(ps.take(i + 1).last() == parts@[i as int]@);
        proof {
            reveal_strlit("..");
        }
        if crate::text::eq_str(parts[i].as_str(), "..") {
            assert(ps[i as int] == seq!['.', '.']) by {
                assert(".."@ =~= seq!['.', '.']);
            }
            if stack.len() > 0 {
                let ghost before = stack@;
                stack.pop();
                assert(views(stack@) =~= views(before).drop_last());
            }
        } else {
            assert(ps[i as int] != seq!['.', '.']) by {
                assert(".."@ =~= seq!['.', '.']);
            }
            let ghost before = stack@;
            stack.push(parts[i].clone());
            assert(views(stack@) =~= views(before).push(parts@[i as int]@));
        }
        i = i + 1;
    }
    assert(ps.take(ps.len() as int) =~= ps);
    let joined = join_strings(stack.as_slice(), "/");
    proof {
        reveal_strlit("/");
        reveal_strlit(".");
        assert("/"@ =~= seq!['/']);
        assert("."@ =~= seq!['.']);
    }
    if path_is_absolute(path) {
        concat2("/", joined.as_str())
    } else if stack.len() == 0 {
        owned(".")
    } else {
        joined
    }
}

/// `path` made absolute against `base`, then normalized.
pub fn absolutize_from(path: &str, base: &str) -> (r: String)
    ensures
        r@ == absolutized(path@, base@),
{
    let combined = path_join_str(base, path);
    normalize_path(combined.as_str())
}

/// The directories from `p` up to the root, nearest first, each as the root
/// (for an absolute path) followed by the leading components.
pub open spec fn ancestors(p: Seq<char>) -> Seq<Seq<char>> {
    let c = components(p);
    Seq::new(
        c.len() + 1,
        |k: int|
            if is_absolute(p) {
                seq!['/'] + join(c.take(c.len() - k), seq!['/'])
            } else {
                join(c.take(c.len() - k), seq!['/'])
            },
    )
}

/// The places `sbox.yaml` is looked for, nearest directory first.
pub open spec fn config_candidates(start: Seq<char>) -> Seq<Seq<char>> {
    ancestors(start).map_values(|d: Seq<char>| path_join(d, "sbox.yaml"@))
}

/// The paths at which the configuration is looked for, nearest first.
pub fn config_search_paths(start: &str) -> (r: Vec<String>)
    ensures
        views(r@) == config_candidates(start@),
{
    let comps = path_components(start);
    let parts = parts_to_strings(&comps);
    let abs = path_is_absolute(start);
    let ghost c = views(parts@);
    let mut out: Vec<String> = Vec::new();
    let mut n: usize = parts.len();
    proof {
        reveal_strlit("/");
        assert("/"@ =~= seq!['/']);
    }
    loop
        invariant_except_break
            c == views(parts@),
            c == components(start@),
            abs == is_absolute(start@),
            n <= c.len(),
            views(out@) == config_candidates(start@).take(c.len() - n),
        ensures
            views(out@) == config_candidates(start@).take(c.len() as int + 1),
        decreases n,
    {
        let mut prefix: Vec<String> = Vec::new();
        let mut j: usize = 0;
        while j < n
            invariant
                c == views(parts@),
                n <= c.len(),
                j <= n,
                views(prefix@) == c.take(j as int),
            decreases n - j,
        {
            let ghost before = views(prefix@);
            assert(c[j as int] == parts@[j as int]@);
            let s = parts[j].clone();
            assert(s@ == parts@[j as int]@);
            prefix.push(s);
            assert(views(prefix@) =~= before.push(s@));
            assert(views(prefix@) =~= c.take(j + 1));
            j = j + 1;
        }
        let joined = join_strings(prefix.as_slice(), "/");
        let dir = if abs {
            concat2("/", joined.as_str())
        } else {
            joined
        };
        let candidate = path_join_str(dir.as_str(), "sbox.yaml");
        let ghost k = c.len() - n;
        proof {
            reveal_strlit("/");
            assert("/"@ =~= seq!['/']);
            assert(views(prefix@) == c.take(n as int));
            assert(c.take(c.len() - k) == c.take(n as int));
        }
        assert(ancestors(start@)[k] == dir@);
        let ghost before = views(out@);
        assert(config_candidates(start@)[k] == candidate@);
        let ghost cv = candidate@;
        out.push(candidate);
        assert(views(out@) =~= before.push(cv));
        assert(views(out@) =~= config_candidates(start@).take(k + 1));
        if n == 0 {
            break;
        }
        n = n - 1;
    }
    assert(config_candidates(start@).take(c.len() as int + 1) =~= config_candidates(start@));
    out
}

/// The first of the candidates that exists.
pub open spec fn first_existing(cands: Seq<Seq<char>>, existing: Seq<Seq<char>>) -> Option<Seq<char>>
    decreases cands.len(),
{
    if cands.len() == 0 {
        None
    } else if crate::text::seq_has(existing, cands[0]) {
        Some(cands[0])
    } else {
        first_existing(cands.drop_first(), existing)
    }
}

/// The configuration found by searching from `start` upwards: the nearest
/// `sbox.yaml` that exists (`existing` are the host paths that do), or an
/// error naming `start/sbox.yaml` when there is none.
pub fn find_default_config_path(start: &str, existing: &Vec<String>) -> (r: Result<String, SboxError>)
    ensures
        match first_existing(config_candidates(start@), views(existing@)) {
            Some(p) => r matches Ok(x) && x@ == p,
            None => r matches Err(SboxError::ConfigNotFound { path }) && path@ == path_join(start@, "sbox.yaml"@),
        },
{
    let cands = config_search_paths(start);
    let ghost cv = views(cands@);
    let mut i: usize = 0;
    assert(cv.skip(0) =~= cv);
    while i < cands.len()
        invariant
            cv == views(cands@),
            cv == config_candidates(start@),
            i <= cv.len(),
            first_existing(cv, views(existing@)) == first_existing(cv.skip(i as int), views(existing@)),
        decreases cv.len() - i,
    {
        assert(cv.skip(i as int)[0] == cands@[i as int]@);
        if crate::text::strings_contain(existing.as_slice(), cands[i].as_str()) {
            return Ok(cands[i].clone());
        }
        assert(cv.skip(i as int).drop_first() =~= cv.skip(i + 1));
        i = i + 1;
    }
    assert(cv.skip(cv.len() as int) =~= Seq::<Seq<char>>::empty());
    Err(SboxError::ConfigNotFound { path: path_join_str(start, "sbox.yaml") })
}

/// A configuration file named on the command line must exist.
pub fn check_explicit_config(path: &str, exists: bool) -> (r: Result<String, SboxError>)
    ensures
        exists ==> (r matches Ok(x) && x@ == path@),
        !exists ==> (r matches Err(SboxError::ConfigNotFound { path: p }) && p@ == path@),
{
    if exists {
        Ok(owned(path))
    } else {
        Err(SboxError::ConfigNotFound { path: owned(path) })
    }
}

/// Where the configuration is looked for when no file is named: the
/// workspace given on the command line, else the invocation directory.
pub open spec fn search_start(options: LoadOptions, invocation_dir: Seq<char>) -> Seq<char> {
    match options.workspace {
        Some(w) => absolutized(w@, invocation_dir),
        None => invocation_dir,
    }
}

/// The configuration file named on the command line, made absolute, if any.
pub fn explicit_config_path(options: &LoadOptions, invocation_dir: &str) -> (r: Option<String>)
    ensures
        match options.config {
            Some(c) => r is Some && r.unwrap()@ == absolutized(c@, invocation_dir@),
            None => r is None,
        },
{
    match &options.config {
        Some(c) => Some(absolutize_from(c.as_str(), invocation_dir)),
        None => None,
    }
}

/// The directory the search for `sbox.yaml` starts from.
pub fn config_search_start(options: &LoadOptions, invocation_dir: &str) -> (r: String)
    ensures
        r@ == search_start(*options, invocation_dir@),
{
    match &options.workspace {
        Some(w) => absolutize_from(w.as_str(), invocation_dir),
        None => owned(invocation_dir),
    }
}

/// The directory holding a file: its path without the last component, or
/// `None` for a path with no component.
pub open spec fn parent_dir(p: Seq<char>) -> Option<Seq<char>> {
    let c = components(p);
    if c.len() == 0 {
        None
    } else if is_absolute(p) {
        Some(seq!['/'] + join(c.drop_last(), seq!['/']))
    } else {
        Some(join(c.drop_last(), seq!['/']))
    }
}

pub(crate) fn parent_of(p: &str) -> (r: Option<String>)
    ensures
        match parent_dir(p@) {
            Some(d) => r is Some && r.unwrap()@ == d,
            None => r is None,
        },
{
    let comps = path_components(p);
    let parts = parts_to_strings(&comps);
    if parts.len() == 0 {
        return None;
    }
    let mut prefix: Vec<String> = Vec::new();
    let mut j: usize = 0;
    while j < parts.len() - 1
        invariant
            parts@.len() > 0,
            j <= parts@.len() - 1,
            views(prefix@) == views(parts@).take(j as int),
        decreases parts@.len() - 1 - j,
    {
        let ghost before = views(prefix@);
        assert(views(parts@)[j as int] == parts@[j as int]@);
        let s = parts[j].clone();
        assert(s@ == parts@[j as int]@);
        prefix.push(s);
        assert(views(prefix@) =~= before.push(s@));
        assert(views(prefix@) =~= views(parts@).take(j + 1));
        j = j + 1;
    }
    assert(views(parts@).take(parts@.len() - 1) =~= views(parts@).drop_last());
    let joined = join_strings(prefix.as_slice(), "/");
    proof {
        reveal_strlit("/");
        assert("/"@ =~= seq!['/']);
    }
    if path_is_absolute(p) {
        Some(concat2("/", joined.as_str()))
    } else {
        Some(joined)
    }
}

/// The workspace root a configuration describes: the command line's, else
/// the configured root (relative to the configuration's directory), else the
/// configuration's directory.
pub open spec fn workspace_root_for(options: LoadOptions, invocation_dir: Seq<char>, config_path: Seq<char>, c: Config) -> Seq<char> {
    let config_dir = match parent_dir(config_path) {
        Some(d) => d,
        None => invocation_dir,
    };
    match options.workspace {
        Some(w) => absolutized(w@, invocation_dir),
        None => match c.workspace {
            Some(ws) => match ws.root {
                Some(r) => absolutized(r@, config_dir),
                None => config_dir,
            },
            None => config_dir,
        },
    }
}

/// Finishes loading a configuration read from `config_path`: the package
/// manager preset is elaborated, the result validated (`home` is the user's
/// home directory), and the workspace root settled.
pub fn finish_loading(
    options: &LoadOptions,
    invocation_dir: &str,
    config_path: &str,
    config: Config,
    home: Option<&str>,
) -> (r: Result<LoadedConfig, SboxError>)
    ensures
        config.package_manager is Some && preset_named(config.package_manager->0.name@) is None ==> (r matches Err(
            SboxError::ConfigValidation { message },
        ) && message@ == msg_unknown_pm(config.package_manager->0.name@)),
        r matches Ok(loaded) ==> {
            &&& loaded.invocation_dir@ == invocation_dir@
            &&& loaded.config_path@ == config_path@
            &&& loaded.workspace_root@ == workspace_root_for(*options, invocation_dir@, config_path@, loaded.config)
            &&& elaborates(config, loaded.config)
            &&& crate::config::validate::config_is_valid(loaded.config, crate::config::validate::opt_view(home))
        },
        r is Err && !(config.package_manager is Some && preset_named(config.package_manager->0.name@) is None)
            ==> exists|c: Config|
            #![trigger elaborates(config, c)]
            elaborates(config, c) && !crate::config::validate::config_is_valid(
                c,
                crate::config::validate::opt_view(home),
            ) && (r matches Err(SboxError::ConfigValidation { message }) && message@ == join(
                crate::config::validate::config_errors(c, crate::config::validate::opt_view(home)),
                "\n"@,
            )),
{
    let ghost before = config;
    let mut config = config;
    match elaborate(&mut config) {
        Ok(()) => {},
        Err(e) => return Err(e),
    }
    assert(elaborates(before, config));
    match validate_config(&config, home) {
        Ok(()) => {},
        Err(e) => {
            assert(elaborates(before, config));
            return Err(e);
        },
    }
    let config_dir = match parent_of(config_path) {
        Some(d) => d,
        None => owned(invocation_dir),
    };
    let workspace_root = match &options.workspace {
        Some(w) => absolutize_from(w.as_str(), invocation_dir),
        None => match &config.workspace {
            Some(ws) => match &ws.root {
                Some(root) => absolutize_from(root.as_str(), config_dir.as_str()),
                None => config_dir,
            },
            None => config_dir,
        },
    };
    Ok(
        LoadedConfig {
            invocation_dir: owned(invocation_dir),
            workspace_root,
            config_path: owned(config_path),
            config,
        },
    )
}

} // verus!
