//! `sbox bootstrap`: the lockfile-only install of a package manager, and what
//! to run after it.

use vstd::prelude::*;

use crate::error::SboxError;
use crate::text::{concat3, eq_str, owned, str_views, views};

verus! {

/// The command that writes a package manager's lockfile without running
/// install scripts, if one is known.
pub open spec fn bootstrap_words(pm: Seq<char>) -> Option<Seq<Seq<char>>> {
    if pm == "npm"@ {
        Some(seq!["npm"@, "install"@, "--ignore-scripts"@])
    } else if pm == "yarn"@ {
        Some(seq!["yarn"@, "install"@, "--ignore-scripts"@])
    } else if pm == "pnpm"@ {
        Some(seq!["pnpm"@, "install"@, "--ignore-scripts"@])
    } else if pm == "bun"@ {
        Some(seq!["bun"@, "install"@, "--no-scripts"@])
    } else if pm == "uv"@ {
        Some(seq!["uv"@, "lock"@])
    } else if pm == "pip"@ {
        Some(seq!["pip"@, "install"@, "-r"@, "requirements.txt"@])
    } else if pm == "poetry"@ {
        Some(seq!["poetry"@, "lock"@])
    } else if pm == "cargo"@ {
        Some(seq!["cargo"@, "fetch"@])
    } else if pm == "go"@ {
        Some(seq!["go"@, "mod"@, "download"@])
    } else {
        None
    }
}

/// The message when no bootstrap command is known.
pub open spec fn no_bootstrap_message(pm: Seq<char>) -> Seq<char> {
    "no bootstrap command known for package manager `"@ + pm
        + "`; generate the lockfile manually and run `sbox run` directly"@
}

pub(crate) fn owned_words(words: &Vec<&'static str>) -> (r: Vec<String>)
    ensures
        views(r@) == str_views(words@),
{
    let mut out: Vec<String> = Vec::new();
    let mut i: usize = 0;
    while i < words.len()
        invariant
            i <= words@.len(),
            views(out@) == str_views(words@).take(i as int),
        decreases words@.len() - i,
    {
        crate::text::push_string(&mut out, owned(words[i]));
        assert(views(out@) =~= str_views(words@).take(i + 1));
        i = i + 1;
    }
    assert(str_views(words@).take(words@.len() as int) =~= str_views(words@));
    out
}

/// The lockfile-only command of a package manager.
pub fn bootstrap_command_for(pm_name: &str) -> (r: Result<Vec<String>, SboxError>)
    ensures
        match bootstrap_words(pm_name@) {
            Some(w) => r is Ok && views(r->Ok_0@) == w,
            None => r matches Err(SboxError::ConfigValidation { message }) && message@ == no_bootstrap_message(
                pm_name@,
            ),
        },
{
    proof {
        reveal_strlit("npm");
        reveal_strlit("yarn");
        reveal_strlit("pnpm");
        reveal_strlit("bun");
        reveal_strlit("uv");
        reveal_strlit("pip");
        reveal_strlit("poetry");
        reveal_strlit("cargo");
        reveal_strlit("go");
    }
    let words: Vec<&'static str> = if eq_str(pm_name, "npm") {
        vec!["npm", "install", "--ignore-scripts"]
    } else if eq_str(pm_name, "yarn") {
        vec!["yarn", "install", "--ignore-scripts"]
    } else if eq_str(pm_name, "pnpm") {
        vec!["pnpm", "install", "--ignore-scripts"]
    } else if eq_str(pm_name, "bun") {
        vec!["bun", "install", "--no-scripts"]
    } else if eq_str(pm_name, "uv") {
        vec!["uv", "lock"]
    } else if eq_str(pm_name, "pip") {
        vec!["pip", "install", "-r", "requirements.txt"]
    } else if eq_str(pm_name, "poetry") {
        vec!["poetry", "lock"]
    } else if eq_str(pm_name, "cargo") {
        vec!["cargo", "fetch"]
    } else if eq_str(pm_name, "go") {
        vec!["go", "mod", "download"]
    } else {
        return Err(
            SboxError::ConfigValidation {
                message: concat3(
                    "no bootstrap command known for package manager `",
                    pm_name,
                    "`; generate the lockfile manually and run `sbox run` directly",
                ),
            },
        );
    };
    assert(bootstrap_words(pm_name@) == Some(str_views(words@)));
    Ok(owned_words(&words))
}

/// What to run after the lockfile is written.
pub open spec fn rebuild_words(pm: Seq<char>) -> Seq<char> {
    if pm == "npm"@ {
        "npm rebuild                  # runs install scripts, network off"@
    } else if pm == "yarn"@ {
        "yarn install                 # runs install scripts, network off"@
    } else if pm == "pnpm"@ {
        "pnpm rebuild                 # runs install scripts, network off"@
    } else if pm == "bun"@ {
        "bun install                  # runs install scripts, network off"@
    } else if pm == "uv"@ {
        "uv sync                      # install from lockfile, network off"@
    } else if pm == "pip"@ {
        "pip install -r requirements.txt  # install from requirements"@
    } else if pm == "poetry"@ {
        "poetry install               # install from lockfile, network off"@
    } else if pm == "cargo"@ {
        "cargo build                  # compile from fetched sources"@
    } else if pm == "go"@ {
        "go build ./...               # compile from downloaded modules"@
    } else {
        "<install-command>"@
    }
}

/// What to run after the lockfile is written.
pub fn rebuild_hint(pm_name: &str) -> (r: &'static str)
    ensures
        r@ == rebuild_words(pm_name@),
{
    proof {
        reveal_strlit("npm");
        reveal_strlit("yarn");
        reveal_strlit("pnpm");
        reveal_strlit("bun");
        reveal_strlit("uv");
        reveal_strlit("pip");
        reveal_strlit("poetry");
        reveal_strlit("cargo");
        reveal_strlit("go");
    }
    if eq_str(pm_name, "npm") {
        "npm rebuild                  # runs install scripts, network off"
    } else if eq_str(pm_name, "yarn") {
        "yarn install                 # runs install scripts, network off"
    } else if eq_str(pm_name, "pnpm") {
        "pnpm rebuild                 # runs install scripts, network off"
    } else if eq_str(pm_name, "bun") {
        "bun install                  # runs install scripts, network off"
    } else if eq_str(pm_name, "uv") {
        "uv sync                      # install from lockfile, network off"
    } else if eq_str(pm_name, "pip") {
        "pip install -r requirements.txt  # install from requirements"
    } else if eq_str(pm_name, "poetry") {
        "poetry install               # install from lockfile, network off"
    } else if eq_str(pm_name, "cargo") {
        "cargo build                  # compile from fetched sources"
    } else if eq_str(pm_name, "go") {
        "go build ./...               # compile from downloaded modules"
    } else {
        "<install-command>"
    }
}

} // verus!
