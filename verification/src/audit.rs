//! `sbox audit`: which advisory tool checks a project's dependencies.

use vstd::prelude::*;

use crate::init::{first_file, first_file_hit, pair_strs};
use crate::text::{eq_str, str_views, views};

verus! {

/// The audit tool of a package manager: program, its arguments, and the hint
/// shown when the program is missing.
pub open spec fn audit_tool(pm: Seq<char>) -> (Seq<char>, Seq<Seq<char>>, Seq<char>) {
    if pm == "npm"@ {
        ("npm"@, seq!["audit"@], "npm is required. Install Node.js from https://nodejs.org"@)
    } else if pm == "yarn"@ {
        ("yarn"@, seq!["npm"@, "audit"@], "yarn is required. Install from https://yarnpkg.com"@)
    } else if pm == "pnpm"@ {
        ("pnpm"@, seq!["audit"@], "pnpm is required: npm install -g pnpm"@)
    } else if pm == "bun"@ {
        ("npm"@, seq!["audit"@], "npm is required for bun audit. Install Node.js from https://nodejs.org"@)
    } else if pm == "uv"@ || pm == "pip"@ || pm == "poetry"@ {
        (
            "pip-audit"@,
            Seq::empty(),
            "pip-audit is required: pip install pip-audit  or  uv tool install pip-audit"@,
        )
    } else if pm == "cargo"@ {
        ("cargo"@, seq!["audit"@], "cargo-audit is required: cargo install cargo-audit"@)
    } else if pm == "go"@ {
        (
            "govulncheck"@,
            seq!["./..."@],
            "govulncheck is required: go install golang.org/x/vuln/cmd/govulncheck@latest"@,
        )
    } else {
        ("npm"@, seq!["audit"@], "unknown package manager; defaulting to npm audit"@)
    }
}

/// The audit tool of a package manager.
pub fn audit_command_for(pm_name: &str) -> (r: (&'static str, Vec<&'static str>, &'static str))
    ensures
        (r.0@, str_views(r.1@), r.2@) == audit_tool(pm_name@),
{
    proof {
        reveal_strlit("npm");
        reveal_strlit("yarn");
        reveal_strlit("pnpm");
        reveal_strlit("bun");
        reveal_strlit("uv");
        reveal_strlit("pip");
        reveal_strlit("poetry");
        reveal_strlit("cargo");
        reveal_strlit("go");
    }
    let (program, args, hint): (&'static str, Vec<&'static str>, &'static str) = if eq_str(pm_name, "npm") {
        ("npm", vec!["audit"], "npm is required. Install Node.js from https://nodejs.org")
    } else if eq_str(pm_name, "yarn") {
        ("yarn", vec!["npm", "audit"], "yarn is required. Install from https://yarnpkg.com")
    } else if eq_str(pm_name, "pnpm") {
        ("pnpm", vec!["audit"], "pnpm is required: npm install -g pnpm")
    } else if eq_str(pm_name, "bun") {
        ("npm", vec!["audit"], "npm is required for bun audit. Install Node.js from https://nodejs.org")
    } else if eq_str(pm_name, "uv") || eq_str(pm_name, "pip") || eq_str(pm_name, "poetry") {
        ("pip-audit", Vec::new(), "pip-audit is required: pip install pip-audit  or  uv tool install pip-audit")
    } else if eq_str(pm_name, "cargo") {
        ("cargo", vec!["audit"], "cargo-audit is required: cargo install cargo-audit")
    } else if eq_str(pm_name, "go") {
        ("govulncheck", vec!["./..."], "govulncheck is required: go install golang.org/x/vuln/cmd/govulncheck@latest")
    } else {
        ("npm", vec!["audit"], "unknown package manager; defaulting to npm audit")
    };
    assert((program@, str_views(args@), hint@) =~= audit_tool(pm_name@));
    (program, args, hint)
}

/// Lockfiles that mark a package manager for auditing, in order of priority.
pub open spec fn audit_markers() -> Seq<(Seq<char>, Seq<char>)> {
    seq![
        ("package-lock.json"@, "npm"@),
        ("npm-shrinkwrap.json"@, "npm"@),
        ("yarn.lock"@, "yarn"@),
        ("pnpm-lock.yaml"@, "pnpm"@),
        ("bun.lockb"@, "bun"@),
        ("bun.lock"@, "bun"@),
        ("uv.lock"@, "uv"@),
        ("poetry.lock"@, "poetry"@),
        ("requirements.txt"@, "pip"@),
        ("Cargo.lock"@, "cargo"@),
        ("go.sum"@, "go"@),
    ]
}

/// The package manager a workspace's lockfiles mark, `npm` by default.
pub open spec fn workspace_pm(root: Seq<char>, existing: Seq<Seq<char>>) -> Seq<char> {
    match first_file_hit(root, audit_markers(), existing) {
        Some((_, pm)) => pm,
        None => "npm"@,
    }
}

/// The package manager a workspace's lockfiles mark; `existing` are the host
/// paths that exist.
pub fn detect_pm_from_workspace(root: &str, existing: &Vec<String>) -> (r: &'static str)
    ensures
        r@ == workspace_pm(root@, views(existing@)),
{
    let files: Vec<(&'static str, &'static str)> = vec![
        ("package-lock.json", "npm"),
        ("npm-shrinkwrap.json", "npm"),
        ("yarn.lock", "yarn"),
        ("pnpm-lock.yaml", "pnpm"),
        ("bun.lockb", "bun"),
        ("bun.lock", "bun"),
        ("uv.lock", "uv"),
        ("poetry.lock", "poetry"),
        ("requirements.txt", "pip"),
        ("Cargo.lock", "cargo"),
        ("go.sum", "go"),
    ];
    assert(pair_strs(files@) =~= audit_markers());
    match first_file(root, &files, existing) {
        Some((_, pm)) => pm,
        None => "npm",
    }
}


/// How a dependency audit run before a command ended.
#[derive(Clone, Copy, Debug, PartialEq, Eq, Structural)]
pub enum InlineAuditStatus {
    Clean,
    Findings,
    ToolNotFound,
    Error,
}

/// A dependency audit run before a command: the tool, how it ended, and
/// what it printed.
pub struct InlineAuditResult {
    pub tool: String,
    pub status: InlineAuditStatus,
    pub output: String,
}

} // verus!
