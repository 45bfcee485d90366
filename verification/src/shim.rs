//! `sbox shim`: the wrapper scripts that route development tools through
//! `sbox run`, where they live, and whether they are active.

use vstd::prelude::*;

use crate::error::SboxError;
use crate::paths::{path_join, path_join_str};
use crate::text::{concat3, contains, owned, push_string, str_contains, str_views};

verus! {

/// The tools that get a shim, in order.
pub open spec fn shim_target_names() -> Seq<Seq<char>> {
    seq![
        "npm"@, "npx"@, "pnpm"@, "yarn"@, "bun"@, "uv"@, "pip"@, "pip3"@, "poetry"@, "cargo"@, "composer"@,
        "bundle"@, "node"@, "python3"@, "python"@, "go"@, "ruby"@,
    ]
}

/// The tools that get a shim, in order.
pub fn shim_targets() -> (r: Vec<&'static str>)
    ensures
        str_views(r@) == shim_target_names(),
{
    let v = vec![
        "npm", "npx", "pnpm", "yarn", "bun", "uv", "pip", "pip3", "poetry", "cargo", "composer", "bundle", "node",
        "python3", "python", "go", "ruby",
    ];
    assert(str_views(v@) =~= shim_target_names());
    v
}

/// The script of a shim: it runs the tool through `sbox run`.
pub open spec fn shim_script_text(sbox_bin: Seq<char>, target: Seq<char>) -> Seq<char> {
    "#!/bin/sh\nexec \""@ + sbox_bin + "\" run -- "@ + target + " \"$@\"\n"@
}

/// The script of a shim for `target`, where `sbox_bin` is the path of sbox.
pub fn shim_script(sbox_bin: &str, target: &str) -> (r: String)
    ensures
        r@ == shim_script_text(sbox_bin@, target@),
{
    let head = concat3("#!/bin/sh\nexec \"", sbox_bin, "\" run -- ");
    concat3(head.as_str(), target, " \"$@\"\n")
}

/// Where the shims live below the home directory.
pub open spec fn shim_dir_of(home: Seq<char>) -> Seq<char> {
    path_join(home, ".local/share/sbox/shims"@)
}

/// The shim directory; `home` is `HOME`, which must be set.
pub fn get_shim_dir(home: Option<&str>) -> (r: Result<String, SboxError>)
    ensures
        match home {
            Some(h) => r matches Ok(d) && d@ == shim_dir_of(h@),
            None => r matches Err(SboxError::Execution(m)) && m@ == "HOME environment variable not set"@,
        },
{
    match home {
        Some(h) => Ok(path_join_str(h, ".local/share/sbox/shims")),
        None => Err(SboxError::Execution(owned("HOME environment variable not set"))),
    }
}

/// What `sbox shim verify` reports: whether `PATH` mentions the shim
/// directory, and the lines it prints.
pub open spec fn verify_report(path_var: Seq<char>, shim_dir: Seq<char>) -> (bool, Seq<Seq<char>>) {
    if contains(path_var, shim_dir) {
        (true, seq!["✓ sbox shim directory ("@ + shim_dir + ") is active in PATH."@])
    } else {
        (
            false,
            seq![
                "✗ sbox shim directory ("@ + shim_dir + ") is NOT in PATH."@,
                "Add it by running: export PATH=\""@ + shim_dir + ":$PATH\""@,
            ],
        )
    }
}

/// Whether the shims are active, and the lines `sbox shim verify` prints;
/// `path_var` is `PATH` (empty when unset).
pub fn verify_shims(path_var: &str, shim_dir: &str) -> (r: (bool, Vec<String>))
    ensures
        (r.0, crate::text::views(r.1@)) == verify_report(path_var@, shim_dir@),
{
    let mut lines: Vec<String> = Vec::new();
    if str_contains(path_var, shim_dir) {
        push_string(&mut lines, concat3("✓ sbox shim directory (", shim_dir, ") is active in PATH."));
        assert(crate::text::views(lines@) =~= verify_report(path_var@, shim_dir@).1);
        (true, lines)
    } else {
        push_string(&mut lines, concat3("✗ sbox shim directory (", shim_dir, ") is NOT in PATH."));
        push_string(&mut lines, concat3("Add it by running: export PATH=\"", shim_dir, ":$PATH\""));
        assert(crate::text::views(lines@) =~= verify_report(path_var@, shim_dir@).1);
        (false, lines)
    }
}

/// The line that tells how to activate the shims.
pub fn activation_line(shim_dir: &str) -> (r: String)
    ensures
        r@ == "  export PATH=\""@ + shim_dir@ + ":$PATH\""@,
{
    concat3("  export PATH=\"", shim_dir, ":$PATH\"")
}

} // verus!
