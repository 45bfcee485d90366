//! The native sandbox's policy for one command: its binary, whether it may
//! reach the network, and where it may write.

use vstd::prelude::*;

use crate::error::SboxError;
use crate::paths::{is_absolute, path_join};
use crate::text::{
    concat3, contains_any, ends_with, has_char, join, join_strings, lowercase, owned, push_string, seq_has, str_contains_any,
    strings_contain, to_lowercase, views,
};

verus! {

/// What the native sandbox allows one command.
pub struct CommandPolicy {
    pub binary_path: String,
    pub program_name: String,
    pub args: Vec<String>,
    pub network_enabled: bool,
    pub writable_paths: Vec<String>,
}

/// Words of a command line that mark it as fetching dependencies.
pub open spec fn network_words() -> Seq<Seq<char>> {
    seq!["install"@, "sync"@, "add"@, "fetch"@, "update"@, "get"@]
}

/// A command needs the network when its lowercased command line mentions
/// installing, syncing, adding, fetching, updating or getting.
pub open spec fn needs_network(cmd: Seq<char>, args: Seq<Seq<char>>) -> bool {
    contains_any(lowercase(cmd + " "@ + join(args, " "@)), network_words())
}

/// Build directories that stay writable when they exist below the working directory.
pub open spec fn build_dirs() -> Seq<Seq<char>> {
    seq!["node_modules"@, "target"@, ".venv"@, "vendor"@, "dist"@, "build"@]
}

/// The build directories below `cwd` that exist, in order.
pub open spec fn existing_build_dirs(cwd: Seq<char>, dirs: Seq<Seq<char>>, existing: Seq<Seq<char>>) -> Seq<Seq<char>>
    decreases dirs.len(),
{
    if dirs.len() == 0 {
        Seq::empty()
    } else {
        existing_build_dirs(cwd, dirs.drop_last(), existing) + if seq_has(existing, path_join(cwd, dirs.last())) {
            seq![path_join(cwd, dirs.last())]
        } else {
            Seq::empty()
        }
    }
}

/// The paths a command may write: the working directory, the temporary
/// directories, and the build directories that exist.
pub open spec fn writable_paths_for(cwd: Seq<char>, existing: Seq<Seq<char>>) -> Seq<Seq<char>> {
    seq![cwd, "/tmp"@, "/var/tmp"@] + existing_build_dirs(cwd, build_dirs(), existing)
}

/// Where a binary found for the command `name` may lie: an absolute name
/// is taken as it stands; a name without `/` is a `PATH` entry joined with
/// it, so it ends in `/` and the name (or is the bare name, for an empty
/// entry when the working directory cannot be read). Names that hold a `/`
/// elsewhere are resolved against the working directory and are not
/// described here.
pub open spec fn found_for(name: Seq<char>, found: Seq<char>) -> bool {
    &&& is_absolute(name) ==> found == name
    &&& !has_char(name, '/') ==> (found == name || ends_with(found, "/"@ + name))
}

/// `which::which`: the first executable file named `name` on `PATH` (an
/// absolute name is checked as it stands), as text. The contract claims
/// only where the result lies relative to `name` (`found_for`), as the
/// crate's path building (`Path::join` of each `PATH` entry with the name)
/// shows; whether and in which directory a file is found depends on the
/// environment and the disk and is left unsaid.
#[verifier::external_body]
fn locate_binary(name: &str) -> (r: Option<String>)
    ensures
        r matches Some(p) ==> found_for(name@, p@),
{
    match which::which(name) {
        Ok(p) => Some(p.to_string_lossy().into_owned()),
        Err(_) => None,
    }
}

impl CommandPolicy {
    /// Whether a command line needs the network.
    pub fn detect_network_policy(cmd: &str, args: &Vec<String>) -> (r: bool)
        ensures
            r == needs_network(cmd@, views(args@)),
    {
        let joined = join_strings(args.as_slice(), " ");
        let line = concat3(cmd, " ", joined.as_str());
        let lower = to_lowercase(line.as_str());
        let words = ["install", "sync", "add", "fetch", "update", "get"];
        assert(crate::text::str_views(words@) =~= network_words());
        str_contains_any(lower.as_str(), &words)
    }

    /// The policy of a command whose binary was found at `binary` (`None`
    /// when it was not), run from `cwd`; `existing_paths` are the host
    /// paths that exist.
    pub fn from_binary(
        binary: Option<String>,
        cmd: &str,
        args: &Vec<String>,
        cwd: &str,
        existing_paths: &Vec<String>,
    ) -> (r: Result<CommandPolicy, SboxError>)
        ensures
            binary is None ==> (r matches Err(SboxError::BinaryNotFound(name)) && name@ == cmd@),
            binary matches Some(b) ==> r matches Ok(p) && p.binary_path@ == b@ && p.program_name@ == cmd@ && views(
                p.args@,
            ) == views(args@) && p.network_enabled == needs_network(cmd@, views(args@)) && views(p.writable_paths@)
                == writable_paths_for(cwd@, views(existing_paths@)),
    {
        let binary_path = match binary {
            Some(b) => b,
            None => return Err(SboxError::BinaryNotFound(owned(cmd))),
        };
        let network_enabled = CommandPolicy::detect_network_policy(cmd, args);
        let mut writable: Vec<String> = Vec::new();
        push_string(&mut writable, owned(cwd));
        push_string(&mut writable, owned("/tmp"));
        push_string(&mut writable, owned("/var/tmp"));
        let ghost head = views(writable@);
        proof {
            reveal_strlit("/tmp");
            reveal_strlit("/var/tmp");
            assert(head =~= seq![cwd@, "/tmp"@, "/var/tmp"@]);
        }
        let dirs = ["node_modules", "target", ".venv", "vendor", "dist", "build"];
        assert(crate::text::str_views(dirs@) =~= build_dirs());
        let mut i: usize = 0;
        while i < 6
            invariant
                i <= 6,
                crate::text::str_views(dirs@) == build_dirs(),
                views(writable@) == head + existing_build_dirs(cwd@, build_dirs().take(i as int), views(existing_paths@)),
            decreases 6 - i,
        {
            assert(build_dirs().take(i + 1).drop_last() =~= build_dirs().take(i as int));
            assert(build_dirs().take(i + 1).last() == dirs[i as int]@);
            let path = crate::paths::path_join_str(cwd, dirs[i]);
            let ghost before = views(writable@);
            if strings_contain(existing_paths.as_slice(), path.as_str()) {
                push_string(&mut writable, path);
            }
            assert(views(writable@) =~= head + existing_build_dirs(cwd@, build_dirs().take(i + 1), views(existing_paths@)));
            i = i + 1;
        }
        assert(build_dirs().take(6) =~= build_dirs());
        Ok(
            CommandPolicy {
                binary_path,
                program_name: owned(cmd),
                args: crate::text::clone_strings(args),
                network_enabled,
                writable_paths: writable,
            },
        )
    }

    /// The policy of a command: its binary is looked up on `PATH`, which must
    /// find it, and lies where `found_for` says a binary of that name may;
    /// `cwd` is the working directory and `existing_paths` the host paths
    /// that exist.
    pub fn resolve(cmd: &str, args: &Vec<String>, cwd: &str, existing_paths: &Vec<String>) -> (r: Result<CommandPolicy, SboxError>)
        ensures
            r matches Ok(p) ==> p.program_name@ == cmd@ && views(p.args@) == views(args@) && p.network_enabled
                == needs_network(cmd@, views(args@)) && views(p.writable_paths@) == writable_paths_for(
                cwd@,
                views(existing_paths@),
            ),
            r matches Ok(p) ==> found_for(cmd@, p.binary_path@),
            r matches Err(e) ==> (e matches SboxError::BinaryNotFound(name) && name@ == cmd@),
    {
        let binary = locate_binary(cmd);
        CommandPolicy::from_binary(binary, cmd, args, cwd, existing_paths)
    }
}

} // verus!
