//! `sbox shell`: which shell an interactive session starts.

use vstd::prelude::*;

use crate::config::maps::{first_key_index, profile_entries, profiles_at, profiles_index_of};
use crate::config::model::Config;
use crate::error::SboxError;
use crate::proxy::{trim, trim_str};
use crate::resolve::CliOverrides;
use crate::text::{owned, str_chars};

verus! {

/// The flags of `sbox shell`.
pub struct ShellCommand {
    /// The shell asked for with `--shell`.
    pub shell: Option<String>,
}

impl Default for ShellCommand {
    fn default() -> (r: Self)
        ensures
            r.shell is None,
    {
        ShellCommand { shell: None }
    }
}

pub open spec fn opt_chars(o: Option<String>) -> Option<Seq<char>> {
    match o {
        Some(s) => Some(s@),
        None => None,
    }
}

/// The shell a configured profile names, if the profile exists and names one.
pub open spec fn profile_shell(config: Config, name: Seq<char>) -> Option<Seq<char>> {
    match first_key_index(profile_entries(config.profiles), name) {
        Some(i) => opt_chars(profile_entries(config.profiles)[i].1.shell),
        None => None,
    }
}

/// `SHELL` from the environment, trimmed, when it is not blank.
pub open spec fn env_shell_of(env_shell: Option<Seq<char>>) -> Option<Seq<char>> {
    match env_shell {
        Some(s) => if trim(s).len() > 0 {
            Some(trim(s))
        } else {
            None
        },
        None => None,
    }
}

/// The shell of a session: `--shell`, else the active profile's shell, else
/// the shell of the profile named on the command line, else `SHELL`, else
/// `/bin/sh`.
pub open spec fn chosen_shell(
    flag: Option<Seq<char>>,
    config: Config,
    active_profile: Seq<char>,
    cli_profile: Option<Seq<char>>,
    env_shell: Option<Seq<char>>,
) -> Seq<char> {
    if flag is Some {
        flag.unwrap()
    } else if profile_shell(config, active_profile) is Some {
        profile_shell(config, active_profile).unwrap()
    } else if cli_profile is Some && profile_shell(config, cli_profile.unwrap()) is Some {
        profile_shell(config, cli_profile.unwrap()).unwrap()
    } else if env_shell_of(env_shell) is Some {
        env_shell_of(env_shell).unwrap()
    } else {
        "/bin/sh"@
    }
}

/// The shell the session starts before the profile is known: `--shell`,
/// else `SHELL`, else `/bin/sh`.
pub open spec fn initial_shell(flag: Option<Seq<char>>, env_shell: Option<Seq<char>>) -> Seq<char> {
    if flag is Some {
        flag.unwrap()
    } else if env_shell_of(env_shell) is Some {
        env_shell_of(env_shell).unwrap()
    } else {
        "/bin/sh"@
    }
}

fn profile_shell_exec(config: &Config, name: &str) -> (r: Option<String>)
    ensures
        opt_chars(r) == profile_shell(*config, name@),
{
    match profiles_index_of(&config.profiles, name) {
        None => None,
        Some(idx) => {
            let (_, profile) = profiles_at(&config.profiles, idx);
            proof {
                let profiles = profile_entries(config.profiles);
                let k = first_key_index(profiles, name@).unwrap();
                assert(profiles[k].0 == name@);
                assert(k == idx) by {
                    if k < idx {
                        assert(profiles[k].0 != name@);
                    }
                    if (idx as int) < k {
                        assert(profiles[idx as int].0 != name@);
                    }
                }
            }
            match &profile.shell {
                Some(s) => Some(s.clone()),
                None => None,
            }
        },
    }
}

fn env_shell_exec(env_shell: &Option<String>) -> (r: Option<String>)
    ensures
        opt_chars(r) == env_shell_of(opt_chars(*env_shell)),
{
    match env_shell {
        Some(s) => {
            let t = trim_str(s.as_str());
            if str_chars(t.as_str()).len() > 0 {
                Some(t)
            } else {
                None
            }
        },
        None => None,
    }
}

/// The shell of a session; `env_shell` is `SHELL` from the environment.
pub fn resolve_shell(
    cli: &CliOverrides,
    command: &ShellCommand,
    config: &Config,
    active_profile: &str,
    env_shell: &Option<String>,
) -> (r: Result<String, SboxError>)
    ensures
        r matches Ok(s) && s@ == chosen_shell(
            opt_chars(command.shell),
            *config,
            active_profile@,
            opt_chars(cli.profile),
            opt_chars(*env_shell),
        ),
{
    proof {
        reveal_strlit("/bin/sh");
    }
    if let Some(shell) = &command.shell {
        return Ok(shell.clone());
    }
    if let Some(shell) = profile_shell_exec(config, active_profile) {
        return Ok(shell);
    }
    if let Some(name) = &cli.profile {
        if let Some(shell) = profile_shell_exec(config, name.as_str()) {
            return Ok(shell);
        }
    }
    if let Some(shell) = env_shell_exec(env_shell) {
        return Ok(shell);
    }
    Ok(owned("/bin/sh"))
}

/// The shell a session starts with before its profile is resolved;
/// `env_shell` is `SHELL` from the environment.
pub fn resolve_initial_shell(command: &ShellCommand, env_shell: &Option<String>) -> (r: Result<String, SboxError>)
    ensures
        r matches Ok(s) && s@ == initial_shell(opt_chars(command.shell), opt_chars(*env_shell)),
{
    proof {
        reveal_strlit("/bin/sh");
    }
    if let Some(shell) = &command.shell {
        return Ok(shell.clone());
    }
    if let Some(shell) = env_shell_exec(env_shell) {
        return Ok(shell);
    }
    Ok(owned("/bin/sh"))
}

} // verus!
