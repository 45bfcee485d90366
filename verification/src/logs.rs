//! `sbox logs`: which session's logs are shown.

use vstd::prelude::*;

use crate::backend::args::{lines_of, text_lines};
use crate::error::SboxError;
use crate::proxy::{trim, trim_str};
use crate::resolve::{replace_all, replace_str};
use crate::text::{concat2, concat3, format_decimal, owned, push_string, sanitize, sanitize_name, str_chars, views};

verus! {

/// The session of a profile: the configured template with `{profile}` and
/// `{workspace_hash}` filled in, or `sbox-<hash>-<profile>`, sanitized.
pub open spec fn named_session(template: Option<Seq<char>>, workspace_hash: Seq<char>, profile: Seq<char>) -> Seq<char> {
    sanitize(
        match template {
            Some(t) => replace_all(replace_all(t, "{profile}"@, profile), "{workspace_hash}"@, workspace_hash),
            None => "sbox-"@ + workspace_hash + "-"@ + profile,
        },
    )
}

/// The session of a profile in the workspace whose hash is `workspace_hash`.
pub fn resolve_session_name(template: Option<&String>, workspace_hash: &str, profile_name: &str) -> (r: String)
    ensures
        r@ == named_session(
            match template {
                Some(t) => Some(t@),
                None => None,
            },
            workspace_hash@,
            profile_name@,
        ),
{
    proof {
        reveal_strlit("{profile}");
        reveal_strlit("{workspace_hash}");
    }
    let base = match template {
        Some(t) => {
            let first = replace_str(t.as_str(), "{profile}", profile_name);
            replace_str(first.as_str(), "{workspace_hash}", workspace_hash)
        },
        None => {
            let head = concat3("sbox-", workspace_hash, "-");
            concat2(head.as_str(), profile_name)
        },
    };
    sanitize_name(base.as_str())
}

/// The name prefix of a workspace's sessions.
pub fn session_prefix(workspace_hash: &str) -> (r: String)
    ensures
        r@ == "sbox-"@ + workspace_hash@,
{
    concat2("sbox-", workspace_hash)
}

/// The newest session in `podman ps` output sorted by creation: its last
/// line, trimmed, unless blank.
pub open spec fn newest_session(listing: Seq<char>) -> Option<Seq<char>> {
    let lines = text_lines(listing);
    if lines.len() == 0 {
        None
    } else if trim(lines.last()).len() == 0 {
        None
    } else {
        Some(trim(lines.last()))
    }
}

/// The newest session in the listing.
pub fn most_recent_session(listing: &str) -> (r: Option<String>)
    ensures
        match newest_session(listing@) {
            Some(n) => r matches Some(s) && s@ == n,
            None => r is None,
        },
{
    let lines = lines_of(listing);
    if lines.len() == 0 {
        return None;
    }
    let last = &lines[lines.len() - 1];
    assert(last@ == text_lines(listing@).last());
    let t = trim_str(last.as_str());
    if str_chars(t.as_str()).len() == 0 {
        None
    } else {
        Some(t)
    }
}

/// The error when no session of the workspace runs.
pub fn no_session_error() -> (r: SboxError)
    ensures
        r matches SboxError::ConfigValidation { message } && message@
            == "no running sbox session found for this workspace.\nStart one with `sbox run -- <command>` using a profile with `reuse_container: true`,\nor pass a profile name: `sbox logs <profile>`"@,
{
    SboxError::ConfigValidation {
        message: owned(
            "no running sbox session found for this workspace.\nStart one with `sbox run -- <command>` using a profile with `reuse_container: true`,\nor pass a profile name: `sbox logs <profile>`",
        ),
    }
}

/// The words of `podman` that show a session's logs.
pub open spec fn logs_words(tail: u64, follow: bool, session: Seq<char>) -> Seq<Seq<char>> {
    seq!["logs"@, "--tail"@, crate::text::decimal(tail as nat)] + (if follow {
        seq!["--follow"@]
    } else {
        Seq::empty()
    }) + seq![session]
}

/// The words of `podman` that show a session's logs.
pub fn logs_args(tail: u64, follow: bool, session: &str) -> (r: Vec<String>)
    ensures
        views(r@) == logs_words(tail, follow, session@),
{
    let mut args: Vec<String> = Vec::new();
    push_string(&mut args, owned("logs"));
    push_string(&mut args, owned("--tail"));
    push_string(&mut args, format_decimal(tail));
    if follow {
        push_string(&mut args, owned("--follow"));
    }
    push_string(&mut args, owned(session));
    assert(views(args@) =~= logs_words(tail, follow, session@));
    args
}

} // verus!
