//! Local image builds: whether the image of a build recipe exists and is
//! fresh, and the engine commands that build it.

use vstd::prelude::*;

use crate::config::model::BackendKind;
use crate::error::SboxError;
use crate::text::{concat2, concat3, join, join_strings, owned, push_string, views};

verus! {

/// The engine's name.
pub open spec fn engine_name(backend: BackendKind) -> Seq<char> {
    match backend {
        BackendKind::Podman => "podman"@,
        BackendKind::Docker => "docker"@,
    }
}

fn engine_str(backend: BackendKind) -> (r: &'static str)
    ensures
        r@ == engine_name(backend),
{
    match backend {
        BackendKind::Podman => "podman",
        BackendKind::Docker => "docker",
    }
}

/// The words that ask whether an image exists.
pub open spec fn exists_words(backend: BackendKind, tag: Seq<char>) -> Seq<Seq<char>> {
    match backend {
        BackendKind::Podman => seq!["image"@, "exists"@, tag],
        BackendKind::Docker => seq!["image"@, "inspect"@, "--format"@, ""@, tag],
    }
}

/// The words that ask whether an image exists.
pub fn image_exists_args(backend: BackendKind, tag: &str) -> (r: Vec<String>)
    ensures
        views(r@) == exists_words(backend, tag@),
{
    let mut v: Vec<String> = Vec::new();
    push_string(&mut v, owned("image"));
    match backend {
        BackendKind::Podman => {
            push_string(&mut v, owned("exists"));
        },
        BackendKind::Docker => {
            push_string(&mut v, owned("inspect"));
            push_string(&mut v, owned("--format"));
            push_string(&mut v, owned(""));
        },
    }
    push_string(&mut v, owned(tag));
    proof {
        reveal_strlit("");
    }
    assert(views(v@) =~= exists_words(backend, tag@));
    v
}

/// Whether the image exists, from how the existence check ended: podman
/// exits 0 when it does and 1 when it does not (any other status is an
/// error); docker's inspection succeeds only when it does.
pub fn image_exists_outcome(backend: BackendKind, tag: &str, success: bool, code: Option<i32>) -> (r: Result<bool, SboxError>)
    ensures
        success ==> r == Ok::<bool, SboxError>(true),
        !success && (backend == BackendKind::Docker || code == Some(1i32)) ==> r == Ok::<bool, SboxError>(false),
        !success && backend == BackendKind::Podman && code != Some(1i32) ==> (r matches Err(
            SboxError::BackendCommandFailed { backend: b, command, status },
        ) && b@ == "podman"@ && command@ == "podman image exists "@ + tag@ && status == match code {
            Some(c) => c,
            None => 1,
        }),
{
    if success {
        return Ok(true);
    }
    match backend {
        BackendKind::Docker => Ok(false),
        BackendKind::Podman => if code == Some(1i32) {
            Ok(false)
        } else {
            Err(
                SboxError::BackendCommandFailed {
                    backend: owned("podman"),
                    command: concat2("podman image exists ", tag),
                    status: match code {
                        Some(c) => c,
                        None => 1,
                    },
                },
            )
        },
    }
}

/// The words that build an image from a recipe in the workspace.
pub open spec fn build_words(tag: Seq<char>, recipe: Seq<char>, root: Seq<char>) -> Seq<Seq<char>> {
    seq!["build"@, "-t"@, tag, "-f"@, recipe, root]
}

/// The words that build an image from a recipe in the workspace.
pub fn image_build_args(tag: &str, recipe: &str, root: &str) -> (r: Vec<String>)
    ensures
        views(r@) == build_words(tag@, recipe@, root@),
{
    let mut v: Vec<String> = Vec::new();
    push_string(&mut v, owned("build"));
    push_string(&mut v, owned("-t"));
    push_string(&mut v, owned(tag));
    push_string(&mut v, owned("-f"));
    push_string(&mut v, owned(recipe));
    push_string(&mut v, owned(root));
    assert(views(v@) =~= build_words(tag@, recipe@, root@));
    v
}

/// How a build ended: an error naming the build command when it failed.
pub fn build_outcome(backend: BackendKind, tag: &str, recipe: &str, root: &str, success: bool, code: Option<i32>) -> (r:
    Result<(), SboxError>)
    ensures
        success ==> r is Ok,
        !success ==> (r matches Err(SboxError::BackendCommandFailed { backend: b, command, status }) && b@ == engine_name(
            backend,
        ) && command@ == engine_name(backend) + " "@ + join(build_words(tag@, recipe@, root@), " "@) && status
            == match code {
            Some(c) => c,
            None => 1,
        }),
{
    if success {
        return Ok(());
    }
    let name = engine_str(backend);
    let words = image_build_args(tag, recipe, root);
    let line = join_strings(words.as_slice(), " ");
    Err(
        SboxError::BackendCommandFailed {
            backend: owned(name),
            command: concat3(name, " ", line.as_str()),
            status: match code {
                Some(c) => c,
                None => 1,
            },
        },
    )
}

/// The instant an RFC 3339 timestamp denotes, as seconds since the Unix
/// epoch and nanoseconds past them (`None`: the text is no such timestamp).
pub uninterp spec fn rfc3339_instant(text: Seq<char>) -> Option<(i64, u32)>;

/// `chrono::DateTime::parse_from_rfc3339`, read as the instant it denotes:
/// `timestamp()` and `timestamp_subsec_nanos()` of the parsed value.
#[verifier::external_body]
fn parse_rfc3339(text: &str) -> (r: Option<(i64, u32)>)
    ensures
        r == rfc3339_instant(text@),
{
    match chrono::DateTime::parse_from_rfc3339(text) {
        Ok(d) => Some((d.timestamp(), d.timestamp_subsec_nanos())),
        Err(_) => None,
    }
}

/// An instant as nanoseconds since the Unix epoch.
pub open spec fn instant_nanos(t: (i64, u32)) -> int {
    t.0 * 1_000_000_000 + t.1
}

/// A recipe is rebuilt when it was modified after its image was created;
/// when either time is unknown, or the creation time does not parse, the
/// image is kept.
pub open spec fn rebuild_needed(modified: Option<(i64, u32)>, created: Option<Seq<char>>) -> bool {
    match (modified, created) {
        (Some(m), Some(c)) => match rfc3339_instant(crate::proxy::trim(c)) {
            Some(t) => instant_nanos(m) > instant_nanos(t),
            None => false,
        },
        _ => false,
    }
}

/// Whether the image of a recipe must be rebuilt; `modified` is when the
/// recipe was last changed, `created` what the engine printed as the
/// image's creation time.
pub fn recipe_newer_than_image(modified: Option<(i64, u32)>, created: Option<&str>) -> (r: bool)
    ensures
        r == rebuild_needed(
            modified,
            match created {
                Some(c) => Some(c@),
                None => None,
            },
        ),
{
    match (modified, created) {
        (Some(m), Some(c)) => {
            let t = crate::proxy::trim_str(c);
            match parse_rfc3339(t.as_str()) {
                Some(ct) => {
                    let a: i128 = (m.0 as i128) * 1_000_000_000i128 + (m.1 as i128);
                    let b: i128 = (ct.0 as i128) * 1_000_000_000i128 + (ct.1 as i128);
                    a > b
                },
                None => false,
            }
        },
        _ => false,
    }
}

/// The words that print an image's creation time.
pub fn image_created_args(tag: &str) -> (r: Vec<String>)
    ensures
        views(r@) == seq!["image"@, "inspect"@, tag@, "--format"@, "{{.Created}}"@],
{
    let mut v: Vec<String> = Vec::new();
    push_string(&mut v, owned("image"));
    push_string(&mut v, owned("inspect"));
    push_string(&mut v, owned(tag));
    push_string(&mut v, owned("--format"));
    push_string(&mut v, owned("{{.Created}}"));
    assert(views(v@) =~= seq!["image"@, "inspect"@, tag@, "--format"@, "{{.Created}}"@]);
    v
}

} // verus!
