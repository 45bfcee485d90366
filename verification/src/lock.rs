//! The workspace hashing tripwire: a SHA-256 content hash of the dependency
//! directory, recorded by `sbox lock` and checked before a run.

use sha2::{Digest, Sha256};
use vstd::prelude::*;

use crate::error::SboxError;
use crate::order::{lex_less, lex_lt};
use crate::paths::{path_join, path_join_str};
use crate::text::{concat3, digit_char, owned, seq_has, strings_contain, views};
use vstd::utf8::encode_utf8;

verus! {

/// What SHA-256 gives for `data`: its 32-byte digest.
pub uninterp spec fn sha256(data: Seq<u8>) -> Seq<u8>;

/// `Sha256::digest` (sha2): the SHA-256 digest of `data`. The digest is
/// named, not spelled out; it depends on `data` alone and is 32 bytes long.
#[verifier::external_body]
fn sha256_digest(data: &[u8]) -> (r: Vec<u8>)
    ensures
        r@ == sha256(data@),
        r@.len() == 32,
{
    Sha256::digest(data).to_vec()
}

/// Lowercase hexadecimal: two digits per byte, high nibble first.
pub open spec fn hex_text(b: Seq<u8>) -> Seq<char>
    decreases b.len(),
{
    if b.len() == 0 {
        Seq::empty()
    } else {
        hex_text(b.drop_last()) + seq![digit_char((b.last() / 16) as nat), digit_char((b.last() % 16) as nat)]
    }
}

/// `hex::encode`: each byte as two lowercase hexadecimal digits, in order.
#[verifier::external_body]
fn hex_encode(data: &[u8]) -> (r: String)
    ensures
        r@ == hex_text(data@),
{
    hex::encode(data)
}

/// The hash of a workspace's path, which names its lock file.
pub open spec fn workspace_hash_of(cwd: Seq<char>) -> Seq<char> {
    hex_text(sha256(encode_utf8(cwd)))
}

/// The hash of a workspace's path.
pub fn get_workspace_hash(cwd: &str) -> (r: String)
    ensures
        r@ == workspace_hash_of(cwd@),
{
    let digest = sha256_digest(cwd.as_bytes());
    hex_encode(digest.as_slice())
}

/// The lock file of a workspace: `<home>/.local/share/sbox/locks/<hash>.json`.
pub open spec fn lock_path(home: Seq<char>, cwd: Seq<char>) -> Seq<char> {
    path_join(
        path_join(path_join(path_join(path_join(home, ".local"@), "share"@), "sbox"@), "locks"@),
        workspace_hash_of(cwd) + ".json"@,
    )
}

/// The lock file of a workspace, when the home directory is known.
pub fn get_lock_file_path(home: Option<&str>, cwd: &str) -> (r: Result<String, SboxError>)
    ensures
        match home {
            Some(h) => r is Ok && r->Ok_0@ == lock_path(h@, cwd@),
            None => r matches Err(SboxError::Io(m)) && m@ == "HOME not found"@,
        },
{
    match home {
        None => Err(SboxError::Io(owned("HOME not found"))),
        Some(h) => {
            let a = path_join_str(h, ".local");
            let b = path_join_str(a.as_str(), "share");
            let c = path_join_str(b.as_str(), "sbox");
            let d = path_join_str(c.as_str(), "locks");
            let hash = get_workspace_hash(cwd);
            let name = crate::text::concat2(hash.as_str(), ".json");
            Ok(path_join_str(d.as_str(), name.as_str()))
        },
    }
}

/// The hash of a file's contents.
pub open spec fn file_hash_of(contents: Seq<u8>) -> Seq<char> {
    hex_text(sha256(contents))
}

/// The hash of a file's contents.
pub fn hash_file(contents: &Vec<u8>) -> (r: String)
    ensures
        r@ == file_hash_of(contents@),
{
    let digest = sha256_digest(contents.as_slice());
    hex_encode(digest.as_slice())
}

/// `e` put into the path-ordered `s` after every entry whose path does not
/// sort after its own (a stable insertion).
pub open spec fn insert_by_path(s: Seq<(Seq<char>, Seq<char>)>, e: (Seq<char>, Seq<char>)) -> Seq<(Seq<char>, Seq<char>)>
    decreases s.len(),
{
    if s.len() == 0 {
        seq![e]
    } else if lex_lt(e.0, s.last().0) {
        insert_by_path(s.drop_last(), e).push(s.last())
    } else {
        s.push(e)
    }
}

/// The entries in ascending order of path, entries with equal paths in
/// their original order (a stable sort).
pub open spec fn sort_by_path(es: Seq<(Seq<char>, Seq<char>)>) -> Seq<(Seq<char>, Seq<char>)>
    decreases es.len(),
{
    if es.len() == 0 {
        Seq::empty()
    } else {
        insert_by_path(sort_by_path(es.drop_last()), es.last())
    }
}

/// The bytes the directory hash is taken over: each entry's path and file
/// hash, each followed by a zero byte.
pub open spec fn digest_input(es: Seq<(Seq<char>, Seq<char>)>) -> Seq<u8>
    decreases es.len(),
{
    if es.len() == 0 {
        Seq::empty()
    } else {
        digest_input(es.drop_last()) + encode_utf8(es.last().0) + seq![0u8] + encode_utf8(es.last().1) + seq![0u8]
    }
}

/// The hash of a directory, from its files' relative paths and content hashes.
pub open spec fn directory_hash_of(entries: Seq<(Seq<char>, Seq<char>)>) -> Seq<char> {
    hex_text(sha256(digest_input(sort_by_path(entries))))
}

pub open spec fn entry_views(v: Seq<(String, String)>) -> Seq<(Seq<char>, Seq<char>)> {
    v.map_values(|p: (String, String)| (p.0@, p.1@))
}

/// Where `e` goes in `s`: after the entries whose path does not sort after
/// its own, counted from the end.
pub(crate) proof fn lemma_insert_at(s: Seq<(Seq<char>, Seq<char>)>, e: (Seq<char>, Seq<char>), j: int)
    requires
        0 <= j <= s.len(),
        forall|k: int| j <= k < s.len() ==> lex_lt(e.0, #[trigger] s[k].0),
        j == 0 || !lex_lt(e.0, s[j - 1].0),
    ensures
        insert_by_path(s, e) == s.take(j) + seq![e] + s.skip(j),
    decreases s.len(),
{
    if s.len() == 0 {
        assert(s.take(j) + seq![e] + s.skip(j) =~= seq![e]);
    } else if j == s.len() {
        assert(!lex_lt(e.0, s.last().0));
        assert(s.take(j) + seq![e] + s.skip(j) =~= s.push(e));
    } else {
        assert(lex_lt(e.0, s.last().0));
        let r = s.drop_last();
        assert forall|k: int| j <= k < r.len() implies lex_lt(e.0, #[trigger] r[k].0) by {
            assert(r[k] == s[k]);
        }
        if j > 0 {
            assert(r[j - 1] == s[j - 1]);
        }
        lemma_insert_at(r, e, j);
        assert(r.take(j) + seq![e] + r.skip(j) + seq![s.last()] =~= s.take(j) + seq![e] + s.skip(j));
    }
}

/// Puts `e` into `v` after every entry whose name does not sort after its own.
pub(crate) fn insert_entry(v: &mut Vec<(String, String)>, e: (String, String))
    ensures
        entry_views(final(v)@) == insert_by_path(entry_views(old(v)@), (e.0@, e.1@)),
{
    let ghost sv = entry_views(v@);
    let mut j: usize = v.len();
    while j > 0 && lex_less(e.0.as_str(), v[j - 1].0.as_str())
        invariant
            sv == entry_views(v@),
            j <= sv.len(),
            forall|k: int| j <= k < sv.len() ==> lex_lt(e.0@, #[trigger] sv[k].0),
        decreases j,
    {
        assert(sv[j - 1].0 == v@[j - 1].0@);
        j = j - 1;
    }
    let ghost e_view = (e.0@, e.1@);
    proof {
        if j > 0 {
            assert(sv[j - 1].0 == v@[j - 1].0@);
        }
        lemma_insert_at(sv, e_view, j as int);
    }
    v.insert(j, e);
    assert(entry_views(v@) =~= sv.take(j as int) + seq![e_view] + sv.skip(j as int));
}

/// The entries in ascending order of path.
fn sorted_entries(entries: &Vec<(String, String)>) -> (r: Vec<(String, String)>)
    ensures
        entry_views(r@) == sort_by_path(entry_views(entries@)),
{
    let ghost ev = entry_views(entries@);
    let mut sorted: Vec<(String, String)> = Vec::new();
    let mut i: usize = 0;
    assert(ev.take(0) =~= Seq::<(Seq<char>, Seq<char>)>::empty());
    assert(entry_views(sorted@) =~= Seq::<(Seq<char>, Seq<char>)>::empty());
    while i < entries.len()
        invariant
            ev == entry_views(entries@),
            i <= ev.len(),
            entry_views(sorted@) == sort_by_path(ev.take(i as int)),
        decreases ev.len() - i,
    {
        let path = entries[i].0.as_str();
        let ghost sv = entry_views(sorted@);
        let mut j: usize = sorted.len();
        while j > 0 && lex_less(path, sorted[j - 1].0.as_str())
            invariant
                sv == entry_views(sorted@),
                j <= sv.len(),
                path@ == entries@[i as int].0@,
                forall|k: int| j <= k < sv.len() ==> lex_lt(path@, #[trigger] sv[k].0),
            decreases j,
        {
            assert(sv[j - 1].0 == sorted@[j - 1].0@);
            j = j - 1;
        }
        let e = (entries[i].0.clone(), entries[i].1.clone());
        let ghost e_view = (e.0@, e.1@);
        assert(e_view == ev[i as int]);
        proof {
            if j > 0 {
                assert(sv[j - 1].0 == sorted@[j - 1].0@);
            }
            lemma_insert_at(sv, e_view, j as int);
        }
        sorted.insert(j, e);
        assert(entry_views(sorted@) =~= sv.take(j as int) + seq![e_view] + sv.skip(j as int));
        assert(ev.take(i + 1).drop_last() =~= ev.take(i as int));
        assert(ev.take(i + 1).last() == e_view);
        i = i + 1;
    }
    assert(ev.take(ev.len() as int) =~= ev);
    sorted
}

/// The hash of a directory, from its files' relative paths and content
/// hashes in any order: the entries are sorted by path first.
pub fn hash_directory(entries: &Vec<(String, String)>) -> (r: String)
    ensures
        r@ == directory_hash_of(entry_views(entries@)),
{
    let sorted = sorted_entries(entries);
    let ghost sv = entry_views(sorted@);
    let mut input: Vec<u8> = Vec::new();
    let mut i: usize = 0;
    assert(sv.take(0) =~= Seq::<(Seq<char>, Seq<char>)>::empty());
    while i < sorted.len()
        invariant
            sv == entry_views(sorted@),
            i <= sv.len(),
            input@ == digest_input(sv.take(i as int)),
        decreases sv.len() - i,
    {
        let ghost before = input@;
        let p = sorted[i].0.as_str().as_bytes();
        let h = sorted[i].1.as_str().as_bytes();
        append_bytes(&mut input, p);
        input.push(0u8);
        append_bytes(&mut input, h);
        input.push(0u8);
        assert(sv.take(i + 1).drop_last() =~= sv.take(i as int));
        assert(sv.take(i + 1).last() == (sorted@[i as int].0@, sorted@[i as int].1@));
        assert(input@ =~= digest_input(sv.take(i + 1)));
        i = i + 1;
    }
    assert(sv.take(sv.len() as int) =~= sv);
    let digest = sha256_digest(input.as_slice());
    hex_encode(digest.as_slice())
}

fn append_bytes(v: &mut Vec<u8>, b: &[u8])
    ensures
        final(v)@ == old(v)@ + b@,
{
    let ghost start = v@;
    let mut i: usize = 0;
    while i < b.len()
        invariant
            i <= b@.len(),
            v@ == start + b@.take(i as int),
        decreases b@.len() - i,
    {
        v.push(b[i]);
        assert(v@ =~= start + b@.take(i + 1));
        i = i + 1;
    }
    assert(b@.take(b@.len() as int) =~= b@);
}

/// Directories that hold a project's dependencies, in order of preference.
pub open spec fn dependency_dir_names() -> Seq<Seq<char>> {
    seq!["node_modules"@, ".venv"@, "vendor"@]
}

/// The first dependency directory of the workspace that exists as a
/// directory.
pub open spec fn dependency_dir(cwd: Seq<char>, dirs: Seq<Seq<char>>) -> Option<Seq<char>> {
    if seq_has(dirs, path_join(cwd, "node_modules"@)) {
        Some(path_join(cwd, "node_modules"@))
    } else if seq_has(dirs, path_join(cwd, ".venv"@)) {
        Some(path_join(cwd, ".venv"@))
    } else if seq_has(dirs, path_join(cwd, "vendor"@)) {
        Some(path_join(cwd, "vendor"@))
    } else {
        None
    }
}

/// The dependency directory of a workspace; `dirs` are the host paths that
/// exist as directories.
pub fn find_dependency_dir(cwd: &str, dirs: &Vec<String>) -> (r: Option<String>)
    ensures
        match dependency_dir(cwd@, views(dirs@)) {
            Some(d) => r is Some && r->Some_0@ == d,
            None => r is None,
        },
{
    let a = path_join_str(cwd, "node_modules");
    if strings_contain(dirs.as_slice(), a.as_str()) {
        return Some(a);
    }
    let b = path_join_str(cwd, ".venv");
    if strings_contain(dirs.as_slice(), b.as_str()) {
        return Some(b);
    }
    let c = path_join_str(cwd, "vendor");
    if strings_contain(dirs.as_slice(), c.as_str()) {
        return Some(c);
    }
    None
}

/// The message when dependencies exist but were never locked.
pub open spec fn unlocked_message() -> Seq<char> {
    "Project has dependencies but no sbox lock. Run 'sbox lock' first."@
}

/// The message when a lock exists but the dependencies are gone.
pub open spec fn missing_dependencies_message() -> Seq<char> {
    "Project has an sbox lock but dependencies are missing."@
}

/// The message when the dependencies no longer hash to the locked hash.
pub open spec fn tampered_message(locked: Seq<char>, current: Seq<char>) -> Seq<char> {
    "Integrity compromise detected! Dependencies differ from lockfile.\nExpected: "@ + locked.take(8)
        + "\nActual: "@ + current.take(8) + "\nRun 'sbox lock' to update the lockfile if this is expected."@
}

/// A hash can be shown by its first eight bytes: it is ASCII and that long.
pub open spec fn showable(h: Seq<char>) -> bool {
    h.len() >= 8 && forall|i: int| 0 <= i < h.len() ==> #[trigger] h[i] <= '\u{7f}'
}

/// A run may go ahead: with no lock only when there are no dependencies,
/// with a lock only when the dependencies hash to the locked hash.
pub open spec fn lock_accepts(current: Option<Seq<char>>, locked: Option<Seq<char>>) -> bool {
    match (current, locked) {
        (None, None) => true,
        (Some(c), Some(l)) => c == l,
        _ => false,
    }
}

pub open spec fn opt_hash(o: Option<String>) -> Option<Seq<char>> {
    match o {
        Some(s) => Some(s@),
        None => None,
    }
}

/// The check before a run: `current` is the hash of the dependency
/// directory (`None`: there is none), `locked` the hash in the lock file
/// (`None`: there is no lock file). With no lock, a run may go ahead only
/// when there are no dependencies; with a lock, only when the dependencies
/// hash to the locked hash.
pub fn verify_against_lock(current: &Option<String>, locked: &Option<String>) -> (r: Result<(), SboxError>)
    requires
        current matches Some(c) ==> (locked matches Some(l) ==> (c@ != l@ ==> showable(c@) && showable(l@))),
    ensures
        r is Ok <==> lock_accepts(opt_hash(*current), opt_hash(*locked)),
        match (current, locked) {
            (None, None) => r is Ok,
            (Some(_), None) => r matches Err(SboxError::LockError(m)) && m@ == unlocked_message(),
            (None, Some(_)) => r matches Err(SboxError::LockError(m)) && m@ == missing_dependencies_message(),
            (Some(c), Some(l)) => if c@ == l@ {
                r is Ok
            } else {
                r matches Err(SboxError::LockError(m)) && m@ == tampered_message(l@, c@)
            },
        },
{
    match (current, locked) {
        (None, None) => Ok(()),
        (Some(_), None) => Err(
            SboxError::LockError(owned("Project has dependencies but no sbox lock. Run 'sbox lock' first.")),
        ),
        (None, Some(_)) => Err(SboxError::LockError(owned("Project has an sbox lock but dependencies are missing."))),
        (Some(c), Some(l)) => {
            if crate::text::eq_str(c.as_str(), l.as_str()) {
                Ok(())
            } else {
                let l8 = first_eight(l.as_str());
                let c8 = first_eight(c.as_str());
                let a = concat3(
                    "Integrity compromise detected! Dependencies differ from lockfile.\nExpected: ",
                    l8.as_str(),
                    "\nActual: ",
                );
                let b = concat3(
                    a.as_str(),
                    c8.as_str(),
                    "\nRun 'sbox lock' to update the lockfile if this is expected.",
                );
                Err(SboxError::LockError(b))
            }
        },
    }
}

fn first_eight(s: &str) -> (r: String)
    requires
        s@.len() >= 8,
    ensures
        r@ == s@.take(8),
{
    let cs = crate::text::str_chars(s);
    let head = crate::text::chars_take(&cs, 8);
    crate::text::string_from_chars(head.as_slice())
}

// ---------------------------------------------------------------------------
// The hash does not depend on the walk order
// ---------------------------------------------------------------------------

/// Entries in ascending order of path (ties allowed).
pub open spec fn path_sorted(s: Seq<(Seq<char>, Seq<char>)>) -> bool {
    forall|i: int, j: int| 0 <= i < j < s.len() ==> !lex_lt(#[trigger] s[j].0, #[trigger] s[i].0)
}

/// No two entries share a path.
pub open spec fn distinct_paths(s: Seq<(Seq<char>, Seq<char>)>) -> bool {
    forall|i: int, j: int| 0 <= i < j < s.len() ==> #[trigger] s[i].0 != #[trigger] s[j].0
}

/// Some entry has the path `p`.
pub open spec fn has_path(s: Seq<(Seq<char>, Seq<char>)>, p: Seq<char>) -> bool {
    exists|k: int| 0 <= k < s.len() && (#[trigger] s[k]).0 == p
}

pub(crate) proof fn lemma_insert_props(s: Seq<(Seq<char>, Seq<char>)>, e: (Seq<char>, Seq<char>))
    requires
        path_sorted(s),
    ensures
        path_sorted(insert_by_path(s, e)),
        insert_by_path(s, e).len() == s.len() + 1,
        forall|x: (Seq<char>, Seq<char>)| #[trigger] insert_by_path(s, e).contains(x) <==> (s.contains(x) || x == e),
        distinct_paths(s) && !has_path(s, e.0) ==> distinct_paths(insert_by_path(s, e)),
    decreases s.len(),
{
    if s.len() == 0 {
        assert(insert_by_path(s, e) =~= seq![e]);
        assert forall|x: (Seq<char>, Seq<char>)| #[trigger] insert_by_path(s, e).contains(x) <==> (s.contains(x) || x == e) by {
            if x == e {
                assert(insert_by_path(s, e)[0] == x);
            }
        }
    } else {
        let l = s.last();
        let r = s.drop_last();
        assert(path_sorted(r)) by {
            assert forall|i: int, j: int| 0 <= i < j < r.len() implies !lex_lt(#[trigger] r[j].0, #[trigger] r[i].0) by {
                assert(r[i] == s[i] && r[j] == s[j]);
            }
        }
        if lex_lt(e.0, l.0) {
            lemma_insert_props(r, e);
            let q = insert_by_path(r, e);
            let out = q.push(l);
            assert(insert_by_path(s, e) == out);
            assert forall|x: (Seq<char>, Seq<char>)| #[trigger] out.contains(x) <==> (s.contains(x) || x == e) by {
                if out.contains(x) {
                    let k = choose|k: int| 0 <= k < out.len() && out[k] == x;
                    if k < q.len() {
                        assert(q.contains(x));
                        if r.contains(x) {
                            let m = choose|m: int| 0 <= m < r.len() && r[m] == x;
                            assert(s[m] == x);
                        }
                    } else {
                        assert(s[s.len() - 1] == x);
                    }
                }
                if s.contains(x) {
                    let k = choose|k: int| 0 <= k < s.len() && s[k] == x;
                    if k < s.len() - 1 {
                        assert(r[k] == x);
                        assert(r.contains(x));
                        assert(q.contains(x));
                        let m = choose|m: int| 0 <= m < q.len() && q[m] == x;
                        assert(out[m] == x);
                    } else {
                        assert(out[out.len() - 1] == x);
                    }
                }
                if x == e {
                    assert(q.contains(e));
                    let m = choose|m: int| 0 <= m < q.len() && q[m] == e;
                    assert(out[m] == x);
                }
            }
            assert forall|i: int, j: int| 0 <= i < j < out.len() implies !lex_lt(#[trigger] out[j].0, #[trigger] out[i].0) by {
                if j < q.len() {
                    assert(out[i] == q[i] && out[j] == q[j]);
                } else {
                    assert(out[j] == l);
                    assert(out[i] == q[i]);
                    assert(q.contains(q[i]));
                    if q[i] == e {
                        lemma_lex_asymmetric_local(e.0, l.0);
                    } else {
                        let m = choose|m: int| 0 <= m < r.len() && r[m] == q[i];
                        assert(s[m] == q[i]);
                        assert(!lex_lt(s[s.len() - 1].0, s[m].0));
                    }
                }
            }
            if distinct_paths(s) && !has_path(s, e.0) {
                assert(!has_path(r, e.0)) by {
                    if has_path(r, e.0) {
                        let k = choose|k: int| 0 <= k < r.len() && (#[trigger] r[k]).0 == e.0;
                        assert(s[k] == r[k]);
                    }
                }
                assert(distinct_paths(r)) by {
                    assert forall|i: int, j: int| 0 <= i < j < r.len() implies #[trigger] r[i].0 != #[trigger] r[j].0 by {
                        assert(r[i] == s[i] && r[j] == s[j]);
                    }
                }
                assert forall|i: int, j: int| 0 <= i < j < out.len() implies #[trigger] out[i].0 != #[trigger] out[j].0 by {
                    if j < q.len() {
                        assert(out[i] == q[i] && out[j] == q[j]);
                    } else {
                        assert(out[i] == q[i]);
                        assert(q.contains(q[i]));
                        if q[i] == e {
                            assert(e.0 != l.0) by {
                                assert(s[s.len() - 1] == l);
                            }
                        } else {
                            let m = choose|m: int| 0 <= m < r.len() && r[m] == q[i];
                            assert(s[m] == q[i]);
                            assert(s[s.len() - 1] == l);
                        }
                    }
                }
            }
        } else {
            let out = s.push(e);
            assert(insert_by_path(s, e) == out);
            assert forall|x: (Seq<char>, Seq<char>)| #[trigger] out.contains(x) <==> (s.contains(x) || x == e) by {
                if out.contains(x) {
                    let k = choose|k: int| 0 <= k < out.len() && out[k] == x;
                    if k < s.len() {
                        assert(s[k] == x);
                    }
                }
                if s.contains(x) {
                    let k = choose|k: int| 0 <= k < s.len() && s[k] == x;
                    assert(out[k] == x);
                }
                if x == e {
                    assert(out[s.len() as int] == x);
                }
            }
            assert forall|i: int, j: int| 0 <= i < j < out.len() implies !lex_lt(#[trigger] out[j].0, #[trigger] out[i].0) by {
                if j < s.len() {
                    assert(out[i] == s[i] && out[j] == s[j]);
                } else {
                    assert(out[j] == e);
                    assert(out[i] == s[i]);
                    if lex_lt(e.0, s[i].0) {
                        if i < s.len() - 1 {
                            assert(!lex_lt(s[s.len() - 1].0, s[i].0));
                            crate::order::lemma_lex_total(s[i].0, l.0);
                            if s[i].0 == l.0 {
                            } else {
                                crate::order::lemma_lex_transitive(e.0, s[i].0, l.0);
                            }
                        }
                    }
                }
            }
            if distinct_paths(s) && !has_path(s, e.0) {
                assert forall|i: int, j: int| 0 <= i < j < out.len() implies #[trigger] out[i].0 != #[trigger] out[j].0 by {
                    if j < s.len() {
                        assert(out[i] == s[i] && out[j] == s[j]);
                    } else {
                        assert(out[i] == s[i]);
                    }
                }
            }
        }
    }
}

proof fn lemma_lex_asymmetric_local(a: Seq<char>, b: Seq<char>)
    requires
        lex_lt(a, b),
    ensures
        !lex_lt(b, a),
{
    crate::order::lemma_lex_asymmetric(a, b);
}

proof fn lemma_sort_props(es: Seq<(Seq<char>, Seq<char>)>)
    ensures
        path_sorted(sort_by_path(es)),
        sort_by_path(es).len() == es.len(),
        forall|x: (Seq<char>, Seq<char>)| #[trigger] sort_by_path(es).contains(x) <==> es.contains(x),
        distinct_paths(es) ==> distinct_paths(sort_by_path(es)),
    decreases es.len(),
{
    if es.len() > 0 {
        let r = es.drop_last();
        lemma_sort_props(r);
        let sr = sort_by_path(r);
        lemma_insert_props(sr, es.last());
        assert forall|x: (Seq<char>, Seq<char>)| #[trigger] sort_by_path(es).contains(x) <==> es.contains(x) by {
            if es.contains(x) {
                let k = choose|k: int| 0 <= k < es.len() && es[k] == x;
                if k < es.len() - 1 {
                    assert(r[k] == x);
                    assert(r.contains(x));
                }
            }
            if r.contains(x) {
                let k = choose|k: int| 0 <= k < r.len() && r[k] == x;
                assert(es[k] == x);
            }
        }
        if distinct_paths(es) {
            assert(distinct_paths(r)) by {
                assert forall|i: int, j: int| 0 <= i < j < r.len() implies #[trigger] r[i].0 != #[trigger] r[j].0 by {
                    assert(r[i] == es[i] && r[j] == es[j]);
                }
            }
            assert(!has_path(sr, es.last().0)) by {
                if has_path(sr, es.last().0) {
                    let k = choose|k: int| 0 <= k < sr.len() && (#[trigger] sr[k]).0 == es.last().0;
                    assert(sr.contains(sr[k]));
                    let m = choose|m: int| 0 <= m < r.len() && r[m] == sr[k];
                    assert(es[m] == r[m]);
                    assert(es[es.len() - 1] == es.last());
                }
            }
        }
    }
}

/// Two sequences in strictly ascending order of path with the same entries
/// are the same sequence.
proof fn lemma_sorted_unique(s: Seq<(Seq<char>, Seq<char>)>, t: Seq<(Seq<char>, Seq<char>)>)
    requires
        path_sorted(s),
        path_sorted(t),
        distinct_paths(s),
        distinct_paths(t),
        forall|x: (Seq<char>, Seq<char>)| #[trigger] s.contains(x) <==> t.contains(x),
    ensures
        s == t,
    decreases s.len(),
{
    if s.len() == 0 {
        if t.len() > 0 {
            assert(t.contains(t[0]));
            assert(s.contains(t[0]));
        }
        assert(s =~= t);
    } else if t.len() == 0 {
        assert(s.contains(s[0]));
    } else {
        assert(s.contains(s[0]));
        assert(t.contains(t[0]));
        assert(s.contains(t[0]));
        let k = choose|k: int| 0 <= k < t.len() && t[k] == s[0];
        let m = choose|m: int| 0 <= m < s.len() && s[m] == t[0];
        if k > 0 {
            assert(!lex_lt(t[k].0, t[0].0));
            assert(t[k].0 != t[0].0);
            crate::order::lemma_lex_total(t[0].0, t[k].0);
            if m > 0 {
                assert(!lex_lt(s[m].0, s[0].0));
                assert(s[m].0 != s[0].0);
                crate::order::lemma_lex_total(s[0].0, s[m].0);
                crate::order::lemma_lex_asymmetric(s[0].0, s[m].0);
            }
        }
        assert(k == 0);
        assert(s[0] == t[0]);
        let s1 = s.drop_first();
        let t1 = t.drop_first();
        assert(path_sorted(s1)) by {
            assert forall|i: int, j: int| 0 <= i < j < s1.len() implies !lex_lt(#[trigger] s1[j].0, #[trigger] s1[i].0) by {
                assert(s1[i] == s[i + 1] && s1[j] == s[j + 1]);
            }
        }
        assert(path_sorted(t1)) by {
            assert forall|i: int, j: int| 0 <= i < j < t1.len() implies !lex_lt(#[trigger] t1[j].0, #[trigger] t1[i].0) by {
                assert(t1[i] == t[i + 1] && t1[j] == t[j + 1]);
            }
        }
        assert(distinct_paths(s1)) by {
            assert forall|i: int, j: int| 0 <= i < j < s1.len() implies #[trigger] s1[i].0 != #[trigger] s1[j].0 by {
                assert(s1[i] == s[i + 1] && s1[j] == s[j + 1]);
            }
        }
        assert(distinct_paths(t1)) by {
            assert forall|i: int, j: int| 0 <= i < j < t1.len() implies #[trigger] t1[i].0 != #[trigger] t1[j].0 by {
                assert(t1[i] == t[i + 1] && t1[j] == t[j + 1]);
            }
        }
        assert forall|x: (Seq<char>, Seq<char>)| #[trigger] s1.contains(x) <==> t1.contains(x) by {
            if s1.contains(x) {
                let a = choose|a: int| 0 <= a < s1.len() && s1[a] == x;
                assert(s[a + 1] == x);
                assert(s.contains(x));
                assert(t.contains(x));
                let b = choose|b: int| 0 <= b < t.len() && t[b] == x;
                if b == 0 {
                    assert(s[0].0 != s[a + 1].0);
                } else {
                    assert(t1[b - 1] == x);
                }
            }
            if t1.contains(x) {
                let a = choose|a: int| 0 <= a < t1.len() && t1[a] == x;
                assert(t[a + 1] == x);
                assert(t.contains(x));
                assert(s.contains(x));
                let b = choose|b: int| 0 <= b < s.len() && s[b] == x;
                if b == 0 {
                    assert(t[0].0 != t[a + 1].0);
                } else {
                    assert(s1[b - 1] == x);
                }
            }
        }
        lemma_sorted_unique(s1, t1);
        assert(s =~= seq![s[0]] + s1);
        assert(t =~= seq![t[0]] + t1);
    }
}

/// The dependency hash is stable: it does not depend on the order in which
/// the files were found. Two listings of the same files (each path once)
/// give the same hash.
pub proof fn law_directory_hash_ignores_walk_order(a: Seq<(Seq<char>, Seq<char>)>, b: Seq<(Seq<char>, Seq<char>)>)
    requires
        distinct_paths(a),
        distinct_paths(b),
        forall|x: (Seq<char>, Seq<char>)| #[trigger] a.contains(x) <==> b.contains(x),
    ensures
        directory_hash_of(a) == directory_hash_of(b),
{
    lemma_sort_props(a);
    lemma_sort_props(b);
    let sa = sort_by_path(a);
    let sb = sort_by_path(b);
    assert forall|x: (Seq<char>, Seq<char>)| #[trigger] sa.contains(x) <==> sb.contains(x) by {
        assert(sa.contains(x) <==> a.contains(x));
        assert(sb.contains(x) <==> b.contains(x));
    }
    lemma_sorted_unique(sa, sb);
}


/// The lock round trip: dependencies locked with `sbox lock` and found again
/// before a run, the same files with the same contents in whatever order the
/// walk yields them, pass the check; a lock whose dependencies are gone, or
/// dependencies never locked, do not.
pub proof fn law_lock_round_trip(locked: Seq<(Seq<char>, Seq<char>)>, found: Seq<(Seq<char>, Seq<char>)>)
    requires
        distinct_paths(locked),
        distinct_paths(found),
        forall|x: (Seq<char>, Seq<char>)| #[trigger] locked.contains(x) <==> found.contains(x),
    ensures
        lock_accepts(Some(directory_hash_of(found)), Some(directory_hash_of(locked))),
        !lock_accepts(None, Some(directory_hash_of(locked))),
        !lock_accepts(Some(directory_hash_of(found)), None),
{
    law_directory_hash_ignores_walk_order(found, locked);
}


/// Whether a hash can be shown by its first eight characters.
pub fn is_showable(h: &str) -> (r: bool)
    ensures
        r == showable(h@),
{
    let cs = crate::text::str_chars(h);
    if cs.len() < 8 {
        return false;
    }
    let mut i: usize = 0;
    while i < cs.len()
        invariant
            cs@ == h@,
            i <= cs@.len(),
            forall|j: int| 0 <= j < i ==> #[trigger] h@[j] <= '\u{7f}',
        decreases cs@.len() - i,
    {
        let c = cs[i];
        assert(c == h@[i as int]);
        if c > '\u{7f}' {
            return false;
        }
        i = i + 1;
    }
    true
}

/// The hash a lock file records: its `dependency_hash` member, when that is
/// a string.
pub open spec fn locked_hash_of(doc: crate::json::JsonValue) -> Option<Seq<char>> {
    match crate::json::json_member(doc, "dependency_hash"@) {
        Some(crate::json::JsonValue::Str(h)) => Some(h@),
        _ => None,
    }
}

/// The hash a lock file records.
pub fn locked_hash(doc: &crate::json::JsonValue) -> (r: Option<String>)
    ensures
        opt_hash(r) == locked_hash_of(*doc),
{
    proof {
        reveal_strlit("dependency_hash");
    }
    match crate::json::json_get(doc, "dependency_hash") {
        Some(crate::json::JsonValue::Str(h)) => Some(h.clone()),
        _ => None,
    }
}

/// The check before a run, from the text of the lock file (`None`: there is
/// none) and the current hash of the dependencies (`None`: there are none).
/// Without a lock file, or without dependencies, the text is not read; a
/// text that is no JSON is an I/O error with the parser's message; a lock
/// file without a recorded hash records the empty one. `None` when the
/// hashes differ and one of them cannot be shown by eight characters.
pub fn verify_lock_text(current: &Option<String>, lock_text: &Option<String>) -> (r: Option<Result<(), SboxError>>)
    ensures
        match (current, lock_text) {
            (None, None) => r == Some(Ok::<(), SboxError>(())),
            (Some(_), None) => r matches Some(Err(SboxError::LockError(m))) && m@ == unlocked_message(),
            (None, Some(_)) => r matches Some(Err(SboxError::LockError(m))) && m@ == missing_dependencies_message(),
            (Some(c), Some(t)) => match crate::json::json_document(t@) {
                Err(m) => r matches Some(Err(SboxError::Io(x))) && x@ == m,
                Ok(doc) => {
                    let l = match locked_hash_of(doc) {
                        Some(h) => h,
                        None => Seq::empty(),
                    };
                    if c@ == l {
                        r == Some(Ok::<(), SboxError>(()))
                    } else if showable(c@) && showable(l) {
                        r matches Some(Err(SboxError::LockError(m))) && m@ == tampered_message(l, c@)
                    } else {
                        r is None
                    }
                },
            },
        },
{
    match (current, lock_text) {
        (None, None) => Some(Ok(())),
        (Some(_), None) => Some(verify_against_lock(current, &None)),
        (None, Some(_)) => Some(Err(SboxError::LockError(owned("Project has an sbox lock but dependencies are missing.")))),
        (Some(c), Some(t)) => match crate::json::parse_json(t.as_str()) {
            Err(m) => Some(Err(SboxError::Io(m))),
            Ok(doc) => {
                let l = match locked_hash(&doc) {
                    Some(h) => h,
                    None => String::new(),
                };
                if crate::text::eq_str(c.as_str(), l.as_str()) {
                    Some(Ok(()))
                } else if is_showable(c.as_str()) && is_showable(l.as_str()) {
                    let locked = Some(l);
                    Some(verify_against_lock(current, &locked))
                } else {
                    None
                }
            },
        },
    }
}

/// The dependency directory found is one of `node_modules`, `.venv` and
/// `vendor` below the working directory that exists, preferred in that
/// order; nothing is found exactly when none of them exists. In particular a
/// workspace with only `vendor` (a Go or PHP project) has `vendor` found.
pub proof fn law_dependency_dir_is_first_existing(cwd: Seq<char>, dirs: Seq<Seq<char>>)
    ensures
        dependency_dir(cwd, dirs) is None <==> !seq_has(dirs, path_join(cwd, "node_modules"@)) && !seq_has(
            dirs,
            path_join(cwd, ".venv"@),
        ) && !seq_has(dirs, path_join(cwd, "vendor"@)),
        dependency_dir(cwd, dirs) matches Some(d) ==> seq_has(dirs, d) && (d == path_join(cwd, "node_modules"@) || d
            == path_join(cwd, ".venv"@) || d == path_join(cwd, "vendor"@)),
        seq_has(dirs, path_join(cwd, "node_modules"@)) ==> dependency_dir(cwd, dirs) == Some(
            path_join(cwd, "node_modules"@),
        ),
        !seq_has(dirs, path_join(cwd, "node_modules"@)) && seq_has(dirs, path_join(cwd, ".venv"@))
            ==> dependency_dir(cwd, dirs) == Some(path_join(cwd, ".venv"@)),
        !seq_has(dirs, path_join(cwd, "node_modules"@)) && !seq_has(dirs, path_join(cwd, ".venv"@)) && seq_has(
            dirs,
            path_join(cwd, "vendor"@),
        ) ==> dependency_dir(cwd, dirs) == Some(path_join(cwd, "vendor"@)),
{
}

} // verus!
