//! `sbox status`: the sessions of a workspace, read from `podman ps`, and
//! how they are listed.

use vstd::prelude::*;

use crate::backend::args::{lines_of, text_lines};
use crate::text::{
    append, concat2, concat3, join, join_strings, owned, seg_views, split_char, split_chars_on, starts_with,
    str_chars, str_starts_with, string_from_chars, views,
};

verus! {

/// One session as `podman ps` lists it.
pub struct SessionInfo {
    pub name: String,
    pub image: String,
    pub status: String,
    pub created: String,
}

pub open spec fn session_view(s: SessionInfo) -> (Seq<char>, Seq<char>, Seq<char>, Seq<char>) {
    (s.name@, s.image@, s.status@, s.created@)
}

pub open spec fn session_views(v: Seq<SessionInfo>) -> Seq<(Seq<char>, Seq<char>, Seq<char>, Seq<char>)> {
    v.map_values(|s: SessionInfo| session_view(s))
}

/// The name prefix of the sessions listed: every sbox session with
/// `--all` or when the workspace is unknown, else the workspace's.
pub fn status_prefix(all: bool, workspace_hash: Option<&str>) -> (r: String)
    ensures
        r@ == if all {
            "sbox-"@
        } else {
            match workspace_hash {
                Some(h) => "sbox-"@ + h@,
                None => "sbox-"@,
            }
        },
{
    if all {
        return owned("sbox-");
    }
    match workspace_hash {
        Some(h) => concat2("sbox-", h),
        None => owned("sbox-"),
    }
}

/// The `k`-th tab-separated field, empty when there are fewer.
pub open spec fn field(ps: Seq<Seq<char>>, k: int) -> Seq<char> {
    if ps.len() > k {
        ps[k]
    } else {
        Seq::empty()
    }
}

/// A line of `podman ps` output split into at most four fields at tabs
/// (`splitn(4, '\t')`): the last field keeps any further tabs.
pub open spec fn session_of(line: Seq<char>) -> (Seq<char>, Seq<char>, Seq<char>, Seq<char>) {
    let ps = split_char(line, '\t');
    (
        ps[0],
        field(ps, 1),
        field(ps, 2),
        if ps.len() > 3 {
            join(ps.skip(3), "\t"@)
        } else {
            Seq::empty()
        },
    )
}

/// The sessions among the lines whose name starts with `prefix`, in order.
pub open spec fn sessions_in(lines: Seq<Seq<char>>, prefix: Seq<char>) -> Seq<(Seq<char>, Seq<char>, Seq<char>, Seq<char>)>
    decreases lines.len(),
{
    if lines.len() == 0 {
        Seq::empty()
    } else {
        let rest = sessions_in(lines.drop_last(), prefix);
        if starts_with(split_char(lines.last(), '\t')[0], prefix) {
            rest.push(session_of(lines.last()))
        } else {
            rest
        }
    }
}

fn pieces_of(line: &str) -> (r: Vec<String>)
    ensures
        views(r@) == split_char(line@, '\t'),
        r@.len() >= 1,
{
    let cs = str_chars(line);
    let segs = split_chars_on(cs.as_slice(), '\t');
    proof {
        crate::text::lemma_split_char_nonempty(line@, '\t');
    }
    let mut out: Vec<String> = Vec::new();
    let mut i: usize = 0;
    while i < segs.len()
        invariant
            i <= segs@.len(),
            seg_views(segs@) == split_char(line@, '\t'),
            views(out@) == seg_views(segs@).take(i as int),
        decreases segs@.len() - i,
    {
        crate::text::push_string(&mut out, string_from_chars(segs[i].as_slice()));
        assert(views(out@) =~= seg_views(segs@).take(i + 1));
        i = i + 1;
    }
    assert(seg_views(segs@).take(segs@.len() as int) =~= seg_views(segs@));
    out
}

fn session_from_line(line: &str) -> (r: SessionInfo)
    ensures
        session_view(r) == session_of(line@),
{
    let ps = pieces_of(line);
    let ghost pv = views(ps@);
    let name = ps[0].clone();
    let image = if ps.len() > 1 {
        ps[1].clone()
    } else {
        String::new()
    };
    let status = if ps.len() > 2 {
        ps[2].clone()
    } else {
        String::new()
    };
    let created = if ps.len() > 3 {
        let mut rest: Vec<String> = Vec::new();
        let mut k: usize = 3;
        while k < ps.len()
            invariant
                3 <= k <= ps@.len(),
                pv == views(ps@),
                views(rest@) == pv.subrange(3, k as int),
            decreases ps@.len() - k,
        {
            crate::text::push_string(&mut rest, ps[k].clone());
            assert(views(rest@) =~= pv.subrange(3, k + 1));
            k = k + 1;
        }
        assert(pv.subrange(3, ps@.len() as int) =~= pv.skip(3));
        join_strings(rest.as_slice(), "\t")
    } else {
        String::new()
    };
    proof {
        reveal_strlit("\t");
    }
    SessionInfo { name, image, status, created }
}

/// The sessions in `podman ps` output whose name starts with `prefix`.
pub fn parse_sessions(listing: &str, prefix: &str) -> (r: Vec<SessionInfo>)
    ensures
        session_views(r@) == sessions_in(text_lines(listing@), prefix@),
{
    let lines = lines_of(listing);
    let ghost lv = views(lines@);
    let mut out: Vec<SessionInfo> = Vec::new();
    let mut i: usize = 0;
    while i < lines.len()
        invariant
            i <= lines@.len(),
            lv == views(lines@),
            lv == text_lines(listing@),
            session_views(out@) == sessions_in(lv.take(i as int), prefix@),
        decreases lines@.len() - i,
    {
        assert(lv.take(i + 1).drop_last() =~= lv.take(i as int));
        assert(lv.take(i + 1).last() == lines@[i as int]@);
        let ps = pieces_of(lines[i].as_str());
        let ghost before = out@;
        if str_starts_with(ps[0].as_str(), prefix) {
            let s = session_from_line(lines[i].as_str());
            out.push(s);
            assert(session_views(out@) =~= session_views(before).push(session_view(s)));
        }
        assert(session_views(out@) =~= sessions_in(lv.take(i + 1), prefix@));
        i = i + 1;
    }
    assert(lv.take(lines@.len() as int) =~= lv);
    out
}

/// `s` padded with spaces to `w` characters (`{:<w}`).
pub open spec fn padded(s: Seq<char>, w: nat) -> Seq<char> {
    if s.len() < w {
        s + Seq::new((w - s.len()) as nat, |i: int| ' ')
    } else {
        s
    }
}

fn pad(s: &str, w: usize) -> (r: String)
    ensures
        r@ == padded(s@, w as nat),
{
    let mut out = owned(s);
    let n = str_chars(s).len();
    if n >= w {
        return out;
    }
    let mut k: usize = n;
    while k < w
        invariant
            n <= k <= w,
            n == s@.len(),
            out@ == s@ + Seq::new((k - n) as nat, |i: int| ' '),
        decreases w - k,
    {
        proof {
            reveal_strlit(" ");
        }
        append(&mut out, " ");
        assert(out@ =~= s@ + Seq::new((k + 1 - n) as nat, |i: int| ' '));
        k = k + 1;
    }
    out
}

/// One row of the session table.
pub open spec fn table_row(a: Seq<char>, b: Seq<char>, c: Seq<char>, d: Seq<char>) -> Seq<char> {
    padded(a, 40) + "  "@ + padded(b, 30) + "  "@ + padded(c, 20) + "  "@ + d
}

fn row(a: &str, b: &str, c: &str, d: &str) -> (r: String)
    ensures
        r@ == table_row(a@, b@, c@, d@),
{
    let mut out = pad(a, 40);
    append(&mut out, "  ");
    let pb = pad(b, 30);
    append(&mut out, pb.as_str());
    append(&mut out, "  ");
    let pc = pad(c, 20);
    append(&mut out, pc.as_str());
    append(&mut out, "  ");
    append(&mut out, d);
    out
}

/// The rows of the sessions, one line each.
pub open spec fn rows_text(ss: Seq<(Seq<char>, Seq<char>, Seq<char>, Seq<char>)>) -> Seq<char>
    decreases ss.len(),
{
    if ss.len() == 0 {
        Seq::empty()
    } else {
        rows_text(ss.drop_last()) + table_row(ss.last().0, ss.last().1, ss.last().2, ss.last().3) + "\n"@
    }
}

/// What `sbox status` prints: a note when there is no session, else a
/// table of them.
pub open spec fn status_text(ss: Seq<(Seq<char>, Seq<char>, Seq<char>, Seq<char>)>, prefix: Seq<char>, all: bool) -> Seq<char> {
    if ss.len() == 0 {
        if all {
            "no sbox-managed containers found on this host\n"@
        } else {
            "no active sessions for this workspace (prefix: "@ + prefix
                + ")\nuse `sbox status --all` to see all workspaces\n"@
        }
    } else {
        table_row("SESSION"@, "IMAGE"@, "STATUS"@, "CREATED"@) + "\n"@ + Seq::new(100, |i: int| '-') + "\n"@
            + rows_text(ss)
    }
}

/// What `sbox status` prints for the sessions.
pub fn render_status_text(sessions: &Vec<SessionInfo>, prefix: &str, all: bool) -> (r: String)
    ensures
        r@ == status_text(session_views(sessions@), prefix@, all),
{
    if sessions.len() == 0 {
        if all {
            return owned("no sbox-managed containers found on this host\n");
        }
        return concat3(
            "no active sessions for this workspace (prefix: ",
            prefix,
            ")\nuse `sbox status --all` to see all workspaces\n",
        );
    }
    let ghost sv = session_views(sessions@);
    let mut out = row("SESSION", "IMAGE", "STATUS", "CREATED");
    append(&mut out, "\n");
    let mut k: usize = 0;
    while k < 100
        invariant
            k <= 100,
            out@ == table_row("SESSION"@, "IMAGE"@, "STATUS"@, "CREATED"@) + "\n"@ + Seq::new(k as nat, |i: int| '-'),
        decreases 100 - k,
    {
        proof {
            reveal_strlit("-");
        }
        append(&mut out, "-");
        assert(out@ =~= table_row("SESSION"@, "IMAGE"@, "STATUS"@, "CREATED"@) + "\n"@ + Seq::new(
            (k + 1) as nat,
            |i: int| '-',
        ));
        k = k + 1;
    }
    append(&mut out, "\n");
    let ghost head = out@;
    let mut i: usize = 0;
    while i < sessions.len()
        invariant
            i <= sessions@.len(),
            sv == session_views(sessions@),
            out@ == head + rows_text(sv.take(i as int)),
        decreases sessions@.len() - i,
    {
        assert(sv.take(i + 1).drop_last() =~= sv.take(i as int));
        assert(sv.take(i + 1).last() == session_view(sessions@[i as int]));
        let s = &sessions[i];
        let line = row(s.name.as_str(), s.image.as_str(), s.status.as_str(), s.created.as_str());
        append(&mut out, line.as_str());
        append(&mut out, "\n");
        assert(out@ =~= head + rows_text(sv.take(i + 1)));
        i = i + 1;
    }
    assert(sv.take(sessions@.len() as int) =~= sv);
    out
}

} // verus!
