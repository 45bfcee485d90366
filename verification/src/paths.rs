//! Unix path rules on path strings: absoluteness, components, joining.

use vstd::prelude::*;

use crate::text::{
    chars_eq, seg_views, split_char, split_chars_on, starts_with, str_chars, string_from_chars,
};

verus! {

/// `Path::is_absolute` on Unix: the path begins at the root.
pub open spec fn is_absolute(p: Seq<char>) -> bool {
    p.len() > 0 && p[0] == '/'
}

/// The normal components among the `/`-separated pieces: neither empty nor `.`.
pub open spec fn normal_parts(segs: Seq<Seq<char>>) -> Seq<Seq<char>>
    decreases segs.len(),
{
    if segs.len() == 0 {
        Seq::empty()
    } else {
        let r = normal_parts(segs.drop_last());
        if segs.last().len() == 0 || segs.last() == seq!['.'] {
            r
        } else {
            r.push(segs.last())
        }
    }
}

/// A relative path whose first component is `.` (`Component::CurDir` leads).
pub open spec fn leads_with_cur_dir(p: Seq<char>) -> bool {
    !is_absolute(p) && split_char(p, '/')[0] == seq!['.']
}

/// Two paths have the same components (`Path == Path`): both rooted or
/// neither, the same leading `.`, and the same normal components.
pub open spec fn path_eq(a: Seq<char>, b: Seq<char>) -> bool {
    &&& is_absolute(a) == is_absolute(b)
    &&& leads_with_cur_dir(a) == leads_with_cur_dir(b)
    &&& normal_parts(split_char(a, '/')) == normal_parts(split_char(b, '/'))
}

/// `PathBuf::push`: an absolute `rel` replaces `base`; otherwise `rel` is added
/// after a `/` unless `base` is empty or already ends with one.
pub open spec fn path_join(base: Seq<char>, rel: Seq<char>) -> Seq<char> {
    if is_absolute(rel) || base.len() == 0 {
        rel
    } else if base.last() == '/' {
        base + rel
    } else {
        base + seq!['/'] + rel
    }
}

/// Some component of `p` is `..` (`Component::ParentDir`).
pub open spec fn has_parent_component(p: Seq<char>) -> bool {
    exists|i: int| 0 <= i < split_char(p, '/').len() && split_char(p, '/')[i] == seq!['.', '.']
}

/// `s.trim_start_matches(pre)`: every leading copy of a non-empty `pre` removed.
pub open spec fn strip_leading(s: Seq<char>, pre: Seq<char>) -> Seq<char>
    decreases s.len(),
{
    if pre.len() > 0 && starts_with(s, pre) {
        strip_leading(s.skip(pre.len() as int), pre)
    } else {
        s
    }
}

/// `Path::new(p).is_absolute()`.
pub fn path_is_absolute(p: &str) -> (r: bool)
    ensures
        r == is_absolute(p@),
{
    let cs = str_chars(p);
    cs.len() > 0 && cs[0] == '/'
}

fn normal_parts_exec(segs: &Vec<Vec<char>>) -> (r: Vec<Vec<char>>)
    ensures
        seg_views(r@) == normal_parts(seg_views(segs@)),
{
    let mut out: Vec<Vec<char>> = Vec::new();
    let mut i: usize = 0;
    while i < segs.len()
        invariant
            i <= segs@.len(),
            seg_views(out@) == normal_parts(seg_views(segs@).take(i as int)),
        decreases segs@.len() - i,
    {
        let seg = &segs[i];
        assert(seg_views(segs@).take(i + 1).drop_last() =~= seg_views(segs@).take(i as int));
        assert(seg_views(segs@).take(i + 1).last() == seg@);
        let is_dot = seg.len() == 1 && seg[0] == '.';
        assert(is_dot == (seg@ == seq!['.'])) by {
            if seg@ == seq!['.'] {
                assert(seg@[0] == '.');
            }
            if is_dot {
                assert(seg@ =~= seq!['.']);
            }
        }
        if !(seg.len() == 0 || is_dot) {
            let ghost before = seg_views(out@);
            out.push(seg.clone());
            assert(seg_views(out@) =~= before.push(seg@));
        }
        i = i + 1;
    }
    assert(seg_views(segs@).take(segs@.len() as int) =~= seg_views(segs@));
    out
}

fn segs_eq(a: &Vec<Vec<char>>, b: &Vec<Vec<char>>) -> (r: bool)
    ensures
        r == (seg_views(a@) == seg_views(b@)),
{
    if a.len() != b.len() {
        assert(seg_views(a@).len() != seg_views(b@).len());
        return false;
    }
    let mut i: usize = 0;
    while i < a.len()
        invariant
            a@.len() == b@.len(),
            i <= a@.len(),
            forall|j: int| 0 <= j < i ==> seg_views(a@)[j] == seg_views(b@)[j],
        decreases a@.len() - i,
    {
        if !chars_eq(&a[i], &b[i]) {
            assert(seg_views(a@)[i as int] != seg_views(b@)[i as int]);
            return false;
        }
        i = i + 1;
    }
    assert(seg_views(a@) =~= seg_views(b@));
    true
}

/// Whether two paths have the same components.
pub fn path_eq_str(a: &str, b: &str) -> (r: bool)
    ensures
        r == path_eq(a@, b@),
{
    let ca = str_chars(a);
    let cb = str_chars(b);
    let abs_a = ca.len() > 0 && ca[0] == '/';
    let abs_b = cb.len() > 0 && cb[0] == '/';
    let sa = split_chars_on(&ca, '/');
    let sb = split_chars_on(&cb, '/');
    proof {
        crate::text::lemma_split_char_nonempty(a@, '/');
        crate::text::lemma_split_char_nonempty(b@, '/');
    }
    assert(seg_views(sa@)[0] == sa@[0]@);
    assert(seg_views(sb@)[0] == sb@[0]@);
    let cur_a = !abs_a && sa[0].len() == 1 && sa[0][0] == '.';
    let cur_b = !abs_b && sb[0].len() == 1 && sb[0][0] == '.';
    assert(cur_a == leads_with_cur_dir(a@)) by {
        if sa@[0]@ == seq!['.'] {
            assert(sa@[0]@[0] == '.');
        }
        if sa@[0]@.len() == 1 && sa@[0]@[0] == '.' {
            assert(sa@[0]@ =~= seq!['.']);
        }
    }
    assert(cur_b == leads_with_cur_dir(b@)) by {
        if sb@[0]@ == seq!['.'] {
            assert(sb@[0]@[0] == '.');
        }
        if sb@[0]@.len() == 1 && sb@[0]@[0] == '.' {
            assert(sb@[0]@ =~= seq!['.']);
        }
    }
    if abs_a != abs_b || cur_a != cur_b {
        return false;
    }
    let na = normal_parts_exec(&sa);
    let nb = normal_parts_exec(&sb);
    segs_eq(&na, &nb)
}

/// `base.join(rel)` as a string.
pub fn path_join_str(base: &str, rel: &str) -> (r: String)
    ensures
        r@ == path_join(base@, rel@),
{
    let cb = str_chars(base);
    if path_is_absolute(rel) || cb.len() == 0 {
        return rel.to_owned();
    }
    let mut out = base.to_owned();
    if cb[cb.len() - 1] != '/' {
        crate::text::push_char(&mut out, '/');
    }
    out.append(rel);
    out
}

/// Whether some component of `p` is `..`.
pub fn path_has_parent_component(p: &str) -> (r: bool)
    ensures
        r == has_parent_component(p@),
{
    let cs = str_chars(p);
    let segs = split_chars_on(&cs, '/');
    let mut i: usize = 0;
    while i < segs.len()
        invariant
            seg_views(segs@) == split_char(p@, '/'),
            i <= segs@.len(),
            forall|j: int| 0 <= j < i ==> split_char(p@, '/')[j] != seq!['.', '.'],
        decreases segs@.len() - i,
    {
        let seg = &segs[i];
        assert(split_char(p@, '/')[i as int] == seg@);
        if seg.len() == 2 && seg[0] == '.' && seg[1] == '.' {
            assert(seg@ =~= seq!['.', '.']);
            return true;
        }
        assert(seg@ != seq!['.', '.']) by {
            if seg@ == seq!['.', '.'] {
                assert(seg@[0] == '.' && seg@[1] == '.');
            }
        }
        i = i + 1;
    }
    false
}

/// `s.trim_start_matches(pre)`.
pub fn strip_leading_str(s: &str, pre: &str) -> (r: String)
    ensures
        r@ == strip_leading(s@, pre@),
{
    let cs = str_chars(s);
    let cp = str_chars(pre);
    let mut start: usize = 0;
    if cp.len() == 0 {
        return s.to_owned();
    }
    assert(s@.skip(0) =~= s@);
    while cp.len() <= cs.len() - start && crate::text::chars_occur_at(&cs, &cp, start)
        invariant
            start <= cs@.len(),
            cs@ == s@,
            cp@ == pre@,
            cp@.len() > 0,
            strip_leading(s@, pre@) == strip_leading(s@.skip(start as int), pre@),
        decreases cs@.len() - start,
    {
        proof {
            let t = s@.skip(start as int);
            assert(t.subrange(0, pre@.len() as int) =~= s@.subrange(start as int, start + pre@.len()));
            assert(t.skip(pre@.len() as int) =~= s@.skip(start + pre@.len()));
        }
        start = start + cp.len();
    }
    proof {
        let t = s@.skip(start as int);
        if starts_with(t, pre@) {
            assert(t.subrange(0, pre@.len() as int) =~= s@.subrange(start as int, start + pre@.len()));
        }
    }
    let mut out: Vec<char> = Vec::new();
    let mut i: usize = start;
    while i < cs.len()
        invariant
            start <= i <= cs@.len(),
            out@ == cs@.subrange(start as int, i as int),
        decreases cs@.len() - i,
    {
        out.push(cs[i]);
        assert(cs@.subrange(start as int, i + 1) =~= cs@.subrange(start as int, i as int).push(cs@[i as int]));
        i = i + 1;
    }
    assert(out@ =~= s@.skip(start as int));
    string_from_chars(&out)
}

/// The components of a path after its root or leading `.`: the normal
/// components and `..`, in order.
pub open spec fn components(p: Seq<char>) -> Seq<Seq<char>> {
    normal_parts(split_char(p, '/'))
}

/// `Path::strip_prefix`: the components of `p` after those of `base`, when
/// `base`'s components lead `p`'s (the root and a leading `.` included).
pub open spec fn strip_path_prefix(p: Seq<char>, base: Seq<char>) -> Option<Seq<Seq<char>>> {
    let cp = components(p);
    let cb = components(base);
    if is_absolute(p) == is_absolute(base) && leads_with_cur_dir(p) == leads_with_cur_dir(base) && cb.len()
        <= cp.len() && cp.take(cb.len() as int) == cb {
        Some(cp.skip(cb.len() as int))
    } else {
        None
    }
}

/// The components of a path.
pub fn path_components(p: &str) -> (r: Vec<Vec<char>>)
    ensures
        seg_views(r@) == components(p@),
{
    let cs = str_chars(p);
    let segs = split_chars_on(&cs, '/');
    normal_parts_exec(&segs)
}

/// Whether the path leads with a `.` component.
fn path_leads_with_cur_dir(p: &str) -> (r: bool)
    ensures
        r == leads_with_cur_dir(p@),
{
    let cs = str_chars(p);
    let abs = cs.len() > 0 && cs[0] == '/';
    let segs = split_chars_on(&cs, '/');
    proof {
        crate::text::lemma_split_char_nonempty(p@, '/');
    }
    assert(seg_views(segs@)[0] == segs@[0]@);
    let cur = !abs && segs[0].len() == 1 && segs[0][0] == '.';
    assert(cur == leads_with_cur_dir(p@)) by {
        if segs@[0]@ == seq!['.'] {
            assert(segs@[0]@[0] == '.');
        }
        if segs@[0]@.len() == 1 && segs@[0]@[0] == '.' {
            assert(segs@[0]@ =~= seq!['.']);
        }
    }
    cur
}

/// The components of `p` after the prefix `base`, if `base` leads `p`.
pub fn strip_path_prefix_parts(p: &str, base: &str) -> (r: Option<Vec<Vec<char>>>)
    ensures
        match r {
            Some(v) => strip_path_prefix(p@, base@) == Some(seg_views(v@)),
            None => strip_path_prefix(p@, base@) is None,
        },
{
    if path_is_absolute(p) != path_is_absolute(base) || path_leads_with_cur_dir(p) != path_leads_with_cur_dir(base) {
        return None;
    }
    let cp = path_components(p);
    let cb = path_components(base);
    if cb.len() > cp.len() {
        return None;
    }
    let mut i: usize = 0;
    while i < cb.len()
        invariant
            seg_views(cp@) == components(p@),
            seg_views(cb@) == components(base@),
            cb@.len() <= cp@.len(),
            i <= cb@.len(),
            forall|j: int| 0 <= j < i ==> seg_views(cp@)[j] == seg_views(cb@)[j],
        decreases cb@.len() - i,
    {
        if !chars_eq(&cp[i], &cb[i]) {
            assert(seg_views(cp@).take(cb@.len() as int)[i as int] != seg_views(cb@)[i as int]);
            return None;
        }
        i = i + 1;
    }
    assert(seg_views(cp@).take(cb@.len() as int) =~= seg_views(cb@));
    let mut rest: Vec<Vec<char>> = Vec::new();
    let mut k: usize = cb.len();
    while k < cp.len()
        invariant
            seg_views(cp@) == components(p@),
            seg_views(cb@) == components(base@),
            cb@.len() <= k <= cp@.len(),
            seg_views(rest@) == seg_views(cp@).subrange(cb@.len() as int, k as int),
        decreases cp@.len() - k,
    {
        let ghost before = seg_views(rest@);
        let seg = &cp[k];
        assert(seg_views(cp@)[k as int] == seg@);
        rest.push(seg.clone());
        assert(seg_views(rest@) =~= before.push(seg@));
        assert(seg_views(cp@).subrange(cb@.len() as int, k + 1) =~= seg_views(cp@).subrange(cb@.len() as int, k as int).push(seg@));
        k = k + 1;
    }
    assert(seg_views(rest@) =~= seg_views(cp@).skip(cb@.len() as int));
    Some(rest)
}

/// `s.trim_end_matches(c)`: every trailing `c` removed.
pub open spec fn trim_end_char(s: Seq<char>, c: char) -> Seq<char>
    decreases s.len(),
{
    if s.len() > 0 && s.last() == c {
        trim_end_char(s.drop_last(), c)
    } else {
        s
    }
}

/// `base` with each segment appended after a `/` (none doubled).
pub open spec fn join_segments(base: Seq<char>, segs: Seq<Seq<char>>) -> Seq<char>
    decreases segs.len(),
{
    if segs.len() == 0 {
        base
    } else {
        let b = join_segments(base, segs.drop_last());
        (if b.len() > 0 && b.last() == '/' {
            b
        } else {
            b.push('/')
        }) + segs.last()
    }
}

/// The in-sandbox path of a relative location below the workspace mount: the
/// mount without trailing slashes (`/` if nothing is left), then each
/// component.
pub open spec fn sandbox_path(mount: Seq<char>, parts: Seq<Seq<char>>) -> Seq<char> {
    let t = trim_end_char(mount, '/');
    join_segments(if t.len() == 0 { seq!['/'] } else { t }, parts)
}

/// The in-sandbox path of the components `parts` below the mount point.
pub fn join_sandbox_parts(mount: &str, parts: &Vec<Vec<char>>) -> (r: String)
    ensures
        r@ == sandbox_path(mount@, seg_views(parts@)),
{
    let cs = str_chars(mount);
    let mut end: usize = cs.len();
    assert(cs@.take(end as int) =~= mount@);
    while end > 0 && cs[end - 1] == '/'
        invariant
            cs@ == mount@,
            end <= cs@.len(),
            trim_end_char(mount@, '/') == trim_end_char(cs@.take(end as int), '/'),
        decreases end,
    {
        assert(cs@.take(end as int).drop_last() =~= cs@.take(end - 1));
        end = end - 1;
    }
    let mut out: Vec<char> = Vec::new();
    let mut i: usize = 0;
    while i < end
        invariant
            end <= cs@.len(),
            i <= end,
            out@ == cs@.take(i as int),
        decreases end - i,
    {
        out.push(cs[i]);
        assert(cs@.take(i + 1) =~= cs@.take(i as int).push(cs@[i as int]));
        i = i + 1;
    }
    if out.len() == 0 {
        out.push('/');
        assert(out@ =~= seq!['/']);
    }
    let ghost base = out@;
    let mut k: usize = 0;
    while k < parts.len()
        invariant
            k <= parts@.len(),
            out@ == join_segments(base, seg_views(parts@).take(k as int)),
        decreases parts@.len() - k,
    {
        assert(seg_views(parts@).take(k + 1).drop_last() =~= seg_views(parts@).take(k as int));
        assert(seg_views(parts@).take(k + 1).last() == parts@[k as int]@);
        if !(out.len() > 0 && out[out.len() - 1] == '/') {
            out.push('/');
        }
        let seg = &parts[k];
        let ghost mid = out@;
        let mut j: usize = 0;
        while j < seg.len()
            invariant
                j <= seg@.len(),
                out@ == mid + seg@.take(j as int),
            decreases seg@.len() - j,
        {
            out.push(seg[j]);
            assert(seg@.take(j + 1) =~= seg@.take(j as int).push(seg@[j as int]));
            j = j + 1;
        }
        assert(seg@.take(seg@.len() as int) =~= seg@);
        k = k + 1;
    }
    assert(seg_views(parts@).take(parts@.len() as int) =~= seg_views(parts@));
    string_from_chars(&out)
}

/// The in-sandbox path of `relative` below the workspace mount point.
pub fn join_sandbox_path(mount: &str, relative: &str) -> (r: String)
    ensures
        r@ == sandbox_path(mount@, components(relative@)),
{
    let parts = path_components(relative);
    join_sandbox_parts(mount, &parts)
}

} // verus!
