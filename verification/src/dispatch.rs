//! Command strings and the wildcard patterns of dispatch rules.

use vstd::prelude::*;

use crate::text::{
    chars_eq, lemma_split_char_nonempty, seg_views, split_char, split_chars_on, chars_find_from, chars_has, chars_occur_at, chars_starts_with, ends_with, has_char, join,
    join_strings, occurs_at, starts_with, str_chars, views,
};

verus! {

/// The segments of a pattern between its `*` characters (`str::split('*')`):
/// one more segment than there are stars.
pub open spec fn split_star(p: Seq<char>) -> Seq<Seq<char>> {
    split_char(p, '*')
}

/// `s` holds the segments `segs`, in order and without overlap, each after some
/// stretch of characters, the last one ending `s`.
pub open spec fn floating_match(segs: Seq<Seq<char>>, s: Seq<char>) -> bool
    decreases segs.len(),
{
    if segs.len() == 0 {
        true
    } else if segs.len() == 1 {
        ends_with(s, segs[0])
    } else {
        exists|i: int|
            #![trigger occurs_at(s, segs[0], i)]
            occurs_at(s, segs[0], i) && floating_match(segs.drop_first(), s.skip(i + segs[0].len()))
    }
}

/// `s` matches the wildcard pattern `p`, in which `*` stands for any run of
/// characters (the empty run too) and every other character for itself.
pub open spec fn wildcard_matches(p: Seq<char>, s: Seq<char>) -> bool {
    if !has_char(p, '*') {
        s == p
    } else {
        let segs = split_star(p);
        starts_with(s, segs[0]) && floating_match(segs.drop_first(), s.skip(segs[0].len() as int))
    }
}

/// The words of a command joined by single spaces.
pub open spec fn command_line(argv: Seq<Seq<char>>) -> Seq<char> {
    join(argv, seq![' '])
}

proof fn lemma_split_star_has_star(p: Seq<char>)
    requires
        has_char(p, '*'),
    ensures
        split_star(p).len() >= 2,
    decreases p.len(),
{
    lemma_split_char_nonempty(p.drop_last(), '*');
    if p.last() != '*' {
        let i = choose|i: int| 0 <= i < p.len() && p[i] == '*';
        assert(p.drop_last()[i] == '*');
        lemma_split_star_has_star(p.drop_last());
    }
}

/// Matching the floating segments from a later point implies matching them from
/// an earlier one.
proof fn lemma_floating_earlier(segs: Seq<Seq<char>>, s: Seq<char>, a: int, b: int)
    requires
        0 <= a <= b <= s.len(),
        floating_match(segs, s.skip(b)),
    ensures
        floating_match(segs, s.skip(a)),
    decreases segs.len(),
{
    if segs.len() == 1 {
        assert(s.skip(a).subrange(s.skip(a).len() - segs[0].len(), s.skip(a).len() as int)
            =~= s.skip(b).subrange(s.skip(b).len() - segs[0].len(), s.skip(b).len() as int));
    } else if segs.len() > 1 {
        let i = choose|i: int|
            #![trigger occurs_at(s.skip(b), segs[0], i)]
            occurs_at(s.skip(b), segs[0], i) && floating_match(segs.drop_first(), s.skip(b).skip(i + segs[0].len()));
        let j = i + (b - a);
        assert(s.skip(a).subrange(j, j + segs[0].len()) =~= s.skip(b).subrange(i, i + segs[0].len()));
        assert(s.skip(a).skip(j + segs[0].len()) =~= s.skip(b).skip(i + segs[0].len()));
        assert(occurs_at(s.skip(a), segs[0], j));
    }
}

/// Whether `s` matches the wildcard pattern `p` (slices): the first segment
/// anchors the start, each later segment is found at its leftmost place after
/// the previous one, and the last segment must end `s`.
pub fn wildcard_match_chars(p: &[char], s: &[char]) -> (r: bool)
    ensures
        r == wildcard_matches(p@, s@),
{
    if !chars_has(p, '*') {
        return chars_eq(s, p);
    }
    proof {
        lemma_split_star_has_star(p@);
    }
    let segs = split_chars_on(p, '*');
    let ghost gs = seg_views(segs@);
    assert(segs@.len() == gs.len());
    let n = segs.len();
    if !chars_starts_with(s, &segs[0]) {
        return false;
    }
    assert(gs[0] == segs@[0]@);
    let mut cursor: usize = segs[0].len();
    let mut k: usize = 1;
    let slen = s.len();
    assert(gs.drop_first() =~= gs.skip(1));
    while k + 1 < n
        invariant
            slen == s@.len(),
            gs == split_star(p@),
            has_char(p@, '*'),
            starts_with(s@, gs[0]),
            2 <= n == gs.len(),
            gs == seg_views(segs@),
            1 <= k < n,
            cursor <= s@.len(),
            floating_match(gs.drop_first(), s@.skip(gs[0].len() as int))
                == floating_match(gs.skip(k as int), s@.skip(cursor as int)),
        decreases n - k,
    {
        let seg = &segs[k];
        assert(gs[k as int] == seg@);
        let ghost t = s@.skip(cursor as int);
        let ghost rest = gs.skip(k as int);
        assert(rest.len() >= 2);
        assert(rest[0] == seg@);
        assert(rest.drop_first() =~= gs.skip(k + 1));
        match chars_find_from(s, seg, cursor) {
            Some(pos) => {
                let next = pos + seg.len();
                proof {
                    let i0 = pos - cursor;
                    assert(t.subrange(i0, i0 + seg@.len()) =~= s@.subrange(pos as int, next as int));
                    assert(occurs_at(t, rest[0], i0));
                    assert(t.skip(i0 + seg@.len()) =~= s@.skip(next as int));
                    if floating_match(rest, t) {
                        let i = choose|i: int|
                            #![trigger occurs_at(t, rest[0], i)]
                            occurs_at(t, rest[0], i) && floating_match(rest.drop_first(), t.skip(i + rest[0].len()));
                        assert(s@.subrange(cursor + i, cursor + i + seg@.len()) =~= t.subrange(i, i + seg@.len()));
                        assert(occurs_at(s@, seg@, cursor + i));
                        assert(t.skip(i + rest[0].len()) =~= s@.skip(cursor + i + seg@.len()));
                        lemma_floating_earlier(rest.drop_first(), s@, next as int, cursor + i + seg@.len());
                    }
                }
                cursor = next;
            }
            None => {
                proof {
                    if floating_match(rest, t) {
                        let i = choose|i: int|
                            #![trigger occurs_at(t, rest[0], i)]
                            occurs_at(t, rest[0], i) && floating_match(rest.drop_first(), t.skip(i + rest[0].len()));
                        assert(s@.subrange(cursor + i, cursor + i + seg@.len()) =~= t.subrange(i, i + seg@.len()));
                        assert(occurs_at(s@, seg@, cursor + i));
                    }
                    assert(!floating_match(rest, t));
                    assert(gs == split_star(p@));
                    assert(has_char(p@, '*'));
                    assert(starts_with(s@, gs[0]));
                    assert(!floating_match(gs.drop_first(), s@.skip(gs[0].len() as int)));
                }
                return false;
            }
        }
        k = k + 1;
    }
    let last = &segs[n - 1];
    assert(gs[n - 1] == last@);
    assert(gs.skip(k as int) =~= seq![last@]);
    if last.len() > s.len() - cursor {
        return false;
    }
    let r = chars_occur_at(s, last, s.len() - last.len());
    proof {
        let t = s@.skip(cursor as int);
        assert(t.subrange(t.len() - last@.len(), t.len() as int)
            =~= s@.subrange(s@.len() - last@.len(), s@.len() as int));
    }
    r
}

/// The words of a command joined with single spaces.
pub fn command_string(argv: &[String]) -> (r: String)
    ensures
        r@ == command_line(views(argv@)),
{
    proof {
        reveal_strlit(" ");
        assert(" "@ =~= seq![' ']);
    }
    join_strings(argv, " ")
}

/// Whether `command` matches the dispatch pattern `pattern`: without `*` the
/// two must be equal; with it, `*` stands for any run of characters.
pub fn matches(pattern: &str, command: &str) -> (r: bool)
    ensures
        r == wildcard_matches(pattern@, command@),
{
    let p = str_chars(pattern);
    let s = str_chars(command);
    wildcard_match_chars(&p, &s)
}

/// Splitting text without the separator gives the text itself.
proof fn lemma_split_without_separator(p: Seq<char>, c: char)
    requires
        !has_char(p, c),
    ensures
        split_char(p, c) == seq![p],
    decreases p.len(),
{
    if p.len() > 0 {
        assert(!has_char(p.drop_last(), c)) by {
            if has_char(p.drop_last(), c) {
                let i = choose|i: int| 0 <= i < p.drop_last().len() && p.drop_last()[i] == c;
                assert(p[i] == c);
            }
        }
        lemma_split_without_separator(p.drop_last(), c);
        assert(p.last() != c) by {
            assert(p[p.len() - 1] == p.last());
        }
        assert(p.drop_last().push(p.last()) =~= p);
        let r = split_char(p.drop_last(), c);
        assert(r.len() == 1 && r.last() == p.drop_last());
        assert(split_char(p, c) == r.update(r.len() - 1, r.last().push(p.last())));
        assert(split_char(p, c) =~~= seq![p]);
    } else {
        assert(p =~= Seq::<char>::empty());
        assert(split_char(p, c) =~~= seq![p]);
    }
}

/// Splitting `c` followed by text without `c` gives an empty piece and the text.
proof fn lemma_split_after_separator(q: Seq<char>, c: char)
    requires
        !has_char(q, c),
    ensures
        split_char(seq![c] + q, c) == seq![Seq::<char>::empty(), q],
    decreases q.len(),
{
    let p = seq![c] + q;
    if q.len() == 0 {
        assert(p =~= seq![c]);
        assert(p.drop_last() =~= Seq::<char>::empty());
        assert(p.last() == c);
        assert(split_char(p.drop_last(), c) =~~= seq![Seq::<char>::empty()]);
        assert(split_char(p, c) =~~= seq![Seq::<char>::empty(), Seq::<char>::empty()]);
        assert(q =~= Seq::<char>::empty());
        assert(split_char(p, c) =~~= seq![Seq::<char>::empty(), q]);
    } else {
        assert(!has_char(q.drop_last(), c)) by {
            if has_char(q.drop_last(), c) {
                let i = choose|i: int| 0 <= i < q.drop_last().len() && q.drop_last()[i] == c;
                assert(q[i] == c);
            }
        }
        lemma_split_after_separator(q.drop_last(), c);
        assert(p.drop_last() =~= seq![c] + q.drop_last());
        assert(p.last() == q.last());
        assert(q.last() != c) by {
            assert(q[q.len() - 1] == q.last());
        }
        assert(q.drop_last().push(q.last()) =~= q);
        let r = split_char(p.drop_last(), c);
        assert(r =~~= seq![Seq::<char>::empty(), q.drop_last()]);
        assert(r.last() == q.drop_last());
        assert(split_char(p, c) == r.update(r.len() - 1, r.last().push(p.last())));
        assert(seq![Seq::<char>::empty(), q.drop_last()].update(1, q.drop_last().push(q.last())) =~~= seq![
            Seq::<char>::empty(),
            q,
        ]);
        assert(split_char(p, c) =~~= seq![Seq::<char>::empty(), q]);
    }
}

/// A pattern without `*` matches exactly the command equal to it.
pub proof fn law_plain_pattern_matches_only_itself(p: Seq<char>, s: Seq<char>)
    requires
        !has_char(p, '*'),
    ensures
        wildcard_matches(p, s) <==> s == p,
{
}

/// A pattern ending in its only `*` matches exactly the commands that start
/// with what comes before the `*` (`cargo build*`).
pub proof fn law_trailing_star_matches_prefix(prefix: Seq<char>, s: Seq<char>)
    requires
        !has_char(prefix, '*'),
    ensures
        wildcard_matches(prefix.push('*'), s) <==> starts_with(s, prefix),
{
    let p = prefix.push('*');
    assert(p[p.len() - 1] == '*');
    assert(has_char(p, '*'));
    lemma_split_without_separator(prefix, '*');
    assert(p.drop_last() =~= prefix);
    assert(split_star(p) =~= seq![prefix, Seq::<char>::empty()]);
    let rest = s.skip(prefix.len() as int);
    assert(split_star(p).drop_first() =~= seq![Seq::<char>::empty()]);
    assert(ends_with(rest, Seq::<char>::empty())) by {
        assert(rest.subrange(rest.len() as int, rest.len() as int) =~= Seq::<char>::empty());
    }
}

/// A pattern starting with its only `*` matches exactly the commands that
/// end with what comes after the `*` (`*install`).
pub proof fn law_leading_star_matches_suffix(suffix: Seq<char>, s: Seq<char>)
    requires
        !has_char(suffix, '*'),
    ensures
        wildcard_matches(seq!['*'] + suffix, s) <==> ends_with(s, suffix),
{
    let p = seq!['*'] + suffix;
    assert(p[0] == '*');
    assert(has_char(p, '*'));
    lemma_split_after_separator(suffix, '*');
    assert(split_star(p).drop_first() =~= seq![suffix]);
    assert(starts_with(s, Seq::<char>::empty())) by {
        assert(s.subrange(0, 0) =~= Seq::<char>::empty());
    }
    assert(s.skip(0) =~= s);
}

/// The pattern `*` matches every command.
pub proof fn law_star_matches_everything(s: Seq<char>)
    ensures
        wildcard_matches(seq!['*'], s),
{
    law_trailing_star_matches_prefix(Seq::<char>::empty(), s);
    assert(Seq::<char>::empty().push('*') =~= seq!['*']);
    assert(s.subrange(0, 0) =~= Seq::<char>::empty());
}


/// Splitting `c` followed by any text gives an empty piece, then the pieces
/// of the text.
proof fn lemma_split_after_leading(q: Seq<char>, c: char)
    ensures
        split_char(seq![c] + q, c) == seq![Seq::<char>::empty()] + split_char(q, c),
    decreases q.len(),
{
    let p = seq![c] + q;
    if q.len() == 0 {
        assert(p =~= seq![c]);
        assert(p.drop_last() =~= Seq::<char>::empty());
        assert(p.last() == c);
        assert(split_char(p.drop_last(), c) =~~= seq![Seq::<char>::empty()]);
        assert(split_char(p, c) =~~= seq![Seq::<char>::empty(), Seq::<char>::empty()]);
        assert(q =~= Seq::<char>::empty());
        assert(split_char(q, c) =~~= seq![Seq::<char>::empty()]);
        assert(split_char(p, c) =~~= seq![Seq::<char>::empty()] + split_char(q, c));
    } else {
        lemma_split_after_leading(q.drop_last(), c);
        assert(p.drop_last() =~= seq![c] + q.drop_last());
        assert(p.last() == q.last());
        let r = split_char(q.drop_last(), c);
        lemma_split_char_nonempty(q.drop_last(), c);
        let e = seq![Seq::<char>::empty()];
        if q.last() == c {
            assert(split_char(p, c) =~~= (e + r).push(Seq::<char>::empty()));
            assert(split_char(q, c) =~~= r.push(Seq::<char>::empty()));
            assert((e + r).push(Seq::<char>::empty()) =~~= e + r.push(Seq::<char>::empty()));
        } else {
            let er = e + r;
            assert(er.last() == r.last());
            assert(split_char(p, c) == er.update(er.len() - 1, er.last().push(p.last())));
            assert(split_char(q, c) == r.update(r.len() - 1, r.last().push(q.last())));
            assert(er.update(er.len() - 1, er.last().push(p.last())) =~~= e + r.update(
                r.len() - 1,
                r.last().push(q.last()),
            ));
        }
    }
}

/// Matching the floating segments of `t` still holds with any text after
/// `t` once the segments end in an empty one.
proof fn lemma_floating_extend(segs: Seq<Seq<char>>, t: Seq<char>, x: Seq<char>)
    requires
        segs.len() >= 1,
        floating_match(segs, t),
    ensures
        floating_match(segs.push(Seq::<char>::empty()), t + x),
    decreases segs.len(),
{
    let out = segs.push(Seq::<char>::empty());
    let tx = t + x;
    if segs.len() == 1 {
        let i = t.len() - segs[0].len();
        assert(tx.subrange(i, i + segs[0].len()) =~= t.subrange(i, t.len() as int));
        assert(occurs_at(tx, out[0], i));
        assert(out.drop_first() =~= seq![Seq::<char>::empty()]);
        let rest = tx.skip(i + out[0].len());
        assert(rest.subrange(rest.len() as int, rest.len() as int) =~= Seq::<char>::empty());
        assert(floating_match(out.drop_first(), rest));
    } else {
        let i = choose|i: int|
            #![trigger occurs_at(t, segs[0], i)]
            occurs_at(t, segs[0], i) && floating_match(segs.drop_first(), t.skip(i + segs[0].len()));
        lemma_floating_extend(segs.drop_first(), t.skip(i + segs[0].len()), x);
        assert(segs.drop_first().push(Seq::<char>::empty()) =~= out.drop_first());
        assert(tx.skip(i + segs[0].len()) =~= t.skip(i + segs[0].len()) + x);
        assert(tx.subrange(i, i + segs[0].len()) =~= t.subrange(i, i + segs[0].len()));
        assert(occurs_at(tx, out[0], i));
    }
}

/// A pattern that matches a command also matches, as floating segments, the
/// command behind any prefix.
proof fn lemma_match_floats(p: Seq<char>, c: Seq<char>, x: Seq<char>)
    requires
        wildcard_matches(p, c),
    ensures
        floating_match(split_star(p), x + c),
{
    let xc = x + c;
    if !has_char(p, '*') {
        lemma_split_without_separator(p, '*');
        assert(c == p);
        assert(xc.subrange(xc.len() - p.len(), xc.len() as int) =~= p);
    } else {
        lemma_split_star_has_star(p);
        let segs = split_star(p);
        let i = x.len() as int;
        assert(xc.subrange(i, i + segs[0].len()) =~= c.subrange(0, segs[0].len() as int));
        assert(occurs_at(xc, segs[0], i));
        assert(xc.skip(i + segs[0].len()) =~= c.skip(segs[0].len() as int));
    }
}

/// A leading or trailing `*` absorbs any extra text: when `p` matches `c`,
/// `*p` matches `c` behind any prefix and `p*` matches `c` followed by any
/// suffix; and `*` alone matches every command.
pub proof fn law_star_absorbs_extra_text(p: Seq<char>, c: Seq<char>, x: Seq<char>)
    requires
        wildcard_matches(p, c),
    ensures
        wildcard_matches(seq!['*'] + p, x + c),
        wildcard_matches(p.push('*'), c + x),
        wildcard_matches(seq!['*'], x),
{
    law_star_matches_everything(x);
    // leading star
    let lp = seq!['*'] + p;
    assert(lp[0] == '*');
    assert(has_char(lp, '*'));
    lemma_split_after_leading(p, '*');
    assert(split_star(lp) =~~= seq![Seq::<char>::empty()] + split_star(p));
    assert(split_star(lp)[0] =~= Seq::<char>::empty());
    assert(split_star(lp).drop_first() =~~= split_star(p));
    lemma_match_floats(p, c, x);
    assert((x + c).subrange(0, 0) =~= Seq::<char>::empty());
    assert((x + c).skip(0) =~= x + c);
    // trailing star
    let tp = p.push('*');
    assert(tp[tp.len() - 1] == '*');
    assert(has_char(tp, '*'));
    assert(tp.drop_last() =~= p);
    assert(split_star(tp) == split_star(p).push(Seq::<char>::empty()));
    lemma_split_char_nonempty(p, '*');
    if !has_char(p, '*') {
        lemma_split_without_separator(p, '*');
        assert(c == p);
        assert(split_star(tp) =~~= seq![p, Seq::<char>::empty()]);
        let rest = (c + x).skip(p.len() as int);
        assert((c + x).subrange(0, p.len() as int) =~= p);
        assert(split_star(tp).drop_first() =~~= seq![Seq::<char>::empty()]);
        assert(rest.subrange(rest.len() as int, rest.len() as int) =~= Seq::<char>::empty());
    } else {
        lemma_split_star_has_star(p);
        let segs = split_star(p);
        let t = c.skip(segs[0].len() as int);
        lemma_floating_extend(segs.drop_first(), t, x);
        assert(segs.drop_first().push(Seq::<char>::empty()) =~= split_star(tp).drop_first());
        assert(split_star(tp)[0] == segs[0]);
        assert((c + x).skip(segs[0].len() as int) =~= t + x);
        assert((c + x).subrange(0, segs[0].len() as int) =~= c.subrange(0, segs[0].len() as int));
    }
}

} // verus!
