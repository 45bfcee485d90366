//! The order of strings (`Ord for str`): lexicographic by character.

use vstd::prelude::*;

use crate::text::{seq_has, str_chars, views};

verus! {

/// `a` sorts before `b`: at the first difference `a` has the smaller
/// character, or `a` is a proper prefix of `b`.
pub open spec fn lex_lt(a: Seq<char>, b: Seq<char>) -> bool
    decreases a.len(),
{
    if a.len() == 0 {
        b.len() > 0
    } else if b.len() == 0 {
        false
    } else if a[0] < b[0] {
        true
    } else if a[0] > b[0] {
        false
    } else {
        lex_lt(a.drop_first(), b.drop_first())
    }
}

/// The strings are in strictly ascending order.
pub open spec fn strictly_sorted(s: Seq<Seq<char>>) -> bool {
    forall|i: int, j: int| 0 <= i < j < s.len() ==> lex_lt(#[trigger] s[i], #[trigger] s[j])
}

pub proof fn lemma_lex_irreflexive(a: Seq<char>)
    ensures
        !lex_lt(a, a),
    decreases a.len(),
{
    if a.len() > 0 {
        lemma_lex_irreflexive(a.drop_first());
    }
}

pub proof fn lemma_lex_asymmetric(a: Seq<char>, b: Seq<char>)
    ensures
        lex_lt(a, b) ==> !lex_lt(b, a),
    decreases a.len(),
{
    if a.len() > 0 && b.len() > 0 && a[0] == b[0] {
        lemma_lex_asymmetric(a.drop_first(), b.drop_first());
    }
}

pub proof fn lemma_lex_transitive(a: Seq<char>, b: Seq<char>, c: Seq<char>)
    requires
        lex_lt(a, b),
        lex_lt(b, c),
    ensures
        lex_lt(a, c),
    decreases a.len(),
{
    if a.len() > 0 && b.len() > 0 && c.len() > 0 && a[0] == b[0] && b[0] == c[0] {
        lemma_lex_transitive(a.drop_first(), b.drop_first(), c.drop_first());
    }
}

pub proof fn lemma_lex_total(a: Seq<char>, b: Seq<char>)
    ensures
        a != b ==> lex_lt(a, b) || lex_lt(b, a),
    decreases a.len(),
{
    if a.len() > 0 && b.len() > 0 && a[0] == b[0] {
        lemma_lex_total(a.drop_first(), b.drop_first());
        if a.drop_first() == b.drop_first() {
            assert forall|i: int| 0 <= i < a.len() implies a[i] == b[i] by {
                if i > 0 {
                    assert(a[i] == a.drop_first()[i - 1]);
                    assert(b[i] == b.drop_first()[i - 1]);
                }
            }
            assert(a =~= b);
        }
    } else if a.len() > 0 && b.len() > 0 {
        assert(a[0] < b[0] || a[0] > b[0]);
    } else if a.len() == 0 && b.len() == 0 {
        assert(a =~= b);
    }
}

/// Whether `a` sorts before `b`.
pub fn lex_less(a: &str, b: &str) -> (r: bool)
    ensures
        r == lex_lt(a@, b@),
{
    let ca = str_chars(a);
    let cb = str_chars(b);
    let mut i: usize = 0;
    assert(a@.skip(0) =~= a@);
    assert(b@.skip(0) =~= b@);
    while i < ca.len() && i < cb.len()
        invariant
            ca@ == a@,
            cb@ == b@,
            i <= ca@.len(),
            i <= cb@.len(),
            lex_lt(a@, b@) == lex_lt(a@.skip(i as int), b@.skip(i as int)),
        decreases ca@.len() - i,
    {
        let x = ca[i];
        let y = cb[i];
        if x < y {
            return true;
        }
        if x > y {
            return false;
        }
        assert(a@.skip(i as int).drop_first() =~= a@.skip(i + 1));
        assert(b@.skip(i as int).drop_first() =~= b@.skip(i + 1));
        i = i + 1;
    }
    i < cb.len()
}

/// Inserts `x` into a strictly sorted list of strings unless it is there.
pub fn insert_sorted(v: &mut Vec<String>, x: &str)
    requires
        strictly_sorted(views(old(v)@)),
    ensures
        strictly_sorted(views(final(v)@)),
        forall|s: Seq<char>| seq_has(views(final(v)@), s) <==> (seq_has(views(old(v)@), s) || s == x@),
{
    let ghost w = views(v@);
    let mut i: usize = 0;
    while i < v.len()
        invariant
            w == views(v@),
            strictly_sorted(w),
            i <= w.len(),
            forall|j: int| 0 <= j < i ==> lex_lt(#[trigger] w[j], x@),
        ensures
            w == views(v@),
            i <= w.len(),
            forall|j: int| 0 <= j < i ==> lex_lt(#[trigger] w[j], x@),
            i < w.len() ==> lex_lt(x@, w[i as int]),
        decreases w.len() - i,
    {
        assert(w[i as int] == v@[i as int]@);
        if eq_chars_str(v[i].as_str(), x) {
            assert forall|s: Seq<char>| seq_has(views(v@), s) <==> (seq_has(w, s) || s == x@) by {
                if s == x@ {
                    assert(w[i as int] == s);
                }
            }
            return;
        }
        if lex_less(x, v[i].as_str()) {
            break;
        }
        proof {
            lemma_lex_total(w[i as int], x@);
        }
        i = i + 1;
    }
    let ghost pos = i as int;
    proof {
        if pos < w.len() {
            assert(lex_lt(x@, w[pos]));
        }
    }
    v.insert(i, crate::text::owned(x));
    let ghost nw = views(v@);
    assert(nw =~= w.take(pos).push(x@) + w.skip(pos));
    assert forall|a: int, b: int| 0 <= a < b < nw.len() implies lex_lt(#[trigger] nw[a], #[trigger] nw[b]) by {
        if b < pos {
            assert(nw[a] == w[a] && nw[b] == w[b]);
        } else if b == pos {
            assert(nw[a] == w[a]);
        } else if a < pos {
            assert(nw[a] == w[a] && nw[b] == w[b - 1]);
            assert(lex_lt(w[a], x@));
            assert(lex_lt(x@, w[pos]));
            lemma_lex_transitive(w[a], x@, w[pos]);
            if b - 1 > pos {
                lemma_lex_transitive(w[a], w[pos], w[b - 1]);
            }
        } else if a == pos {
            assert(nw[b] == w[b - 1]);
            if b - 1 > pos {
                lemma_lex_transitive(x@, w[pos], w[b - 1]);
            }
        } else {
            assert(nw[a] == w[a - 1] && nw[b] == w[b - 1]);
        }
    }
    assert forall|s: Seq<char>| seq_has(nw, s) <==> (seq_has(w, s) || s == x@) by {
        if seq_has(w, s) {
            let j = choose|j: int| 0 <= j < w.len() && w[j] == s;
            if j < pos {
                assert(nw[j] == s);
            } else {
                assert(nw[j + 1] == s);
            }
        }
        if s == x@ {
            assert(nw[pos] == s);
        }
        if seq_has(nw, s) {
            let j = choose|j: int| 0 <= j < nw.len() && nw[j] == s;
            if j < pos {
                assert(w[j] == s);
            } else if j > pos {
                assert(w[j - 1] == s);
            }
        }
    }
}

fn eq_chars_str(a: &str, b: &str) -> (r: bool)
    ensures
        r == (a@ == b@),
{
    crate::text::eq_str(a, b)
}

} // verus!
