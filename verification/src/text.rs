//! Character-level string helpers, specified over `Seq<char>`.

use vstd::prelude::*;

verus! {

/// `s` begins with `p`.
pub open spec fn starts_with(s: Seq<char>, p: Seq<char>) -> bool {
    p.len() <= s.len() && s.subrange(0, p.len() as int) == p
}

/// `s` ends with `p`.
pub open spec fn ends_with(s: Seq<char>, p: Seq<char>) -> bool {
    p.len() <= s.len() && s.subrange(s.len() - p.len(), s.len() as int) == p
}

/// `p` occurs in `s` starting at position `i`.
pub open spec fn occurs_at(s: Seq<char>, p: Seq<char>, i: int) -> bool {
    0 <= i && i + p.len() <= s.len() && s.subrange(i, i + p.len()) == p
}

/// `p` occurs somewhere in `s`.
pub open spec fn contains(s: Seq<char>, p: Seq<char>) -> bool {
    exists|i: int| occurs_at(s, p, i)
}

/// The character `c` occurs in `s`.
pub open spec fn has_char(s: Seq<char>, c: char) -> bool {
    exists|i: int| 0 <= i < s.len() && s[i] == c
}

/// Rust's `char::is_whitespace`: the Unicode `White_Space` property.
pub open spec fn is_whitespace(c: char) -> bool {
    ||| '\u{9}' <= c <= '\u{d}'
    ||| c == ' '
    ||| c == '\u{85}'
    ||| c == '\u{a0}'
    ||| c == '\u{1680}'
    ||| '\u{2000}' <= c <= '\u{200a}'
    ||| c == '\u{2028}'
    ||| c == '\u{2029}'
    ||| c == '\u{202f}'
    ||| c == '\u{205f}'
    ||| c == '\u{3000}'
}

/// Every character of `s` is whitespace, so that `s.trim()` is empty.
pub open spec fn is_blank(s: Seq<char>) -> bool {
    forall|i: int| 0 <= i < s.len() ==> is_whitespace(s[i])
}

/// ASCII letters and digits (`char::is_ascii_alphanumeric`).
pub open spec fn is_ascii_alphanumeric(c: char) -> bool {
    ('a' <= c <= 'z') || ('A' <= c <= 'Z') || ('0' <= c <= '9')
}

/// String slices, each by its characters.
pub open spec fn str_views(v: Seq<&str>) -> Seq<Seq<char>> {
    v.map_values(|s: &str| s@)
}

/// The strings of a vector, each by its characters.
pub open spec fn views(v: Seq<String>) -> Seq<Seq<char>> {
    v.map_values(|s: String| s@)
}

/// `parts` joined with `sep` between consecutive parts (`[String]::join`).
pub open spec fn join(parts: Seq<Seq<char>>, sep: Seq<char>) -> Seq<char>
    decreases parts.len(),
{
    if parts.len() == 0 {
        Seq::empty()
    } else if parts.len() == 1 {
        parts[0]
    } else {
        join(parts.drop_last(), sep) + sep + parts.last()
    }
}

/// `s` with every character not accepted by `keep` replaced by `'-'`.
pub open spec fn sanitize(s: Seq<char>) -> Seq<char> {
    s.map_values(|c: char| if is_ascii_alphanumeric(c) || c == '_' || c == '.' || c == '-' { c } else { '-' })
}

/// The characters of a string slice, as a vector.
pub fn str_chars(s: &str) -> (r: Vec<char>)
    ensures
        r@ == s@,
{
    let mut r: Vec<char> = Vec::new();
    for c in it: s.chars()
        invariant
            r@ == it.seq().take(it.index() as int),
            it.seq() == s@,
    {
        r.push(c);
    }
    r
}

/// `String::push`: appends one character.
#[verifier::external_body]
pub(crate) fn push_char(s: &mut String, c: char)
    ensures
        final(s)@ == old(s)@.push(c),
{
    s.push(c);
}

/// A string holding exactly the given characters.
pub fn string_from_chars(v: &[char]) -> (r: String)
    ensures
        r@ == v@,
{
    let mut r = String::new();
    let mut i: usize = 0;
    while i < v.len()
        invariant
            i <= v@.len(),
            r@ == v@.take(i as int),
        decreases v@.len() - i,
    {
        push_char(&mut r, v[i]);
        assert(v@.take(i as int).push(v@[i as int]) == v@.take(i + 1));
        i = i + 1;
    }
    assert(v@.take(v@.len() as int) == v@);
    r
}

/// An owned copy of a string slice.
pub fn owned(s: &str) -> (r: String)
    ensures
        r@ == s@,
{
    s.to_owned()
}

/// Character-wise equality of two slices.
pub fn chars_eq(a: &[char], b: &[char]) -> (r: bool)
    ensures
        r == (a@ == b@),
{
    if a.len() != b.len() {
        return false;
    }
    let mut i: usize = 0;
    while i < a.len()
        invariant
            a@.len() == b@.len(),
            i <= a@.len(),
            forall|j: int| 0 <= j < i ==> a@[j] == b@[j],
        decreases a@.len() - i,
    {
        if a[i] != b[i] {
            return false;
        }
        i = i + 1;
    }
    assert(a@ =~= b@);
    true
}

/// String equality.
pub fn eq_str(a: &str, b: &str) -> (r: bool)
    ensures
        r == (a@ == b@),
{
    let ca = str_chars(a);
    let cb = str_chars(b);
    chars_eq(&ca, &cb)
}

/// `p` occurs in `s` at position `i` (slices).
pub fn chars_occur_at(s: &[char], p: &[char], i: usize) -> (r: bool)
    ensures
        r == occurs_at(s@, p@, i as int),
{
    if i > s.len() || p.len() > s.len() - i {
        return false;
    }
    let mut k: usize = 0;
    while k < p.len()
        invariant
            i + p@.len() <= s@.len(),
            s@.len() <= usize::MAX,
            k <= p@.len(),
            forall|j: int| 0 <= j < k ==> s@[i + j] == p@[j],
        decreases p@.len() - k,
    {
        assert(i + k < s@.len());
        if s[i + k] != p[k] {
            assert(s@.subrange(i as int, i + p@.len())[k as int] != p@[k as int]);
            return false;
        }
        k = k + 1;
    }
    assert(s@.subrange(i as int, i + p@.len()) =~= p@);
    true
}

/// `s` begins with `p` (slices).
pub fn chars_starts_with(s: &[char], p: &[char]) -> (r: bool)
    ensures
        r == starts_with(s@, p@),
{
    chars_occur_at(s, p, 0)
}

/// `s` ends with `p` (slices).
pub fn chars_ends_with(s: &[char], p: &[char]) -> (r: bool)
    ensures
        r == ends_with(s@, p@),
{
    if p.len() > s.len() {
        return false;
    }
    chars_occur_at(s, p, s.len() - p.len())
}

/// The first position at or after `from` where `p` occurs in `s`.
pub fn chars_find_from(s: &[char], p: &[char], from: usize) -> (r: Option<usize>)
    requires
        from <= s@.len(),
    ensures
        r matches Some(i) ==> from <= i && occurs_at(s@, p@, i as int)
            && forall|j: int| from <= j < i ==> !occurs_at(s@, p@, j),
        r is None ==> forall|j: int| from <= j ==> !occurs_at(s@, p@, j),
{
    if p.len() > s.len() {
        return None;
    }
    let last = s.len() - p.len();
    let mut i: usize = from;
    while i <= last
        invariant
            from <= i,
            last == s@.len() - p@.len(),
            forall|j: int| from <= j < i ==> !occurs_at(s@, p@, j),
        decreases last + 1 - i,
    {
        if chars_occur_at(s, p, i) {
            return Some(i);
        }
        if i == last {
            return None;
        }
        i = i + 1;
    }
    None
}

/// `p` occurs in `s` (slices).
pub fn chars_contains(s: &[char], p: &[char]) -> (r: bool)
    ensures
        r == contains(s@, p@),
{
    match chars_find_from(s, p, 0) {
        Some(i) => true,
        None => {
            assert forall|j: int| !occurs_at(s@, p@, j) by {
                if j < 0 {
                }
            }
            false
        }
    }
}

/// `s` begins with `p`.
pub fn str_starts_with(s: &str, p: &str) -> (r: bool)
    ensures
        r == starts_with(s@, p@),
{
    let cs = str_chars(s);
    let cp = str_chars(p);
    chars_starts_with(&cs, &cp)
}

/// `s` ends with `p`.
pub fn str_ends_with(s: &str, p: &str) -> (r: bool)
    ensures
        r == ends_with(s@, p@),
{
    let cs = str_chars(s);
    let cp = str_chars(p);
    chars_ends_with(&cs, &cp)
}

/// `p` occurs in `s`.
pub fn str_contains(s: &str, p: &str) -> (r: bool)
    ensures
        r == contains(s@, p@),
{
    let cs = str_chars(s);
    let cp = str_chars(p);
    chars_contains(&cs, &cp)
}

/// The character `c` occurs in `s` (slices).
pub fn chars_has(s: &[char], c: char) -> (r: bool)
    ensures
        r == has_char(s@, c),
{
    let mut i: usize = 0;
    while i < s.len()
        invariant
            i <= s@.len(),
            forall|j: int| 0 <= j < i ==> s@[j] != c,
        decreases s@.len() - i,
    {
        if s[i] == c {
            return true;
        }
        i = i + 1;
    }
    false
}

/// The character `c` occurs in `s`.
pub fn str_has_char(s: &str, c: char) -> (r: bool)
    ensures
        r == has_char(s@, c),
{
    let cs = str_chars(s);
    chars_has(&cs, c)
}

/// `char::is_whitespace`.
pub fn char_is_whitespace(c: char) -> (r: bool)
    ensures
        r == is_whitespace(c),
{
    ('\u{9}' <= c && c <= '\u{d}') || c == ' ' || c == '\u{85}' || c == '\u{a0}' || c == '\u{1680}'
        || ('\u{2000}' <= c && c <= '\u{200a}') || c == '\u{2028}' || c == '\u{2029}' || c == '\u{202f}'
        || c == '\u{205f}' || c == '\u{3000}'
}

/// `s.trim().is_empty()`: `s` holds nothing but whitespace.
pub fn str_is_blank(s: &str) -> (r: bool)
    ensures
        r == is_blank(s@),
{
    let cs = str_chars(s);
    let mut i: usize = 0;
    while i < cs.len()
        invariant
            cs@ == s@,
            i <= cs@.len(),
            forall|j: int| 0 <= j < i ==> is_whitespace(cs@[j]),
        decreases cs@.len() - i,
    {
        if !char_is_whitespace(cs[i]) {
            return false;
        }
        i = i + 1;
    }
    true
}

/// `char::is_ascii_alphanumeric`.
pub fn char_is_ascii_alphanumeric(c: char) -> (r: bool)
    ensures
        r == is_ascii_alphanumeric(c),
{
    ('a' <= c && c <= 'z') || ('A' <= c && c <= 'Z') || ('0' <= c && c <= '9')
}

/// Replaces every character other than ASCII letters, digits, `_`, `.` and `-` by `-`.
pub fn sanitize_name(name: &str) -> (r: String)
    ensures
        r@ == sanitize(name@),
{
    let cs = str_chars(name);
    let mut out: Vec<char> = Vec::new();
    let mut i: usize = 0;
    while i < cs.len()
        invariant
            cs@ == name@,
            i <= cs@.len(),
            out@ == sanitize(name@).take(i as int),
        decreases cs@.len() - i,
    {
        let c = cs[i];
        let keep = char_is_ascii_alphanumeric(c) || c == '_' || c == '.' || c == '-';
        out.push(if keep { c } else { '-' });
        assert(sanitize(name@).take(i as int).push(if keep { c } else { '-' }) =~= sanitize(name@).take(i + 1));
        i = i + 1;
    }
    assert(sanitize(name@).take(cs@.len() as int) =~= sanitize(name@));
    string_from_chars(&out)
}

/// Appends `t` to `s`.
pub fn append(s: &mut String, t: &str)
    ensures
        final(s)@ == old(s)@ + t@,
{
    s.append(t);
}

/// `a` followed by `b`.
pub fn concat2(a: &str, b: &str) -> (r: String)
    ensures
        r@ == a@ + b@,
{
    let mut r = owned(a);
    r.append(b);
    r
}

/// `a`, `b` and `c` in turn.
pub fn concat3(a: &str, b: &str, c: &str) -> (r: String)
    ensures
        r@ == a@ + b@ + c@,
{
    let mut r = owned(a);
    r.append(b);
    r.append(c);
    r
}

/// The strings of `parts` joined with `sep` (`[String]::join`).
pub fn join_strings(parts: &[String], sep: &str) -> (r: String)
    ensures
        r@ == join(views(parts@), sep@),
{
    let mut r = String::new();
    let mut i: usize = 0;
    while i < parts.len()
        invariant
            i <= parts@.len(),
            r@ == join(views(parts@).take(i as int), sep@),
        decreases parts@.len() - i,
    {
        let ghost before = views(parts@).take(i as int);
        assert(views(parts@).take(i + 1).drop_last() =~= before);
        if i > 0 {
            r.append(sep);
        }
        r.append(parts[i].as_str());
        i = i + 1;
    }
    assert(views(parts@).take(parts@.len() as int) =~= views(parts@));
    r
}

/// A vector of owned copies of string slices.
pub fn owned_all(v: &[&str]) -> (r: Vec<String>)
    ensures
        r@.len() == v@.len(),
        forall|i: int| 0 <= i < v@.len() ==> #[trigger] r@[i]@ == v@[i]@,
{
    let mut r: Vec<String> = Vec::new();
    let mut i: usize = 0;
    while i < v.len()
        invariant
            i <= v@.len(),
            r@.len() == i,
            forall|j: int| 0 <= j < i ==> #[trigger] r@[j]@ == v@[j]@,
        decreases v@.len() - i,
    {
        r.push(owned(v[i]));
        i = i + 1;
    }
    r
}

/// The first `n` characters of `v`.
pub fn chars_take(v: &Vec<char>, n: usize) -> (r: Vec<char>)
    requires
        n <= v@.len(),
    ensures
        r@ == v@.take(n as int),
{
    let mut out: Vec<char> = Vec::new();
    let mut i: usize = 0;
    while i < n
        invariant
            n <= v@.len(),
            i <= n,
            out@ == v@.take(i as int),
        decreases n - i,
    {
        out.push(v[i]);
        assert(v@.take(i + 1) =~= v@.take(i as int).push(v@[i as int]));
        i = i + 1;
    }
    out
}

/// Owned copies of string slices, in order.
pub fn owned_list(v: &[&str]) -> (r: Vec<String>)
    ensures
        views(r@) == str_views(v@),
{
    let r = owned_all(v);
    assert(views(r@) =~= str_views(v@));
    r
}

/// `s` without its first `n` characters.
pub fn str_skip(s: &str, n: usize) -> (r: String)
    requires
        n <= s@.len(),
    ensures
        r@ == s@.skip(n as int),
{
    let cs = str_chars(s);
    let mut out: Vec<char> = Vec::new();
    let mut i: usize = n;
    while i < cs.len()
        invariant
            cs@ == s@,
            n <= i <= cs@.len(),
            out@ == cs@.subrange(n as int, i as int),
        decreases cs@.len() - i,
    {
        out.push(cs[i]);
        assert(cs@.subrange(n as int, i + 1) =~= cs@.subrange(n as int, i as int).push(cs@[i as int]));
        i = i + 1;
    }
    assert(out@ =~= s@.skip(n as int));
    string_from_chars(&out)
}

/// A copy of a vector of strings, string by string.
pub fn clone_strings(v: &Vec<String>) -> (r: Vec<String>)
    ensures
        views(r@) == views(v@),
{
    let mut r: Vec<String> = Vec::new();
    let mut i: usize = 0;
    while i < v.len()
        invariant
            i <= v@.len(),
            r@.len() == i,
            forall|j: int| 0 <= j < i ==> #[trigger] r@[j]@ == v@[j]@,
        decreases v@.len() - i,
    {
        r.push(v[i].clone());
        i = i + 1;
    }
    assert(views(r@) =~= views(v@));
    r
}

/// A copy of an optional string.
pub fn clone_opt(s: &Option<String>) -> (r: Option<String>)
    ensures
        r is Some == s is Some,
        r matches Some(x) ==> x@ == s->0@,
{
    match s {
        Some(x) => Some(x.clone()),
        None => None,
    }
}

/// `v` holds a string equal to `s`.
pub open spec fn seq_has(v: Seq<Seq<char>>, s: Seq<char>) -> bool {
    exists|i: int| 0 <= i < v.len() && v[i] == s
}

/// `v` holds a string equal to `s`.
pub fn strings_contain(v: &[String], s: &str) -> (r: bool)
    ensures
        r == seq_has(views(v@), s@),
{
    let mut i: usize = 0;
    while i < v.len()
        invariant
            i <= v@.len(),
            forall|j: int| 0 <= j < i ==> views(v@)[j] != s@,
        decreases v@.len() - i,
    {
        if eq_str(v[i].as_str(), s) {
            assert(views(v@)[i as int] == s@);
            return true;
        }
        i = i + 1;
    }
    false
}

/// The digit character for a value below sixteen (lowercase hexadecimal).
pub open spec fn digit_char(d: nat) -> char {
    if d < 10 {
        ((d + 48) as u8) as char
    } else {
        ((d - 10 + 97) as u8) as char
    }
}

/// The decimal representation of `n`, without leading zeros.
pub open spec fn decimal(n: nat) -> Seq<char>
    decreases n,
{
    if n < 10 {
        seq![digit_char(n)]
    } else {
        decimal(n / 10).push(digit_char(n % 10))
    }
}

/// The last `width` hexadecimal digits of `n`, zero-padded (`{:0width$x}` when `n` fits).
pub open spec fn hex_digits(n: nat, width: nat) -> Seq<char>
    decreases width,
{
    if width == 0 {
        Seq::empty()
    } else {
        hex_digits(n / 16, (width - 1) as nat).push(digit_char(n % 16))
    }
}

fn digit(d: u64) -> (c: char)
    requires
        d < 16,
    ensures
        c == digit_char(d as nat),
{
    if d < 10 {
        ((d + 48) as u8) as char
    } else {
        ((d - 10 + 97) as u8) as char
    }
}

/// `n.to_string()`: the decimal digits of `n`.
pub fn format_decimal(n: u64) -> (r: String)
    ensures
        r@ == decimal(n as nat),
{
    let mut m: u64 = n;
    // digits are produced last-first; `rev` keeps them in order.
    let mut rev: Vec<char> = Vec::new();
    proof {
        assert(decimal(n as nat) == decimal(m as nat) + rev@);
    }
    loop
        invariant
            decimal(n as nat) == decimal(m as nat) + rev@,
        decreases m,
    {
        if m < 10 {
            let mut out: Vec<char> = Vec::new();
            out.push(digit(m));
            let mut i: usize = 0;
            while i < rev.len()
                invariant
                    i <= rev@.len(),
                    out@ == seq![digit_char(m as nat)] + rev@.take(i as int),
                decreases rev@.len() - i,
            {
                out.push(rev[i]);
                assert(rev@.take(i + 1) == rev@.take(i as int).push(rev@[i as int]));
                i = i + 1;
            }
            assert(rev@.take(rev@.len() as int) == rev@);
            return string_from_chars(&out);
        }
        let d = digit(m % 10);
        let mut next: Vec<char> = Vec::new();
        next.push(d);
        let mut i: usize = 0;
        while i < rev.len()
            invariant
                i <= rev@.len(),
                next@ == seq![d] + rev@.take(i as int),
            decreases rev@.len() - i,
        {
            next.push(rev[i]);
            assert(rev@.take(i + 1) == rev@.take(i as int).push(rev@[i as int]));
            i = i + 1;
        }
        assert(rev@.take(rev@.len() as int) == rev@);
        proof {
            assert(decimal(m as nat) == decimal((m / 10) as nat).push(digit_char((m % 10) as nat)));
            assert(decimal((m / 10) as nat).push(d) + rev@ =~= decimal((m / 10) as nat) + next@);
        }
        rev = next;
        m = m / 10;
    }
}

/// The decimal representation of a signed number, with a `-` when negative.
pub open spec fn signed_decimal(n: int) -> Seq<char> {
    if n < 0 {
        "-"@ + decimal((-n) as nat)
    } else {
        decimal(n as nat)
    }
}

/// `format!("{n}")` for an `i32`.
pub fn format_signed(n: i32) -> (r: String)
    ensures
        r@ == signed_decimal(n as int),
{
    if n < 0 {
        let m: i64 = -(n as i64);
        let d = format_decimal(m as u64);
        concat2("-", d.as_str())
    } else {
        format_decimal(n as u64)
    }
}

/// `format!("{n:016x}")`: sixteen lowercase hexadecimal digits.
pub fn format_hex16(n: u64) -> (r: String)
    ensures
        r@ == hex_digits(n as nat, 16),
{
    let mut out: Vec<char> = Vec::new();
    let mut k: u64 = 16;
    while k > 0
        invariant
            k <= 16,
            out@.len() == 16 - k,
            forall|j: int| 0 <= j < 16 - k ==> #[trigger] out@[j] == hex_digits(n as nat, 16)[j],
        decreases k,
    {
        k = k - 1;
        let shift = 4 * k;
        let d = (n >> shift) & 15;
        proof {
            lemma_hex_digit_at(n, k);
            lemma_hex_len(n as nat, 16);
        }
        out.push(digit(d));
    }
    proof {
        lemma_hex_len(n as nat, 16);
    }
    assert(out@ =~= hex_digits(n as nat, 16));
    string_from_chars(&out)
}

proof fn lemma_hex_len(n: nat, width: nat)
    ensures
        hex_digits(n, width).len() == width,
    decreases width,
{
    if width > 0 {
        lemma_hex_len(n / 16, (width - 1) as nat);
    }
}

/// Digit `15 - k` of the sixteen-digit form is `(n >> 4k) & 15`.
proof fn lemma_hex_digit_at(n: u64, k: u64)
    requires
        k < 16,
    ensures
        hex_digits(n as nat, 16)[15 - k] == digit_char(((n >> (4 * k)) & 15) as nat),
        ((n >> (4 * k)) & 15) < 16,
{
    assert(((n >> (4 * k)) & 15) < 16) by (bit_vector)
        requires
            k < 16,
    ;
    lemma_hex_index(n as nat, 16, k as nat);
    lemma_shift_div(n, k);
}

proof fn lemma_hex_index(n: nat, width: nat, k: nat)
    requires
        k < width,
    ensures
        hex_digits(n, width).len() == width,
        hex_digits(n, width)[width - 1 - k] == digit_char((n / vstd::arithmetic::power::pow(16, k) as nat) % 16),
    decreases width,
{
    lemma_hex_len(n, width);
    lemma_hex_len(n / 16, (width - 1) as nat);
    vstd::arithmetic::power::lemma_pow0(16);
    if k == 0 {
        assert(vstd::arithmetic::power::pow(16, 0) == 1);
        vstd::arithmetic::div_mod::lemma_div_basics(n as int);
    } else {
        lemma_hex_index(n / 16, (width - 1) as nat, (k - 1) as nat);
        vstd::arithmetic::power::lemma_pow_positive(16, (k - 1) as nat);
        vstd::arithmetic::power::lemma_pow_adds(16, 1, (k - 1) as nat);
        vstd::arithmetic::power::lemma_pow1(16);
        vstd::arithmetic::div_mod::lemma_div_denominator(n as int, 16, vstd::arithmetic::power::pow(16, (k - 1) as nat));
    }
}

proof fn lemma_shift_div(n: u64, k: u64)
    requires
        k < 16,
    ensures
        ((n >> (4 * k)) & 15) as nat == (n as nat / vstd::arithmetic::power::pow(16, k as nat) as nat) % 16,
{
    assert(((n >> (4 * k)) & 15) == (n >> (4 * k)) % 16) by (bit_vector);
    vstd::bits::lemma_u64_shr_is_div(n, (4 * k) as u64);
    lemma_pow16_pow2(k as nat);
}

proof fn lemma_pow16_pow2(k: nat)
    ensures
        vstd::arithmetic::power::pow(16, k) == vstd::arithmetic::power2::pow2(4 * k),
    decreases k,
{
    vstd::arithmetic::power2::lemma_pow2(4 * k);
    if k > 0 {
        lemma_pow16_pow2((k - 1) as nat);
        vstd::arithmetic::power2::lemma_pow2_adds(4, 4 * (k - 1) as nat);
        vstd::arithmetic::power2::lemma2_to64();
        vstd::arithmetic::power::lemma_pow_adds(16, 1, (k - 1) as nat);
        vstd::arithmetic::power::lemma_pow1(16);
        vstd::arithmetic::power2::lemma_pow2(4 * (k - 1) as nat);
        vstd::arithmetic::power2::lemma_pow2(4);
    } else {
        vstd::arithmetic::power::lemma_pow0(16);
        vstd::arithmetic::power2::lemma2_to64();
    }
}

/// The pieces of `p` between occurrences of `c` (`str::split(c)`): one more
/// piece than there are occurrences.
pub open spec fn split_char(p: Seq<char>, c: char) -> Seq<Seq<char>>
    decreases p.len(),
{
    if p.len() == 0 {
        seq![Seq::<char>::empty()]
    } else {
        let r = split_char(p.drop_last(), c);
        if p.last() == c {
            r.push(Seq::<char>::empty())
        } else {
            r.update(r.len() - 1, r.last().push(p.last()))
        }
    }
}

/// The pieces of a vector of pieces, by their characters.
pub open spec fn seg_views(v: Seq<Vec<char>>) -> Seq<Seq<char>> {
    v.map_values(|x: Vec<char>| x@)
}

pub proof fn lemma_split_char_nonempty(p: Seq<char>, c: char)
    ensures
        split_char(p, c).len() >= 1,
    decreases p.len(),
{
    if p.len() > 0 {
        lemma_split_char_nonempty(p.drop_last(), c);
    }
}

/// The first piece of a split is no longer than the text, and shorter when
/// the separator occurs.
pub proof fn lemma_first_piece_before(p: Seq<char>, c: char)
    ensures
        split_char(p, c)[0].len() <= p.len(),
        has_char(p, c) ==> split_char(p, c)[0].len() + 1 <= p.len(),
    decreases p.len(),
{
    if p.len() > 0 {
        lemma_first_piece_before(p.drop_last(), c);
        lemma_split_char_nonempty(p.drop_last(), c);
        if has_char(p, c) && p.last() != c {
            let i = choose|i: int| 0 <= i < p.len() && p[i] == c;
            assert(p.drop_last()[i] == c);
        }
    }
}

/// Splits `p` at every occurrence of `c`.
pub fn split_chars_on(p: &[char], c: char) -> (r: Vec<Vec<char>>)
    ensures
        seg_views(r@) == split_char(p@, c),
{
    let mut done: Vec<Vec<char>> = Vec::new();
    let mut cur: Vec<char> = Vec::new();
    let mut i: usize = 0;
    while i < p.len()
        invariant
            i <= p@.len(),
            seg_views(done@).push(cur@) == split_char(p@.take(i as int), c),
        decreases p@.len() - i,
    {
        let x = p[i];
        assert(p@.take(i + 1).drop_last() =~= p@.take(i as int));
        assert(p@.take(i + 1).last() == x);
        let ghost before = seg_views(done@);
        if x == c {
            done.push(cur);
            cur = Vec::new();
            assert(seg_views(done@) =~= before.push(seg_views(done@).last()));
        } else {
            cur.push(x);
        }
        assert(seg_views(done@).push(cur@) =~= split_char(p@.take(i + 1), c));
        i = i + 1;
    }
    assert(p@.take(p@.len() as int) =~= p@);
    done.push(cur);
    assert(seg_views(done@) =~= split_char(p@, c));
    done
}

/// Appends a string to a vector of strings.
pub fn push_string(v: &mut Vec<String>, s: String)
    ensures
        views(final(v)@) == views(old(v)@).push(s@),
{
    let ghost before = v@;
    v.push(s);
    assert(views(v@) =~= views(before).push(v@.last()@));
}

/// The concatenation of views distributes over vector concatenation.
pub proof fn lemma_views_add(a: Seq<String>, b: Seq<String>)
    ensures
        views(a + b) == views(a) + views(b),
{
    assert(views(a + b) =~= views(a) + views(b));
}

/// Moves every string of `more` to the end of `v`.
pub fn add_all(v: &mut Vec<String>, more: Vec<String>)
    ensures
        views(final(v)@) == views(old(v)@) + views(more@),
{
    let mut more = more;
    let ghost m = more@;
    let ghost before = v@;
    v.append(&mut more);
    proof {
        lemma_views_add(before, m);
    }
}

/// A vector holding one string.
pub fn one(s: String) -> (r: Vec<String>)
    ensures
        views(r@) == seq![s@],
{
    let mut r: Vec<String> = Vec::new();
    push_string(&mut r, s);
    assert(views(r@) =~= seq![s@]);
    r
}

/// An empty vector of strings.
pub fn none() -> (r: Vec<String>)
    ensures
        views(r@) == Seq::<Seq<char>>::empty(),
{
    let r: Vec<String> = Vec::new();
    assert(views(r@) =~= Seq::<Seq<char>>::empty());
    r
}

/// What `str::to_lowercase` returns for `s`: its Unicode lowercase mapping.
pub uninterp spec fn lowercase(s: Seq<char>) -> Seq<char>;

/// `str::to_lowercase`: the lowercase form of `s` under the Unicode `Lowercase`
/// mapping. The result is named, not spelled out; it depends on `s` alone.
#[verifier::external_body]
pub(crate) fn to_lowercase(s: &str) -> (r: String)
    ensures
        r@ == lowercase(s@),
{
    s.to_lowercase()
}

/// What `str::to_uppercase` returns for `s`: its Unicode uppercase mapping.
pub uninterp spec fn uppercase(s: Seq<char>) -> Seq<char>;

/// `str::to_uppercase`: the uppercase form of `s` under the Unicode `Uppercase`
/// mapping. The result is named, not spelled out; it depends on `s` alone.
#[verifier::external_body]
pub(crate) fn to_uppercase(s: &str) -> (r: String)
    ensures
        r@ == uppercase(s@),
{
    s.to_uppercase()
}

/// One of `needles` occurs in `s`.
pub open spec fn contains_any(s: Seq<char>, needles: Seq<Seq<char>>) -> bool {
    exists|i: int| 0 <= i < needles.len() && contains(s, #[trigger] needles[i])
}

/// Whether one of `needles` occurs in `s`.
pub fn str_contains_any(s: &str, needles: &[&str]) -> (r: bool)
    ensures
        r == contains_any(s@, crate::text::str_views(needles@)),
{
    let mut i: usize = 0;
    while i < needles.len()
        invariant
            i <= needles@.len(),
            forall|j: int| 0 <= j < i ==> !contains(s@, #[trigger] crate::text::str_views(needles@)[j]),
        decreases needles@.len() - i,
    {
        assert(crate::text::str_views(needles@)[i as int] == needles@[i as int]@);
        if str_contains(s, needles[i]) {
            return true;
        }
        i = i + 1;
    }
    false
}

/// The pieces of `p` between whitespace characters, empty ones included.
pub open spec fn ws_pieces(p: Seq<char>) -> Seq<Seq<char>>
    decreases p.len(),
{
    if p.len() == 0 {
        seq![Seq::<char>::empty()]
    } else {
        let r = ws_pieces(p.drop_last());
        if is_whitespace(p.last()) {
            r.push(Seq::<char>::empty())
        } else {
            r.update(r.len() - 1, r.last().push(p.last()))
        }
    }
}

/// The non-empty strings of `v`, in order.
pub open spec fn nonempty_pieces(v: Seq<Seq<char>>) -> Seq<Seq<char>>
    decreases v.len(),
{
    if v.len() == 0 {
        Seq::empty()
    } else {
        nonempty_pieces(v.drop_last()) + if v.last().len() > 0 {
            seq![v.last()]
        } else {
            Seq::empty()
        }
    }
}

/// The whitespace-separated words of `s` (`str::split_whitespace`).
pub open spec fn words(s: Seq<char>) -> Seq<Seq<char>> {
    nonempty_pieces(ws_pieces(s))
}

pub proof fn lemma_ws_pieces_nonempty(p: Seq<char>)
    ensures
        ws_pieces(p).len() >= 1,
    decreases p.len(),
{
    if p.len() > 0 {
        lemma_ws_pieces_nonempty(p.drop_last());
    }
}

/// The whitespace-separated words of `s`.
pub fn split_words(s: &str) -> (r: Vec<String>)
    ensures
        views(r@) == words(s@),
{
    let cs = str_chars(s);
    let mut out: Vec<String> = Vec::new();
    let mut cur: Vec<char> = Vec::new();
    let mut i: usize = 0;
    assert(s@.take(0) =~= Seq::<char>::empty());
    assert(ws_pieces(s@.take(0)).drop_last() =~= Seq::<Seq<char>>::empty());
    while i < cs.len()
        invariant
            cs@ == s@,
            i <= cs@.len(),
            ws_pieces(s@.take(i as int)).len() >= 1,
            views(out@) == nonempty_pieces(ws_pieces(s@.take(i as int)).drop_last()),
            cur@ == ws_pieces(s@.take(i as int)).last(),
        decreases cs@.len() - i,
    {
        let c = cs[i];
        let ghost r = ws_pieces(s@.take(i as int));
        assert(s@.take(i + 1).drop_last() =~= s@.take(i as int));
        assert(s@.take(i + 1).last() == c);
        if char_is_whitespace(c) {
            assert(ws_pieces(s@.take(i + 1)) == r.push(Seq::<char>::empty()));
            assert(r.push(Seq::<char>::empty()).drop_last() =~= r);
            assert(nonempty_pieces(r) == nonempty_pieces(r.drop_last()) + if r.last().len() > 0 {
                seq![r.last()]
            } else {
                Seq::<Seq<char>>::empty()
            });
            if cur.len() > 0 {
                let ghost before = views(out@);
                out.push(string_from_chars(&cur));
                assert(views(out@) =~= before.push(cur@));
                assert(views(out@) =~= before + seq![r.last()]);
            } else {
                assert(views(out@) =~= views(out@) + Seq::<Seq<char>>::empty());
            }
            cur = Vec::new();
        } else {
            cur.push(c);
            let ghost nr = r.update(r.len() - 1, r.last().push(c));
            assert(ws_pieces(s@.take(i + 1)) == nr);
            assert(nr.drop_last() =~= r.drop_last());
        }
        i = i + 1;
    }
    assert(s@.take(cs@.len() as int) =~= s@);
    let ghost r = ws_pieces(s@);
    assert(nonempty_pieces(r) == nonempty_pieces(r.drop_last()) + if r.last().len() > 0 {
        seq![r.last()]
    } else {
        Seq::<Seq<char>>::empty()
    });
    if cur.len() > 0 {
        let ghost before = views(out@);
        out.push(string_from_chars(&cur));
        assert(views(out@) =~= before + seq![r.last()]);
    } else {
        assert(views(out@) =~= views(out@) + Seq::<Seq<char>>::empty());
    }
    out
}


/// `sep` before every character of `s` and after the last one: what
/// replacing the empty pattern gives (`"ab".replace("", "-")` is `-a-b-`).
pub open spec fn interleave(s: Seq<char>, sep: Seq<char>) -> Seq<char>
    decreases s.len(),
{
    if s.len() == 0 {
        sep
    } else {
        sep + seq![s[0]] + interleave(s.drop_first(), sep)
    }
}

/// `sep` before every character of `s` and after the last one.
pub fn interleave_str(s: &str, sep: &str) -> (r: String)
    ensures
        r@ == interleave(s@, sep@),
{
    let cs = str_chars(s);
    let mut out = String::new();
    let mut i: usize = 0;
    assert(s@.skip(0) =~= s@);
    while i < cs.len()
        invariant
            cs@ == s@,
            i <= cs@.len(),
            out@ + interleave(s@.skip(i as int), sep@) == interleave(s@, sep@),
        decreases cs@.len() - i,
    {
        let ghost t = s@.skip(i as int);
        assert(t.drop_first() =~= s@.skip(i + 1));
        assert(t[0] == cs@[i as int]);
        let ghost before = out@;
        out.append(sep);
        push_char(&mut out, cs[i]);
        assert(out@ =~= before + sep@ + seq![cs@[i as int]]);
        assert(out@ + interleave(s@.skip(i + 1), sep@) =~= before + interleave(t, sep@));
        i = i + 1;
    }
    assert(s@.skip(cs@.len() as int) =~= Seq::<char>::empty());
    out.append(sep);
    out
}

} // verus!
