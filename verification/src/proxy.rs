//! The egress proxy's rules: which host a request asks for, and whether the
//! allow-list lets it through.

use vstd::prelude::*;

use crate::text::{
    concat2, ends_with, eq_str, is_whitespace, owned, split_char, split_chars_on, split_words,
    starts_with, str_chars, str_ends_with, string_from_chars, views, words, char_is_whitespace,
    seg_views,
};

verus! {

/// The local proxy through which a sandboxed command reaches the network.
pub struct EgressProxy;

/// A host is allowed when it is not empty and is an allowed name or a
/// subdomain of one.
pub open spec fn allowed_host(host: Seq<char>, allowlist: Seq<Seq<char>>) -> bool {
    host.len() > 0 && exists|i: int|
        0 <= i < allowlist.len() && (host == #[trigger] allowlist[i] || ends_with(host, "."@ + allowlist[i]))
}

/// Whether the allow-list lets a connection to `host` through.
pub fn host_allowed(host: &str, allowlist: &Vec<String>) -> (r: bool)
    ensures
        r == allowed_host(host@, views(allowlist@)),
{
    if eq_str(host, "") {
        proof {
            reveal_strlit("");
        }
        return false;
    }
    proof {
        reveal_strlit("");
    }
    assert(host@.len() > 0) by {
        if host@.len() == 0 {
            assert(host@ =~= ""@);
        }
    }
    let mut i: usize = 0;
    while i < allowlist.len()
        invariant
            i <= allowlist@.len(),
            host@.len() > 0,
            forall|j: int|
                0 <= j < i ==> !(host@ == #[trigger] views(allowlist@)[j] || ends_with(host@, "."@ + views(allowlist@)[j])),
        decreases allowlist@.len() - i,
    {
        let allowed = allowlist[i].as_str();
        let dotted = concat2(".", allowed);
        assert(views(allowlist@)[i as int] == allowed@);
        if eq_str(host, allowed) || str_ends_with(host, dotted.as_str()) {
            return true;
        }
        i = i + 1;
    }
    false
}

/// ASCII letters in lower case, other characters as they are.
pub open spec fn ascii_lower(c: char) -> char {
    if 'A' <= c <= 'Z' {
        (((c as u8) + 32) as u8) as char
    } else {
        c
    }
}

/// `s.to_ascii_lowercase()`.
pub open spec fn ascii_lowercase(s: Seq<char>) -> Seq<char> {
    s.map_values(|c: char| ascii_lower(c))
}

/// `s.trim()`: leading and trailing whitespace removed.
pub open spec fn trim(s: Seq<char>) -> Seq<char>
    decreases s.len(),
{
    if s.len() > 0 && is_whitespace(s[0]) {
        trim(s.drop_first())
    } else if s.len() > 0 && is_whitespace(s.last()) {
        trim(s.drop_last())
    } else {
        s
    }
}

/// The pieces of `s` between occurrences of the non-empty `sep`, scanned
/// left to right (`str::split` with a string pattern).
pub open spec fn split_on(s: Seq<char>, sep: Seq<char>) -> Seq<Seq<char>>
    decreases s.len(),
{
    if sep.len() == 0 || s.len() == 0 {
        seq![s]
    } else if starts_with(s, sep) {
        seq![Seq::<char>::empty()] + split_on(s.skip(sep.len() as int), sep)
    } else {
        let r = split_on(s.drop_first(), sep);
        r.update(0, seq![s[0]] + r[0])
    }
}

/// The host a `Host:` header names: after the header name, trimmed, up to
/// any port.
pub open spec fn header_host(line: Seq<char>) -> Seq<char> {
    split_char(trim(line.skip(5)), ':')[0]
}

/// The first line that is a `Host:` header (in any case), if any.
pub open spec fn host_header(lines: Seq<Seq<char>>) -> Option<Seq<char>>
    decreases lines.len(),
{
    if lines.len() == 0 {
        None
    } else if starts_with(ascii_lowercase(lines[0]), "host:"@) {
        Some(lines[0])
    } else {
        host_header(lines.drop_first())
    }
}

/// What a request head asks the proxy for: a `CONNECT` tunnel (the method in
/// any case) to its target, whose host is the target up to any port; or a
/// plain request to the host of its first `Host:` header (none: empty).
pub struct RequestTarget {
    pub connect: bool,
    pub target: String,
    pub host: String,
}

/// The request line's method and target: its first two words, empty when absent.
pub open spec fn request_word(head: Seq<char>, k: int) -> Seq<char> {
    let w = words(split_on(head, "\r\n"@)[0]);
    if w.len() > k {
        w[k]
    } else {
        Seq::empty()
    }
}

/// The target of a request head.
pub open spec fn request_target(head: Seq<char>, r: RequestTarget) -> bool {
    let lines = split_on(head, "\r\n"@);
    let connect = ascii_lowercase(request_word(head, 0)) == "connect"@;
    &&& r.connect == connect
    &&& r.target@ == request_word(head, 1)
    &&& r.host@ == if connect {
        split_char(request_word(head, 1), ':')[0]
    } else {
        match host_header(lines.drop_first()) {
            Some(l) => header_host(l),
            None => Seq::empty(),
        }
    }
}

/// `r` with `cur` put in front of its first piece.
pub open spec fn prepend_first(cur: Seq<char>, r: Seq<Seq<char>>) -> Seq<Seq<char>> {
    r.update(0, cur + r[0])
}

proof fn lemma_split_on_nonempty(s: Seq<char>, sep: Seq<char>)
    ensures
        split_on(s, sep).len() >= 1,
    decreases s.len(),
{
    if sep.len() > 0 && s.len() > 0 {
        if starts_with(s, sep) {
            lemma_split_on_nonempty(s.skip(sep.len() as int), sep);
        } else {
            lemma_split_on_nonempty(s.drop_first(), sep);
        }
    }
}

/// `s` split at every `\r\n`.
fn split_crlf(s: &str) -> (r: Vec<String>)
    ensures
        views(r@) == split_on(s@, "\r\n"@),
{
    proof {
        reveal_strlit("\r\n");
    }
    let cs = str_chars(s);
    let sep: Vec<char> = vec!['\r', '\n'];
    let ghost sp = seq!['\r', '\n'];
    assert("\r\n"@ =~= sp);
    assert(sep@ =~= sp);
    let mut pieces: Vec<String> = Vec::new();
    let mut cur: Vec<char> = Vec::new();
    let mut i: usize = 0;
    assert(s@.skip(0) =~= s@);
    proof {
        lemma_split_on_nonempty(s@, sp);
        assert(prepend_first(cur@, split_on(s@, sp)) =~= split_on(s@, sp));
        assert(views(pieces@) + prepend_first(cur@, split_on(s@, sp)) =~= split_on(s@, sp));
    }
    while i < cs.len()
        invariant
            cs@ == s@,
            sep@ == sp,
            sp == seq!['\r', '\n'],
            i <= cs@.len(),
            split_on(s@, sp) == views(pieces@) + prepend_first(cur@, split_on(s@.skip(i as int), sp)),
        decreases cs@.len() - i,
    {
        let ghost t = s@.skip(i as int);
        proof {
            lemma_split_on_nonempty(t, sp);
        }
        if crate::text::chars_occur_at(&cs, &sep, i) {
            assert(t.subrange(0, 2) =~= s@.subrange(i as int, i + 2));
            assert(starts_with(t, sp));
            assert(t.skip(2) =~= s@.skip(i + 2));
            proof {
                lemma_split_on_nonempty(t.skip(2), sp);
            }
            let ghost before = views(pieces@);
            let ghost c = cur@;
            pieces.push(string_from_chars(&cur));
            cur = Vec::new();
            assert(views(pieces@) =~= before.push(c));
            assert(prepend_first(Seq::<char>::empty(), split_on(s@.skip(i + 2), sp)) =~= split_on(s@.skip(i + 2), sp));
            assert(prepend_first(c, split_on(t, sp)) =~= seq![c] + split_on(s@.skip(i + 2), sp));
            i = i + 2;
        } else {
            proof {
                if starts_with(t, sp) {
                    assert(t.subrange(0, 2) =~= s@.subrange(i as int, i + 2));
                }
                assert(t.drop_first() =~= s@.skip(i + 1));
                lemma_split_on_nonempty(t.drop_first(), sp);
            }
            let ghost c = cur@;
            let ghost r = split_on(s@.skip(i + 1), sp);
            assert(t[0] == cs@[i as int]);
            assert(split_on(t, sp) == r.update(0, seq![t[0]] + r[0]));
            cur.push(cs[i]);
            assert(c.push(t[0]) + r[0] =~= c + (seq![t[0]] + r[0]));
            assert(prepend_first(c, split_on(t, sp)) =~= prepend_first(cur@, split_on(s@.skip(i + 1), sp)));
            i = i + 1;
        }
    }
    assert(s@.skip(cs@.len() as int) =~= Seq::<char>::empty());
    let ghost before = views(pieces@);
    let ghost c = cur@;
    pieces.push(string_from_chars(&cur));
    assert(views(pieces@) =~= before + prepend_first(c, split_on(Seq::<char>::empty(), sp)));
    pieces
}

/// `s.to_ascii_lowercase()`.
pub fn ascii_lowercase_str(s: &str) -> (r: String)
    ensures
        r@ == ascii_lowercase(s@),
{
    let cs = str_chars(s);
    let mut out: Vec<char> = Vec::new();
    let mut i: usize = 0;
    while i < cs.len()
        invariant
            cs@ == s@,
            i <= cs@.len(),
            out@ == ascii_lowercase(s@.take(i as int)),
        decreases cs@.len() - i,
    {
        let c = cs[i];
        let l = if 'A' <= c && c <= 'Z' {
            ((c as u8) + 32) as char
        } else {
            c
        };
        assert(l == ascii_lower(c));
        out.push(l);
        assert(out@ =~= ascii_lowercase(s@.take(i + 1)));
        i = i + 1;
    }
    assert(s@.take(cs@.len() as int) =~= s@);
    string_from_chars(&out)
}

/// `s.trim()`.
pub fn trim_str(s: &str) -> (r: String)
    ensures
        r@ == trim(s@),
{
    let cs = str_chars(s);
    let mut lo: usize = 0;
    let mut hi: usize = cs.len();
    assert(s@.subrange(0, cs@.len() as int) =~= s@);
    while lo < hi && char_is_whitespace(cs[lo])
        invariant
            cs@ == s@,
            lo <= hi <= cs@.len(),
            hi == cs@.len(),
            trim(s@) == trim(s@.subrange(lo as int, hi as int)),
        decreases hi - lo,
    {
        assert(s@.subrange(lo as int, hi as int).drop_first() =~= s@.subrange(lo + 1, hi as int));
        lo = lo + 1;
    }
    while lo < hi && char_is_whitespace(cs[hi - 1])
        invariant
            cs@ == s@,
            lo <= hi <= cs@.len(),
            trim(s@) == trim(s@.subrange(lo as int, hi as int)),
            lo < hi ==> !is_whitespace(s@[lo as int]),
        decreases hi - lo,
    {
        assert(s@.subrange(lo as int, hi as int).drop_last() =~= s@.subrange(lo as int, hi - 1));
        hi = hi - 1;
    }
    let mut out: Vec<char> = Vec::new();
    let mut i: usize = lo;
    while i < hi
        invariant
            cs@ == s@,
            lo <= i <= hi <= cs@.len(),
            out@ == s@.subrange(lo as int, i as int),
        decreases hi - i,
    {
        out.push(cs[i]);
        assert(s@.subrange(lo as int, i + 1) =~= s@.subrange(lo as int, i as int).push(cs@[i as int]));
        i = i + 1;
    }
    string_from_chars(&out)
}

/// The part of `s` before its first `:`.
fn before_colon(s: &str) -> (r: String)
    ensures
        r@ == split_char(s@, ':')[0],
{
    let cs = str_chars(s);
    let segs = split_chars_on(&cs, ':');
    proof {
        crate::text::lemma_split_char_nonempty(s@, ':');
    }
    assert(seg_views(segs@)[0] == segs@[0]@);
    string_from_chars(segs[0].as_slice())
}

/// What a request head asks the proxy for.
pub fn parse_request_head(head: &str) -> (r: RequestTarget)
    ensures
        request_target(head@, r),
{
    let lines = split_crlf(head);
    proof {
        lemma_split_on_nonempty(head@, "\r\n"@);
    }
    let ghost ls = split_on(head@, "\r\n"@);
    assert(views(lines@)[0] == lines@[0]@);
    let w = split_words(lines[0].as_str());
    let method = if w.len() > 0 {
        w[0].clone()
    } else {
        String::new()
    };
    let target = if w.len() > 1 {
        w[1].clone()
    } else {
        String::new()
    };
    assert(method@ == request_word(head@, 0)) by {
        if w@.len() == 0 {
            assert(method@ =~= Seq::<char>::empty());
        }
    }
    assert(target@ == request_word(head@, 1)) by {
        if w@.len() <= 1 {
            assert(target@ =~= Seq::<char>::empty());
        }
    }
    let lowered = ascii_lowercase_str(method.as_str());
    proof {
        reveal_strlit("connect");
        reveal_strlit("host:");
    }
    let connect = eq_str(lowered.as_str(), "connect");
    if connect {
        let host = before_colon(target.as_str());
        return RequestTarget { connect, target, host };
    }
    let mut i: usize = 1;
    assert(ls.drop_first().skip(0) =~= ls.drop_first());
    while i < lines.len()
        invariant
            views(lines@) == ls,
            ls == split_on(head@, "\r\n"@),
            1 <= i <= ls.len(),
            host_header(ls.drop_first()) == host_header(ls.drop_first().skip(i - 1)),
            !connect,
            connect == (ascii_lowercase(request_word(head@, 0)) == "connect"@),
            target@ == request_word(head@, 1),
        decreases ls.len() - i,
    {
        proof {
            reveal_strlit("host:");
        }
        let line = lines[i].as_str();
        assert(ls.drop_first().skip(i - 1)[0] == line@);
        let low = ascii_lowercase_str(line);
        if crate::text::str_starts_with(low.as_str(), "host:") {
            assert(line@.len() >= 5) by {
                assert(low@.len() == line@.len());
            }
            let rest = crate::text::str_skip(line, 5);
            let trimmed = trim_str(rest.as_str());
            let host = before_colon(trimmed.as_str());
            return RequestTarget { connect, target, host };
        }
        assert(ls.drop_first().skip(i - 1).drop_first() =~= ls.drop_first().skip(i as int));
        i = i + 1;
    }
    assert(ls.drop_first().skip(ls.len() - 1) =~= Seq::<Seq<char>>::empty());
    RequestTarget { connect, target, host: String::new() }
}

/// The host a request head asks for: a `CONNECT` target up to its port, else
/// the host of the first `Host:` header (none: empty).
pub open spec fn request_host(head: Seq<char>) -> Seq<char> {
    if ascii_lowercase(request_word(head, 0)) == "connect"@ {
        split_char(request_word(head, 1), ':')[0]
    } else {
        match host_header(split_on(head, "\r\n"@).drop_first()) {
            Some(l) => header_host(l),
            None => Seq::empty(),
        }
    }
}

/// What the proxy does with a request.
pub enum ProxyAction {
    /// Answer `403 Forbidden` and close: the host is not allowed.
    Refuse,
    /// Answer `200 Connection Established` and join the client to `target`.
    Tunnel { target: String },
    /// Send the request head on to `upstream` and join the two.
    Forward { upstream: String },
}

/// Decides what to do with a request, given its head: an allowed host is
/// tunnelled (`CONNECT`) or forwarded to its port 80; any other is refused.
pub fn decide_request(head: &str, allowlist: &Vec<String>) -> (r: ProxyAction)
    ensures
        (r is Refuse) <==> !allowed_host(request_host(head@), views(allowlist@)),
        r matches ProxyAction::Tunnel { target } ==> ascii_lowercase(request_word(head@, 0)) == "connect"@
            && target@ == request_word(head@, 1),
        r matches ProxyAction::Forward { upstream } ==> ascii_lowercase(request_word(head@, 0)) != "connect"@
            && upstream@ == request_host(head@) + ":80"@,
        allowed_host(request_host(head@), views(allowlist@)) ==> (ascii_lowercase(request_word(head@, 0))
            == "connect"@ <==> r is Tunnel),
{
    let t = parse_request_head(head);
    assert(t.host@ == request_host(head@));
    if !host_allowed(t.host.as_str(), allowlist) {
        return ProxyAction::Refuse;
    }
    if t.connect {
        ProxyAction::Tunnel { target: t.target }
    } else {
        ProxyAction::Forward { upstream: concat2(t.host.as_str(), ":80") }
    }
}

/// The answer to a refused request.
pub fn refusal_reply() -> (r: &'static str)
    ensures
        r@ == "HTTP/1.1 403 Forbidden\r\n\r\n"@,
{
    "HTTP/1.1 403 Forbidden\r\n\r\n"
}

/// The answer to an accepted `CONNECT`.
pub fn tunnel_reply() -> (r: &'static str)
    ensures
        r@ == "HTTP/1.1 200 Connection Established\r\n\r\n"@,
{
    "HTTP/1.1 200 Connection Established\r\n\r\n"
}

/// The most bytes of a request head the proxy reads.
pub const MAX_HEAD_BYTES: usize = 16384;

/// A request head is read once it ends with a blank line or has reached the
/// size limit.
pub open spec fn head_done(buf: Seq<u8>) -> bool {
    (buf.len() >= 4 && buf.subrange(buf.len() - 4, buf.len() as int) =~= seq![13u8, 10u8, 13u8, 10u8])
        || buf.len() >= MAX_HEAD_BYTES
}

/// Whether the bytes read so far complete a request head.
pub fn head_complete(buf: &Vec<u8>) -> (r: bool)
    ensures
        r == head_done(buf@),
{
    let n = buf.len();
    if n >= MAX_HEAD_BYTES {
        return true;
    }
    if n < 4 {
        return false;
    }
    let r = buf[n - 4] == 13u8 && buf[n - 3] == 10u8 && buf[n - 2] == 13u8 && buf[n - 1] == 10u8;
    assert(r == (buf@.subrange(n - 4, n as int) =~= seq![13u8, 10u8, 13u8, 10u8])) by {
        if r {
            assert(buf@.subrange(n - 4, n as int) =~= seq![13u8, 10u8, 13u8, 10u8]);
        } else {
            if buf@.subrange(n - 4, n as int) =~= seq![13u8, 10u8, 13u8, 10u8] {
                assert(buf@.subrange(n - 4, n as int)[0] == buf@[n - 4]);
                assert(buf@.subrange(n - 4, n as int)[1] == buf@[n - 3]);
                assert(buf@.subrange(n - 4, n as int)[2] == buf@[n - 2]);
                assert(buf@.subrange(n - 4, n as int)[3] == buf@[n - 1]);
            }
        }
    }
    r
}

} // verus!
