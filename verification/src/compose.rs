//! What `sbox init` reads from a project's compose file: the application
//! service's image, ports and environment, and its sidecar services. The
//! file is scanned line by line by indentation, without a YAML parser.

use vstd::prelude::*;

use crate::backend::args::text_lines;
use crate::proxy::{trim, trim_str};
use crate::paths::trim_end_char;
use crate::text::{
    ends_with, has_char, is_whitespace, lowercase, owned, seq_has, starts_with, str_chars,
    str_ends_with, str_has_char, str_skip, str_starts_with, string_from_chars, to_lowercase, views,
    eq_str, char_is_whitespace,
};

verus! {

/// The compose files looked for, in order.
pub open spec fn compose_names() -> Seq<Seq<char>> {
    seq![
        "compose.yaml"@,
        "compose.yml"@,
        "docker-compose.yml"@,
        "docker-compose.yaml"@,
        "podman-compose.yml"@,
        "podman-compose.yaml"@,
    ]
}

/// The compose files looked for, in order.
pub fn compose_file_names() -> (r: Vec<String>)
    ensures
        views(r@) == compose_names(),
{
    let a = [
        "compose.yaml",
        "compose.yml",
        "docker-compose.yml",
        "docker-compose.yaml",
        "podman-compose.yml",
        "podman-compose.yaml",
    ];
    assert(crate::text::str_views(a@) =~= compose_names());
    crate::text::owned_list(&a)
}

/// Image name beginnings of infrastructure services (databases, caches,
/// proxies) that are not the application.
pub open spec fn sidecar_prefixes() -> Seq<Seq<char>> {
    seq![
        "postgres"@, "mysql"@, "mariadb"@, "mongo"@, "redis"@, "rabbitmq"@, "elasticsearch"@, "kibana"@,
        "grafana"@, "prometheus"@, "influxdb"@, "nginx"@, "traefik"@, "caddy"@, "haproxy"@, "zookeeper"@,
        "kafka"@, "memcached"@, "vault"@,
    ]
}

/// Service names that are almost certainly the application.
pub open spec fn app_service_names() -> Seq<Seq<char>> {
    seq!["app"@, "web"@, "api"@, "backend"@, "server"@, "frontend"@, "application"@, "service"@]
}

/// The number of UTF-8 bytes that encode `c`.
pub open spec fn utf8_width(c: char) -> nat {
    if (c as u32) < 0x80 {
        1
    } else if (c as u32) < 0x800 {
        2
    } else if (c as u32) < 0x10000 {
        3
    } else {
        4
    }
}

/// The byte length of the leading whitespace of a line (its indentation,
/// as `line.len() - line.trim_start().len()` counts it).
pub open spec fn indent_of(line: Seq<char>) -> nat
    decreases line.len(),
{
    if line.len() > 0 && is_whitespace(line[0]) {
        utf8_width(line[0]) + indent_of(line.drop_first())
    } else {
        0
    }
}

/// `s` without every leading and trailing `c`.
pub open spec fn trim_char(s: Seq<char>, c: char) -> Seq<char>
    decreases s.len(),
{
    if s.len() > 0 && s[0] == c {
        trim_char(s.drop_first(), c)
    } else if s.len() > 0 && s.last() == c {
        trim_char(s.drop_last(), c)
    } else {
        s
    }
}

/// A value with surrounding whitespace and quotes removed.
pub open spec fn unquote(s: Seq<char>) -> Seq<char> {
    trim_char(trim_char(trim(s), '"'), '\'')
}

/// A service seen so far: its name, image, ports and environment entries.
pub type Candidate = (Seq<char>, Seq<char>, Seq<Seq<char>>, Seq<Seq<char>>);

/// Where the scan is: inside `services:`, the services' indentation, the
/// current service, inside its `ports:` or `environment:`, the services seen,
/// and all service names.
pub type ScanState = (bool, Option<nat>, Seq<char>, bool, bool, Seq<Candidate>, Seq<Seq<char>>);

/// The position of the first service named `name`.
pub open spec fn first_candidate(c: Seq<Candidate>, name: Seq<char>) -> Option<int>
    decreases c.len(),
{
    if c.len() == 0 {
        None
    } else if c[0].0 == name {
        Some(0)
    } else {
        match first_candidate(c.drop_first(), name) {
            Some(j) => Some(j + 1),
            None => None,
        }
    }
}

/// The services with the first one named `name` changed by `kind`: 0 sets
/// its image to `v`, 1 adds port `v`, 2 adds environment entry `v`.
pub open spec fn update_candidate(c: Seq<Candidate>, name: Seq<char>, kind: int, v: Seq<char>) -> Seq<Candidate> {
    match first_candidate(c, name) {
        Some(j) => c.update(
            j,
            if kind == 0 {
                (c[j].0, v, c[j].2, c[j].3)
            } else if kind == 1 {
                (c[j].0, c[j].1, c[j].2.push(v), c[j].3)
            } else {
                (c[j].0, c[j].1, c[j].2, c[j].3.push(v))
            },
        ),
        None => c,
    }
}

/// The largest of two numbers.
pub open spec fn max_nat(a: nat, b: nat) -> nat {
    if a >= b {
        a
    } else {
        b
    }
}

/// One line of the scan.
pub open spec fn scan_step(st: ScanState, line: Seq<char>) -> ScanState {
    let t = trim(line);
    let (in_services, svc_indent, current, in_ports, in_env, cands, all) = st;
    if t.len() == 0 || starts_with(t, "#"@) {
        st
    } else if t == "services:"@ {
        (true, None, current, in_ports, in_env, cands, all)
    } else if !(line.len() > 0 && (line[0] == ' ' || line[0] == '\t')) {
        (false, svc_indent, current, in_ports, in_env, cands, all)
    } else if !in_services {
        st
    } else {
        let indent = indent_of(line);
        let si = match svc_indent {
            Some(x) => x,
            None => indent,
        };
        if indent == si && ends_with(t, ":"@) && !has_char(t, ' ') {
            let name = trim_end_char(t, ':');
            (true, Some(si), name, false, false, cands.push((name, Seq::empty(), Seq::empty(), Seq::empty())), all.push(name))
        } else if indent > si {
            if t == "ports:"@ {
                (true, Some(si), current, true, false, cands, all)
            } else if t == "environment:"@ {
                (true, Some(si), current, false, true, cands, all)
            } else if starts_with(t, "image:"@) {
                let img = unquote(t.skip(6));
                (
                    true,
                    Some(si),
                    current,
                    false,
                    false,
                    if img.len() > 0 {
                        update_candidate(cands, current, 0, img)
                    } else {
                        cands
                    },
                    all,
                )
            } else if in_ports && starts_with(t, "- "@) {
                (true, Some(si), current, in_ports, in_env, update_candidate(cands, current, 1, unquote(t.skip(2))), all)
            } else if in_env && starts_with(t, "- "@) {
                (true, Some(si), current, in_ports, in_env, update_candidate(cands, current, 2, unquote(t.skip(2))), all)
            } else if in_env && has_char(t, ':') {
                (true, Some(si), current, in_ports, in_env, update_candidate(cands, current, 2, t), all)
            } else if indent <= si + max_nat(si, 2) && !starts_with(t, "- "@) {
                (true, Some(si), current, false, false, cands, all)
            } else {
                (true, Some(si), current, in_ports, in_env, cands, all)
            }
        } else {
            (true, Some(si), current, in_ports, in_env, cands, all)
        }
    }
}

/// The scan of a sequence of lines from the start state.
pub open spec fn scan(lines: Seq<Seq<char>>) -> ScanState
    decreases lines.len(),
{
    if lines.len() == 0 {
        (false, None, Seq::empty(), false, false, Seq::empty(), Seq::empty())
    } else {
        scan_step(scan(lines.drop_last()), lines.last())
    }
}

/// The first preferred application name that is a service.
pub open spec fn preferred_candidate(c: Seq<Candidate>, names: Seq<Seq<char>>) -> Option<int>
    decreases names.len(),
{
    if names.len() == 0 {
        None
    } else {
        match first_candidate(c, names[0]) {
            Some(j) => Some(j),
            None => preferred_candidate(c, names.drop_first()),
        }
    }
}

/// An image whose lowercase name begins like an infrastructure image.
pub open spec fn sidecar_image(img: Seq<char>) -> bool {
    exists|i: int| 0 <= i < sidecar_prefixes().len() && starts_with(lowercase(img), #[trigger] sidecar_prefixes()[i])
}

/// The first service with an image that is not infrastructure.
pub open spec fn first_app_image(c: Seq<Candidate>) -> Option<int>
    decreases c.len(),
{
    if c.len() == 0 {
        None
    } else if c[0].1.len() > 0 && !sidecar_image(c[0].1) {
        Some(0)
    } else {
        match first_app_image(c.drop_first()) {
            Some(j) => Some(j + 1),
            None => None,
        }
    }
}

/// The application service: a preferred name, else the first with an
/// application image, else the first service.
pub open spec fn primary_index(c: Seq<Candidate>) -> int {
    match preferred_candidate(c, app_service_names()) {
        Some(j) => j,
        None => match first_app_image(c) {
            Some(j) => j,
            None => 0,
        },
    }
}

/// What a compose file says of a project.
pub struct ComposeInfo {
    pub image: Option<String>,
    pub ports: Vec<String>,
    pub env: Vec<String>,
    pub sidecar_services: Vec<String>,
    pub compose_file: String,
}

/// The names other than `name`, in order.
pub open spec fn others(all: Seq<Seq<char>>, name: Seq<char>) -> Seq<Seq<char>>
    decreases all.len(),
{
    if all.len() == 0 {
        Seq::empty()
    } else {
        others(all.drop_last(), name) + if all.last() != name {
            seq![all.last()]
        } else {
            Seq::empty()
        }
    }
}

/// What a compose file's text says, when it declares a service: the
/// application service's image (none when empty), ports and environment,
/// and the other services.
pub open spec fn compose_info_for(text: Seq<char>, file: Seq<char>, r: Option<ComposeInfo>) -> bool {
    let st = scan(text_lines(text));
    let cands = st.5;
    if cands.len() == 0 {
        r is None
    } else {
        let p = cands[primary_index(cands)];
        &&& r is Some
        &&& crate::resolve::opt_chars(r->Some_0.image) == if p.1.len() == 0 {
            None
        } else {
            Some(p.1)
        }
        &&& views(r->Some_0.ports@) == p.2
        &&& views(r->Some_0.env@) == p.3
        &&& views(r->Some_0.sidecar_services@) == others(st.6, p.0)
        &&& r->Some_0.compose_file@ == file
    }
}

/// A service seen so far, as the scan holds it.
pub type CandidateCell = (String, String, Vec<String>, Vec<String>);

/// Services by their characters.
pub open spec fn cand_views(v: Seq<CandidateCell>) -> Seq<Candidate> {
    v.map_values(|c: CandidateCell| (c.0@, c.1@, views(c.2@), views(c.3@)))
}

fn indent_width(line: &str) -> (r: u128)
    ensures
        r == indent_of(line@),
        r <= 4 * usize::MAX,
{
    let cs = str_chars(line);
    let mut acc: u128 = 0;
    let mut i: usize = 0;
    assert(line@.skip(0) =~= line@);
    while i < cs.len() && char_is_whitespace(cs[i])
        invariant
            cs@ == line@,
            i <= cs@.len(),
            indent_of(line@) == acc + indent_of(line@.skip(i as int)),
            acc <= 4 * i,
            i <= usize::MAX,
        decreases cs@.len() - i,
    {
        let c = cs[i];
        let w: u128 = if (c as u32) < 0x80 {
            1
        } else if (c as u32) < 0x800 {
            2
        } else if (c as u32) < 0x10000 {
            3
        } else {
            4
        };
        assert(line@.skip(i as int)[0] == c);
        assert(line@.skip(i as int).drop_first() =~= line@.skip(i + 1));
        acc = acc + w;
        i = i + 1;
    }
    acc
}

/// `s` without every leading and trailing `c`.
pub fn trim_char_str(s: &str, c: char) -> (r: String)
    ensures
        r@ == trim_char(s@, c),
{
    let cs = str_chars(s);
    let mut lo: usize = 0;
    let mut hi: usize = cs.len();
    assert(s@.subrange(0, cs@.len() as int) =~= s@);
    while lo < hi && cs[lo] == c
        invariant
            cs@ == s@,
            lo <= hi,
            hi == cs@.len(),
            trim_char(s@, c) == trim_char(s@.subrange(lo as int, hi as int), c),
        decreases hi - lo,
    {
        assert(s@.subrange(lo as int, hi as int).drop_first() =~= s@.subrange(lo + 1, hi as int));
        lo = lo + 1;
    }
    while lo < hi && cs[hi - 1] == c
        invariant
            cs@ == s@,
            lo <= hi <= cs@.len(),
            trim_char(s@, c) == trim_char(s@.subrange(lo as int, hi as int), c),
            lo < hi ==> s@[lo as int] != c,
        decreases hi - lo,
    {
        assert(s@.subrange(lo as int, hi as int).drop_last() =~= s@.subrange(lo as int, hi - 1));
        hi = hi - 1;
    }
    let mut out: Vec<char> = Vec::new();
    let mut i: usize = lo;
    while i < hi
        invariant
            cs@ == s@,
            lo <= i <= hi <= cs@.len(),
            out@ == s@.subrange(lo as int, i as int),
        decreases hi - i,
    {
        out.push(cs[i]);
        assert(s@.subrange(lo as int, i + 1) =~= s@.subrange(lo as int, i as int).push(cs@[i as int]));
        i = i + 1;
    }
    string_from_chars(&out)
}

/// A value with surrounding whitespace and quotes removed.
pub fn unquote_str(s: &str) -> (r: String)
    ensures
        r@ == unquote(s@),
{
    let t = trim_str(s);
    let u = trim_char_str(t.as_str(), '"');
    trim_char_str(u.as_str(), '\'')
}

fn trim_end_colons(s: &str) -> (r: String)
    ensures
        r@ == trim_end_char(s@, ':'),
{
    let cs = str_chars(s);
    let mut end: usize = cs.len();
    assert(cs@.take(end as int) =~= s@);
    while end > 0 && cs[end - 1] == ':'
        invariant
            cs@ == s@,
            end <= cs@.len(),
            trim_end_char(s@, ':') == trim_end_char(cs@.take(end as int), ':'),
        decreases end,
    {
        assert(cs@.take(end as int).drop_last() =~= cs@.take(end - 1));
        end = end - 1;
    }
    string_from_chars(&crate::text::chars_take(&cs, end))
}

fn find_candidate(cands: &Vec<CandidateCell>, name: &str) -> (r: Option<usize>)
    ensures
        r matches Some(j) ==> j < cands@.len() && first_candidate(cand_views(cands@), name@) == Some(j as int),
        r is None ==> first_candidate(cand_views(cands@), name@) is None,
{
    let ghost cv = cand_views(cands@);
    let mut i: usize = 0;
    assert(cv.skip(0) =~= cv);
    while i < cands.len()
        invariant
            cv == cand_views(cands@),
            i <= cv.len(),
            first_candidate(cv, name@) == match first_candidate(cv.skip(i as int), name@) {
                Some(j) => Some(j + i),
                None => None,
            },
        decreases cv.len() - i,
    {
        assert(cv.skip(i as int)[0].0 == cands@[i as int].0@);
        if eq_str(cands[i].0.as_str(), name) {
            return Some(i);
        }
        assert(cv.skip(i as int).drop_first() =~= cv.skip(i + 1));
        i = i + 1;
    }
    None
}

fn update_cand(cands: &mut Vec<CandidateCell>, name: &str, kind: u8, v: String)
    requires
        kind <= 2,
    ensures
        cand_views(final(cands)@) == update_candidate(cand_views(old(cands)@), name@, kind as int, v@),
{
    match find_candidate(cands, name) {
        Some(j) => {
            let ghost before = cand_views(cands@);
            let old_c = &cands[j];
            let mut ports = crate::text::clone_strings(&old_c.2);
            let mut env = crate::text::clone_strings(&old_c.3);
            let mut image = old_c.1.clone();
            let nm = old_c.0.clone();
            let ghost vv = v@;
            if kind == 0 {
                image = v;
            } else if kind == 1 {
                crate::text::push_string(&mut ports, v);
            } else {
                crate::text::push_string(&mut env, v);
            }
            let ghost newv = (nm@, image@, views(ports@), views(env@));
            cands[j] = (nm, image, ports, env);
            assert(cand_views(cands@) =~= before.update(j as int, newv));
        },
        None => {},
    }
}

fn scan_line(
    line: &str,
    in_services: &mut bool,
    svc_indent: &mut Option<u128>,
    current: &mut String,
    in_ports: &mut bool,
    in_env: &mut bool,
    cands: &mut Vec<CandidateCell>,
    all: &mut Vec<String>,
)
    requires
        *old(svc_indent) matches Some(x) ==> x <= 4 * usize::MAX,
    ensures
        *final(svc_indent) matches Some(x) ==> x <= 4 * usize::MAX,
        ({
            let st = (
                *old(in_services),
                match *old(svc_indent) {
                    Some(x) => Some(x as nat),
                    None => None,
                },
                old(current)@,
                *old(in_ports),
                *old(in_env),
                cand_views(old(cands)@),
                views(old(all)@),
            );
            let nst = scan_step(st, line@);
            &&& *final(in_services) == nst.0
            &&& match *final(svc_indent) {
                Some(x) => Some(x as nat),
                None => None,
            } == nst.1
            &&& final(current)@ == nst.2
            &&& *final(in_ports) == nst.3
            &&& *final(in_env) == nst.4
            &&& cand_views(final(cands)@) == nst.5
            &&& views(final(all)@) == nst.6
        }),
{
    proof {
        reveal_strlit("#");
        reveal_strlit("services:");
        reveal_strlit(":");
        reveal_strlit("ports:");
        reveal_strlit("environment:");
        reveal_strlit("image:");
        reveal_strlit("- ");
    }
    let t = trim_str(line);
    proof {
        reveal_strlit("");
        if t@.len() == 0 {
            assert(t@ =~= ""@);
        }
    }
    if eq_str(t.as_str(), "") || str_starts_with(t.as_str(), "#") {
        return;
    }
    if eq_str(t.as_str(), "services:") {
        *in_services = true;
        *svc_indent = None;
        return;
    }
    let lc = str_chars(line);
    if !(lc.len() > 0 && (lc[0] == ' ' || lc[0] == '\t')) {
        *in_services = false;
        return;
    }
    if !*in_services {
        return;
    }
    let indent = indent_width(line);
    let si: u128 = match *svc_indent {
        Some(x) => x,
        None => indent,
    };
    *svc_indent = Some(si);
    if indent == si && str_ends_with(t.as_str(), ":") && !str_has_char(t.as_str(), ' ') {
        let name = trim_end_colons(t.as_str());
        let ghost nv = name@;
        let ghost before_c = cand_views(cands@);
        let ghost before_a = views(all@);
        let n1 = name.clone();
        let n2 = name.clone();
        let empty_img = String::new();
        let no_ports: Vec<String> = Vec::new();
        let no_env: Vec<String> = Vec::new();
        assert(n1@ == nv && n2@ == nv);
        assert(views(no_ports@) =~= Seq::<Seq<char>>::empty());
        assert(views(no_env@) =~= Seq::<Seq<char>>::empty());
        assert(empty_img@ =~= Seq::<char>::empty());
        cands.push((n1, empty_img, no_ports, no_env));
        all.push(n2);
        *current = name;
        *in_ports = false;
        *in_env = false;
        assert(cand_views(cands@) =~= before_c.push((nv, Seq::empty(), Seq::empty(), Seq::empty())));
        assert(views(all@) =~= before_a.push(nv));
        return;
    }
    if indent > si {
        if eq_str(t.as_str(), "ports:") {
            *in_ports = true;
            *in_env = false;
            return;
        }
        if eq_str(t.as_str(), "environment:") {
            *in_ports = false;
            *in_env = true;
            return;
        }
        if str_starts_with(t.as_str(), "image:") {
            let rest = str_skip(t.as_str(), 6);
            let img = unquote_str(rest.as_str());
            proof {
                reveal_strlit("");
                if img@.len() == 0 {
                    assert(img@ =~= ""@);
                }
            }
            if !eq_str(img.as_str(), "") {
                let cur = current.clone();
                update_cand(cands, cur.as_str(), 0, img);
            }
            *in_ports = false;
            *in_env = false;
            return;
        }
        if *in_ports && str_starts_with(t.as_str(), "- ") {
            let rest = str_skip(t.as_str(), 2);
            let port = unquote_str(rest.as_str());
            let cur = current.clone();
            update_cand(cands, cur.as_str(), 1, port);
            return;
        }
        if *in_env && str_starts_with(t.as_str(), "- ") {
            let rest = str_skip(t.as_str(), 2);
            let env = unquote_str(rest.as_str());
            let cur = current.clone();
            update_cand(cands, cur.as_str(), 2, env);
            return;
        }
        if *in_env && str_has_char(t.as_str(), ':') {
            let cur = current.clone();
            update_cand(cands, cur.as_str(), 2, t);
            return;
        }
        let m: u128 = if si >= 2 {
            si
        } else {
            2
        };
        if indent <= si + m && !str_starts_with(t.as_str(), "- ") {
            *in_ports = false;
            *in_env = false;
        }
    }
}

fn preferred_index(cands: &Vec<CandidateCell>) -> (r: Option<usize>)
    ensures
        r matches Some(j) ==> j < cands@.len() && preferred_candidate(cand_views(cands@), app_service_names()) == Some(j as int),
        r is None ==> preferred_candidate(cand_views(cands@), app_service_names()) is None,
{
    let names = ["app", "web", "api", "backend", "server", "frontend", "application", "service"];
    assert(crate::text::str_views(names@) =~= app_service_names());
    let ghost cv = cand_views(cands@);
    let mut k: usize = 0;
    assert(app_service_names().skip(0) =~= app_service_names());
    while k < 8
        invariant
            k <= 8,
            cv == cand_views(cands@),
            crate::text::str_views(names@) == app_service_names(),
            preferred_candidate(cv, app_service_names()) == preferred_candidate(cv, app_service_names().skip(k as int)),
        decreases 8 - k,
    {
        assert(app_service_names().skip(k as int)[0] == names[k as int]@);
        match find_candidate(cands, names[k]) {
            Some(j) => return Some(j),
            None => {},
        }
        assert(app_service_names().skip(k as int).drop_first() =~= app_service_names().skip(k + 1));
        k = k + 1;
    }
    assert(app_service_names().skip(8) =~= Seq::<Seq<char>>::empty());
    None
}

fn is_sidecar_image(img: &str) -> (r: bool)
    ensures
        r == sidecar_image(img@),
{
    let lower = to_lowercase(img);
    let p = [
        "postgres", "mysql", "mariadb", "mongo", "redis", "rabbitmq", "elasticsearch", "kibana", "grafana",
        "prometheus", "influxdb", "nginx", "traefik", "caddy", "haproxy", "zookeeper", "kafka", "memcached", "vault",
    ];
    assert(crate::text::str_views(p@) =~= sidecar_prefixes());
    let mut i: usize = 0;
    while i < 19
        invariant
            i <= 19,
            crate::text::str_views(p@) == sidecar_prefixes(),
            lower@ == lowercase(img@),
            forall|j: int| 0 <= j < i ==> !starts_with(lowercase(img@), #[trigger] sidecar_prefixes()[j]),
        decreases 19 - i,
    {
        assert(sidecar_prefixes()[i as int] == p[i as int]@);
        if str_starts_with(lower.as_str(), p[i]) {
            return true;
        }
        i = i + 1;
    }
    false
}

fn app_image_index(cands: &Vec<CandidateCell>) -> (r: Option<usize>)
    ensures
        r matches Some(j) ==> j < cands@.len() && first_app_image(cand_views(cands@)) == Some(j as int),
        r is None ==> first_app_image(cand_views(cands@)) is None,
{
    let ghost cv = cand_views(cands@);
    let mut i: usize = 0;
    assert(cv.skip(0) =~= cv);
    while i < cands.len()
        invariant
            cv == cand_views(cands@),
            i <= cv.len(),
            first_app_image(cv) == match first_app_image(cv.skip(i as int)) {
                Some(j) => Some(j + i),
                None => None,
            },
        decreases cv.len() - i,
    {
        assert(cv.skip(i as int)[0].1 == cands@[i as int].1@);
        proof {
            reveal_strlit("");
        }
        let img = cands[i].1.as_str();
        let nonempty = !eq_str(img, "");
        assert(nonempty == (img@.len() > 0)) by {
            if img@.len() == 0 {
                assert(img@ =~= ""@);
            }
        }
        if nonempty && !is_sidecar_image(img) {
            return Some(i);
        }
        assert(cv.skip(i as int).drop_first() =~= cv.skip(i + 1));
        i = i + 1;
    }
    None
}

fn other_names(all: &Vec<String>, name: &str) -> (r: Vec<String>)
    ensures
        views(r@) == others(views(all@), name@),
{
    let ghost a = views(all@);
    let mut out: Vec<String> = Vec::new();
    let mut i: usize = 0;
    assert(views(out@) =~= others(a.take(0), name@));
    while i < all.len()
        invariant
            a == views(all@),
            i <= a.len(),
            views(out@) == others(a.take(i as int), name@),
        decreases a.len() - i,
    {
        assert(a.take(i + 1).drop_last() =~= a.take(i as int));
        assert(a.take(i + 1).last() == all@[i as int]@);
        let ghost before = views(out@);
        if !eq_str(all[i].as_str(), name) {
            let c = all[i].clone();
            let ghost cv = c@;
            out.push(c);
            assert(views(out@) =~= before.push(cv));
        }
        assert(views(out@) =~= others(a.take(i + 1), name@));
        i = i + 1;
    }
    assert(a.take(a.len() as int) =~= a);
    out
}

/// What a compose file's text says of the project.
pub fn compose_info_of(text: &str, file: &str) -> (r: Option<ComposeInfo>)
    ensures
        compose_info_for(text@, file@, r),
{
    let lines = crate::backend::args::lines_of(text);
    let ghost ls = text_lines(text@);
    let mut in_services = false;
    let mut svc_indent: Option<u128> = None;
    let mut current = String::new();
    let mut in_ports = false;
    let mut in_env = false;
    let mut cands: Vec<CandidateCell> = Vec::new();
    let mut all: Vec<String> = Vec::new();
    let mut i: usize = 0;
    proof {
        assert(cand_views(cands@) =~= Seq::<Candidate>::empty());
        assert(views(all@) =~= Seq::<Seq<char>>::empty());
        assert(current@ =~= Seq::<char>::empty());
        assert(ls.take(0) =~= Seq::<Seq<char>>::empty());
    }
    while i < lines.len()
        invariant
            views(lines@) == ls,
            i <= ls.len(),
            svc_indent matches Some(x) ==> x <= 4 * usize::MAX,
            scan(ls.take(i as int)) == (
                in_services,
                match svc_indent {
                    Some(x) => Some(x as nat),
                    None => None,
                },
                current@,
                in_ports,
                in_env,
                cand_views(cands@),
                views(all@),
            ),
        decreases ls.len() - i,
    {
        assert(ls.take(i + 1).drop_last() =~= ls.take(i as int));
        assert(ls.take(i + 1).last() == lines@[i as int]@);
        scan_line(
            lines[i].as_str(),
            &mut in_services,
            &mut svc_indent,
            &mut current,
            &mut in_ports,
            &mut in_env,
            &mut cands,
            &mut all,
        );
        i = i + 1;
    }
    assert(ls.take(ls.len() as int) =~= ls);
    if cands.len() == 0 {
        return None;
    }
    let p = match preferred_index(&cands) {
        Some(j) => j,
        None => match app_image_index(&cands) {
            Some(j) => j,
            None => 0,
        },
    };
    let c = &cands[p];
    assert(cand_views(cands@)[p as int] == (c.0@, c.1@, views(c.2@), views(c.3@)));
    proof {
        reveal_strlit("");
    }
    let image = if eq_str(c.1.as_str(), "") {
        None
    } else {
        Some(c.1.clone())
    };
    assert(c.1@.len() == 0 ==> c.1@ =~= ""@);
    Some(
        ComposeInfo {
            image,
            ports: crate::text::clone_strings(&c.2),
            env: crate::text::clone_strings(&c.3),
            sidecar_services: other_names(&all, c.0.as_str()),
            compose_file: owned(file),
        },
    )
}

/// What the first compose file that declares a service says; `texts[i]`
/// holds the text of the `i`-th name of `compose_file_names` when that file
/// exists and could be read.
pub open spec fn compose_info_among(texts: Seq<Option<String>>, k: int, r: Option<ComposeInfo>) -> bool
    decreases texts.len() - k,
{
    if k >= texts.len() || k >= compose_names().len() {
        r is None
    } else {
        match texts[k] {
            Some(t) => if scan(text_lines(t@)).5.len() > 0 {
                compose_info_for(t@, compose_names()[k], r)
            } else {
                compose_info_among(texts, k + 1, r)
            },
            None => compose_info_among(texts, k + 1, r),
        }
    }
}

/// What the project's compose file says, looking at the candidate files in
/// order.
pub fn detect_compose_info(texts: &Vec<Option<String>>) -> (r: Option<ComposeInfo>)
    ensures
        compose_info_among(texts@, 0, r),
{
    let names = compose_file_names();
    let mut i: usize = 0;
    while i < texts.len() && i < names.len()
        invariant
            views(names@) == compose_names(),
            i <= texts@.len(),
            forall|r: Option<ComposeInfo>| compose_info_among(texts@, 0, r) == compose_info_among(texts@, i as int, r),
        decreases texts@.len() - i,
    {
        match &texts[i] {
            Some(t) => {
                let info = compose_info_of(t.as_str(), names[i].as_str());
                assert(names@[i as int]@ == compose_names()[i as int]);
                if info.is_some() {
                    return info;
                }
            },
            None => {},
        }
        i = i + 1;
    }
    None
}

} // verus!
