//! The network allow-list of a profile: which host names an entry stands
//! for, and the `(hostname, address)` pairs the sandbox is given for them.

use vstd::prelude::*;

use crate::resolve::replace_all;
use crate::resolve::replace_str;
use crate::text::{
    eq_str, owned, owned_list, push_string, starts_with, str_skip, str_starts_with, str_views,
    views,
};

verus! {

/// The concrete base domain of a wildcard entry (`*.example.com`,
/// `.*\.example\.com`, `.example.com`), or `None` for an exact host name.
pub open spec fn pattern_base(entry: Seq<char>) -> Option<Seq<char>> {
    if starts_with(entry, "*."@) {
        Some(entry.skip(2))
    } else if starts_with(entry, ".*\\."@) {
        Some(replace_all(entry.skip(4), "\\."@, "."@))
    } else if starts_with(entry, "."@) && entry.len() > 1 {
        Some(entry.skip(1))
    } else {
        None
    }
}

/// The base domain of a wildcard allow-list entry, if it is one.
pub fn extract_pattern_base(entry: &str) -> (r: Option<String>)
    ensures
        opt_view(r) == pattern_base(entry@),
{
    proof {
        reveal_strlit("*.");
        reveal_strlit(".*\\.");
        reveal_strlit("\\.");
        reveal_strlit(".");
    }
    if str_starts_with(entry, "*.") {
        return Some(str_skip(entry, 2));
    }
    if str_starts_with(entry, ".*\\.") {
        let rest = str_skip(entry, 4);
        return Some(replace_str(rest.as_str(), "\\.", "."));
    }
    if str_starts_with(entry, ".") {
        let rest = str_skip(entry, 1);
        proof {
            reveal_strlit("");
            assert(rest@.len() == entry@.len() - 1);
            assert(rest@.len() == 0 ==> rest@ =~= ""@);
        }
        if !eq_str(rest.as_str(), "") {
            return Some(rest);
        }
    }
    None
}

/// An optional string by its characters.
pub open spec fn opt_view(o: Option<String>) -> Option<Seq<char>> {
    match o {
        Some(s) => Some(s@),
        None => None,
    }
}

/// The host names that package managers use below well-known registry
/// domains.
pub open spec fn known_subdomains(base: Seq<char>) -> Option<Seq<Seq<char>>> {
    if base == "npmjs.org"@ {
        Some(seq!["registry.npmjs.org"@, "npmjs.org"@, "www.npmjs.org"@])
    } else if base == "yarnpkg.com"@ {
        Some(seq!["registry.yarnpkg.com"@, "yarnpkg.com"@])
    } else if base == "pypi.org"@ {
        Some(seq!["pypi.org"@, "files.pythonhosted.org"@])
    } else if base == "pythonhosted.org"@ {
        Some(seq!["files.pythonhosted.org"@, "pythonhosted.org"@])
    } else if base == "crates.io"@ {
        Some(seq!["crates.io"@, "static.crates.io"@, "index.crates.io"@])
    } else if base == "golang.org"@ {
        Some(seq!["proxy.golang.org"@, "sum.golang.org"@, "golang.org"@])
    } else if base == "go.dev"@ {
        Some(seq!["proxy.golang.dev"@, "sum.golang.dev"@, "go.dev"@])
    } else if base == "rubygems.org"@ {
        Some(seq!["rubygems.org"@, "api.rubygems.org"@, "index.rubygems.org"@])
    } else if base == "maven.org"@ {
        Some(seq!["repo1.maven.org"@, "central.maven.org"@])
    } else if base == "gradle.org"@ {
        Some(seq!["plugins.gradle.org"@, "services.gradle.org"@, "gradle.org"@])
    } else if base == "github.com"@ {
        Some(
            seq![
                "github.com"@,
                "api.github.com"@,
                "raw.githubusercontent.com"@,
                "objects.githubusercontent.com"@,
                "codeload.github.com"@,
            ],
        )
    } else if base == "githubusercontent.com"@ {
        Some(
            seq![
                "raw.githubusercontent.com"@,
                "objects.githubusercontent.com"@,
                "avatars.githubusercontent.com"@,
            ],
        )
    } else if base == "docker.io"@ {
        Some(seq!["registry-1.docker.io"@, "auth.docker.io"@, "production.cloudflare.docker.com"@])
    } else if base == "ghcr.io"@ {
        Some(seq!["ghcr.io"@])
    } else if base == "gcr.io"@ {
        Some(seq!["gcr.io"@])
    } else {
        None
    }
}

/// The host names resolved for a wildcard's base domain: the known
/// subdomains of a registry domain, else the base itself.
pub open spec fn pattern_hosts(base: Seq<char>) -> Seq<Seq<char>> {
    match known_subdomains(base) {
        Some(hosts) => hosts,
        None => seq![base],
    }
}

/// The host names to resolve for a wildcard's base domain.
pub fn expand_pattern_hosts(base: &str) -> (r: Vec<String>)
    ensures
        views(r@) == pattern_hosts(base@),
{
    if eq_str(base, "npmjs.org") {
        let a = ["registry.npmjs.org", "npmjs.org", "www.npmjs.org"];
        assert(str_views(a@) =~= seq!["registry.npmjs.org"@, "npmjs.org"@, "www.npmjs.org"@]);
        owned_list(&a)
    } else if eq_str(base, "yarnpkg.com") {
        let a = ["registry.yarnpkg.com", "yarnpkg.com"];
        assert(str_views(a@) =~= seq!["registry.yarnpkg.com"@, "yarnpkg.com"@]);
        owned_list(&a)
    } else if eq_str(base, "pypi.org") {
        let a = ["pypi.org", "files.pythonhosted.org"];
        assert(str_views(a@) =~= seq!["pypi.org"@, "files.pythonhosted.org"@]);
        owned_list(&a)
    } else if eq_str(base, "pythonhosted.org") {
        let a = ["files.pythonhosted.org", "pythonhosted.org"];
        assert(str_views(a@) =~= seq!["files.pythonhosted.org"@, "pythonhosted.org"@]);
        owned_list(&a)
    } else if eq_str(base, "crates.io") {
        let a = ["crates.io", "static.crates.io", "index.crates.io"];
        assert(str_views(a@) =~= seq!["crates.io"@, "static.crates.io"@, "index.crates.io"@]);
        owned_list(&a)
    } else if eq_str(base, "golang.org") {
        let a = ["proxy.golang.org", "sum.golang.org", "golang.org"];
        assert(str_views(a@) =~= seq!["proxy.golang.org"@, "sum.golang.org"@, "golang.org"@]);
        owned_list(&a)
    } else if eq_str(base, "go.dev") {
        let a = ["proxy.golang.dev", "sum.golang.dev", "go.dev"];
        assert(str_views(a@) =~= seq!["proxy.golang.dev"@, "sum.golang.dev"@, "go.dev"@]);
        owned_list(&a)
    } else if eq_str(base, "rubygems.org") {
        let a = ["rubygems.org", "api.rubygems.org", "index.rubygems.org"];
        assert(str_views(a@) =~= seq!["rubygems.org"@, "api.rubygems.org"@, "index.rubygems.org"@]);
        owned_list(&a)
    } else if eq_str(base, "maven.org") {
        let a = ["repo1.maven.org", "central.maven.org"];
        assert(str_views(a@) =~= seq!["repo1.maven.org"@, "central.maven.org"@]);
        owned_list(&a)
    } else if eq_str(base, "gradle.org") {
        let a = ["plugins.gradle.org", "services.gradle.org", "gradle.org"];
        assert(str_views(a@) =~= seq!["plugins.gradle.org"@, "services.gradle.org"@, "gradle.org"@]);
        owned_list(&a)
    } else if eq_str(base, "github.com") {
        let a = [
            "github.com",
            "api.github.com",
            "raw.githubusercontent.com",
            "objects.githubusercontent.com",
            "codeload.github.com",
        ];
        assert(str_views(a@) =~= seq![
            "github.com"@,
            "api.github.com"@,
            "raw.githubusercontent.com"@,
            "objects.githubusercontent.com"@,
            "codeload.github.com"@,
        ]);
        owned_list(&a)
    } else if eq_str(base, "githubusercontent.com") {
        let a = ["raw.githubusercontent.com", "objects.githubusercontent.com", "avatars.githubusercontent.com"];
        assert(str_views(a@) =~= seq![
            "raw.githubusercontent.com"@,
            "objects.githubusercontent.com"@,
            "avatars.githubusercontent.com"@,
        ]);
        owned_list(&a)
    } else if eq_str(base, "docker.io") {
        let a = ["registry-1.docker.io", "auth.docker.io", "production.cloudflare.docker.com"];
        assert(str_views(a@) =~= seq![
            "registry-1.docker.io"@,
            "auth.docker.io"@,
            "production.cloudflare.docker.com"@,
        ]);
        owned_list(&a)
    } else if eq_str(base, "ghcr.io") {
        let a = ["ghcr.io"];
        assert(str_views(a@) =~= seq!["ghcr.io"@]);
        owned_list(&a)
    } else if eq_str(base, "gcr.io") {
        let a = ["gcr.io"];
        assert(str_views(a@) =~= seq!["gcr.io"@]);
        owned_list(&a)
    } else {
        let mut r: Vec<String> = Vec::new();
        push_string(&mut r, owned(base));
        assert(views(r@) =~= seq![base@]);
        r
    }
}

/// The host names an allow-list entry stands for: those of its wildcard's
/// base domain, or the entry itself.
pub open spec fn entry_hosts(entry: Seq<char>) -> Seq<Seq<char>> {
    match pattern_base(entry) {
        Some(base) => pattern_hosts(base),
        None => seq![entry],
    }
}

/// The host names of the entries, entry by entry.
pub open spec fn hosts_of(domains: Seq<Seq<char>>) -> Seq<Seq<char>>
    decreases domains.len(),
{
    if domains.len() == 0 {
        Seq::empty()
    } else {
        hosts_of(domains.drop_last()) + entry_hosts(domains.last())
    }
}

/// The allow-list is in force: it names something and the network is not off.
pub open spec fn allow_list_active(domains: Seq<Seq<char>>, network: Option<Seq<char>>) -> bool {
    domains.len() > 0 && network != Some("off"@)
}

/// The host names whose addresses the sandbox needs for its allow-list.
pub fn hosts_to_resolve(domains: &Vec<String>, network: &Option<String>) -> (r: Vec<String>)
    ensures
        views(r@) == if allow_list_active(views(domains@), opt_view(*network)) {
            hosts_of(views(domains@))
        } else {
            Seq::empty()
        },
{
    let mut out: Vec<String> = Vec::new();
    assert(views(out@) =~= Seq::<Seq<char>>::empty());
    if !network_allows(domains, network) {
        return out;
    }
    let mut i: usize = 0;
    while i < domains.len()
        invariant
            i <= domains@.len(),
            views(out@) == hosts_of(views(domains@).take(i as int)),
        decreases domains@.len() - i,
    {
        assert(views(domains@).take(i + 1).drop_last() =~= views(domains@).take(i as int));
        let hosts = match extract_pattern_base(domains[i].as_str()) {
            Some(base) => expand_pattern_hosts(base.as_str()),
            None => {
                let mut one: Vec<String> = Vec::new();
                push_string(&mut one, domains[i].clone());
                assert(views(one@) =~= seq![domains@[i as int]@]);
                one
            },
        };
        crate::text::add_all(&mut out, hosts);
        i = i + 1;
    }
    assert(views(domains@).take(domains@.len() as int) =~= views(domains@));
    out
}

/// Whether the allow-list is in force.
fn network_allows(domains: &Vec<String>, network: &Option<String>) -> (r: bool)
    ensures
        r == allow_list_active(views(domains@), opt_view(*network)),
{
    proof {
        reveal_strlit("off");
    }
    let off = match network {
        Some(n) => eq_str(n.as_str(), "off"),
        None => false,
    };
    domains.len() > 0 && !off
}

/// Answers of a resolver, host name and addresses, by their characters.
pub open spec fn dns_view(dns: Seq<(String, Vec<String>)>) -> Seq<(Seq<char>, Seq<Seq<char>>)> {
    dns.map_values(|e: (String, Vec<String>)| (e.0@, views(e.1@)))
}

/// The addresses the resolver gave for `host`: those of its first answer,
/// none when it gave none.
pub open spec fn dns_answers(dns: Seq<(Seq<char>, Seq<Seq<char>>)>, host: Seq<char>) -> Seq<Seq<char>>
    decreases dns.len(),
{
    if dns.len() == 0 {
        Seq::empty()
    } else if dns[0].0 == host {
        dns[0].1
    } else {
        dns_answers(dns.drop_first(), host)
    }
}

/// `(hostname, address)` pairs by their characters.
pub open spec fn pair_views(v: Seq<(String, String)>) -> Seq<(Seq<char>, Seq<char>)> {
    v.map_values(|p: (String, String)| (p.0@, p.1@))
}

/// `entries` with `(host, ip)` added for each address in turn, unless the
/// pair is there already.
pub open spec fn add_pairs(entries: Seq<(Seq<char>, Seq<char>)>, host: Seq<char>, ips: Seq<Seq<char>>) -> Seq<(Seq<char>, Seq<char>)>
    decreases ips.len(),
{
    if ips.len() == 0 {
        entries
    } else {
        let e = add_pairs(entries, host, ips.drop_last());
        if e.contains((host, ips.last())) {
            e
        } else {
            e.push((host, ips.last()))
        }
    }
}

/// `entries` with the pairs of each host, host by host.
pub open spec fn add_hosts(entries: Seq<(Seq<char>, Seq<char>)>, hosts: Seq<Seq<char>>, dns: Seq<(Seq<char>, Seq<Seq<char>>)>) -> Seq<(Seq<char>, Seq<char>)>
    decreases hosts.len(),
{
    if hosts.len() == 0 {
        entries
    } else {
        add_pairs(add_hosts(entries, hosts.drop_last(), dns), hosts.last(), dns_answers(dns, hosts.last()))
    }
}

/// The `(hostname, address)` pairs of an allow-list, entry by entry.
pub open spec fn allow_pairs(domains: Seq<Seq<char>>, dns: Seq<(Seq<char>, Seq<Seq<char>>)>) -> Seq<(Seq<char>, Seq<char>)>
    decreases domains.len(),
{
    if domains.len() == 0 {
        Seq::empty()
    } else {
        add_hosts(allow_pairs(domains.drop_last(), dns), entry_hosts(domains.last()), dns)
    }
}

/// The wildcard entries of an allow-list, in order.
pub open spec fn allow_patterns(domains: Seq<Seq<char>>) -> Seq<Seq<char>>
    decreases domains.len(),
{
    if domains.len() == 0 {
        Seq::empty()
    } else {
        allow_patterns(domains.drop_last()) + if pattern_base(domains.last()) is Some {
            seq![domains.last()]
        } else {
            Seq::empty()
        }
    }
}

/// The addresses the resolver gave for `host`.
pub fn lookup_dns(dns: &Vec<(String, Vec<String>)>, host: &str) -> (r: Vec<String>)
    ensures
        views(r@) == dns_answers(dns_view(dns@), host@),
{
    let mut i: usize = 0;
    assert(dns_view(dns@).skip(0) =~= dns_view(dns@));
    while i < dns.len()
        invariant
            i <= dns@.len(),
            dns_answers(dns_view(dns@), host@) == dns_answers(dns_view(dns@).skip(i as int), host@),
        decreases dns@.len() - i,
    {
        assert(dns_view(dns@).skip(i as int)[0] == (dns@[i as int].0@, views(dns@[i as int].1@)));
        if eq_str(dns[i].0.as_str(), host) {
            return crate::text::clone_strings(&dns[i].1);
        }
        assert(dns_view(dns@).skip(i as int).drop_first() =~= dns_view(dns@).skip(i + 1));
        i = i + 1;
    }
    let r: Vec<String> = Vec::new();
    assert(views(r@) =~= Seq::<Seq<char>>::empty());
    r
}

/// Whether `entries` holds the pair `(host, ip)`.
fn pairs_contain(entries: &Vec<(String, String)>, host: &str, ip: &str) -> (r: bool)
    ensures
        r == pair_views(entries@).contains((host@, ip@)),
{
    let mut i: usize = 0;
    while i < entries.len()
        invariant
            i <= entries@.len(),
            forall|j: int| 0 <= j < i ==> pair_views(entries@)[j] != (host@, ip@),
        decreases entries@.len() - i,
    {
        if eq_str(entries[i].0.as_str(), host) && eq_str(entries[i].1.as_str(), ip) {
            assert(pair_views(entries@)[i as int] == (host@, ip@));
            return true;
        }
        i = i + 1;
    }
    false
}

/// Adds `(hostname, address)` for each address the resolver gave for the
/// host, skipping pairs already present.
pub fn resolve_hostname_into(hostname: &str, entries: &mut Vec<(String, String)>, dns: &Vec<(String, Vec<String>)>)
    ensures
        pair_views(final(entries)@) == add_pairs(pair_views(old(entries)@), hostname@, dns_answers(dns_view(dns@), hostname@)),
{
    let addrs = lookup_dns(dns, hostname);
    let ghost start = pair_views(entries@);
    let mut i: usize = 0;
    while i < addrs.len()
        invariant
            i <= addrs@.len(),
            pair_views(entries@) == add_pairs(start, hostname@, views(addrs@).take(i as int)),
        decreases addrs@.len() - i,
    {
        assert(views(addrs@).take(i + 1).drop_last() =~= views(addrs@).take(i as int));
        assert(views(addrs@).take(i + 1).last() == addrs@[i as int]@);
        if !pairs_contain(entries, hostname, addrs[i].as_str()) {
            let ghost before = entries@;
            entries.push((owned(hostname), addrs[i].clone()));
            assert(pair_views(entries@) =~= pair_views(before).push((hostname@, addrs@[i as int]@)));
        }
        i = i + 1;
    }
    assert(views(addrs@).take(addrs@.len() as int) =~= views(addrs@));
}

/// The allow-list of a profile as `(hostname, address)` pairs for the
/// resolver's answers, and its wildcard entries; both empty when the list is
/// empty or the network is off.
pub fn resolve_network_allow(domains: &Vec<String>, network: &Option<String>, dns: &Vec<(String, Vec<String>)>) -> (r: (Vec<(String, String)>, Vec<String>))
    ensures
        allow_list_active(views(domains@), opt_view(*network)) ==> pair_views(r.0@) == allow_pairs(views(domains@), dns_view(dns@))
            && views(r.1@) == allow_patterns(views(domains@)),
        !allow_list_active(views(domains@), opt_view(*network)) ==> r.0@.len() == 0 && r.1@.len() == 0,
{
    let mut entries: Vec<(String, String)> = Vec::new();
    let mut patterns: Vec<String> = Vec::new();
    if !network_allows(domains, network) {
        return (entries, patterns);
    }
    let ghost d = views(domains@);
    let mut i: usize = 0;
    assert(pair_views(entries@) =~= allow_pairs(d.take(0), dns_view(dns@)));
    assert(views(patterns@) =~= allow_patterns(d.take(0)));
    while i < domains.len()
        invariant
            d == views(domains@),
            i <= domains@.len(),
            pair_views(entries@) == allow_pairs(d.take(i as int), dns_view(dns@)),
            views(patterns@) == allow_patterns(d.take(i as int)),
        decreases domains@.len() - i,
    {
        assert(d.take(i + 1).drop_last() =~= d.take(i as int));
        assert(d.take(i + 1).last() == domains@[i as int]@);
        let hosts = match extract_pattern_base(domains[i].as_str()) {
            Some(base) => {
                let ghost before = views(patterns@);
                push_string(&mut patterns, domains[i].clone());
                expand_pattern_hosts(base.as_str())
            },
            None => {
                let mut one: Vec<String> = Vec::new();
                push_string(&mut one, domains[i].clone());
                assert(views(one@) =~= seq![domains@[i as int]@]);
                assert(views(patterns@) =~= allow_patterns(d.take(i + 1)));
                one
            },
        };
        let ghost base_pairs = pair_views(entries@);
        let mut k: usize = 0;
        while k < hosts.len()
            invariant
                k <= hosts@.len(),
                pair_views(entries@) == add_hosts(base_pairs, views(hosts@).take(k as int), dns_view(dns@)),
            decreases hosts@.len() - k,
        {
            assert(views(hosts@).take(k + 1).drop_last() =~= views(hosts@).take(k as int));
            assert(views(hosts@).take(k + 1).last() == hosts@[k as int]@);
            resolve_hostname_into(hosts[k].as_str(), &mut entries, dns);
            k = k + 1;
        }
        assert(views(hosts@).take(hosts@.len() as int) =~= views(hosts@));
        i = i + 1;
    }
    assert(d.take(domains@.len() as int) =~= d);
    (entries, patterns)
}

} // verus!
