//! `sbox harden`: a review of a Compose project and the override that
//! hardens its services.
//!
//! The Compose document is held as the plain values the review reads; the
//! Dockerfile, when there is one, as its text.

use vstd::prelude::*;

use crate::backend::podman::count_char;
use crate::config::load::parent_dir;
use crate::error::SboxError;
use crate::paths::{is_absolute, path_is_absolute, path_join, path_join_str};
use crate::proxy::{ascii_lowercase, ascii_lowercase_str, trim, trim_str};
use crate::text::{
    concat2, concat3, contains, contains_any, decimal, ends_with, eq_str, format_decimal, owned, seq_has,
    split_char, starts_with, str_ends_with, str_starts_with, strings_contain, views,
};
use crate::resolve::opt_chars;
use crate::yaml::{
    as_bool, as_mapping, as_sequence, as_str, bool_of, entry_value, get, mapping_get, mapping_of, member, opt_bool,
    opt_mapping, opt_sequence, opt_str, str_of, yaml_document, YamlValue,
};

verus! {

/// A volume of a service, as written: a short `source:target[:mode]` string,
/// a long-form table, or anything else.
pub enum VolumeEntry {
    Text(String),
    Table { read_only: Option<bool>, source: Option<String>, target: Option<String> },
    Other,
}

/// The settings of a service that the review reads. A value of another YAML
/// type than the one expected is held as absent.
pub struct ServiceSpec {
    pub image: Option<String>,
    pub privileged: Option<bool>,
    pub network_mode: Option<String>,
    pub read_only: Option<bool>,
    /// `None` when `volumes` is absent or not a list.
    pub volumes: Option<Vec<VolumeEntry>>,
    /// `None` when `ports` is absent or not a list; entries that are not
    /// strings are `None`.
    pub ports: Option<Vec<Option<String>>>,
}

/// A service: its key (when a string) and its settings (when a mapping).
pub struct ComposeService {
    pub name: Option<String>,
    pub spec: Option<ServiceSpec>,
}

/// A Compose document: its services, in order, when `services` is a mapping.
pub struct ComposeDocument {
    pub services: Option<Vec<ComposeService>>,
}

#[derive(Clone, Copy, Debug, PartialEq, Eq, Structural)]
pub enum Severity {
    High,
    Medium,
    Low,
}

impl Severity {
    /// The severity's label.
    pub fn label(self) -> (r: &'static str)
        ensures
            r@ == severity_label(self),
    {
        match self {
            Severity::High => "high",
            Severity::Medium => "medium",
            Severity::Low => "low",
        }
    }
}

/// The severity's label.
pub open spec fn severity_label(s: Severity) -> Seq<char> {
    match s {
        Severity::High => "high"@,
        Severity::Medium => "medium"@,
        Severity::Low => "low"@,
    }
}

pub struct Finding {
    pub severity: Severity,
    pub summary: String,
    pub remediation: String,
}

/// A finding as plain values: severity, summary, remediation.
pub open spec fn finding_view(f: Finding) -> (Severity, Seq<char>, Seq<char>) {
    (f.severity, f.summary@, f.remediation@)
}

pub open spec fn finding_views(v: Seq<Finding>) -> Seq<(Severity, Seq<char>, Seq<char>)> {
    v.map_values(|f: Finding| finding_view(f))
}

pub struct HardenReport {
    pub compose_findings: Vec<Finding>,
    pub dockerfile_findings: Vec<Finding>,
}

// ---------------------------------------------------------------------------
// Files
// ---------------------------------------------------------------------------

/// Where the override is written: an absolute override as given, a relative
/// one next to the Compose file, by default `docker-compose.sbox.yml` there.
pub open spec fn output_path(compose_path: Seq<char>, override_path: Option<Seq<char>>) -> Seq<char> {
    let dir = match parent_dir(compose_path) {
        Some(d) => d,
        None => "."@,
    };
    match override_path {
        Some(p) => if is_absolute(p) {
            p
        } else {
            path_join(dir, p)
        },
        None => path_join(dir, "docker-compose.sbox.yml"@),
    }
}

/// Where the override is written.
pub fn resolve_output_path(compose_path: &str, override_path: Option<&str>) -> (r: String)
    ensures
        r@ == output_path(
            compose_path@,
            match override_path {
                Some(p) => Some(p@),
                None => None,
            },
        ),
{
    let dir = match crate::config::load::parent_of(compose_path) {
        Some(d) => d,
        None => owned("."),
    };
    match override_path {
        Some(p) => if path_is_absolute(p) {
            owned(p)
        } else {
            path_join_str(dir.as_str(), p)
        },
        None => path_join_str(dir.as_str(), "docker-compose.sbox.yml"),
    }
}

/// The Compose file names looked for, in order.
pub open spec fn compose_candidates() -> Seq<Seq<char>> {
    seq![
        "docker-compose.yml"@, "docker-compose.yaml"@, "compose.yml"@, "compose.yaml"@, "podman-compose.yml"@,
        "podman-compose.yaml"@,
    ]
}

/// The first candidate in `cwd` that is an existing file.
pub open spec fn first_present(cwd: Seq<char>, names: Seq<Seq<char>>, files: Seq<Seq<char>>) -> Option<Seq<char>>
    decreases names.len(),
{
    if names.len() == 0 {
        None
    } else if seq_has(files, path_join(cwd, names[0])) {
        Some(path_join(cwd, names[0]))
    } else {
        first_present(cwd, names.drop_first(), files)
    }
}

/// The message when no Compose file is found.
pub open spec fn no_compose_message() -> Seq<char> {
    "no compose file found; expected docker-compose.yml, docker-compose.yaml, compose.yml, compose.yaml, podman-compose.yml, or podman-compose.yaml"@
}

/// The Compose file to review: the override (relative to `cwd`), else the
/// first of the usual names in `cwd` among the existing `files`.
pub fn resolve_compose_file(cwd: &str, override_path: Option<&str>, files: &Vec<String>) -> (r: Result<
    String,
    SboxError,
>)
    ensures
        match override_path {
            Some(p) => r is Ok && r->Ok_0@ == (if is_absolute(p@) {
                p@
            } else {
                path_join(cwd@, p@)
            }),
            None => match first_present(cwd@, compose_candidates(), views(files@)) {
                Some(f) => r is Ok && r->Ok_0@ == f,
                None => r matches Err(SboxError::ConfigValidation { message }) && message@ == no_compose_message(),
            },
        },
{
    if let Some(p) = override_path {
        if path_is_absolute(p) {
            return Ok(owned(p));
        }
        return Ok(path_join_str(cwd, p));
    }
    let names = [
        "docker-compose.yml",
        "docker-compose.yaml",
        "compose.yml",
        "compose.yaml",
        "podman-compose.yml",
        "podman-compose.yaml",
    ];
    let ghost cands = compose_candidates();
    assert(crate::text::str_views(names@) =~= cands);
    let mut i: usize = 0;
    assert(cands.skip(0) =~= cands);
    while i < names.len()
        invariant
            override_path is None,
            cands == compose_candidates(),
            crate::text::str_views(names@) == cands,
            i <= cands.len(),
            first_present(cwd@, cands, views(files@)) == first_present(cwd@, cands.skip(i as int), views(files@)),
        decreases cands.len() - i,
    {
        assert(crate::text::str_views(names@)[i as int] == names@[i as int]@);
        assert(cands.skip(i as int)[0] == cands[i as int]);
        assert(cands.skip(i as int).drop_first() =~= cands.skip(i + 1));
        let path = path_join_str(cwd, names[i]);
        if strings_contain(files.as_slice(), path.as_str()) {
            return Ok(path);
        }
        i = i + 1;
    }
    Err(
        SboxError::ConfigValidation {
            message: owned(
                "no compose file found; expected docker-compose.yml, docker-compose.yaml, compose.yml, compose.yaml, podman-compose.yml, or podman-compose.yaml",
            ),
        },
    )
}

// ---------------------------------------------------------------------------
// The review, stated
// ---------------------------------------------------------------------------

/// Names that mark a service as a database or cache holding state.
pub open spec fn stateful_needles() -> Seq<Seq<char>> {
    seq!["postgres"@, "redis"@, "mysql"@, "mariadb"@, "mongodb"@]
}

/// The data directories such services are expected to write.
pub open spec fn stateful_targets() -> Seq<Seq<char>> {
    seq!["/var/lib/postgresql/data"@, "/data"@, "/var/lib/mysql"@, "/var/lib/mariadb"@, "/data/db"@]
}

/// The name a service is reported under.
pub open spec fn service_label(name: Option<String>) -> Seq<char> {
    match name {
        Some(n) => n@,
        None => "unknown"@,
    }
}

/// The service's image, or empty.
pub open spec fn image_text(spec: ServiceSpec) -> Seq<char> {
    match spec.image {
        Some(i) => i@,
        None => Seq::empty(),
    }
}

/// A known stateful service: its name or image, in ASCII lower case, holds
/// one of the stateful names.
pub open spec fn known_stateful(label: Seq<char>, spec: ServiceSpec) -> bool {
    contains_any(ascii_lowercase(label), stateful_needles()) || contains_any(
        ascii_lowercase(image_text(spec)),
        stateful_needles(),
    )
}

/// A volume that can be written: a short form without `:ro`, or a table
/// without `read_only: true`.
pub open spec fn volume_writable(v: VolumeEntry) -> bool {
    match v {
        VolumeEntry::Text(s) => !ends_with(s@, ":ro"@),
        VolumeEntry::Table { read_only, .. } => read_only != Some(true),
        VolumeEntry::Other => false,
    }
}

/// A volume as the report shows it.
pub open spec fn volume_shown(v: VolumeEntry) -> Seq<char> {
    match v {
        VolumeEntry::Text(s) => s@,
        VolumeEntry::Table { source, target, .. } => (match source {
            Some(x) => x@,
            None => "<anonymous>"@,
        }) + ":"@ + match target {
            Some(x) => x@,
            None => "<unknown>"@,
        },
        VolumeEntry::Other => "<unknown>"@,
    }
}

/// The container path of a volume: the second `:` field of the short form,
/// the `target` of a table.
pub open spec fn volume_target_of(v: VolumeEntry) -> Option<Seq<char>> {
    match v {
        VolumeEntry::Text(s) => if split_char(s@, ':').len() >= 2 {
            Some(split_char(s@, ':')[1])
        } else {
            None
        },
        VolumeEntry::Table { target, .. } => match target {
            Some(t) => Some(t@),
            None => None,
        },
        VolumeEntry::Other => None,
    }
}

/// A data volume that a stateful service is expected to write.
pub open spec fn expected_stateful_volume(stateful: bool, v: VolumeEntry) -> bool {
    stateful && match volume_target_of(v) {
        Some(t) => seq_has(stateful_targets(), t),
        None => false,
    }
}

/// A port published on every interface: `0.0.0.0:`, or a host part that is
/// not `127.0.0.1`.
pub open spec fn binds_all_interfaces(port: Seq<char>) -> bool {
    starts_with(port, "0.0.0.0:"@) || (!starts_with(port, "127.0.0.1:"@) && count_char(port, ':') >= 1)
}

/// The findings on writable volumes, in order.
pub open spec fn volume_findings(label: Seq<char>, stateful: bool, vs: Seq<VolumeEntry>) -> Seq<(Severity, Seq<char>, Seq<char>)>
    decreases vs.len(),
{
    if vs.len() == 0 {
        Seq::empty()
    } else {
        let v = vs.last();
        let rest = volume_findings(label, stateful, vs.drop_last());
        if volume_writable(v) && !expected_stateful_volume(stateful, v) {
            rest.push(
                (
                    Severity::Medium,
                    "service `"@ + label + "` mounts writable volume `"@ + volume_shown(v) + "`"@,
                    "Make the mount read-only when possible, or narrow the writable target to the smallest path the service actually needs."@,
                ),
            )
        } else {
            rest
        }
    }
}

/// The findings on broadly published ports, in order; entries that are not
/// strings are passed over.
pub open spec fn port_findings(label: Seq<char>, stateful: bool, ps: Seq<Option<String>>) -> Seq<(Severity, Seq<char>, Seq<char>)>
    decreases ps.len(),
{
    if ps.len() == 0 {
        Seq::empty()
    } else {
        let rest = port_findings(label, stateful, ps.drop_last());
        match ps.last() {
            Some(p) => if binds_all_interfaces(p@) {
                rest.push(
                    (
                        if stateful {
                            Severity::Low
                        } else {
                            Severity::Medium
                        },
                        "service `"@ + label + "` exposes broad port mapping `"@ + p@ + "`"@,
                        "Bind development ports to `127.0.0.1` unless the service truly needs to be reachable from other machines."@,
                    ),
                )
            } else {
                rest
            },
            None => rest,
        }
    }
}

/// The findings on one service's settings: privileged mode, host
/// networking, a writable root filesystem (not for stateful services),
/// writable volumes, broad ports.
pub open spec fn settings_findings(label: Seq<char>, spec: ServiceSpec) -> Seq<(Severity, Seq<char>, Seq<char>)> {
    let stateful = known_stateful(label, spec);
    (if spec.privileged == Some(true) {
        seq![
            (
                Severity::High,
                "service `"@ + label + "` uses `privileged: true`"@,
                "Remove `privileged: true` and add back only the specific capabilities, devices, or mounts the service actually needs."@,
            ),
        ]
    } else {
        Seq::empty()
    }) + (if spec.network_mode matches Some(m) && m@ == "host"@ {
        seq![
            (
                Severity::High,
                "service `"@ + label + "` uses `network_mode: host`"@,
                "Prefer normal Compose networking and explicit `ports:` mappings so the service is not attached directly to the host network namespace."@,
            ),
        ]
    } else {
        Seq::empty()
    }) + (if !stateful && spec.read_only != Some(true) {
        seq![
            (
                Severity::Medium,
                "service `"@ + label + "` leaves the container root filesystem writable"@,
                "Set `read_only: true` for services that do not need to write to the container rootfs, then add explicit writable volumes or `tmpfs:` only where the process actually needs write access."@,
            ),
        ]
    } else {
        Seq::empty()
    }) + (match spec.volumes {
        Some(vs) => volume_findings(label, stateful, vs@),
        None => Seq::empty(),
    }) + match spec.ports {
        Some(ps) => port_findings(label, stateful, ps@),
        None => Seq::empty(),
    }
}

/// The findings on the services, service by service; a service whose
/// settings are not a mapping is passed over.
pub open spec fn services_findings(services: Seq<ComposeService>) -> Seq<(Severity, Seq<char>, Seq<char>)>
    decreases services.len(),
{
    if services.len() == 0 {
        Seq::empty()
    } else {
        let s = services.last();
        services_findings(services.drop_last()) + match s.spec {
            Some(spec) => settings_findings(service_label(s.name), spec),
            None => Seq::empty(),
        }
    }
}

/// The findings on a Compose document.
pub open spec fn compose_findings(doc: ComposeDocument) -> Seq<(Severity, Seq<char>, Seq<char>)> {
    match doc.services {
        Some(v) => services_findings(v@),
        None => Seq::empty(),
    }
}

/// `s.trim_start()`: leading whitespace removed.
pub open spec fn trim_start(s: Seq<char>) -> Seq<char>
    decreases s.len(),
{
    if s.len() > 0 && crate::text::is_whitespace(s[0]) {
        trim_start(s.drop_first())
    } else {
        s
    }
}

/// Some line, its leading whitespace removed, starts with `prefix`.
pub open spec fn some_line_starts(lines: Seq<Seq<char>>, prefix: Seq<char>) -> bool {
    exists|i: int| 0 <= i < lines.len() && starts_with(trim_start(#[trigger] lines[i]), prefix)
}

/// A `USER root` instruction: the trimmed line starts with `USER ` in upper
/// case and what follows, trimmed, is `root`.
pub open spec fn root_user_line(line: Seq<char>) -> bool {
    let t = trim(line);
    starts_with(crate::text::uppercase(t), "USER "@) && t.len() >= 5 && trim(t.skip(5)) == "root"@
}

/// The findings on `USER root` lines, numbered from one.
pub open spec fn root_findings(lines: Seq<Seq<char>>) -> Seq<(Severity, Seq<char>, Seq<char>)>
    decreases lines.len(),
{
    if lines.len() == 0 {
        Seq::empty()
    } else {
        let rest = root_findings(lines.drop_last());
        if root_user_line(lines.last()) {
            rest.push(
                (
                    Severity::Medium,
                    "Dockerfile line "@ + decimal(lines.len()) + " runs as `root`"@,
                    "Use root only for package installation steps, then switch back to a non-root user before the final image runs."@,
                ),
            )
        } else {
            rest
        }
    }
}

/// The findings on a Dockerfile's text: no `USER`, `USER root` lines, no
/// `HEALTHCHECK`.
pub open spec fn dockerfile_findings(content: Option<Seq<char>>) -> Seq<(Severity, Seq<char>, Seq<char>)> {
    match content {
        None => Seq::empty(),
        Some(c) => {
            let upper = crate::backend::args::text_lines(crate::text::uppercase(c));
            (if !some_line_starts(upper, "USER "@) {
                seq![
                    (
                        Severity::Medium,
                        "Dockerfile does not set `USER` explicitly"@,
                        "Create a non-root runtime user and switch to it near the end of the Dockerfile."@,
                    ),
                ]
            } else {
                Seq::empty()
            }) + root_findings(crate::backend::args::text_lines(c)) + if !some_line_starts(upper, "HEALTHCHECK "@) {
                seq![
                    (
                        Severity::Low,
                        "Dockerfile does not define `HEALTHCHECK`"@,
                        "Add a cheap healthcheck so Compose and orchestrators can distinguish a live process from a ready application."@,
                    ),
                ]
            } else {
                Seq::empty()
            }
        },
    }
}

// ---------------------------------------------------------------------------
// The review
// ---------------------------------------------------------------------------

fn push_finding(v: &mut Vec<Finding>, severity: Severity, summary: String, remediation: &str)
    ensures
        finding_views(final(v)@) == finding_views(old(v)@).push((severity, summary@, remediation@)),
{
    let ghost before = v@;
    let rem = owned(remediation);
    let ghost sv = summary@;
    let ghost rv = rem@;
    v.push(Finding { severity, summary, remediation: rem });
    assert(finding_views(v@) =~= finding_views(before).push((severity, sv, rv)));
}

/// Whether `s` is one of `options`.
fn among(s: &str, options: &[&str]) -> (r: bool)
    ensures
        r == seq_has(crate::text::str_views(options@), s@),
{
    let ghost ov = crate::text::str_views(options@);
    let mut i: usize = 0;
    while i < options.len()
        invariant
            ov == crate::text::str_views(options@),
            i <= ov.len(),
            forall|j: int| 0 <= j < i ==> ov[j] != s@,
        decreases ov.len() - i,
    {
        assert(ov[i as int] == options@[i as int]@);
        if eq_str(options[i], s) {
            return true;
        }
        i = i + 1;
    }
    false
}

/// Whether the service is a known stateful one.
pub fn is_known_stateful_service(label: &str, spec: &ServiceSpec) -> (r: bool)
    ensures
        r == known_stateful(label@, *spec),
{
    let needles = ["postgres", "redis", "mysql", "mariadb", "mongodb"];
    assert(crate::text::str_views(needles@) =~= stateful_needles());
    let name = ascii_lowercase_str(label);
    let image = match &spec.image {
        Some(i) => ascii_lowercase_str(i.as_str()),
        None => {
            assert(ascii_lowercase(Seq::<char>::empty()) =~= Seq::<char>::empty());
            String::new()
        },
    };
    crate::text::str_contains_any(name.as_str(), &needles) || crate::text::str_contains_any(image.as_str(), &needles)
}

/// Whether the volume can be written.
pub fn volume_is_writable(v: &VolumeEntry) -> (r: bool)
    ensures
        r == volume_writable(*v),
{
    match v {
        VolumeEntry::Text(s) => !str_ends_with(s.as_str(), ":ro"),
        VolumeEntry::Table { read_only, .. } => match read_only {
            Some(true) => false,
            _ => true,
        },
        VolumeEntry::Other => false,
    }
}

/// The volume as the report shows it.
pub fn render_volume_for_report(v: &VolumeEntry) -> (r: String)
    ensures
        r@ == volume_shown(*v),
{
    match v {
        VolumeEntry::Text(s) => s.clone(),
        VolumeEntry::Table { source, target, .. } => {
            let src = match source {
                Some(x) => x.clone(),
                None => owned("<anonymous>"),
            };
            let tgt = match target {
                Some(x) => x.clone(),
                None => owned("<unknown>"),
            };
            concat3(src.as_str(), ":", tgt.as_str())
        },
        VolumeEntry::Other => owned("<unknown>"),
    }
}

/// The container path of the volume.
pub fn volume_target(v: &VolumeEntry) -> (r: Option<String>)
    ensures
        match volume_target_of(*v) {
            Some(t) => r is Some && r->Some_0@ == t,
            None => r is None,
        },
{
    match v {
        VolumeEntry::Text(s) => {
            let cs = crate::text::str_chars(s.as_str());
            let segs = crate::text::split_chars_on(&cs, ':');
            if segs.len() >= 2 {
                assert(crate::text::seg_views(segs@)[1] == segs@[1]@);
                Some(crate::text::string_from_chars(segs[1].as_slice()))
            } else {
                None
            }
        },
        VolumeEntry::Table { target, .. } => match target {
            Some(t) => Some(t.clone()),
            None => None,
        },
        VolumeEntry::Other => None,
    }
}

/// Whether the volume is the data directory a stateful service writes.
pub fn is_expected_stateful_volume(stateful: bool, v: &VolumeEntry) -> (r: bool)
    ensures
        r == expected_stateful_volume(stateful, *v),
{
    if !stateful {
        return false;
    }
    match volume_target(v) {
        Some(t) => {
            let targets = ["/var/lib/postgresql/data", "/data", "/var/lib/mysql", "/var/lib/mariadb", "/data/db"];
            assert(crate::text::str_views(targets@) =~= stateful_targets());
            among(t.as_str(), &targets)
        },
        None => false,
    }
}

/// Whether the port is published on every interface.
pub fn port_binds_all_interfaces(port: &str) -> (r: bool)
    ensures
        r == binds_all_interfaces(port@),
{
    let cs = crate::text::str_chars(port);
    let mut count: usize = 0;
    let mut i: usize = 0;
    while i < cs.len()
        invariant
            cs@ == port@,
            i <= cs@.len(),
            count == count_char(port@.take(i as int), ':'),
            count <= i,
        decreases cs@.len() - i,
    {
        assert(port@.take(i + 1).drop_last() =~= port@.take(i as int));
        if cs[i] == ':' {
            count = count + 1;
        }
        i = i + 1;
    }
    assert(port@.take(cs@.len() as int) =~= port@);
    str_starts_with(port, "0.0.0.0:") || (!str_starts_with(port, "127.0.0.1:") && count >= 1)
}

fn review_volumes(label: &str, stateful: bool, vs: &Vec<VolumeEntry>, out: &mut Vec<Finding>)
    ensures
        finding_views(final(out)@) == finding_views(old(out)@) + volume_findings(label@, stateful, vs@),
{
    let ghost start = finding_views(out@);
    let mut i: usize = 0;
    assert(vs@.take(0) =~= Seq::<VolumeEntry>::empty());
    assert(start + volume_findings(label@, stateful, vs@.take(0)) =~= start);
    while i < vs.len()
        invariant
            i <= vs@.len(),
            finding_views(out@) == start + volume_findings(label@, stateful, vs@.take(i as int)),
        decreases vs@.len() - i,
    {
        assert(vs@.take(i + 1).drop_last() =~= vs@.take(i as int));
        assert(vs@.take(i + 1).last() == vs@[i as int]);
        let v = &vs[i];
        if volume_is_writable(v) && !is_expected_stateful_volume(stateful, v) {
            let shown = render_volume_for_report(v);
            let a = concat3("service `", label, "` mounts writable volume `");
            let b = concat3(a.as_str(), shown.as_str(), "`");
            push_finding(
                out,
                Severity::Medium,
                b,
                "Make the mount read-only when possible, or narrow the writable target to the smallest path the service actually needs.",
            );
        }
        assert(finding_views(out@) =~= start + volume_findings(label@, stateful, vs@.take(i + 1)));
        i = i + 1;
    }
    assert(vs@.take(vs@.len() as int) =~= vs@);
}

fn review_ports(label: &str, stateful: bool, ps: &Vec<Option<String>>, out: &mut Vec<Finding>)
    ensures
        finding_views(final(out)@) == finding_views(old(out)@) + port_findings(label@, stateful, ps@),
{
    let ghost start = finding_views(out@);
    let mut i: usize = 0;
    assert(ps@.take(0) =~= Seq::<Option<String>>::empty());
    assert(start + port_findings(label@, stateful, ps@.take(0)) =~= start);
    while i < ps.len()
        invariant
            i <= ps@.len(),
            finding_views(out@) == start + port_findings(label@, stateful, ps@.take(i as int)),
        decreases ps@.len() - i,
    {
        assert(ps@.take(i + 1).drop_last() =~= ps@.take(i as int));
        assert(ps@.take(i + 1).last() == ps@[i as int]);
        match &ps[i] {
            Some(p) => {
                if port_binds_all_interfaces(p.as_str()) {
                    let a = concat3("service `", label, "` exposes broad port mapping `");
                    let b = concat3(a.as_str(), p.as_str(), "`");
                    push_finding(
                        out,
                        if stateful {
                            Severity::Low
                        } else {
                            Severity::Medium
                        },
                        b,
                        "Bind development ports to `127.0.0.1` unless the service truly needs to be reachable from other machines.",
                    );
                }
            },
            None => {},
        }
        assert(finding_views(out@) =~= start + port_findings(label@, stateful, ps@.take(i + 1)));
        i = i + 1;
    }
    assert(ps@.take(ps@.len() as int) =~= ps@);
}

fn review_settings(label: &str, spec: &ServiceSpec, out: &mut Vec<Finding>)
    ensures
        finding_views(final(out)@) == finding_views(old(out)@) + settings_findings(label@, *spec),
{
    proof {
        reveal_strlit("host");
    }
    let ghost start = finding_views(out@);
    let stateful = is_known_stateful_service(label, spec);
    if matches!(spec.privileged, Some(true)) {
        let a = concat3("service `", label, "` uses `privileged: true`");
        push_finding(
            out,
            Severity::High,
            a,
            "Remove `privileged: true` and add back only the specific capabilities, devices, or mounts the service actually needs.",
        );
    }
    let ghost s1 = finding_views(out@);
    let host_network = match &spec.network_mode {
        Some(m) => eq_str(m.as_str(), "host"),
        None => false,
    };
    if host_network {
        let a = concat3("service `", label, "` uses `network_mode: host`");
        push_finding(
            out,
            Severity::High,
            a,
            "Prefer normal Compose networking and explicit `ports:` mappings so the service is not attached directly to the host network namespace.",
        );
    }
    let ghost s2 = finding_views(out@);
    if !stateful && !matches!(spec.read_only, Some(true)) {
        let a = concat3("service `", label, "` leaves the container root filesystem writable");
        push_finding(
            out,
            Severity::Medium,
            a,
            "Set `read_only: true` for services that do not need to write to the container rootfs, then add explicit writable volumes or `tmpfs:` only where the process actually needs write access.",
        );
    }
    let ghost s3 = finding_views(out@);
    match &spec.volumes {
        Some(vs) => review_volumes(label, stateful, vs, out),
        None => {},
    }
    let ghost s4 = finding_views(out@);
    match &spec.ports {
        Some(ps) => review_ports(label, stateful, ps, out),
        None => {},
    }
    assert(finding_views(out@) =~= start + settings_findings(label@, *spec));
}

/// The findings on a Compose document, service by service.
pub fn review_compose(doc: &ComposeDocument) -> (r: Vec<Finding>)
    ensures
        finding_views(r@) == compose_findings(*doc),
{
    let mut out: Vec<Finding> = Vec::new();
    assert(finding_views(out@) =~= Seq::<(Severity, Seq<char>, Seq<char>)>::empty());
    match &doc.services {
        None => {},
        Some(services) => {
            let mut i: usize = 0;
            assert(services@.take(0) =~= Seq::<ComposeService>::empty());
            while i < services.len()
                invariant
                    i <= services@.len(),
                    finding_views(out@) == services_findings(services@.take(i as int)),
                decreases services@.len() - i,
            {
                assert(services@.take(i + 1).drop_last() =~= services@.take(i as int));
                assert(services@.take(i + 1).last() == services@[i as int]);
                let s = &services[i];
                let ghost before = finding_views(out@);
                match &s.spec {
                    Some(spec) => {
                        let label = match &s.name {
                            Some(n) => n.clone(),
                            None => owned("unknown"),
                        };
                        review_settings(label.as_str(), spec, &mut out);
                    },
                    None => {},
                }
                assert(finding_views(out@) =~= services_findings(services@.take(i + 1)));
                i = i + 1;
            }
            assert(services@.take(services@.len() as int) =~= services@);
        },
    }
    out
}

/// `s.trim_start()`.
pub fn trim_start_str(s: &str) -> (r: String)
    ensures
        r@ == trim_start(s@),
{
    let cs = crate::text::str_chars(s);
    let mut lo: usize = 0;
    assert(s@.skip(0) =~= s@);
    while lo < cs.len() && crate::text::char_is_whitespace(cs[lo])
        invariant
            cs@ == s@,
            lo <= cs@.len(),
            trim_start(s@) == trim_start(s@.skip(lo as int)),
        decreases cs@.len() - lo,
    {
        assert(s@.skip(lo as int)[0] == s@[lo as int]);
        assert(s@.skip(lo as int).drop_first() =~= s@.skip(lo + 1));
        lo = lo + 1;
    }
    crate::text::str_skip(s, lo)
}

/// Whether some line, its leading whitespace removed, starts with `prefix`.
fn any_line_starts(lines: &Vec<String>, prefix: &str) -> (r: bool)
    ensures
        r == some_line_starts(views(lines@), prefix@),
{
    let ghost lv = views(lines@);
    let mut i: usize = 0;
    while i < lines.len()
        invariant
            lv == views(lines@),
            i <= lv.len(),
            forall|j: int| 0 <= j < i ==> !starts_with(trim_start(#[trigger] lv[j]), prefix@),
        decreases lv.len() - i,
    {
        assert(lv[i as int] == lines@[i as int]@);
        let t = trim_start_str(lines[i].as_str());
        if str_starts_with(t.as_str(), prefix) {
            return true;
        }
        i = i + 1;
    }
    false
}

/// Whether the line is a `USER root` instruction.
pub fn is_root_user_line(line: &str) -> (r: bool)
    ensures
        r == root_user_line(line@),
{
    proof {
        reveal_strlit("root");
    }
    let t = trim_str(line);
    let up = crate::text::to_uppercase(t.as_str());
    if !str_starts_with(up.as_str(), "USER ") {
        return false;
    }
    let n = crate::text::str_chars(t.as_str()).len();
    if n < 5 {
        return false;
    }
    let rest = crate::text::str_skip(t.as_str(), 5);
    let rest = trim_str(rest.as_str());
    eq_str(rest.as_str(), "root")
}

/// The findings on a Dockerfile's text.
pub fn review_dockerfile(content: &Option<String>) -> (r: Vec<Finding>)
    ensures
        finding_views(r@) == dockerfile_findings(
            match content {
                Some(c) => Some(c@),
                None => None,
            },
        ),
{
    let mut out: Vec<Finding> = Vec::new();
    assert(finding_views(out@) =~= Seq::<(Severity, Seq<char>, Seq<char>)>::empty());
    let c = match content {
        None => {
            return out;
        },
        Some(c) => c,
    };
    let upper = crate::text::to_uppercase(c.as_str());
    let upper_lines = crate::backend::args::lines_of(upper.as_str());
    if !any_line_starts(&upper_lines, "USER ") {
        push_finding(
            &mut out,
            Severity::Medium,
            owned("Dockerfile does not set `USER` explicitly"),
            "Create a non-root runtime user and switch to it near the end of the Dockerfile.",
        );
    }
    let ghost head = finding_views(out@);
    let lines = crate::backend::args::lines_of(c.as_str());
    let ghost lv = views(lines@);
    let mut i: usize = 0;
    assert(lv.take(0) =~= Seq::<Seq<char>>::empty());
    assert(head + root_findings(lv.take(0)) =~= head);
    while i < lines.len()
        invariant
            lv == views(lines@),
            i <= lv.len(),
            finding_views(out@) == head + root_findings(lv.take(i as int)),
        decreases lv.len() - i,
    {
        assert(lv.take(i + 1).drop_last() =~= lv.take(i as int));
        assert(lv.take(i + 1).last() == lines@[i as int]@);
        if is_root_user_line(lines[i].as_str()) {
            let num = format_decimal((i + 1) as u64);
            let a = concat3("Dockerfile line ", num.as_str(), " runs as `root`");
            push_finding(
                &mut out,
                Severity::Medium,
                a,
                "Use root only for package installation steps, then switch back to a non-root user before the final image runs.",
            );
        }
        assert(finding_views(out@) =~= head + root_findings(lv.take(i + 1)));
        i = i + 1;
    }
    assert(lv.take(lv.len() as int) =~= lv);
    let ghost mid = finding_views(out@);
    if !any_line_starts(&upper_lines, "HEALTHCHECK ") {
        push_finding(
            &mut out,
            Severity::Low,
            owned("Dockerfile does not define `HEALTHCHECK`"),
            "Add a cheap healthcheck so Compose and orchestrators can distinguish a live process from a ready application.",
        );
    }
    assert(finding_views(out@) =~= dockerfile_findings(Some(c@)));
    out
}

/// The review of a project: its Compose document and, when there is one,
/// its Dockerfile's text.
pub fn analyze_project(compose: &ComposeDocument, dockerfile: &Option<String>) -> (r: HardenReport)
    ensures
        finding_views(r.compose_findings@) == compose_findings(*compose),
        finding_views(r.dockerfile_findings@) == dockerfile_findings(
            match dockerfile {
                Some(c) => Some(c@),
                None => None,
            },
        ),
{
    HardenReport { compose_findings: review_compose(compose), dockerfile_findings: review_dockerfile(dockerfile) }
}

// ---------------------------------------------------------------------------
// The override
// ---------------------------------------------------------------------------

/// The hardening of one service in the override: an init process, no new
/// privileges, and the read-only volumes it already had (listed when any).
pub struct ServiceOverride {
    pub name: String,
    pub init: bool,
    pub security_opt: Vec<String>,
    pub volumes: Vec<String>,
}

/// An override entry as plain values.
pub open spec fn override_view(o: ServiceOverride) -> (Seq<char>, bool, Seq<Seq<char>>, Seq<Seq<char>>) {
    (o.name@, o.init, views(o.security_opt@), views(o.volumes@))
}

pub open spec fn override_views(v: Seq<ServiceOverride>) -> Seq<(Seq<char>, bool, Seq<Seq<char>>, Seq<Seq<char>>)> {
    v.map_values(|o: ServiceOverride| override_view(o))
}

/// The short-form volumes mounted read-only (`…:ro`), in order.
pub open spec fn read_only_volumes(vs: Seq<VolumeEntry>) -> Seq<Seq<char>>
    decreases vs.len(),
{
    if vs.len() == 0 {
        Seq::empty()
    } else {
        let rest = read_only_volumes(vs.drop_last());
        match vs.last() {
            VolumeEntry::Text(t) => if ends_with(t@, ":ro"@) {
                rest.push(t@)
            } else {
                rest
            },
            _ => rest,
        }
    }
}

/// The override entries for the services whose key is a string and whose
/// settings are a mapping, in order.
pub open spec fn override_entries(services: Seq<ComposeService>) -> Seq<(Seq<char>, bool, Seq<Seq<char>>, Seq<Seq<char>>)>
    decreases services.len(),
{
    if services.len() == 0 {
        Seq::empty()
    } else {
        let rest = override_entries(services.drop_last());
        let s = services.last();
        match (s.name, s.spec) {
            (Some(n), Some(spec)) => rest.push(
                (
                    n@,
                    true,
                    seq!["no-new-privileges:true"@],
                    match spec.volumes {
                        Some(vs) => read_only_volumes(vs@),
                        None => Seq::empty(),
                    },
                ),
            ),
            _ => rest,
        }
    }
}

fn read_only_volume_list(vs: &Vec<VolumeEntry>) -> (r: Vec<String>)
    ensures
        views(r@) == read_only_volumes(vs@),
{
    let mut out: Vec<String> = Vec::new();
    let mut i: usize = 0;
    assert(vs@.take(0) =~= Seq::<VolumeEntry>::empty());
    assert(views(out@) =~= Seq::<Seq<char>>::empty());
    while i < vs.len()
        invariant
            i <= vs@.len(),
            views(out@) == read_only_volumes(vs@.take(i as int)),
        decreases vs@.len() - i,
    {
        assert(vs@.take(i + 1).drop_last() =~= vs@.take(i as int));
        assert(vs@.take(i + 1).last() == vs@[i as int]);
        match &vs[i] {
            VolumeEntry::Text(t) => {
                if str_ends_with(t.as_str(), ":ro") {
                    crate::text::push_string(&mut out, t.clone());
                }
            },
            _ => {},
        }
        i = i + 1;
    }
    assert(vs@.take(vs@.len() as int) =~= vs@);
    out
}

/// The override that hardens every service of the document.
pub fn compose_override(doc: &ComposeDocument) -> (r: Vec<ServiceOverride>)
    ensures
        override_views(r@) == match doc.services {
            Some(v) => override_entries(v@),
            None => Seq::empty(),
        },
{
    let mut out: Vec<ServiceOverride> = Vec::new();
    assert(override_views(out@) =~= Seq::<(Seq<char>, bool, Seq<Seq<char>>, Seq<Seq<char>>)>::empty());
    match &doc.services {
        None => {},
        Some(services) => {
            let mut i: usize = 0;
            assert(services@.take(0) =~= Seq::<ComposeService>::empty());
            while i < services.len()
                invariant
                    i <= services@.len(),
                    override_views(out@) == override_entries(services@.take(i as int)),
                decreases services@.len() - i,
            {
                assert(services@.take(i + 1).drop_last() =~= services@.take(i as int));
                assert(services@.take(i + 1).last() == services@[i as int]);
                let s = &services[i];
                match (&s.name, &s.spec) {
                    (Some(n), Some(spec)) => {
                        let volumes = match &spec.volumes {
                            Some(vs) => read_only_volume_list(vs),
                            None => crate::text::none(),
                        };
                        let opts = crate::text::one(owned("no-new-privileges:true"));
                        let entry = ServiceOverride { name: n.clone(), init: true, security_opt: opts, volumes };
                        let ghost ev = override_view(entry);
                        let ghost before = out@;
                        out.push(entry);
                        assert(override_views(out@) =~= override_views(before).push(ev));
                    },
                    _ => {},
                }
                assert(override_views(out@) =~= override_entries(services@.take(i + 1)));
                i = i + 1;
            }
            assert(services@.take(services@.len() as int) =~= services@);
        },
    }
    out
}

// ---------------------------------------------------------------------------
// Reading a Compose document
// ---------------------------------------------------------------------------

/// A volume entry as read from its YAML value: a string is the short form,
/// a mapping the long form (its `read_only`, `source` and `target`), any
/// other value (a tagged one too) neither.
pub open spec fn volume_read(e: VolumeEntry, v: YamlValue) -> bool {
    match v {
        YamlValue::Str(s) => e matches VolumeEntry::Text(t) && t@ == s@,
        YamlValue::Mapping(es) => e matches VolumeEntry::Table { read_only, source, target } && read_only
            == opt_bool(entry_value(es@, "read_only"@)) && opt_chars(source) == opt_str(entry_value(es@, "source"@))
            && opt_chars(target) == opt_str(entry_value(es@, "target"@)),
        _ => e is Other,
    }
}

/// The volumes of a service as read from the items of its `volumes` list.
pub open spec fn volumes_read(vs: Seq<VolumeEntry>, items: Seq<YamlValue>) -> bool {
    vs.len() == items.len() && forall|i: int| 0 <= i < items.len() ==> volume_read(#[trigger] vs[i], items[i])
}

/// The ports of a service as read from the items of its `ports` list: the
/// items that are strings.
pub open spec fn ports_read(ps: Seq<Option<String>>, items: Seq<YamlValue>) -> bool {
    ps.len() == items.len() && forall|i: int| 0 <= i < items.len() ==> opt_chars(#[trigger] ps[i]) == str_of(items[i])
}

/// The settings of a service as read from the entries of its mapping.
pub open spec fn spec_read(sp: ServiceSpec, es: Seq<(YamlValue, YamlValue)>) -> bool {
    &&& opt_chars(sp.image) == opt_str(entry_value(es, "image"@))
    &&& sp.privileged == opt_bool(entry_value(es, "privileged"@))
    &&& opt_chars(sp.network_mode) == opt_str(entry_value(es, "network_mode"@))
    &&& sp.read_only == opt_bool(entry_value(es, "read_only"@))
    &&& match opt_sequence(entry_value(es, "volumes"@)) {
        Some(items) => sp.volumes matches Some(vs) && volumes_read(vs@, items),
        None => sp.volumes is None,
    }
    &&& match opt_sequence(entry_value(es, "ports"@)) {
        Some(items) => sp.ports matches Some(ps) && ports_read(ps@, items),
        None => sp.ports is None,
    }
}

/// A service as read from its entry in `services`: the key when it is a
/// string, the settings when the value is a mapping.
pub open spec fn service_read(s: ComposeService, entry: (YamlValue, YamlValue)) -> bool {
    &&& opt_chars(s.name) == str_of(entry.0)
    &&& match mapping_of(entry.1) {
        Some(es) => s.spec matches Some(sp) && spec_read(sp, es),
        None => s.spec is None,
    }
}

/// A Compose document as read from its YAML value: the entries of its
/// `services` mapping, in order.
pub open spec fn document_read(d: ComposeDocument, v: YamlValue) -> bool {
    match opt_mapping(member(v, "services"@)) {
        Some(es) => d.services matches Some(ss) && ss.len() == es.len() && forall|i: int|
            0 <= i < es.len() ==> service_read(#[trigger] ss@[i], es[i]),
        None => d.services is None,
    }
}

fn read_volume(v: &YamlValue) -> (r: VolumeEntry)
    ensures
        volume_read(r, *v),
{
    proof {
        reveal_strlit("read_only");
        reveal_strlit("source");
        reveal_strlit("target");
    }
    match v {
        YamlValue::Str(s) => VolumeEntry::Text(s.clone()),
        YamlValue::Mapping(es) => {
            let read_only = match mapping_get(es, "read_only") {
                Some(x) => as_bool(x),
                None => None,
            };
            let source = match mapping_get(es, "source") {
                Some(x) => as_str(x),
                None => None,
            };
            let target = match mapping_get(es, "target") {
                Some(x) => as_str(x),
                None => None,
            };
            VolumeEntry::Table { read_only, source, target }
        },
        _ => VolumeEntry::Other,
    }
}

fn read_volumes(items: &Vec<YamlValue>) -> (r: Vec<VolumeEntry>)
    ensures
        volumes_read(r@, items@),
{
    let mut out: Vec<VolumeEntry> = Vec::new();
    let mut i: usize = 0;
    while i < items.len()
        invariant
            i <= items@.len(),
            out@.len() == i,
            forall|j: int| 0 <= j < i ==> volume_read(#[trigger] out@[j], items@[j]),
        decreases items@.len() - i,
    {
        let e = read_volume(&items[i]);
        out.push(e);
        i = i + 1;
    }
    out
}

fn read_ports(items: &Vec<YamlValue>) -> (r: Vec<Option<String>>)
    ensures
        ports_read(r@, items@),
{
    let mut out: Vec<Option<String>> = Vec::new();
    let mut i: usize = 0;
    while i < items.len()
        invariant
            i <= items@.len(),
            out@.len() == i,
            forall|j: int| 0 <= j < i ==> opt_chars(#[trigger] out@[j]) == str_of(items@[j]),
        decreases items@.len() - i,
    {
        let p = as_str(&items[i]);
        out.push(p);
        i = i + 1;
    }
    out
}

fn opt_get_str(o: Option<&YamlValue>) -> (r: Option<String>)
    ensures
        opt_chars(r) == match o {
            Some(v) => str_of(*v),
            None => None,
        },
{
    match o {
        Some(v) => as_str(v),
        None => None,
    }
}

fn opt_get_bool(o: Option<&YamlValue>) -> (r: Option<bool>)
    ensures
        r == match o {
            Some(v) => bool_of(*v),
            None => None,
        },
{
    match o {
        Some(v) => as_bool(v),
        None => None,
    }
}

fn read_spec(es: &Vec<(YamlValue, YamlValue)>) -> (r: ServiceSpec)
    ensures
        spec_read(r, es@),
{
    proof {
        reveal_strlit("image");
        reveal_strlit("privileged");
        reveal_strlit("network_mode");
        reveal_strlit("read_only");
        reveal_strlit("volumes");
        reveal_strlit("ports");
    }
    let image = opt_get_str(mapping_get(es, "image"));
    let privileged = opt_get_bool(mapping_get(es, "privileged"));
    let network_mode = opt_get_str(mapping_get(es, "network_mode"));
    let read_only = opt_get_bool(mapping_get(es, "read_only"));
    let volumes = match mapping_get(es, "volumes") {
        Some(x) => match as_sequence(x) {
            Some(items) => Some(read_volumes(items)),
            None => None,
        },
        None => None,
    };
    let ports = match mapping_get(es, "ports") {
        Some(x) => match as_sequence(x) {
            Some(items) => Some(read_ports(items)),
            None => None,
        },
        None => None,
    };
    ServiceSpec { image, privileged, network_mode, read_only, volumes, ports }
}

/// The Compose document a YAML value holds: the entries of its `services`
/// mapping, in order, each with its key when that is a string and its
/// settings when they are a mapping.
pub fn compose_document(v: &YamlValue) -> (r: ComposeDocument)
    ensures
        document_read(r, *v),
{
    proof {
        reveal_strlit("services");
    }
    let es = match get(v, "services") {
        Some(x) => match as_mapping(x) {
            Some(es) => es,
            None => return ComposeDocument { services: None },
        },
        None => return ComposeDocument { services: None },
    };
    let mut out: Vec<ComposeService> = Vec::new();
    let mut i: usize = 0;
    while i < es.len()
        invariant
            i <= es@.len(),
            out@.len() == i,
            forall|j: int| 0 <= j < i ==> service_read(#[trigger] out@[j], es@[j]),
        decreases es@.len() - i,
    {
        let name = as_str(&es[i].0);
        let spec = match as_mapping(&es[i].1) {
            Some(m) => Some(read_spec(m)),
            None => None,
        };
        out.push(ComposeService { name, spec });
        i = i + 1;
    }
    ComposeDocument { services: Some(out) }
}

/// The Compose document in the text of the file at `path`: a text that is
/// no YAML is a parse error of that file with the parser's message.
pub fn compose_document_from_text(path: &str, text: &str) -> (r: Result<ComposeDocument, SboxError>)
    ensures
        match yaml_document(text@) {
            Ok(v) => r matches Ok(d) && document_read(d, v),
            Err(m) => r matches Err(SboxError::ConfigParse { path: p, message }) && p@ == path@ && message@ == m,
        },
{
    match crate::yaml::parse_yaml(text) {
        Ok(v) => Ok(compose_document(&v)),
        Err(m) => Err(SboxError::ConfigParse { path: owned(path), message: m }),
    }
}

} // verus!
