//! The configuration `sbox init --interactive` writes, from the answers given
//! to its questions.

use vstd::prelude::*;

use crate::compose::ComposeInfo;
use crate::config::model::BackendKind;
use crate::init::{
    apply_runtime_backend, generic_template, render_generic_template_with_image_line, render_template_with_image_line,
    replace_first, replace_first_str, runtime_backend_patch, template_of,
};
use crate::proxy::{trim, trim_str};
use crate::text::{
    concat2, concat3, contains, eq_str, join, join_strings, owned, push_string, split_char, starts_with, str_contains,
    str_views, views,
};

verus! {

/// `s` with every occurrence of `from`, scanned left to right without
/// overlap, replaced by `to` (`str::replace`); an empty `from` puts `to`
/// around every character.
pub open spec fn replace_all(s: Seq<char>, from: Seq<char>, to: Seq<char>) -> Seq<char>
    decreases s.len(),
{
    if from.len() == 0 {
        crate::text::interleave(s, to)
    } else if s.len() == 0 {
        s
    } else if starts_with(s, from) {
        to + replace_all(s.skip(from.len() as int), from, to)
    } else {
        seq![s[0]] + replace_all(s.drop_first(), from, to)
    }
}

/// `s.replace(from, to)`.
pub fn replace_all_str(s: &str, from: &str, to: &str) -> (r: String)
    ensures
        r@ == replace_all(s@, from@, to@),
{
    let cs = crate::text::str_chars(s);
    let cf = crate::text::str_chars(from);
    if cf.len() == 0 {
        return crate::text::interleave_str(s, to);
    }
    let ct = crate::text::str_chars(to);
    let mut out: Vec<char> = Vec::new();
    let mut i: usize = 0;
    assert(s@.skip(0) =~= s@);
    while i < cs.len()
        invariant
            cs@ == s@,
            cf@ == from@,
            ct@ == to@,
            from@.len() > 0,
            i <= cs@.len(),
            replace_all(s@, from@, to@) == out@ + replace_all(s@.skip(i as int), from@, to@),
        decreases cs@.len() - i,
    {
        let ghost t = s@.skip(i as int);
        if crate::text::chars_occur_at(&cs, &cf, i) {
            assert(t.subrange(0, from@.len() as int) =~= s@.subrange(i as int, i + from@.len()));
            assert(t.skip(from@.len() as int) =~= s@.skip(i + from@.len()));
            let ghost before = out@;
            let mut k: usize = 0;
            while k < ct.len()
                invariant
                    k <= ct@.len(),
                    out@ == before + ct@.take(k as int),
                decreases ct@.len() - k,
            {
                out.push(ct[k]);
                assert(out@ =~= before + ct@.take(k + 1));
                k = k + 1;
            }
            assert(ct@.take(ct@.len() as int) =~= ct@);
            assert(out@ =~= before + to@);
            i = i + cf.len();
        } else {
            proof {
                if starts_with(t, from@) {
                    assert(t.subrange(0, from@.len() as int) =~= s@.subrange(i as int, i + from@.len()));
                }
                assert(t.drop_first() =~= s@.skip(i + 1));
            }
            let ghost before = out@;
            out.push(cs[i]);
            assert(out@ =~= before + seq![t[0]]);
            i = i + 1;
        }
    }
    assert(s@.skip(i as int) =~= Seq::<char>::empty());
    crate::text::string_from_chars(&out)
}

/// Each item turned into a line by `prefix`, `item` and `suffix`, joined by
/// newlines.
pub open spec fn item_lines(items: Seq<Seq<char>>, prefix: Seq<char>, suffix: Seq<char>) -> Seq<char> {
    join(items.map_values(|x: Seq<char>| prefix + x + suffix), "\n"@)
}

fn item_lines_str(items: &Vec<String>, prefix: &str, suffix: &str) -> (r: String)
    ensures
        r@ == item_lines(views(items@), prefix@, suffix@),
{
    let mut lines: Vec<String> = Vec::new();
    let mut i: usize = 0;
    while i < items.len()
        invariant
            i <= items@.len(),
            views(lines@) == views(items@).map_values(|x: Seq<char>| prefix@ + x + suffix@).take(i as int),
        decreases items@.len() - i,
    {
        push_string(&mut lines, concat3(prefix, items[i].as_str(), suffix));
        assert(views(lines@) =~= views(items@).map_values(|x: Seq<char>| prefix@ + x + suffix@).take(i + 1));
        i = i + 1;
    }
    assert(views(items@).map_values(|x: Seq<char>| prefix@ + x + suffix@).take(items@.len() as int)
        =~= views(items@).map_values(|x: Seq<char>| prefix@ + x + suffix@));
    join_strings(lines.as_slice(), "\n")
}

/// A generated configuration with a `compose:` block of sidecar services
/// added under `runtime:`, unless there are none or it has one already.
pub open spec fn runtime_compose_patch(config: Seq<char>, compose_file: Seq<char>, services: Seq<Seq<char>>) -> Seq<char> {
    if services.len() == 0 || contains(config, "\n  compose:\n"@) {
        config
    } else {
        replace_first(
            config,
            "runtime:\n"@,
            "runtime:\n  compose:\n    file: "@ + compose_file + "\n    services:\n"@ + item_lines(services, "      - "@, ""@)
                + "\n"@,
        )
    }
}

/// Adds a `compose:` block of sidecar services under `runtime:`.
pub fn apply_runtime_compose(config: String, compose_file: &str, services: &Vec<String>) -> (r: String)
    ensures
        r@ == runtime_compose_patch(config@, compose_file@, views(services@)),
{
    proof {
        reveal_strlit("runtime:\n");
    }
    if services.len() == 0 || str_contains(config.as_str(), "\n  compose:\n") {
        return config;
    }
    let lines = item_lines_str(services, "      - ", "");
    let a = concat3("runtime:\n  compose:\n    file: ", compose_file, "\n    services:\n");
    let b = concat3(a.as_str(), lines.as_str(), "\n");
    replace_first_str(config.as_str(), "runtime:\n", b.as_str())
}

/// The runtime lines of a backend and rootless mode.
pub open spec fn runtime_lines(kind: Seq<char>, rootless: bool) -> (Seq<char>, Seq<char>) {
    if kind == "podman"@ {
        ("  backend: podman"@, if rootless { "  rootless: true"@ } else { "  rootless: false"@ })
    } else if kind == "docker"@ {
        ("  backend: docker"@, if rootless { "  rootless: true"@ } else { "  rootless: false"@ })
    } else {
        ("  # backend: auto-detected"@, "  # rootless: auto-detected"@)
    }
}

/// The runtime lines of a backend and rootless mode.
pub fn backend_runtime_lines(kind: &str, rootless: bool) -> (r: (&'static str, &'static str))
    ensures
        (r.0@, r.1@) == runtime_lines(kind@, rootless),
{
    proof {
        reveal_strlit("podman");
        reveal_strlit("docker");
    }
    let rl = if rootless {
        "  rootless: true"
    } else {
        "  rootless: false"
    };
    if eq_str(kind, "podman") {
        ("  backend: podman", rl)
    } else if eq_str(kind, "docker") {
        ("  backend: docker", rl)
    } else {
        ("  # backend: auto-detected", "  # rootless: auto-detected")
    }
}

/// The engine's name.
pub open spec fn backend_name(b: BackendKind) -> Seq<char> {
    match b {
        BackendKind::Podman => "podman"@,
        BackendKind::Docker => "docker"@,
    }
}

fn backend_name_str(b: BackendKind) -> (r: &'static str)
    ensures
        r@ == backend_name(b),
{
    match b {
        BackendKind::Podman => "podman",
        BackendKind::Docker => "docker",
    }
}

// ---------------------------------------------------------------------------
// The simple questionnaire
// ---------------------------------------------------------------------------

/// The stock image of a package manager, `ubuntu:24.04` for none.
pub open spec fn stock_image(pm: Option<Seq<char>>) -> Seq<char> {
    match pm {
        Some(p) => if p == "npm"@ || p == "yarn"@ || p == "pnpm"@ {
            "node:22-bookworm-slim"@
        } else if p == "bun"@ {
            "oven/bun:1"@
        } else if p == "uv"@ {
            "ghcr.io/astral-sh/uv:python3.13-bookworm-slim"@
        } else if p == "pip"@ || p == "poetry"@ {
            "python:3.13-slim"@
        } else if p == "cargo"@ {
            "rust:1-bookworm"@
        } else if p == "go"@ {
            "golang:1.23-bookworm"@
        } else {
            "ubuntu:24.04"@
        },
        None => "ubuntu:24.04"@,
    }
}

/// The stock image of a package manager.
pub fn stock_image_for(pm: Option<&str>) -> (r: &'static str)
    ensures
        r@ == stock_image(
            match pm {
                Some(p) => Some(p@),
                None => None,
            },
        ),
{
    proof {
        reveal_strlit("npm");
        reveal_strlit("yarn");
        reveal_strlit("pnpm");
        reveal_strlit("bun");
        reveal_strlit("uv");
        reveal_strlit("pip");
        reveal_strlit("poetry");
        reveal_strlit("cargo");
        reveal_strlit("go");
    }
    match pm {
        Some(p) => if eq_str(p, "npm") || eq_str(p, "yarn") || eq_str(p, "pnpm") {
            "node:22-bookworm-slim"
        } else if eq_str(p, "bun") {
            "oven/bun:1"
        } else if eq_str(p, "uv") {
            "ghcr.io/astral-sh/uv:python3.13-bookworm-slim"
        } else if eq_str(p, "pip") || eq_str(p, "poetry") {
            "python:3.13-slim"
        } else if eq_str(p, "cargo") {
            "rust:1-bookworm"
        } else if eq_str(p, "go") {
            "golang:1.23-bookworm"
        } else {
            "ubuntu:24.04"
        },
        None => "ubuntu:24.04",
    }
}

/// The template preset of a package manager, and the manager the preset
/// names by default.
pub open spec fn pm_preset(pm: Seq<char>) -> (Seq<char>, Seq<char>) {
    if pm == "npm"@ || pm == "yarn"@ || pm == "pnpm"@ || pm == "bun"@ {
        ("node"@, "npm"@)
    } else if pm == "uv"@ || pm == "pip"@ || pm == "poetry"@ {
        ("python"@, "uv"@)
    } else if pm == "cargo"@ {
        ("rust"@, "cargo"@)
    } else if pm == "go"@ {
        ("go"@, "go"@)
    } else {
        ("generic"@, pm)
    }
}

fn pm_preset_str(pm: &str) -> (r: (&'static str, String))
    ensures
        (r.0@, r.1@) == pm_preset(pm@),
{
    proof {
        reveal_strlit("npm");
        reveal_strlit("yarn");
        reveal_strlit("pnpm");
        reveal_strlit("bun");
        reveal_strlit("uv");
        reveal_strlit("pip");
        reveal_strlit("poetry");
        reveal_strlit("cargo");
        reveal_strlit("go");
    }
    if eq_str(pm, "npm") || eq_str(pm, "yarn") || eq_str(pm, "pnpm") || eq_str(pm, "bun") {
        ("node", owned("npm"))
    } else if eq_str(pm, "uv") || eq_str(pm, "pip") || eq_str(pm, "poetry") {
        ("python", owned("uv"))
    } else if eq_str(pm, "cargo") {
        ("rust", owned("cargo"))
    } else if eq_str(pm, "go") {
        ("go", owned("go"))
    } else {
        ("generic", owned(pm))
    }
}

/// The answers to the simple questionnaire.
pub struct SimpleAnswers {
    /// The package manager, if one was detected or chosen.
    pub package_manager: Option<String>,
    /// The image section's line (`  build: …`, or `  ref: …` and a digest line).
    pub image_line: String,
    /// The engine and rootless mode, when detected or chosen.
    pub runtime: Option<(BackendKind, bool)>,
    /// Import the compose file's ports, variables and sidecars.
    pub import_compose: bool,
}

/// A configuration with a compose file's ports, variables and sidecar
/// services written into the places the template leaves for them.
pub open spec fn compose_import(
    config: Seq<char>,
    compose: ComposeInfo,
    ports_from: Seq<char>,
    ports_to: Seq<char>,
    env_from: Seq<char>,
) -> Seq<char> {
    let c1 = if compose.ports@.len() > 0 {
        replace_all(config, ports_from, ports_to + item_lines(views(compose.ports@), "    - \""@, "\""@))
    } else {
        config
    };
    let c2 = if compose.env@.len() > 0 {
        replace_all(c1, env_from, "  set:\n"@ + item_lines(views(compose.env@), "    "@, ""@))
    } else {
        c1
    };
    c2
}

/// The configuration the simple questionnaire writes.
pub open spec fn simple_config_text(a: SimpleAnswers, compose: Option<ComposeInfo>) -> Seq<char> {
    let base = match a.package_manager {
        Some(pm) => {
            let (preset, preset_pm) = pm_preset(pm@);
            replace_all(template_of(preset, Some(a.image_line@)).unwrap(), "name: "@ + preset_pm, "name: "@ + pm@)
        },
        None => replace_first(generic_template(), "image:\n  ref: ubuntu:24.04"@, "image:\n"@ + a.image_line@),
    };
    let with_runtime = match a.runtime {
        Some((kind, rootless)) => runtime_backend_patch(base, backend_name(kind), Some(rootless)),
        None => base,
    };
    match compose {
        Some(c) => if a.import_compose {
            let c2 = compose_import(
                with_runtime,
                c,
                "#   ports:\n#     - \"8000:8000\""@,
                "  ports:\n"@,
                "#   set:\n#     KEY: value"@,
            );
            if c.sidecar_services@.len() > 0 {
                runtime_compose_patch(c2, c.compose_file@, views(c.sidecar_services@))
            } else {
                c2
            }
        } else {
            with_runtime
        },
        None => with_runtime,
    }
}

fn import_compose_into(
    config: String,
    compose: &ComposeInfo,
    ports_from: &str,
    ports_to: &str,
    env_from: &str,
) -> (r: String)
    requires
        ports_from@.len() > 0,
        env_from@.len() > 0,
    ensures
        r@ == compose_import(config@, *compose, ports_from@, ports_to@, env_from@),
{
    let c1 = if compose.ports.len() > 0 {
        let lines = item_lines_str(&compose.ports, "    - \"", "\"");
        let to = concat2(ports_to, lines.as_str());
        replace_all_str(config.as_str(), ports_from, to.as_str())
    } else {
        config
    };
    if compose.env.len() > 0 {
        let lines = item_lines_str(&compose.env, "    ", "");
        let to = concat2("  set:\n", lines.as_str());
        replace_all_str(c1.as_str(), env_from, to.as_str())
    } else {
        c1
    }
}

/// The configuration the simple questionnaire writes; `compose` is what the
/// project's compose file holds, when it has one.
pub fn simple_config(answers: &SimpleAnswers, compose: &Option<ComposeInfo>) -> (r: String)
    ensures
        r@ == simple_config_text(*answers, *compose),
{
    proof {
        reveal_strlit("#   ports:\n#     - \"8000:8000\"");
        reveal_strlit("#   set:\n#     KEY: value");
    }
    let base = match &answers.package_manager {
        Some(pm) => {
            let (preset, preset_pm) = pm_preset_str(pm.as_str());
            proof {
                reveal_strlit("node");
                reveal_strlit("python");
                reveal_strlit("rust");
                reveal_strlit("go");
                reveal_strlit("generic");
            }
            let rendered = render_template_with_image_line(preset, answers.image_line.as_str());
            let config = match rendered {
                Ok(c) => c,
                Err(_) => {
                    assert(false);
                    String::new()
                },
            };
            let from = concat2("name: ", preset_pm.as_str());
            proof {
                reveal_strlit("name: ");
            }
            let to = concat2("name: ", pm.as_str());
            replace_all_str(config.as_str(), from.as_str(), to.as_str())
        },
        None => {
            let rendered = render_generic_template_with_image_line(answers.image_line.as_str());
            match rendered {
                Ok(c) => c,
                Err(_) => String::new(),
            }
        },
    };
    let with_runtime = match answers.runtime {
        Some((kind, rootless)) => apply_runtime_backend(base, backend_name_str(kind), Some(rootless)),
        None => base,
    };
    match compose {
        Some(c) => if answers.import_compose {
            let c2 = import_compose_into(
                with_runtime,
                c,
                "#   ports:\n#     - \"8000:8000\"",
                "  ports:\n",
                "#   set:\n#     KEY: value",
            );
            if c.sidecar_services.len() > 0 {
                apply_runtime_compose(c2, c.compose_file.as_str(), &c.sidecar_services)
            } else {
                c2
            }
        } else {
            with_runtime
        },
        None => with_runtime,
    }
}


// ---------------------------------------------------------------------------
// The advanced questionnaire
// ---------------------------------------------------------------------------

/// The default dispatch rules of the node preset.
pub open spec fn node_rules() -> Seq<char> {
    "  npm-install:\n    match:\n      - \"npm install*\"\n      - \"npm ci\"\n    profile: default\n  yarn-install:\n    match:\n      - \"yarn install*\"\n    profile: default\n  pnpm-install:\n    match:\n      - \"pnpm install*\"\n    profile: default\n"@
}

/// The default dispatch rules of the node preset.
pub fn node_dispatch() -> (r: String)
    ensures
        r@ == node_rules(),
{
    owned("  npm-install:\n    match:\n      - \"npm install*\"\n      - \"npm ci\"\n    profile: default\n  yarn-install:\n    match:\n      - \"yarn install*\"\n    profile: default\n  pnpm-install:\n    match:\n      - \"pnpm install*\"\n    profile: default\n")
}

/// The default dispatch rules of the python preset.
pub open spec fn python_rules() -> Seq<char> {
    "  pip-install:\n    match:\n      - \"pip install*\"\n      - \"pip3 install*\"\n    profile: default\n  uv-sync:\n    match:\n      - \"uv sync*\"\n    profile: default\n  poetry-install:\n    match:\n      - \"poetry install*\"\n    profile: default\n"@
}

/// The default dispatch rules of the python preset.
pub fn python_dispatch() -> (r: String)
    ensures
        r@ == python_rules(),
{
    owned("  pip-install:\n    match:\n      - \"pip install*\"\n      - \"pip3 install*\"\n    profile: default\n  uv-sync:\n    match:\n      - \"uv sync*\"\n    profile: default\n  poetry-install:\n    match:\n      - \"poetry install*\"\n    profile: default\n")
}

/// The default dispatch rules of the rust preset.
pub open spec fn rust_rules() -> Seq<char> {
    "  cargo-build:\n    match:\n      - \"cargo build*\"\n      - \"cargo check*\"\n    profile: default\n"@
}

/// The default dispatch rules of the rust preset.
pub fn rust_dispatch() -> (r: String)
    ensures
        r@ == rust_rules(),
{
    owned("  cargo-build:\n    match:\n      - \"cargo build*\"\n      - \"cargo check*\"\n    profile: default\n")
}

/// The default dispatch rules of the go preset.
pub open spec fn go_rules() -> Seq<char> {
    "  go-get:\n    match:\n      - \"go get*\"\n      - \"go mod download*\"\n    profile: default\n"@
}

/// The default dispatch rules of the go preset.
pub fn go_dispatch() -> (r: String)
    ensures
        r@ == go_rules(),
{
    owned("  go-get:\n    match:\n      - \"go get*\"\n      - \"go mod download*\"\n    profile: default\n")
}

/// What an ecosystem preset suggests: its image, writable paths and
/// dispatch rules.
pub open spec fn preset_defaults(preset: Seq<char>) -> (Seq<char>, Seq<Seq<char>>, Seq<char>) {
    if preset == "node"@ {
        ("node:22-bookworm-slim"@, seq!["node_modules"@, "package-lock.json"@, "dist"@], node_rules())
    } else if preset == "python"@ {
        ("python:3.13-slim"@, seq![".venv"@], python_rules())
    } else if preset == "rust"@ {
        ("rust:1-bookworm"@, seq!["target"@], rust_rules())
    } else if preset == "go"@ {
        ("golang:1.23-bookworm"@, Seq::empty(), go_rules())
    } else {
        ("ubuntu:24.04"@, Seq::empty(), Seq::empty())
    }
}

/// What an ecosystem preset suggests: its image, writable paths and
/// dispatch rules.
pub fn preset_suggestions(preset: &str) -> (r: (&'static str, Vec<String>, String))
    ensures
        (r.0@, views(r.1@), r.2@) == preset_defaults(preset@),
{
    proof {
        reveal_strlit("node");
        reveal_strlit("python");
        reveal_strlit("rust");
        reveal_strlit("go");
    }
    let r: (&'static str, Vec<&'static str>, String) = if eq_str(preset, "node") {
        ("node:22-bookworm-slim", vec!["node_modules", "package-lock.json", "dist"], node_dispatch())
    } else if eq_str(preset, "python") {
        ("python:3.13-slim", vec![".venv"], python_dispatch())
    } else if eq_str(preset, "rust") {
        ("rust:1-bookworm", vec!["target"], rust_dispatch())
    } else if eq_str(preset, "go") {
        ("golang:1.23-bookworm", Vec::new(), go_dispatch())
    } else {
        ("ubuntu:24.04", Vec::new(), String::new())
    };
    let paths = crate::bootstrap::owned_words(&r.1);
    assert(str_views(r.1@) == preset_defaults(preset@).1);
    (r.0, paths, r.2)
}

/// Where the image of the configuration comes from.
pub enum ImageChoice {
    /// The project's own container definition.
    ContainerDefinition { path: String },
    /// The image its compose file names, and a digest when one was fetched.
    ComposeImage { image: String, digest: Option<String> },
    /// An ecosystem preset, the image chosen for it, and a digest when one was fetched.
    Preset { preset: String, image: String, digest: Option<String> },
}

/// The answers to the advanced questionnaire.
pub struct AdvancedAnswers {
    /// The engine and rootless mode, when detected or chosen (`None`: detect at run time).
    pub backend: Option<(BackendKind, bool)>,
    pub image: ImageChoice,
    /// The default profile has network access.
    pub network_on: bool,
    /// The writable paths as typed: comma-separated.
    pub writable_input: String,
    /// Add the preset's dispatch rules (asked only when it has some).
    pub add_dispatch: bool,
    /// Import the compose file's ports, variables and sidecars.
    pub import_compose: bool,
}

/// The image section of a choice.
pub open spec fn image_section(c: ImageChoice) -> Seq<char> {
    match c {
        ImageChoice::ContainerDefinition { path } => "image:\n  build: "@ + path@,
        ImageChoice::ComposeImage { image, digest } => "image:\n  ref: "@ + image@ + match digest {
            Some(d) => "\n  digest: "@ + d@,
            None => Seq::empty(),
        },
        ImageChoice::Preset { image, digest, .. } => "image:\n  ref: "@ + image@ + match digest {
            Some(d) => "\n  digest: "@ + d@,
            None => Seq::empty(),
        },
    }
}

/// The dispatch rules a choice suggests.
pub open spec fn choice_rules(c: ImageChoice) -> Seq<char> {
    match c {
        ImageChoice::Preset { preset, .. } => preset_defaults(preset@).2,
        _ => Seq::empty(),
    }
}

/// The non-empty entries of a comma-separated list, trimmed.
pub open spec fn writable_entries(input: Seq<char>) -> Seq<Seq<char>> {
    split_char(input, ',').map_values(|x: Seq<char>| trim(x)).filter(|x: Seq<char>| x.len() > 0)
}

/// The configuration the advanced questionnaire writes.
pub open spec fn advanced_config_text(a: AdvancedAnswers, compose: Option<ComposeInfo>) -> Seq<char> {
    let (bl, rl) = match a.backend {
        Some((kind, rootless)) => runtime_lines(backend_name(kind), rootless),
        None => ("  # backend: auto-detected"@, "  # rootless: auto-detected"@),
    };
    let wp = writable_entries(a.writable_input@);
    let wp_yaml = if wp.len() == 0 {
        "    []"@
    } else {
        item_lines(wp, "    - "@, ""@)
    };
    let rules = choice_rules(a.image);
    let dispatch = if a.add_dispatch && rules.len() > 0 {
        "dispatch:\n"@ + rules
    } else {
        "dispatch: {}"@
    };
    let config = "version: 1\n\nruntime:\n"@ + bl + "\n"@ + rl + "\n\nworkspace:\n  root: .\n  mount: /workspace\n  writable: "@ + (if wp.len() == 0 {
        "true"@
    } else {
        "false"@
    }) + "\n  writable_paths:\n"@ + wp_yaml + "\n  exclude_paths:\n    - .env\n    - .env.local\n    - .env.production\n    - .env.development\n    - \"*.pem\"\n    - \"*.key\"\n    - .npmrc\n    - .netrc\n    - \".ssh/*\"\n    - \".aws/*\"\n\n"@ + image_section(a.image) + "\n\nenvironment:\n  pass_through:\n    - TERM\n  # set:\n  #   KEY: value\n  # deny:\n  #   - SECRET_TOKEN\n\nprofiles:\n  default:\n    mode: sandbox\n    network: "@ + (if a.network_on {
        "on"@
    } else {
        "off"@
    }) + "\n    writable: true\n    no_new_privileges: true\n\n"@ + dispatch + "\n"@;
    match compose {
        Some(c) => if a.import_compose {
            let c2 = compose_import(
                config,
                c,
                "    no_new_privileges: true"@,
                "    no_new_privileges: true\n    ports:\n"@,
                "  set: {}"@,
            );
            if c.sidecar_services@.len() > 0 {
                replace_all(
                    c2,
                    "runtime:\n"@,
                    "runtime:\n"@ + ("  compose:\n    file: "@ + c.compose_file@ + "\n    services:\n"@ + item_lines(
                        views(c.sidecar_services@),
                        "      - "@,
                        ""@,
                    ) + "\n"@),
                )
            } else {
                c2
            }
        } else {
            config
        },
        None => config,
    }
}

/// The non-empty entries of a comma-separated list, trimmed.
pub fn parse_writable_input(input: &str) -> (r: Vec<String>)
    ensures
        views(r@) == writable_entries(input@),
{
    let cs = crate::text::str_chars(input);
    let segs = crate::text::split_chars_on(&cs, ',');
    let ghost pieces = split_char(input@, ',');
    let ghost trimmed = pieces.map_values(|x: Seq<char>| trim(x));
    let mut out: Vec<String> = Vec::new();
    let mut i: usize = 0;
    assert(trimmed.take(0).filter(|x: Seq<char>| x.len() > 0) =~= Seq::<Seq<char>>::empty());
    while i < segs.len()
        invariant
            crate::text::seg_views(segs@) == pieces,
            pieces == split_char(input@, ','),
            trimmed == pieces.map_values(|x: Seq<char>| trim(x)),
            i <= pieces.len(),
            views(out@) == trimmed.take(i as int).filter(|x: Seq<char>| x.len() > 0),
        decreases pieces.len() - i,
    {
        assert(crate::text::seg_views(segs@)[i as int] == segs@[i as int]@);
        let piece = crate::text::string_from_chars(segs[i].as_slice());
        let t = trim_str(piece.as_str());
        let ghost before = views(out@);
        assert(trimmed.take(i + 1).drop_last() =~= trimmed.take(i as int));
        assert(trimmed.take(i + 1).last() == t@);
        proof {
            trimmed.take(i as int).lemma_filter_push(t@, |x: Seq<char>| x.len() > 0);
            assert(trimmed.take(i as int).push(t@) =~= trimmed.take(i + 1));
        }
        if crate::text::str_chars(t.as_str()).len() > 0 {
            push_string(&mut out, t);
        }
        i = i + 1;
    }
    assert(trimmed.take(pieces.len() as int) =~= trimmed);
    out
}

fn image_section_str(c: &ImageChoice) -> (r: String)
    ensures
        r@ == image_section(*c),
{
    match c {
        ImageChoice::ContainerDefinition { path } => concat2("image:\n  build: ", path.as_str()),
        ImageChoice::ComposeImage { image, digest } => {
            let a = concat2("image:\n  ref: ", image.as_str());
            match digest {
                Some(d) => concat3(a.as_str(), "\n  digest: ", d.as_str()),
                None => a,
            }
        },
        ImageChoice::Preset { image, digest, .. } => {
            let a = concat2("image:\n  ref: ", image.as_str());
            match digest {
                Some(d) => concat3(a.as_str(), "\n  digest: ", d.as_str()),
                None => a,
            }
        },
    }
}

/// The configuration the advanced questionnaire writes; `compose` is what
/// the project's compose file holds, when it has one.
pub fn advanced_config(answers: &AdvancedAnswers, compose: &Option<ComposeInfo>) -> (r: String)
    ensures
        r@ == advanced_config_text(*answers, *compose),
{
    proof {
        reveal_strlit("    no_new_privileges: true");
        reveal_strlit("  set: {}");
        reveal_strlit("runtime:\n");
    }
    let (bl, rl) = match answers.backend {
        Some((kind, rootless)) => backend_runtime_lines(backend_name_str(kind), rootless),
        None => ("  # backend: auto-detected", "  # rootless: auto-detected"),
    };
    let wp = parse_writable_input(answers.writable_input.as_str());
    let wp_yaml = if wp.len() == 0 {
        owned("    []")
    } else {
        item_lines_str(&wp, "    - ", "")
    };
    let rules = match &answers.image {
        ImageChoice::Preset { preset, .. } => preset_suggestions(preset.as_str()).2,
        _ => String::new(),
    };
    let dispatch = if answers.add_dispatch && crate::text::str_chars(rules.as_str()).len() > 0 {
        concat2("dispatch:\n", rules.as_str())
    } else {
        owned("dispatch: {}")
    };
    let image = image_section_str(&answers.image);
    let mut config = owned("version: 1\n\nruntime:\n");
    crate::text::append(&mut config, bl);
    crate::text::append(&mut config, "\n");
    crate::text::append(&mut config, rl);
    crate::text::append(&mut config, "\n\nworkspace:\n  root: .\n  mount: /workspace\n  writable: ");
    crate::text::append(
        &mut config,
        if wp.len() == 0 {
            "true"
        } else {
            "false"
        },
    );
    crate::text::append(&mut config, "\n  writable_paths:\n");
    crate::text::append(&mut config, wp_yaml.as_str());
    crate::text::append(&mut config, "\n  exclude_paths:\n    - .env\n    - .env.local\n    - .env.production\n    - .env.development\n    - \"*.pem\"\n    - \"*.key\"\n    - .npmrc\n    - .netrc\n    - \".ssh/*\"\n    - \".aws/*\"\n\n");
    crate::text::append(&mut config, image.as_str());
    crate::text::append(&mut config, "\n\nenvironment:\n  pass_through:\n    - TERM\n  # set:\n  #   KEY: value\n  # deny:\n  #   - SECRET_TOKEN\n\nprofiles:\n  default:\n    mode: sandbox\n    network: ");
    crate::text::append(
        &mut config,
        if answers.network_on {
            "on"
        } else {
            "off"
        },
    );
    crate::text::append(&mut config, "\n    writable: true\n    no_new_privileges: true\n\n");
    crate::text::append(&mut config, dispatch.as_str());
    crate::text::append(&mut config, "\n");
    match compose {
        Some(c) => if answers.import_compose {
            let c2 = import_compose_into(
                config,
                c,
                "    no_new_privileges: true",
                "    no_new_privileges: true\n    ports:\n",
                "  set: {}",
            );
            if c.sidecar_services.len() > 0 {
                let lines = item_lines_str(&c.sidecar_services, "      - ", "");
                let a = concat3("  compose:\n    file: ", c.compose_file.as_str(), "\n    services:\n");
                let b = concat3(a.as_str(), lines.as_str(), "\n");
                let to = concat2("runtime:\n", b.as_str());
                replace_all_str(c2.as_str(), "runtime:\n", to.as_str())
            } else {
                c2
            }
        } else {
            config
        },
        None => config,
    }
}


// ---------------------------------------------------------------------------
// When the image digest cannot be fetched
// ---------------------------------------------------------------------------

/// What a digest typed by hand leads to.
pub enum ManualDigest {
    /// Nothing was typed: fetch again.
    Retry,
    /// A `sha256:` digest: use it.
    Accept(String),
    /// Something else: ask whether to use it anyway.
    Confirm(String),
}

/// What a digest typed by hand leads to: the input is trimmed; blank input
/// fetches again, a `sha256:` digest is used, anything else is confirmed.
pub fn manual_digest(input: &str) -> (r: ManualDigest)
    ensures
        trim(input@).len() == 0 ==> r is Retry,
        trim(input@).len() > 0 && starts_with(trim(input@), "sha256:"@) ==> (r matches ManualDigest::Accept(d) && d@
            == trim(input@)),
        trim(input@).len() > 0 && !starts_with(trim(input@), "sha256:"@) ==> (r matches ManualDigest::Confirm(d) && d@
            == trim(input@)),
{
    let d = trim_str(input);
    if crate::text::str_chars(d.as_str()).len() == 0 {
        ManualDigest::Retry
    } else if crate::text::str_starts_with(d.as_str(), "sha256:") {
        ManualDigest::Accept(d)
    } else {
        ManualDigest::Confirm(d)
    }
}

/// The number of fetch retries asked for after one more, and whether to
/// offer giving up: from the fifth retry on.
pub fn retry_attempt(attempts: u8) -> (r: (u8, bool))
    ensures
        r.0 == if attempts < 255 {
            (attempts + 1) as u8
        } else {
            255u8
        },
        r.1 == (r.0 >= 5),
{
    let n = attempts.saturating_add(1);
    (n, n >= 5)
}

} // verus!
