//! The `package_manager:` block: built-in presets that expand into install,
//! build and default profiles, dispatch rules, and credential protections.

use vstd::prelude::*;

use crate::config::maps::{
    dispatch_entries, dispatch_index_of, dispatch_insert_first, has_key, profile_entries,
    profiles_index_of, profiles_insert,
};
use crate::config::model::{
    Config, DispatchRule, EnvironmentConfig, ExecutionMode, ImageConfig, PackageManagerConfig,
    ProfileConfig, ProfileRole, RuntimeConfig, WorkspaceConfig,
};
use crate::error::SboxError;
use crate::text::{
    concat3, eq_str, owned, owned_all, push_string, seq_has, str_views, strings_contain, views,
};

verus! {

/// A built-in package manager preset, by the characters of its strings.
pub struct PresetView {
    pub install_patterns: Seq<Seq<char>>,
    pub build_patterns: Seq<Seq<char>>,
    pub install_writable: Seq<Seq<char>>,
    pub build_writable: Seq<Seq<char>>,
    pub network_allow: Seq<Seq<char>>,
    pub lockfile_files: Seq<Seq<char>>,
    /// Environment variables that carry publish credentials for the registry.
    pub publish_token_envs: Seq<Seq<char>>,
    /// Credential files to mask inside the workspace.
    pub credential_files: Seq<Seq<char>>,
    pub default_image: Seq<char>,
    pub default_env: Seq<(Seq<char>, Seq<char>)>,
}

/// A built-in package manager preset.
pub struct Preset {
    pub install_patterns: &'static [&'static str],
    pub build_patterns: &'static [&'static str],
    pub install_writable: &'static [&'static str],
    pub build_writable: &'static [&'static str],
    pub network_allow: &'static [&'static str],
    pub lockfile_files: &'static [&'static str],
    pub publish_token_envs: &'static [&'static str],
    pub credential_files: &'static [&'static str],
    pub default_image: &'static str,
    pub default_env: &'static [(&'static str, &'static str)],
}

/// Pairs of string slices, by their characters.
pub open spec fn str_pair_views(v: Seq<(&str, &str)>) -> Seq<(Seq<char>, Seq<char>)> {
    v.map_values(|p: (&str, &str)| (p.0@, p.1@))
}

impl Preset {
    pub open spec fn view(&self) -> PresetView {
        PresetView {
            install_patterns: str_views(self.install_patterns@),
            build_patterns: str_views(self.build_patterns@),
            install_writable: str_views(self.install_writable@),
            build_writable: str_views(self.build_writable@),
            network_allow: str_views(self.network_allow@),
            lockfile_files: str_views(self.lockfile_files@),
            publish_token_envs: str_views(self.publish_token_envs@),
            credential_files: str_views(self.credential_files@),
            default_image: self.default_image@,
            default_env: str_pair_views(self.default_env@),
        }
    }
}

/// The names of the built-in presets.
pub open spec fn preset_names() -> Seq<Seq<char>> {
    seq!["npm"@, "yarn"@, "pnpm"@, "bun"@, "uv"@, "pip"@, "poetry"@, "cargo"@, "go"@]
}

/// The built-in preset called `name`.
pub open spec fn preset_named(name: Seq<char>) -> Option<PresetView> {
    if name == "npm"@ {
        Some(PresetView {
            install_patterns: seq!["npm install*"@, "npm ci*"@, "npm i *"@],
            build_patterns: seq!["npm run build*"@, "npm run compile*"@],
            install_writable: seq!["node_modules"@, "package-lock.json"@],
            build_writable: seq!["dist"@, "node_modules/.vite-temp"@, "node_modules/.tmp"@],
            network_allow: seq!["registry.npmjs.org"@],
            lockfile_files: seq!["package-lock.json"@, "npm-shrinkwrap.json"@],
            publish_token_envs: seq!["NPM_TOKEN"@, "NODE_AUTH_TOKEN"@, "NPM_AUTH_TOKEN"@],
            credential_files: seq![".npmrc"@],
            default_image: "node:22-bookworm-slim"@,
            default_env: seq![],
        })
    } else if name == "yarn"@ {
        Some(PresetView {
            install_patterns: seq!["yarn install*"@, "yarn add*"@],
            build_patterns: seq!["yarn build*"@, "yarn run build*"@],
            install_writable: seq!["node_modules"@, "yarn.lock"@],
            build_writable: seq!["dist"@, "node_modules/.vite-temp"@, "node_modules/.tmp"@],
            network_allow: seq!["registry.yarnpkg.com"@, "registry.npmjs.org"@],
            lockfile_files: seq!["yarn.lock"@],
            publish_token_envs: seq!["NPM_TOKEN"@, "NODE_AUTH_TOKEN"@, "NPM_AUTH_TOKEN"@, "YARN_AUTH_TOKEN"@],
            credential_files: seq![".npmrc"@, ".yarnrc.yml"@],
            default_image: "node:22-bookworm-slim"@,
            default_env: seq![],
        })
    } else if name == "pnpm"@ {
        Some(PresetView {
            install_patterns: seq!["pnpm install*"@, "pnpm i *"@, "pnpm add*"@],
            build_patterns: seq!["pnpm run build*"@, "pnpm build*"@],
            install_writable: seq!["node_modules"@, "pnpm-lock.yaml"@],
            build_writable: seq!["dist"@, "node_modules/.vite-temp"@, "node_modules/.tmp"@],
            network_allow: seq!["registry.npmjs.org"@],
            lockfile_files: seq!["pnpm-lock.yaml"@],
            publish_token_envs: seq!["NPM_TOKEN"@, "NODE_AUTH_TOKEN"@, "NPM_AUTH_TOKEN"@],
            credential_files: seq![".npmrc"@],
            default_image: "node:22-bookworm-slim"@,
            default_env: seq![],
        })
    } else if name == "bun"@ {
        Some(PresetView {
            install_patterns: seq!["bun install*"@, "bun i *"@, "bun add*"@],
            build_patterns: seq!["bun build*"@, "bun run build*"@],
            install_writable: seq!["node_modules"@, "bun.lockb"@, "bun.lock"@],
            build_writable: seq!["dist"@, "node_modules/.vite-temp"@, "node_modules/.tmp"@],
            network_allow: seq!["registry.npmjs.org"@],
            lockfile_files: seq!["bun.lockb"@, "bun.lock"@],
            publish_token_envs: seq!["NPM_TOKEN"@, "NODE_AUTH_TOKEN"@, "NPM_AUTH_TOKEN"@],
            credential_files: seq![".npmrc"@],
            default_image: "oven/bun:1"@,
            default_env: seq![],
        })
    } else if name == "uv"@ {
        Some(PresetView {
            install_patterns: seq!["uv sync*"@, "uv add*"@, "uv pip install*"@],
            build_patterns: seq!["uv build*"@, "uv run build*"@],
            install_writable: seq![".venv"@],
            build_writable: seq!["dist"@],
            network_allow: seq!["pypi.org"@, "files.pythonhosted.org"@],
            lockfile_files: seq!["uv.lock"@],
            publish_token_envs: seq!["UV_PUBLISH_TOKEN"@, "TWINE_PASSWORD"@, "PYPI_TOKEN"@],
            credential_files: seq![".pypirc"@],
            default_image: "ghcr.io/astral-sh/uv:python3.13-bookworm-slim"@,
            default_env: seq![("UV_PYTHON_DOWNLOADS"@, "never"@)],
        })
    } else if name == "pip"@ {
        Some(PresetView {
            install_patterns: seq!["pip install*"@, "pip3 install*"@],
            build_patterns: seq![],
            install_writable: seq![".venv"@],
            build_writable: seq![],
            network_allow: seq!["pypi.org"@, "files.pythonhosted.org"@],
            lockfile_files: seq!["requirements.txt"@],
            publish_token_envs: seq!["TWINE_PASSWORD"@, "TWINE_USERNAME"@, "PYPI_TOKEN"@],
            credential_files: seq![".pypirc"@],
            default_image: "python:3.13-slim"@,
            default_env: seq![],
        })
    } else if name == "poetry"@ {
        Some(PresetView {
            install_patterns: seq!["poetry install*"@, "poetry add*"@],
            build_patterns: seq!["poetry build*"@],
            install_writable: seq![".venv"@],
            build_writable: seq!["dist"@],
            network_allow: seq!["pypi.org"@, "files.pythonhosted.org"@],
            lockfile_files: seq!["poetry.lock"@],
            publish_token_envs: seq!["POETRY_PYPI_TOKEN_PYPI"@, "TWINE_PASSWORD"@, "PYPI_TOKEN"@],
            credential_files: seq![".pypirc"@],
            default_image: "python:3.13-slim"@,
            default_env: seq![],
        })
    } else if name == "cargo"@ {
        Some(PresetView {
            install_patterns: seq!["cargo fetch*"@, "cargo generate-lockfile*"@],
            build_patterns: seq!["cargo build*"@, "cargo check*"@, "cargo test*"@],
            install_writable: seq!["target"@],
            build_writable: seq!["target"@],
            network_allow: seq!["crates.io"@, "static.crates.io"@, "index.crates.io"@],
            lockfile_files: seq!["Cargo.lock"@],
            publish_token_envs: seq!["CARGO_REGISTRY_TOKEN"@],
            credential_files: seq![],
            default_image: "rust:1-bookworm"@,
            default_env: seq![],
        })
    } else if name == "go"@ {
        Some(PresetView {
            install_patterns: seq!["go get*"@, "go mod download*"@, "go mod tidy*"@],
            build_patterns: seq!["go build -o dist/*"@, "go build -o bin/*"@, "go build ./..."@, "go build*"@],
            install_writable: seq!["vendor"@],
            build_writable: seq!["dist"@, "bin"@, "."@],
            network_allow: seq!["proxy.golang.org"@, "sum.golang.org"@],
            lockfile_files: seq!["go.sum"@],
            publish_token_envs: seq![],
            credential_files: seq![],
            default_image: "golang:1.23-bookworm"@,
            default_env: seq![],
        })
    } else {
        None
    }
}

/// The built-in preset called `name`.
pub fn lookup_preset(name: &str) -> (r: Option<Preset>)
    ensures
        r is Some == preset_named(name@) is Some,
        r matches Some(p) ==> p.view() == preset_named(name@)->0,
{
    let p = if eq_str(name, "npm") {
        Preset {
            install_patterns: &["npm install*", "npm ci*", "npm i *"],
            build_patterns: &["npm run build*", "npm run compile*"],
            install_writable: &["node_modules", "package-lock.json"],
            build_writable: &["dist", "node_modules/.vite-temp", "node_modules/.tmp"],
            network_allow: &["registry.npmjs.org"],
            lockfile_files: &["package-lock.json", "npm-shrinkwrap.json"],
            publish_token_envs: &["NPM_TOKEN", "NODE_AUTH_TOKEN", "NPM_AUTH_TOKEN"],
            credential_files: &[".npmrc"],
            default_image: "node:22-bookworm-slim",
            default_env: &[],
        }
    } else if eq_str(name, "yarn") {
        Preset {
            install_patterns: &["yarn install*", "yarn add*"],
            build_patterns: &["yarn build*", "yarn run build*"],
            install_writable: &["node_modules", "yarn.lock"],
            build_writable: &["dist", "node_modules/.vite-temp", "node_modules/.tmp"],
            network_allow: &["registry.yarnpkg.com", "registry.npmjs.org"],
            lockfile_files: &["yarn.lock"],
            publish_token_envs: &["NPM_TOKEN", "NODE_AUTH_TOKEN", "NPM_AUTH_TOKEN", "YARN_AUTH_TOKEN"],
            credential_files: &[".npmrc", ".yarnrc.yml"],
            default_image: "node:22-bookworm-slim",
            default_env: &[],
        }
    } else if eq_str(name, "pnpm") {
        Preset {
            install_patterns: &["pnpm install*", "pnpm i *", "pnpm add*"],
            build_patterns: &["pnpm run build*", "pnpm build*"],
            install_writable: &["node_modules", "pnpm-lock.yaml"],
            build_writable: &["dist", "node_modules/.vite-temp", "node_modules/.tmp"],
            network_allow: &["registry.npmjs.org"],
            lockfile_files: &["pnpm-lock.yaml"],
            publish_token_envs: &["NPM_TOKEN", "NODE_AUTH_TOKEN", "NPM_AUTH_TOKEN"],
            credential_files: &[".npmrc"],
            default_image: "node:22-bookworm-slim",
            default_env: &[],
        }
    } else if eq_str(name, "bun") {
        Preset {
            install_patterns: &["bun install*", "bun i *", "bun add*"],
            build_patterns: &["bun build*", "bun run build*"],
            install_writable: &["node_modules", "bun.lockb", "bun.lock"],
            build_writable: &["dist", "node_modules/.vite-temp", "node_modules/.tmp"],
            network_allow: &["registry.npmjs.org"],
            lockfile_files: &["bun.lockb", "bun.lock"],
            publish_token_envs: &["NPM_TOKEN", "NODE_AUTH_TOKEN", "NPM_AUTH_TOKEN"],
            credential_files: &[".npmrc"],
            default_image: "oven/bun:1",
            default_env: &[],
        }
    } else if eq_str(name, "uv") {
        Preset {
            install_patterns: &["uv sync*", "uv add*", "uv pip install*"],
            build_patterns: &["uv build*", "uv run build*"],
            install_writable: &[".venv"],
            build_writable: &["dist"],
            network_allow: &["pypi.org", "files.pythonhosted.org"],
            lockfile_files: &["uv.lock"],
            publish_token_envs: &["UV_PUBLISH_TOKEN", "TWINE_PASSWORD", "PYPI_TOKEN"],
            credential_files: &[".pypirc"],
            default_image: "ghcr.io/astral-sh/uv:python3.13-bookworm-slim",
            // The image ships Python; uv must not download a managed interpreter.
            default_env: &[("UV_PYTHON_DOWNLOADS", "never")],
        }
    } else if eq_str(name, "pip") {
        Preset {
            install_patterns: &["pip install*", "pip3 install*"],
            build_patterns: &[],
            install_writable: &[".venv"],
            build_writable: &[],
            network_allow: &["pypi.org", "files.pythonhosted.org"],
            lockfile_files: &["requirements.txt"],
            publish_token_envs: &["TWINE_PASSWORD", "TWINE_USERNAME", "PYPI_TOKEN"],
            credential_files: &[".pypirc"],
            default_image: "python:3.13-slim",
            default_env: &[],
        }
    } else if eq_str(name, "poetry") {
        Preset {
            install_patterns: &["poetry install*", "poetry add*"],
            build_patterns: &["poetry build*"],
            install_writable: &[".venv"],
            build_writable: &["dist"],
            network_allow: &["pypi.org", "files.pythonhosted.org"],
            lockfile_files: &["poetry.lock"],
            publish_token_envs: &["POETRY_PYPI_TOKEN_PYPI", "TWINE_PASSWORD", "PYPI_TOKEN"],
            credential_files: &[".pypirc"],
            default_image: "python:3.13-slim",
            default_env: &[],
        }
    } else if eq_str(name, "cargo") {
        Preset {
            // fetch/generate-lockfile reach the network; build/check/test are offline
            install_patterns: &["cargo fetch*", "cargo generate-lockfile*"],
            build_patterns: &["cargo build*", "cargo check*", "cargo test*"],
            install_writable: &["target"],
            build_writable: &["target"],
            network_allow: &["crates.io", "static.crates.io", "index.crates.io"],
            lockfile_files: &["Cargo.lock"],
            publish_token_envs: &["CARGO_REGISTRY_TOKEN"],
            credential_files: &[],
            default_image: "rust:1-bookworm",
            default_env: &[],
        }
    } else if eq_str(name, "go") {
        Preset {
            install_patterns: &["go get*", "go mod download*", "go mod tidy*"],
            // `go build ./...` writes the binary to the working directory, so "." is writable.
            build_patterns: &["go build -o dist/*", "go build -o bin/*", "go build ./...", "go build*"],
            install_writable: &["vendor"],
            build_writable: &["dist", "bin", "."],
            network_allow: &["proxy.golang.org", "sum.golang.org"],
            lockfile_files: &["go.sum"],
            publish_token_envs: &[],
            credential_files: &[],
            default_image: "golang:1.23-bookworm",
            default_env: &[],
        }
    } else {
        return None;
    };
    assert(str_views(p.install_patterns@) =~= preset_named(name@)->0.install_patterns);
    assert(str_views(p.build_patterns@) =~= preset_named(name@)->0.build_patterns);
    assert(str_views(p.install_writable@) =~= preset_named(name@)->0.install_writable);
    assert(str_views(p.build_writable@) =~= preset_named(name@)->0.build_writable);
    assert(str_views(p.network_allow@) =~= preset_named(name@)->0.network_allow);
    assert(str_views(p.lockfile_files@) =~= preset_named(name@)->0.lockfile_files);
    assert(str_views(p.publish_token_envs@) =~= preset_named(name@)->0.publish_token_envs);
    assert(str_views(p.credential_files@) =~= preset_named(name@)->0.credential_files);
    assert(str_pair_views(p.default_env@) =~= preset_named(name@)->0.default_env);
    Some(p)
}

/// An optional string by its characters.
pub open spec fn opt_str(o: Option<String>) -> Option<Seq<char>> {
    match o {
        Some(s) => Some(s@),
        None => None,
    }
}

/// An optional list of strings by their characters.
pub open spec fn opt_views(o: Option<Vec<String>>) -> Option<Seq<Seq<char>>> {
    match o {
        Some(v) => Some(views(v@)),
        None => None,
    }
}

/// The user's override if given, else the preset's list.
pub open spec fn or_preset(user: Option<Vec<String>>, preset: Seq<Seq<char>>) -> Seq<Seq<char>> {
    match user {
        Some(v) => views(v@),
        None => preset,
    }
}

/// The fields that every synthesized profile shares.
pub open spec fn is_synthesized_base(p: ProfileConfig) -> bool {
    &&& p.mode == ExecutionMode::Sandbox
    &&& p.image is None
    &&& p.writable == Some(false)
    &&& p.require_pinned_image is None
    &&& p.require_lockfile is None
    &&& p.ports@.len() == 0
    &&& p.capabilities is None
    &&& p.no_new_privileges == Some(true)
    &&& p.read_only_rootfs is None
    &&& p.reuse_container is None
    &&& p.shell is None
}

/// `p` is the install profile that `preset` and the user's block generate.
pub open spec fn is_install_profile(p: ProfileConfig, preset: PresetView, pm: PackageManagerConfig) -> bool {
    &&& is_synthesized_base(p)
    &&& opt_str(p.network) == Some("on"@)
    &&& p.role == Some(ProfileRole::Install)
    &&& views(p.lockfile_files@) == preset.lockfile_files
    &&& views(p.pre_run@) == (match pm.pre_run {
        Some(v) => views(v@),
        None => Seq::empty(),
    })
    &&& views(p.network_allow@) == or_preset(pm.network_allow, preset.network_allow)
    &&& opt_views(p.writable_paths) == Some(or_preset(pm.install_writable, preset.install_writable))
}

/// `p` is the build profile that `preset` and the user's block generate.
pub open spec fn is_build_profile(p: ProfileConfig, preset: PresetView, pm: PackageManagerConfig) -> bool {
    &&& is_synthesized_base(p)
    &&& opt_str(p.network) == Some("off"@)
    &&& p.role == Some(ProfileRole::Build)
    &&& p.lockfile_files@.len() == 0
    &&& p.pre_run@.len() == 0
    &&& p.network_allow@.len() == 0
    &&& opt_views(p.writable_paths) == Some(or_preset(pm.build_writable, preset.build_writable))
}

/// `p` is the default profile generated when the user has none.
pub open spec fn is_default_profile(p: ProfileConfig) -> bool {
    &&& is_synthesized_base(p)
    &&& opt_str(p.network) == Some("off"@)
    &&& p.role == Some(ProfileRole::Run)
    &&& p.lockfile_files@.len() == 0
    &&& p.pre_run@.len() == 0
    &&& p.network_allow@.len() == 0
    &&& opt_views(p.writable_paths) == Some(Seq::<Seq<char>>::empty())
}

fn strings_or(user: &Option<Vec<String>>, preset: &'static [&'static str]) -> (r: Vec<String>)
    ensures
        views(r@) == or_preset(*user, str_views(preset@)),
{
    match user {
        Some(v) => crate::text::clone_strings(v),
        None => {
            let r = owned_all(preset);
            assert(views(r@) =~= str_views(preset@));
            r
        },
    }
}

fn list_of(v: &'static [&'static str]) -> (r: Vec<String>)
    ensures
        views(r@) == str_views(v@),
{
    let r = owned_all(v);
    assert(views(r@) =~= str_views(v@));
    r
}

/// The install profile of a preset.
pub fn make_install_profile(preset: &Preset, pm: &PackageManagerConfig) -> (r: ProfileConfig)
    ensures
        is_install_profile(r, preset.view(), *pm),
{
    let pre_run = match &pm.pre_run {
        Some(v) => crate::text::clone_strings(v),
        None => Vec::new(),
    };
    assert(pm.pre_run is None ==> views(pre_run@) =~= Seq::<Seq<char>>::empty());
    ProfileConfig {
        mode: ExecutionMode::Sandbox,
        image: None,
        network: Some(owned("on")),
        writable: Some(false),
        require_pinned_image: None,
        require_lockfile: None,
        role: Some(ProfileRole::Install),
        lockfile_files: list_of(preset.lockfile_files),
        pre_run,
        ports: Vec::new(),
        network_allow: strings_or(&pm.network_allow, preset.network_allow),
        capabilities: None,
        no_new_privileges: Some(true),
        read_only_rootfs: None,
        reuse_container: None,
        shell: None,
        writable_paths: Some(strings_or(&pm.install_writable, preset.install_writable)),
    }
}

/// The build profile of a preset.
pub fn make_build_profile(preset: &Preset, pm: &PackageManagerConfig) -> (r: ProfileConfig)
    ensures
        is_build_profile(r, preset.view(), *pm),
{
    ProfileConfig {
        mode: ExecutionMode::Sandbox,
        image: None,
        network: Some(owned("off")),
        writable: Some(false),
        require_pinned_image: None,
        require_lockfile: None,
        role: Some(ProfileRole::Build),
        lockfile_files: Vec::new(),
        pre_run: Vec::new(),
        ports: Vec::new(),
        network_allow: Vec::new(),
        capabilities: None,
        no_new_privileges: Some(true),
        read_only_rootfs: None,
        reuse_container: None,
        shell: None,
        writable_paths: Some(strings_or(&pm.build_writable, preset.build_writable)),
    }
}

/// The default profile generated when the user has none: sandboxed, offline,
/// with a read-only workspace.
pub fn make_default_profile() -> (r: ProfileConfig)
    ensures
        is_default_profile(r),
{
    let w: Vec<String> = Vec::new();
    assert(views(w@) =~= Seq::<Seq<char>>::empty());
    ProfileConfig {
        mode: ExecutionMode::Sandbox,
        image: None,
        network: Some(owned("off")),
        writable: Some(false),
        require_pinned_image: None,
        require_lockfile: None,
        role: Some(ProfileRole::Run),
        lockfile_files: Vec::new(),
        pre_run: Vec::new(),
        ports: Vec::new(),
        network_allow: Vec::new(),
        capabilities: None,
        no_new_privileges: Some(true),
        read_only_rootfs: None,
        reuse_container: None,
        shell: None,
        writable_paths: Some(w),
    }
}

/// The dispatch rule key of a preset rule: `pm:<name>:<kind>`.
pub open spec fn dispatch_key(pm_name: Seq<char>, kind: Seq<char>) -> Seq<char> {
    "pm:"@ + pm_name + ":"@ + kind
}

/// `pm:<name>:<kind>`.
pub fn make_dispatch_key(pm_name: &str, kind: &str) -> (r: String)
    ensures
        r@ == dispatch_key(pm_name@, kind@),
{
    let head = concat3("pm:", pm_name, ":");
    crate::text::concat2(head.as_str(), kind)
}

/// `extra` appended to `base`, each string only if it is not there yet.
pub open spec fn append_missing(base: Seq<Seq<char>>, extra: Seq<Seq<char>>) -> Seq<Seq<char>>
    decreases extra.len(),
{
    if extra.len() == 0 {
        base
    } else {
        let acc = append_missing(base, extra.drop_last());
        if seq_has(acc, extra.last()) {
            acc
        } else {
            acc.push(extra.last())
        }
    }
}

/// Name/value pairs, by their characters.
pub open spec fn pair_views(v: Seq<(String, String)>) -> Seq<(Seq<char>, Seq<char>)> {
    v.map_values(|p: (String, String)| (p.0@, p.1@))
}

/// `defaults` added to `set`, each only if its name is not set yet, and put
/// in name order (after every variable whose name does not sort after its
/// own), as the variables of a name-ordered map.
pub open spec fn with_defaults(set: Seq<(Seq<char>, Seq<char>)>, defaults: Seq<(Seq<char>, Seq<char>)>) -> Seq<(Seq<char>, Seq<char>)>
    decreases defaults.len(),
{
    if defaults.len() == 0 {
        set
    } else {
        let acc = with_defaults(set, defaults.drop_last());
        if exists|i: int| 0 <= i < acc.len() && acc[i].0 == defaults.last().0 {
            acc
        } else {
            crate::lock::insert_by_path(acc, defaults.last())
        }
    }
}

/// Adding a preset's default variables keeps the variables in strictly
/// ascending order of name when they were so before: each name once, in
/// name order.
pub proof fn law_default_env_keeps_names_ordered(set: Seq<(Seq<char>, Seq<char>)>, defaults: Seq<(Seq<char>, Seq<char>)>)
    requires
        crate::lock::path_sorted(set),
        crate::lock::distinct_paths(set),
    ensures
        crate::lock::path_sorted(with_defaults(set, defaults)),
        crate::lock::distinct_paths(with_defaults(set, defaults)),
    decreases defaults.len(),
{
    if defaults.len() > 0 {
        law_default_env_keeps_names_ordered(set, defaults.drop_last());
        let acc = with_defaults(set, defaults.drop_last());
        if !(exists|i: int| 0 <= i < acc.len() && acc[i].0 == defaults.last().0) {
            assert(!crate::lock::has_path(acc, defaults.last().0));
            crate::lock::lemma_insert_props(acc, defaults.last());
        }
    }
}

fn append_missing_exec(v: &mut Vec<String>, extra: &'static [&'static str])
    ensures
        views(final(v)@) == append_missing(views(old(v)@), str_views(extra@)),
{
    let mut i: usize = 0;
    while i < extra.len()
        invariant
            i <= extra@.len(),
            views(v@) == append_missing(views(old(v)@), str_views(extra@).take(i as int)),
        decreases extra@.len() - i,
    {
        assert(str_views(extra@).take(i + 1).drop_last() =~= str_views(extra@).take(i as int));
        assert(str_views(extra@).take(i + 1).last() == extra@[i as int]@);
        if !strings_contain(v.as_slice(), extra[i]) {
            push_string(v, owned(extra[i]));
        }
        i = i + 1;
    }
    assert(str_views(extra@).take(extra@.len() as int) =~= str_views(extra@));
}

fn add_default_env(set: &mut Vec<(String, String)>, defaults: &'static [(&'static str, &'static str)])
    ensures
        pair_views(final(set)@) == with_defaults(pair_views(old(set)@), str_pair_views(defaults@)),
{
    let mut i: usize = 0;
    while i < defaults.len()
        invariant
            i <= defaults@.len(),
            pair_views(set@) == with_defaults(pair_views(old(set)@), str_pair_views(defaults@).take(i as int)),
        decreases defaults@.len() - i,
    {
        let ghost d = str_pair_views(defaults@);
        assert(d.take(i + 1).drop_last() =~= d.take(i as int));
        assert(d.take(i + 1).last() == (defaults@[i as int].0@, defaults@[i as int].1@));
        let (key, value) = defaults[i];
        let mut found = false;
        let mut j: usize = 0;
        while j < set.len()
            invariant
                j <= set@.len(),
                found == exists|k: int| 0 <= k < j && pair_views(set@)[k].0 == key@,
            decreases set@.len() - j,
        {
            assert(pair_views(set@)[j as int].0 == set@[j as int].0@);
            if eq_str(set[j].0.as_str(), key) {
                found = true;
            }
            j = j + 1;
        }
        if !found {
            let ghost before = set@;
            assert(crate::lock::entry_views(before) =~= pair_views(before));
            crate::lock::insert_entry(set, (owned(key), owned(value)));
            assert(crate::lock::entry_views(set@) =~= pair_views(set@));
        }
        i = i + 1;
    }
    assert(str_pair_views(defaults@).take(defaults@.len() as int) =~= str_pair_views(defaults@));
}

fn clone_opt_strings(v: &Option<Vec<String>>) -> (r: Option<Vec<String>>)
    ensures
        opt_views(r) == opt_views(*v),
{
    match v {
        Some(x) => Some(crate::text::clone_strings(x)),
        None => None,
    }
}

/// The profile entries after elaboration: the user's entries, then the install
/// profile, the build profile (when the preset has build patterns) and the
/// default profile, each only if the user did not define one of that name.
pub open spec fn elaborated_profiles(
    before: Seq<(Seq<char>, ProfileConfig)>,
    after: Seq<(Seq<char>, ProfileConfig)>,
    name: Seq<char>,
    preset: PresetView,
    pm: PackageManagerConfig,
) -> bool {
    let install_key = "pm-"@ + name + "-install"@;
    let build_key = "pm-"@ + name + "-build"@;
    let add_install = !has_key(before, install_key);
    let add_build = preset.build_patterns.len() > 0 && !has_key(before, build_key);
    let add_default = !has_key(before, "default"@);
    let i_build = before.len() + if add_install { 1int } else { 0 };
    let i_default = i_build + if add_build { 1int } else { 0 };
    &&& after.len() == i_default + if add_default { 1int } else { 0 }
    &&& forall|j: int| 0 <= j < before.len() ==> #[trigger] after[j] == before[j]
    &&& add_install ==> after[before.len() as int].0 == install_key && is_install_profile(
        after[before.len() as int].1,
        preset,
        pm,
    )
    &&& add_build ==> after[i_build].0 == build_key && is_build_profile(after[i_build].1, preset, pm)
    &&& add_default ==> after[i_default].0 == "default"@ && is_default_profile(after[i_default].1)
}

/// The dispatch entries after elaboration: the install rule, then the build rule
/// (when the preset has build patterns), each only if its key is new, ahead of
/// the user's rules.
pub open spec fn elaborated_dispatch(
    before: Seq<(Seq<char>, DispatchRule)>,
    after: Seq<(Seq<char>, DispatchRule)>,
    name: Seq<char>,
    preset: PresetView,
) -> bool {
    let install_key = dispatch_key(name, "install"@);
    let build_key = dispatch_key(name, "build"@);
    let add_install = !has_key(before, install_key);
    let add_build = preset.build_patterns.len() > 0 && !has_key(before, build_key);
    let front = (if add_install { 1int } else { 0 }) + (if add_build { 1int } else { 0 });
    &&& after.len() == before.len() + front
    &&& after.skip(front) == before
    &&& add_install ==> after[0].0 == install_key && views(after[0].1.patterns@) == preset.install_patterns
        && after[0].1.profile@ == "pm-"@ + name + "-install"@
    &&& add_build ==> after[front - 1].0 == build_key && views(after[front - 1].1.patterns@) == preset.build_patterns
        && after[front - 1].1.profile@ == "pm-"@ + name + "-build"@
}

/// The environment block after elaboration.
pub open spec fn elaborated_environment(
    before: Option<EnvironmentConfig>,
    after: Option<EnvironmentConfig>,
    preset: PresetView,
) -> bool {
    if preset.default_env.len() == 0 && preset.publish_token_envs.len() == 0 {
        after == before
    } else {
        after matches Some(e) && match before {
            Some(b) => views(e.pass_through@) == views(b.pass_through@) && pair_views(e.set@) == with_defaults(
                pair_views(b.set@),
                preset.default_env,
            ) && views(e.deny@) == append_missing(views(b.deny@), preset.publish_token_envs),
            None => e.pass_through@.len() == 0 && pair_views(e.set@) == with_defaults(
                Seq::empty(),
                preset.default_env,
            ) && views(e.deny@) == append_missing(Seq::empty(), preset.publish_token_envs),
        }
    }
}

/// The workspace block after elaboration: the `/workspace` read-only default
/// when there was none, with the preset's credential files masked.
pub open spec fn elaborated_workspace(before: Option<WorkspaceConfig>, after: Option<WorkspaceConfig>, preset: PresetView) -> bool {
    after matches Some(w) && match before {
        Some(b) => w.root == b.root && w.mount == b.mount && w.writable == b.writable && w.writable_paths
            == b.writable_paths && views(w.exclude_paths@) == append_missing(views(b.exclude_paths@), preset.credential_files),
        None => w.root is None && opt_str(w.mount) == Some("/workspace"@) && w.writable == Some(false)
            && w.writable_paths@.len() == 0 && views(w.exclude_paths@) == append_missing(Seq::empty(), preset.credential_files),
    }
}

/// The message for an unknown package manager name.
pub open spec fn msg_unknown_pm(name: Seq<char>) -> Seq<char> {
    "unknown package_manager name `"@ + name + "`; valid names: npm, yarn, pnpm, bun, uv, pip, poetry, cargo, go"@
}

fn elaborate_profiles(
    profiles: &mut indexmap::IndexMap<String, ProfileConfig>,
    preset: &Preset,
    pm: &PackageManagerConfig,
)
    ensures
        elaborated_profiles(profile_entries(*old(profiles)), profile_entries(*final(profiles)), pm.name@, preset.view(), *pm),
{
    let install_profile_key = concat3("pm-", pm.name.as_str(), "-install");
    let build_profile_key = concat3("pm-", pm.name.as_str(), "-build");
    let ghost name = pm.name@;
    let ghost p0 = profile_entries(*profiles);
    let add_install = profiles_index_of(profiles, install_profile_key.as_str()).is_none();
    if add_install {
        profiles_insert(profiles, install_profile_key, make_install_profile(preset, pm));
    }
    let ghost p1 = profile_entries(*profiles);
    let add_build = preset.build_patterns.len() > 0 && profiles_index_of(profiles, build_profile_key.as_str()).is_none();
    proof {
        if preset.build_patterns.len() > 0 {
            assert(has_key(p1, build_profile_key@) == has_key(p0, build_profile_key@)) by {
                if add_install {
                    assert(p1[p0.len() as int].0 != build_profile_key@) by {
                        reveal_strlit("pm-");
                        reveal_strlit("-install");
                        reveal_strlit("-build");
                        assert(("pm-"@ + name + "-install"@)[(3 + name.len() + 1) as int] == 'i');
                        assert(("pm-"@ + name + "-build"@)[(3 + name.len() + 1) as int] == 'b');
                    }
                    if has_key(p1, build_profile_key@) {
                        let j = choose|j: int| 0 <= j < p1.len() && p1[j].0 == build_profile_key@;
                        assert(p1[j] == p0[j]);
                    }
                    if has_key(p0, build_profile_key@) {
                        let j = choose|j: int| 0 <= j < p0.len() && p0[j].0 == build_profile_key@;
                        assert(p1[j] == p0[j]);
                    }
                }
            }
        }
    }
    if add_build {
        profiles_insert(profiles, build_profile_key, make_build_profile(preset, pm));
    }
    let ghost p2 = profile_entries(*profiles);
    let add_default = profiles_index_of(profiles, "default").is_none();
    proof {
        assert(has_key(p2, "default"@) == has_key(p0, "default"@)) by {
            reveal_strlit("default");
            reveal_strlit("pm-");
            reveal_strlit("-install");
            reveal_strlit("-build");
            if add_install {
                assert(p1[p0.len() as int].0[0] == 'p');
            }
            if add_build {
                assert(p2[p1.len() as int].0[0] == 'p');
            }
            if has_key(p2, "default"@) {
                let j = choose|j: int| 0 <= j < p2.len() && p2[j].0 == "default"@;
                assert(p2[j].0[0] == 'd');
                if add_build {
                    assert(j < p1.len());
                }
                if add_install {
                    assert(j < p0.len());
                }
                assert(p2[j] == p0[j]);
            }
            if has_key(p0, "default"@) {
                let j = choose|j: int| 0 <= j < p0.len() && p0[j].0 == "default"@;
                assert(p1[j] == p0[j]);
                assert(p2[j] == p1[j]);
                assert(p2[j].0 == "default"@);
            }
        }
    }
    if add_default {
        profiles_insert(profiles, owned("default"), make_default_profile());
    }
}

fn elaborate_dispatch(dispatch: &mut indexmap::IndexMap<String, DispatchRule>, preset: &Preset, pm_name: &str)
    ensures
        elaborated_dispatch(dispatch_entries(*old(dispatch)), dispatch_entries(*final(dispatch)), pm_name@, preset.view()),
{
    let install_dispatch_key = make_dispatch_key(pm_name, "install");
    let build_dispatch_key = make_dispatch_key(pm_name, "build");
    proof {
        reveal_strlit("install");
        reveal_strlit("build");
    }
    let ghost d0 = dispatch_entries(*dispatch);
    let install_patterns = list_of(preset.install_patterns);
    let build_patterns = list_of(preset.build_patterns);
    let install_rule_new = dispatch_index_of(dispatch, install_dispatch_key.as_str()).is_none();
    let build_rule_new = preset.build_patterns.len() > 0 && dispatch_index_of(dispatch, build_dispatch_key.as_str()).is_none();
    if build_rule_new {
        dispatch_insert_first(
            dispatch,
            build_dispatch_key,
            DispatchRule { patterns: build_patterns, profile: concat3("pm-", pm_name, "-build") },
        );
    }
    let ghost d1 = dispatch_entries(*dispatch);
    proof {
        assert(has_key(d1, install_dispatch_key@) == has_key(d0, install_dispatch_key@)) by {
            if build_rule_new {
                assert(d1[0].0 != install_dispatch_key@) by {
                    assert(d1[0].0.len() != install_dispatch_key@.len());
                }
                if has_key(d1, install_dispatch_key@) {
                    let j = choose|j: int| 0 <= j < d1.len() && d1[j].0 == install_dispatch_key@;
                    assert(d1[j] == d0[j - 1]);
                }
                if has_key(d0, install_dispatch_key@) {
                    let j = choose|j: int| 0 <= j < d0.len() && d0[j].0 == install_dispatch_key@;
                    assert(d1[j + 1] == d0[j]);
                }
            }
        }
    }
    if install_rule_new {
        dispatch_insert_first(
            dispatch,
            install_dispatch_key,
            DispatchRule { patterns: install_patterns, profile: concat3("pm-", pm_name, "-install") },
        );
    }
    let ghost d2 = dispatch_entries(*dispatch);
    proof {
        let front = (if install_rule_new { 1int } else { 0 }) + (if build_rule_new { 1int } else { 0 });
        assert(d2.skip(front) =~= d0);
    }
}

fn elaborate_environment(env: Option<EnvironmentConfig>, preset: &Preset) -> (r: Option<EnvironmentConfig>)
    ensures
        elaborated_environment(env, r, preset.view()),
{
    if preset.default_env.len() > 0 || preset.publish_token_envs.len() > 0 {
        let ghost before = env;
        let mut e = match env {
            Some(e) => e,
            None => EnvironmentConfig { pass_through: Vec::new(), set: Vec::new(), deny: Vec::new() },
        };
        assert(before is None ==> views(e.deny@) =~= Seq::<Seq<char>>::empty()
            && pair_views(e.set@) =~= Seq::<(Seq<char>, Seq<char>)>::empty());
        add_default_env(&mut e.set, preset.default_env);
        append_missing_exec(&mut e.deny, preset.publish_token_envs);
        Some(e)
    } else {
        env
    }
}

fn elaborate_workspace(ws: Option<WorkspaceConfig>, preset: &Preset) -> (r: Option<WorkspaceConfig>)
    ensures
        elaborated_workspace(ws, r, preset.view()),
{
    let ghost before = ws;
    let mut w = match ws {
        Some(w) => w,
        None => WorkspaceConfig {
            root: None,
            mount: Some(owned("/workspace")),
            writable: Some(false),
            writable_paths: Vec::new(),
            exclude_paths: Vec::new(),
        },
    };
    assert(before is None ==> views(w.exclude_paths@) =~= Seq::<Seq<char>>::empty());
    append_missing_exec(&mut w.exclude_paths, preset.credential_files);
    Some(w)
}

/// `after` is what elaboration makes of `before`: the same configuration
/// without a `package_manager:` block; with a known package manager, the
/// preset's runtime, image, workspace paths, environment, profiles and
/// dispatch rules filled in (never with an unknown one).
pub open spec fn elaborates(before: Config, after: Config) -> bool {
    match before.package_manager {
        None => after == before,
        Some(pm) => match preset_named(pm.name@) {
            None => false,
            Some(preset) => {
                &&& after.version == before.version
                &&& after.identity == before.identity
                &&& after.mounts == before.mounts
                &&& after.caches == before.caches
                &&& after.secrets == before.secrets
                &&& after.package_manager == before.package_manager
                &&& before.runtime is Some ==> after.runtime == before.runtime
                &&& before.runtime is None ==> after.runtime == Some(
                    RuntimeConfig {
                        backend: None,
                        rootless: None,
                        strict_security: None,
                        reuse_container: None,
                        container_name: None,
                        pull_policy: None,
                        require_pinned_image: None,
                    },
                )
                &&& before.image is Some ==> after.image == before.image
                &&& before.image is None ==> (after.image matches Some(img) && opt_str(img.reference) == Some(
                    preset.default_image,
                ) && img.build is None && img.preset is None && img.digest is None && img.verify_signature is None
                    && img.pull_policy is None && img.tag is None)
                &&& elaborated_workspace(before.workspace, after.workspace, preset)
                &&& elaborated_environment(before.environment, after.environment, preset)
                &&& elaborated_profiles(profile_entries(before.profiles), profile_entries(after.profiles), pm.name@, preset, pm)
                &&& elaborated_dispatch(dispatch_entries(before.dispatch), dispatch_entries(after.dispatch), pm.name@, preset)
            },
        },
    }
}

/// Expands the `package_manager:` block into profiles, dispatch rules and
/// defaults. User-defined profiles and rules always take precedence; the
/// generated rules go first so that they are tried before the user's.
/// Without the block nothing changes; with an unknown name nothing changes and
/// the error names it.
pub fn elaborate(config: &mut Config) -> (r: Result<(), SboxError>)
    ensures
        old(config).package_manager is None ==> r is Ok && *final(config) == *old(config),
        old(config).package_manager is Some && preset_named(old(config).package_manager->0.name@) is None
            ==> *final(config) == *old(config),
        old(config).package_manager is Some && preset_named(old(config).package_manager->0.name@) is None
            ==> (r matches Err(SboxError::ConfigValidation { message }) && message@ == msg_unknown_pm(
            old(config).package_manager->0.name@,
        )),
        old(config).package_manager matches Some(pm) ==> preset_named(pm.name@) matches Some(preset) ==> {
            &&& r is Ok
            &&& final(config).version == old(config).version
            &&& final(config).identity == old(config).identity
            &&& final(config).mounts == old(config).mounts
            &&& final(config).caches == old(config).caches
            &&& final(config).secrets == old(config).secrets
            &&& final(config).package_manager == old(config).package_manager
            &&& old(config).runtime is Some ==> final(config).runtime == old(config).runtime
            &&& old(config).runtime is None ==> final(config).runtime == Some(
                RuntimeConfig {
                    backend: None,
                    rootless: None,
                    strict_security: None,
                    reuse_container: None,
                    container_name: None,
                    pull_policy: None,
                    require_pinned_image: None,
                },
            )
            &&& old(config).image is Some ==> final(config).image == old(config).image
            &&& old(config).image is None ==> (final(config).image matches Some(img) && opt_str(img.reference) == Some(
                preset.default_image,
            ) && img.build is None && img.preset is None && img.digest is None && img.verify_signature is None
                && img.pull_policy is None && img.tag is None)
            &&& elaborated_workspace(old(config).workspace, final(config).workspace, preset)
            &&& elaborated_environment(old(config).environment, final(config).environment, preset)
            &&& elaborated_profiles(profile_entries(old(config).profiles), profile_entries(final(config).profiles), pm.name@, preset, pm)
            &&& elaborated_dispatch(dispatch_entries(old(config).dispatch), dispatch_entries(final(config).dispatch), pm.name@, preset)
        },
{
    let pm = match &config.package_manager {
        Some(pm) => pm,
        None => return Ok(()),
    };
    let preset = match lookup_preset(pm.name.as_str()) {
        Some(p) => p,
        None => {
            let message = concat3(
                "unknown package_manager name `",
                pm.name.as_str(),
                "`; valid names: npm, yarn, pnpm, bun, uv, pip, poetry, cargo, go",
            );
            return Err(SboxError::ConfigValidation { message });
        },
    };
    if config.runtime.is_none() {
        config.runtime = Some(RuntimeConfig {
            backend: None,
            rootless: None,
            strict_security: None,
            reuse_container: None,
            container_name: None,
            pull_policy: None,
            require_pinned_image: None,
        });
    }
    if config.image.is_none() {
        config.image = Some(ImageConfig {
            reference: Some(owned(preset.default_image)),
            digest: None,
            verify_signature: None,
            build: None,
            preset: None,
            pull_policy: None,
            tag: None,
        });
    }
    let pm_owned = PackageManagerConfig {
        name: pm.name.clone(),
        install_writable: clone_opt_strings(&pm.install_writable),
        build_writable: clone_opt_strings(&pm.build_writable),
        network_allow: clone_opt_strings(&pm.network_allow),
        pre_run: clone_opt_strings(&pm.pre_run),
    };
    let ws = config.workspace.take();
    config.workspace = elaborate_workspace(ws, &preset);
    let env = config.environment.take();
    config.environment = elaborate_environment(env, &preset);
    elaborate_profiles(&mut config.profiles, &preset, &pm_owned);
    elaborate_dispatch(&mut config.dispatch, &preset, pm_owned.name.as_str());
    Ok(())
}


// ---------------------------------------------------------------------------
// Elaborating twice changes nothing
// ---------------------------------------------------------------------------

proof fn lemma_append_missing_has(base: Seq<Seq<char>>, extra: Seq<Seq<char>>)
    ensures
        forall|i: int| 0 <= i < extra.len() ==> seq_has(append_missing(base, extra), #[trigger] extra[i]),
        forall|x: Seq<char>| seq_has(base, x) ==> #[trigger] seq_has(append_missing(base, extra), x),
    decreases extra.len(),
{
    if extra.len() > 0 {
        lemma_append_missing_has(base, extra.drop_last());
        let acc = append_missing(base, extra.drop_last());
        assert forall|x: Seq<char>| seq_has(acc, x) implies #[trigger] seq_has(append_missing(base, extra), x) by {
            if !seq_has(acc, extra.last()) {
                let k = choose|k: int| 0 <= k < acc.len() && acc[k] == x;
                assert(acc.push(extra.last())[k] == x);
            }
        }
        assert forall|i: int| 0 <= i < extra.len() implies seq_has(append_missing(base, extra), #[trigger] extra[i]) by {
            if i < extra.len() - 1 {
                assert(extra.drop_last()[i] == extra[i]);
            } else if !seq_has(acc, extra.last()) {
                assert(acc.push(extra.last())[acc.len() as int] == extra.last());
            }
        }
        assert forall|x: Seq<char>| seq_has(base, x) implies #[trigger] seq_has(append_missing(base, extra), x) by {
            assert(seq_has(acc, x));
        }
    }
}

proof fn lemma_append_missing_none_missing(base: Seq<Seq<char>>, extra: Seq<Seq<char>>)
    requires
        forall|i: int| 0 <= i < extra.len() ==> seq_has(base, #[trigger] extra[i]),
    ensures
        append_missing(base, extra) == base,
    decreases extra.len(),
{
    if extra.len() > 0 {
        assert forall|i: int| 0 <= i < extra.drop_last().len() implies seq_has(base, #[trigger] extra.drop_last()[i]) by {
            assert(extra.drop_last()[i] == extra[i]);
        }
        lemma_append_missing_none_missing(base, extra.drop_last());
        assert(seq_has(base, extra[extra.len() - 1]));
    }
}

/// Appending the missing strings twice appends nothing the second time.
proof fn lemma_append_missing_idempotent(base: Seq<Seq<char>>, extra: Seq<Seq<char>>)
    ensures
        append_missing(append_missing(base, extra), extra) == append_missing(base, extra),
{
    lemma_append_missing_has(base, extra);
    lemma_append_missing_none_missing(append_missing(base, extra), extra);
}

/// Some entry is named `n`.
pub open spec fn has_name(s: Seq<(Seq<char>, Seq<char>)>, n: Seq<char>) -> bool {
    exists|i: int| 0 <= i < s.len() && s[i].0 == n
}

proof fn lemma_with_defaults_names(set: Seq<(Seq<char>, Seq<char>)>, defaults: Seq<(Seq<char>, Seq<char>)>)
    ensures
        forall|i: int| 0 <= i < defaults.len() ==> has_name(with_defaults(set, defaults), #[trigger] defaults[i].0),
        forall|n: Seq<char>| has_name(set, n) ==> #[trigger] has_name(with_defaults(set, defaults), n),
    decreases defaults.len(),
{
    if defaults.len() > 0 {
        lemma_with_defaults_names(set, defaults.drop_last());
        let acc = with_defaults(set, defaults.drop_last());
        let d = defaults.last();
        let present = exists|i: int| 0 <= i < acc.len() && acc[i].0 == d.0;
        if !present {
            lemma_insert_keeps(acc, d);
        }
        assert forall|n: Seq<char>| has_name(acc, n) implies #[trigger] has_name(with_defaults(set, defaults), n) by {
            if !present {
                lemma_insert_keeps(acc, d);
            }
        }
        assert forall|i: int| 0 <= i < defaults.len() implies has_name(with_defaults(set, defaults), #[trigger] defaults[i].0) by {
            if i < defaults.len() - 1 {
                assert(defaults.drop_last()[i] == defaults[i]);
                assert(has_name(acc, defaults[i].0));
            } else {
                if present {
                    assert(has_name(acc, d.0));
                } else {
                    lemma_insert_keeps(acc, d);
                }
            }
        }
        assert forall|n: Seq<char>| has_name(set, n) implies #[trigger] has_name(with_defaults(set, defaults), n) by {
            assert(has_name(acc, n));
        }
    }
}

/// Inserting keeps every name and adds the inserted one.
proof fn lemma_insert_keeps(s: Seq<(Seq<char>, Seq<char>)>, e: (Seq<char>, Seq<char>))
    ensures
        has_name(crate::lock::insert_by_path(s, e), e.0),
        forall|n: Seq<char>| has_name(s, n) ==> #[trigger] has_name(crate::lock::insert_by_path(s, e), n),
    decreases s.len(),
{
    let r = crate::lock::insert_by_path(s, e);
    if s.len() == 0 {
        assert(r[0] == e);
    } else if crate::order::lex_lt(e.0, s.last().0) {
        lemma_insert_keeps(s.drop_last(), e);
        let q = crate::lock::insert_by_path(s.drop_last(), e);
        assert(r == q.push(s.last()));
        let k0 = choose|k: int| 0 <= k < q.len() && q[k].0 == e.0;
        assert(r[k0] == q[k0]);
        assert forall|n: Seq<char>| has_name(s, n) implies #[trigger] has_name(r, n) by {
            let k = choose|k: int| 0 <= k < s.len() && s[k].0 == n;
            if k == s.len() - 1 {
                assert(r[q.len() as int] == s.last());
            } else {
                assert(s.drop_last()[k] == s[k]);
                assert(has_name(s.drop_last(), n));
                assert(has_name(q, n));
                let m = choose|m: int| 0 <= m < q.len() && q[m].0 == n;
                assert(r[m] == q[m]);
            }
        }
    } else {
        assert(r == s.push(e));
        assert(r[s.len() as int] == e);
        assert forall|n: Seq<char>| has_name(s, n) implies #[trigger] has_name(r, n) by {
            let k = choose|k: int| 0 <= k < s.len() && s[k].0 == n;
            assert(r[k] == s[k]);
        }
    }
}

proof fn lemma_with_defaults_none_missing(set: Seq<(Seq<char>, Seq<char>)>, defaults: Seq<(Seq<char>, Seq<char>)>)
    requires
        forall|i: int| 0 <= i < defaults.len() ==> has_name(set, #[trigger] defaults[i].0),
    ensures
        with_defaults(set, defaults) == set,
    decreases defaults.len(),
{
    if defaults.len() > 0 {
        assert forall|i: int| 0 <= i < defaults.drop_last().len() implies has_name(set, #[trigger] defaults.drop_last()[i].0) by {
            assert(defaults.drop_last()[i] == defaults[i]);
        }
        lemma_with_defaults_none_missing(set, defaults.drop_last());
        assert(has_name(set, defaults[defaults.len() - 1].0));
    }
}

/// Adding the default variables twice adds nothing the second time.
proof fn lemma_with_defaults_idempotent(set: Seq<(Seq<char>, Seq<char>)>, defaults: Seq<(Seq<char>, Seq<char>)>)
    ensures
        with_defaults(with_defaults(set, defaults), defaults) == with_defaults(set, defaults),
{
    lemma_with_defaults_names(set, defaults);
    lemma_with_defaults_none_missing(with_defaults(set, defaults), defaults);
}

/// Elaborating an elaborated configuration changes nothing: the package
/// manager, runtime, image, workspace, environment, profiles and dispatch
/// rules come out as they went in.
pub proof fn law_elaboration_is_idempotent(c: Config, c1: Config, c2: Config)
    requires
        elaborates(c, c1),
        elaborates(c1, c2),
    ensures
        c2.version == c1.version,
        c2.identity == c1.identity,
        c2.mounts == c1.mounts,
        c2.caches == c1.caches,
        c2.secrets == c1.secrets,
        c2.package_manager == c1.package_manager,
        c2.runtime == c1.runtime,
        c2.image == c1.image,
        profile_entries(c2.profiles) == profile_entries(c1.profiles),
        dispatch_entries(c2.dispatch) == dispatch_entries(c1.dispatch),
        match (c1.workspace, c2.workspace) {
            (Some(w1), Some(w2)) => w2.root == w1.root && w2.mount == w1.mount && w2.writable == w1.writable
                && w2.writable_paths == w1.writable_paths && views(w2.exclude_paths@) == views(w1.exclude_paths@),
            (None, None) => true,
            _ => false,
        },
        match (c1.environment, c2.environment) {
            (Some(e1), Some(e2)) => views(e2.pass_through@) == views(e1.pass_through@) && pair_views(e2.set@)
                == pair_views(e1.set@) && views(e2.deny@) == views(e1.deny@),
            (None, None) => true,
            _ => false,
        },
{
    match c.package_manager {
        None => {},
        Some(pm) => {
            let preset = preset_named(pm.name@).unwrap();
            assert(c1.package_manager == Some(pm));
            // profiles: every key the first pass adds is there for the second.
            let p0 = profile_entries(c.profiles);
            let p1 = profile_entries(c1.profiles);
            let p2 = profile_entries(c2.profiles);
            let ik = "pm-"@ + pm.name@ + "-install"@;
            let bk = "pm-"@ + pm.name@ + "-build"@;
            assert forall|k: Seq<char>| has_key(p0, k) implies #[trigger] has_key(p1, k) by {
                let j = choose|j: int| 0 <= j < p0.len() && p0[j].0 == k;
                assert(p1[j] == p0[j]);
            }
            if !has_key(p0, ik) {
                assert(p1[p0.len() as int].0 == ik);
            }
            assert(has_key(p1, ik));
            if preset.build_patterns.len() > 0 {
                let ib = p0.len() + if !has_key(p0, ik) { 1int } else { 0 };
                if !has_key(p0, bk) {
                    assert(p1[ib].0 == bk);
                }
                assert(has_key(p1, bk));
            }
            if !has_key(p0, "default"@) {
                let ib = p0.len() + (if !has_key(p0, ik) { 1int } else { 0 }) + (if preset.build_patterns.len() > 0
                    && !has_key(p0, bk) { 1int } else { 0 });
                assert(p1[ib].0 == "default"@);
            }
            assert(has_key(p1, "default"@));
            assert(p2 =~= p1);
            // dispatch rules
            let d0 = dispatch_entries(c.dispatch);
            let d1 = dispatch_entries(c1.dispatch);
            let d2 = dispatch_entries(c2.dispatch);
            let dik = dispatch_key(pm.name@, "install"@);
            let dbk = dispatch_key(pm.name@, "build"@);
            let front = (if !has_key(d0, dik) { 1int } else { 0 }) + (if preset.build_patterns.len() > 0 && !has_key(d0, dbk) { 1int } else { 0 });
            assert forall|k: Seq<char>| has_key(d0, k) implies #[trigger] has_key(d1, k) by {
                let j = choose|j: int| 0 <= j < d0.len() && d0[j].0 == k;
                assert(d1.skip(front)[j] == d0[j]);
                assert(d1[j + front] == d0[j]);
            }
            if !has_key(d0, dik) {
                assert(d1[0].0 == dik);
            }
            assert(has_key(d1, dik));
            if preset.build_patterns.len() > 0 {
                if !has_key(d0, dbk) {
                    assert(d1[front - 1].0 == dbk);
                }
                assert(has_key(d1, dbk));
            }
            assert(d2.skip(0) =~= d2);
            assert(d2 =~= d1);
            // workspace
            match c.workspace {
                Some(b) => lemma_append_missing_idempotent(views(b.exclude_paths@), preset.credential_files),
                None => lemma_append_missing_idempotent(Seq::empty(), preset.credential_files),
            }
            // environment
            if !(preset.default_env.len() == 0 && preset.publish_token_envs.len() == 0) {
                match c.environment {
                    Some(b) => {
                        lemma_with_defaults_idempotent(pair_views(b.set@), preset.default_env);
                        lemma_append_missing_idempotent(views(b.deny@), preset.publish_token_envs);
                    },
                    None => {
                        lemma_with_defaults_idempotent(Seq::empty(), preset.default_env);
                        lemma_append_missing_idempotent(Seq::empty(), preset.publish_token_envs);
                    },
                }
            }
        },
    }
}

} // verus!
