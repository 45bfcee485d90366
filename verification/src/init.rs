//! `sbox init`: the configuration templates of each preset and the edits
//! that tailor a generated configuration to the project.

use vstd::prelude::*;

use crate::error::SboxError;
use crate::paths::path_join;
use crate::resolve::{replace_all, opt_chars};
use crate::text::{
    concat2, concat3, eq_str, join, join_strings, owned, push_string, seq_has, starts_with,
    str_starts_with, strings_contain, views, contains, str_contains, str_chars, string_from_chars,
};

verus! {


/// Part 0 of the preset template text.
pub open spec fn template_part0() -> Seq<char> {
    "version: 1

# ── Runtime ───────────────────────────────────────────────────────────────────
# Pin the backend here instead of relying on auto-detection. Podman is preferred
# when available, but switch to Docker if the project already uses it.
runtime:
  backend: podman
  rootless: true
  pull_policy: if-missing   # if-missing | always | never
  strict_security: false
  reuse_container: false
  require_pinned_image: false
  # compose:
  #   file: docker-compose.yml
  #   services:
  #     - db
  #     - redis

# ── Workspace ─────────────────────────────────────────────────────────────────
# The workspace is mounted read-only by default. Add paths below when a command
# needs to write artifacts such as lockfiles, dependency directories, or build output.
workspace:
  root: .
  mount: /workspace           # container path the workspace is mounted at
  writable: false             # read-only by default — safer for install sandboxes
  # writable_paths:
  #   - .venv
  exclude_paths:              # paths masked (not visible) inside the container
"@
}

fn template_part0_text() -> (r: &'static str)
    ensures
        r@ == template_part0(),
{
    "version: 1

# ── Runtime ───────────────────────────────────────────────────────────────────
# Pin the backend here instead of relying on auto-detection. Podman is preferred
# when available, but switch to Docker if the project already uses it.
runtime:
  backend: podman
  rootless: true
  pull_policy: if-missing   # if-missing | always | never
  strict_security: false
  reuse_container: false
  require_pinned_image: false
  # compose:
  #   file: docker-compose.yml
  #   services:
  #     - db
  #     - redis

# ── Workspace ─────────────────────────────────────────────────────────────────
# The workspace is mounted read-only by default. Add paths below when a command
# needs to write artifacts such as lockfiles, dependency directories, or build output.
workspace:
  root: .
  mount: /workspace           # container path the workspace is mounted at
  writable: false             # read-only by default — safer for install sandboxes
  # writable_paths:
  #   - .venv
  exclude_paths:              # paths masked (not visible) inside the container
"
}

/// Part 1 of the preset template text.
pub open spec fn template_part1() -> Seq<char> {
    "

# ── Image ─────────────────────────────────────────────────────────────────────
# Pick either an image reference or a local build. Leave `ref:` as-is if the
# stock image is fine, or switch to `build:` if your repo already has a container file.
image:
"@
}

fn template_part1_text() -> (r: &'static str)
    ensures
        r@ == template_part1(),
{
    "

# ── Image ─────────────────────────────────────────────────────────────────────
# Pick either an image reference or a local build. Leave `ref:` as-is if the
# stock image is fine, or switch to `build:` if your repo already has a container file.
image:
"
}

/// Part 2 of the preset template text.
pub open spec fn template_part2() -> Seq<char> {
    "
  pull_policy: if-missing     # if-missing | always | never
  # digest: sha256:...
  # build: Dockerfile
  # preset: python

# ── Environment ───────────────────────────────────────────────────────────────
# Forward only the host variables you actually need.
environment:
  pass_through:
    - TERM                    # host env vars forwarded into the sandbox
  # set:
  #   KEY: value
  # deny:
  #   - SECRET_TOKEN

# ── Identity ──────────────────────────────────────────────────────────────────
identity:
  map_user: true
  # uid: 1000
  # gid: 1000

# ── Mounts ────────────────────────────────────────────────────────────────────
# mounts:
#   - type: bind
#     source: ./fixtures
#     target: /fixtures
#     read_only: true

# ── Caches ────────────────────────────────────────────────────────────────────
# caches:
#   - name: build-cache
#     target: /var/cache/build
#     read_only: false

# ── Secrets ───────────────────────────────────────────────────────────────────
# secrets:
#   - name: registry-token
#     source: /home/user/.config/registry/token
#     target: /run/secrets/registry-token
#     when_profiles:
#       - serve
#     deny_roles: [install]

# ── Package manager ───────────────────────────────────────────────────────────
# Automatically generates install/build/default profiles and dispatch rules.
package_manager:
  name: "@
}

fn template_part2_text() -> (r: &'static str)
    ensures
        r@ == template_part2(),
{
    "
  pull_policy: if-missing     # if-missing | always | never
  # digest: sha256:...
  # build: Dockerfile
  # preset: python

# ── Environment ───────────────────────────────────────────────────────────────
# Forward only the host variables you actually need.
environment:
  pass_through:
    - TERM                    # host env vars forwarded into the sandbox
  # set:
  #   KEY: value
  # deny:
  #   - SECRET_TOKEN

# ── Identity ──────────────────────────────────────────────────────────────────
identity:
  map_user: true
  # uid: 1000
  # gid: 1000

# ── Mounts ────────────────────────────────────────────────────────────────────
# mounts:
#   - type: bind
#     source: ./fixtures
#     target: /fixtures
#     read_only: true

# ── Caches ────────────────────────────────────────────────────────────────────
# caches:
#   - name: build-cache
#     target: /var/cache/build
#     read_only: false

# ── Secrets ───────────────────────────────────────────────────────────────────
# secrets:
#   - name: registry-token
#     source: /home/user/.config/registry/token
#     target: /run/secrets/registry-token
#     when_profiles:
#       - serve
#     deny_roles: [install]

# ── Package manager ───────────────────────────────────────────────────────────
# Automatically generates install/build/default profiles and dispatch rules.
package_manager:
  name: "
}

/// Part 3 of the preset template text.
pub open spec fn template_part3() -> Seq<char> {
    "
  # install_writable:
  #   - .venv
  # build_writable:
  #   - dist
  # network_allow:
  #   - pypi.org
  # pre_run:
  #   - python -m pip --version

# ── Profiles ──────────────────────────────────────────────────────────────────
# package_manager: above generates install/build/default profiles automatically.
# Uncomment an extra profile only when you need behavior beyond what
# `package_manager:` generates automatically.
# Example extra profile:
"@
}

fn template_part3_text() -> (r: &'static str)
    ensures
        r@ == template_part3(),
{
    "
  # install_writable:
  #   - .venv
  # build_writable:
  #   - dist
  # network_allow:
  #   - pypi.org
  # pre_run:
  #   - python -m pip --version

# ── Profiles ──────────────────────────────────────────────────────────────────
# package_manager: above generates install/build/default profiles automatically.
# Uncomment an extra profile only when you need behavior beyond what
# `package_manager:` generates automatically.
# Example extra profile:
"
}

/// Part 4 of the preset template text.
pub open spec fn template_part4() -> Seq<char> {
    "

# ── Dispatch ──────────────────────────────────────────────────────────────────
# Routes commands to profiles. Patterns use * wildcards.
# `package_manager:` already generates install/build dispatch rules.
# Example dispatch rule:
"@
}

fn template_part4_text() -> (r: &'static str)
    ensures
        r@ == template_part4(),
{
    "

# ── Dispatch ──────────────────────────────────────────────────────────────────
# Routes commands to profiles. Patterns use * wildcards.
# `package_manager:` already generates install/build dispatch rules.
# Example dispatch rule:
"
}

/// Part 5 of the preset template text.
pub open spec fn template_part5() -> Seq<char> {
    "

# ── Custom commands ───────────────────────────────────────────────────────────
# Define short aliases for common development tasks.
# commands:  # Example command alias.
#   build:
#     run: [\"npm\", \"run\", \"build\"]
#     profile: default
#     description: \"Build project\"
"@
}

fn template_part5_text() -> (r: &'static str)
    ensures
        r@ == template_part5(),
{
    "

# ── Custom commands ───────────────────────────────────────────────────────────
# Define short aliases for common development tasks.
# commands:  # Example command alias.
#   build:
#     run: [\"npm\", \"run\", \"build\"]
#     profile: default
#     description: \"Build project\"
"
}

/// The text of the generic template.
pub open spec fn generic_template() -> Seq<char> {
    "version: 1

# ── Runtime ───────────────────────────────────────────────────────────────────
# Leave `backend: podman` if you use rootless Podman. Change to `docker` when
# the project already uses Docker.
runtime:
  backend: podman
  rootless: true
  pull_policy: if-missing    # if-missing | always | never
  strict_security: false
  reuse_container: false
  require_pinned_image: false
  # compose:
  #   file: docker-compose.yml
  #   services:
  #     - db
  #     - redis

# ── Workspace ─────────────────────────────────────────────────────────────────
# `root` is the host directory mounted into the sandbox at `mount`.
workspace:
  root: .
  mount: /workspace
  writable: true
  # writable_paths:
  #   - dist
  exclude_paths:
    - \".ssh/*\"
    - \".aws/*\"
    # - .env
    # - .netrc

# ── Image ─────────────────────────────────────────────────────────────────────
# Use `ref:` for a published image. Switch to `build:` if the repo already has a
# Dockerfile or Containerfile that should define the sandbox image.
image:
  ref: ubuntu:24.04
  pull_policy: if-missing    # if-missing | always | never
  # digest: sha256:...
  # build: Dockerfile
  # preset: python

# ── Environment ───────────────────────────────────────────────────────────────
# Forward only the host variables you actually need.
environment:
  pass_through:
    - TERM
  # set:
  #   MY_VAR: value
  # deny:
  #   - SECRET_TOKEN

# ── Identity ──────────────────────────────────────────────────────────────────
identity:
  map_user: true
  # uid: 1000
  # gid: 1000

# ── Mounts ────────────────────────────────────────────────────────────────────
# mounts:
#   - type: bind
#     source: ./fixtures
#     target: /fixtures
#     read_only: true

# ── Caches ────────────────────────────────────────────────────────────────────
# caches:
#   - name: pip-cache
#     target: /root/.cache/pip
#     read_only: false

# ── Secrets ───────────────────────────────────────────────────────────────────
# secrets:
#   - name: pypi-token
#     source: /home/user/.config/pypi/token
#     target: /run/secrets/pypi-token
#     when_profiles:
#       - serve
#     deny_roles: [install]

# ── Profiles ──────────────────────────────────────────────────────────────────
# `default` handles commands that do not match a dispatch rule.
profiles:
  default:
    mode: sandbox
    network: off
    network_policy: dns      # dns | firewall
    writable: true
    no_new_privileges: true
    read_only_rootfs: false
    reuse_container: false
    shell: /bin/sh
    require_pinned_image: false
    require_lockfile: false
    capabilities:
      drop: [ALL]
      # add:
      #   - NET_BIND_SERVICE
    # network_allow:
    #   - api.example.com
    # writable_paths:
    #   - dist
    # ports:
    #   - \"8000:8000\"
    # compose:
    #   file: docker-compose.yml
    #   services:
    #     - db
    #     - redis

  host:
    mode: host
    network: on
    writable: true

# profiles:  # Example custom profile.
#   serve:
#     mode: sandbox
#     network: on
#     network_allow:
#       - api.example.com
#     writable: false
#     writable_paths:
#       - dist
#     ports:
#       - \"8000:8000\"

# ── Dispatch ──────────────────────────────────────────────────────────────────
# Routes commands to profiles. Patterns support * wildcards.
# dispatch:  # Example: route `python -m http.server ...` to the `serve` profile.
#   serve:
#     match:
#       - \"python -m http.server*\"
#     profile: serve

# ── Custom commands ───────────────────────────────────────────────────────────
# Define shortcuts such as `sbox build` or `sbox test`.
# commands:  # Example command alias.
#   build:
#     run: [\"cargo\", \"build\", \"--release\"]
#     profile: default        # optional
#     description: \"Build project\"
"@
}

fn generic_template_text() -> (r: &'static str)
    ensures
        r@ == generic_template(),
{
    "version: 1

# ── Runtime ───────────────────────────────────────────────────────────────────
# Leave `backend: podman` if you use rootless Podman. Change to `docker` when
# the project already uses Docker.
runtime:
  backend: podman
  rootless: true
  pull_policy: if-missing    # if-missing | always | never
  strict_security: false
  reuse_container: false
  require_pinned_image: false
  # compose:
  #   file: docker-compose.yml
  #   services:
  #     - db
  #     - redis

# ── Workspace ─────────────────────────────────────────────────────────────────
# `root` is the host directory mounted into the sandbox at `mount`.
workspace:
  root: .
  mount: /workspace
  writable: true
  # writable_paths:
  #   - dist
  exclude_paths:
    - \".ssh/*\"
    - \".aws/*\"
    # - .env
    # - .netrc

# ── Image ─────────────────────────────────────────────────────────────────────
# Use `ref:` for a published image. Switch to `build:` if the repo already has a
# Dockerfile or Containerfile that should define the sandbox image.
image:
  ref: ubuntu:24.04
  pull_policy: if-missing    # if-missing | always | never
  # digest: sha256:...
  # build: Dockerfile
  # preset: python

# ── Environment ───────────────────────────────────────────────────────────────
# Forward only the host variables you actually need.
environment:
  pass_through:
    - TERM
  # set:
  #   MY_VAR: value
  # deny:
  #   - SECRET_TOKEN

# ── Identity ──────────────────────────────────────────────────────────────────
identity:
  map_user: true
  # uid: 1000
  # gid: 1000

# ── Mounts ────────────────────────────────────────────────────────────────────
# mounts:
#   - type: bind
#     source: ./fixtures
#     target: /fixtures
#     read_only: true

# ── Caches ────────────────────────────────────────────────────────────────────
# caches:
#   - name: pip-cache
#     target: /root/.cache/pip
#     read_only: false

# ── Secrets ───────────────────────────────────────────────────────────────────
# secrets:
#   - name: pypi-token
#     source: /home/user/.config/pypi/token
#     target: /run/secrets/pypi-token
#     when_profiles:
#       - serve
#     deny_roles: [install]

# ── Profiles ──────────────────────────────────────────────────────────────────
# `default` handles commands that do not match a dispatch rule.
profiles:
  default:
    mode: sandbox
    network: off
    network_policy: dns      # dns | firewall
    writable: true
    no_new_privileges: true
    read_only_rootfs: false
    reuse_container: false
    shell: /bin/sh
    require_pinned_image: false
    require_lockfile: false
    capabilities:
      drop: [ALL]
      # add:
      #   - NET_BIND_SERVICE
    # network_allow:
    #   - api.example.com
    # writable_paths:
    #   - dist
    # ports:
    #   - \"8000:8000\"
    # compose:
    #   file: docker-compose.yml
    #   services:
    #     - db
    #     - redis

  host:
    mode: host
    network: on
    writable: true

# profiles:  # Example custom profile.
#   serve:
#     mode: sandbox
#     network: on
#     network_allow:
#       - api.example.com
#     writable: false
#     writable_paths:
#       - dist
#     ports:
#       - \"8000:8000\"

# ── Dispatch ──────────────────────────────────────────────────────────────────
# Routes commands to profiles. Patterns support * wildcards.
# dispatch:  # Example: route `python -m http.server ...` to the `serve` profile.
#   serve:
#     match:
#       - \"python -m http.server*\"
#     profile: serve

# ── Custom commands ───────────────────────────────────────────────────────────
# Define shortcuts such as `sbox build` or `sbox test`.
# commands:  # Example command alias.
#   build:
#     run: [\"cargo\", \"build\", \"--release\"]
#     profile: default        # optional
#     description: \"Build project\"
"
}

/// The package manager, image line, excluded paths and example comments of
/// a language preset's template.
pub struct TemplateParams {
    pub pm_name: &'static str,
    pub image_line: &'static str,
    pub exclude_paths: Vec<&'static str>,
    pub profile_comment: &'static str,
    pub dispatch_comment: &'static str,
}

/// The template parameters of a language preset by their characters.
pub type ParamsView = (Seq<char>, Seq<char>, Seq<Seq<char>>, Seq<char>, Seq<char>);

/// The language presets' template parameters (`python` and `uv` share theirs).
pub open spec fn preset_params(preset: Seq<char>) -> Option<ParamsView> {
    if preset == "node"@ {
        Some(("npm"@, "  ref: node:22-bookworm-slim"@, seq![".env"@, ".env.local"@, ".env.production"@, ".env.development"@, ".npmrc"@, ".netrc"@, "\".ssh/*\""@, "\".aws/*\""@], "\
# profiles:  # Example: dev server profile with published port 3000.\n\
#   serve:\n\
#     mode: sandbox\n\
#     network: on\n\
#     network_allow:\n\
#       - api.example.com\n\
#     ports:\n\
#       - \"3000:3000\"\n\
#     writable: false\n\
#     writable_paths:\n\
#       - node_modules"@, "\
# dispatch:  # Example: route dev-server commands to the `serve` profile.\n\
#   serve:\n\
#     match:\n\
#       - \"node*\"\n\
#       - \"npx*\"\n\
#     profile: serve"@))
    } else if preset == "python"@ || preset == "uv"@ {
        Some(("uv"@, "  ref: ghcr.io/astral-sh/uv:python3.13-bookworm-slim"@, seq![".env"@, ".env.local"@, ".netrc"@, "\".ssh/*\""@, "\".aws/*\""@], "\
# profiles:  # Example: app server profile with published port 8000.\n\
#   serve:\n\
#     mode: sandbox\n\
#     network: on\n\
#     network_allow:\n\
#       - api.example.com\n\
#     ports:\n\
#       - \"8000:8000\"\n\
#     writable: false\n\
#     writable_paths:\n\
#       - .venv"@, "\
# dispatch:  # Example: route `uv run ...` commands to the `serve` profile.\n\
#   serve:\n\
#     match:\n\
#       - \"uv run*\"\n\
#     profile: serve"@))
    } else if preset == "rust"@ {
        Some(("cargo"@, "  ref: rust:1-bookworm"@, seq!["\".ssh/*\""@, "\".aws/*\""@], "\
# profiles:  # Example: profile for running the compiled binary.\n\
#   run:\n\
#     mode: sandbox\n\
#     network: off\n\
#     writable: false\n\
#     writable_paths:\n\
#       - target"@, "\
# dispatch:  # Example: route `cargo run ...` to the `run` profile.\n\
#   run:\n\
#     match:\n\
#       - \"cargo run*\"\n\
#     profile: run"@))
    } else if preset == "go"@ {
        Some(("go"@, "  ref: golang:1.23-bookworm"@, seq!["\".ssh/*\""@, "\".aws/*\""@], "\
# profiles:  # Example: profile for running the compiled binary.\n\
#   run:\n\
#     mode: sandbox\n\
#     network: off\n\
#     writable: false"@, "\
# dispatch:  # Example: route `go run ...` to the `run` profile.\n\
#   run:\n\
#     match:\n\
#       - \"go run*\"\n\
#     profile: run"@))
    } else {
        None
    }
}

/// The template parameters of a language preset, if it is one.
pub fn template_params(preset: &str) -> (r: Option<TemplateParams>)
    ensures
        match preset_params(preset@) {
            Some(v) => r is Some && params_view(r->Some_0) == v,
            None => r is None,
        },
{
    if eq_str(preset, "node") {
        let exclude_paths = vec![".env", ".env.local", ".env.production", ".env.development", ".npmrc", ".netrc", "\".ssh/*\"", "\".aws/*\""];
        assert(crate::text::str_views(exclude_paths@) =~= seq![".env"@, ".env.local"@, ".env.production"@, ".env.development"@, ".npmrc"@, ".netrc"@, "\".ssh/*\""@, "\".aws/*\""@]);
        Some(TemplateParams {
            pm_name: "npm",
            image_line: "  ref: node:22-bookworm-slim",
            exclude_paths,
            profile_comment: "\
# profiles:  # Example: dev server profile with published port 3000.\n\
#   serve:\n\
#     mode: sandbox\n\
#     network: on\n\
#     network_allow:\n\
#       - api.example.com\n\
#     ports:\n\
#       - \"3000:3000\"\n\
#     writable: false\n\
#     writable_paths:\n\
#       - node_modules",
            dispatch_comment: "\
# dispatch:  # Example: route dev-server commands to the `serve` profile.\n\
#   serve:\n\
#     match:\n\
#       - \"node*\"\n\
#       - \"npx*\"\n\
#     profile: serve",
        })
    } else if eq_str(preset, "python") || eq_str(preset, "uv") {
        let exclude_paths = vec![".env", ".env.local", ".netrc", "\".ssh/*\"", "\".aws/*\""];
        assert(crate::text::str_views(exclude_paths@) =~= seq![".env"@, ".env.local"@, ".netrc"@, "\".ssh/*\""@, "\".aws/*\""@]);
        Some(TemplateParams {
            pm_name: "uv",
            image_line: "  ref: ghcr.io/astral-sh/uv:python3.13-bookworm-slim",
            exclude_paths,
            profile_comment: "\
# profiles:  # Example: app server profile with published port 8000.\n\
#   serve:\n\
#     mode: sandbox\n\
#     network: on\n\
#     network_allow:\n\
#       - api.example.com\n\
#     ports:\n\
#       - \"8000:8000\"\n\
#     writable: false\n\
#     writable_paths:\n\
#       - .venv",
            dispatch_comment: "\
# dispatch:  # Example: route `uv run ...` commands to the `serve` profile.\n\
#   serve:\n\
#     match:\n\
#       - \"uv run*\"\n\
#     profile: serve",
        })
    } else if eq_str(preset, "rust") {
        let exclude_paths = vec!["\".ssh/*\"", "\".aws/*\""];
        assert(crate::text::str_views(exclude_paths@) =~= seq!["\".ssh/*\""@, "\".aws/*\""@]);
        Some(TemplateParams {
            pm_name: "cargo",
            image_line: "  ref: rust:1-bookworm",
            exclude_paths,
            profile_comment: "\
# profiles:  # Example: profile for running the compiled binary.\n\
#   run:\n\
#     mode: sandbox\n\
#     network: off\n\
#     writable: false\n\
#     writable_paths:\n\
#       - target",
            dispatch_comment: "\
# dispatch:  # Example: route `cargo run ...` to the `run` profile.\n\
#   run:\n\
#     match:\n\
#       - \"cargo run*\"\n\
#     profile: run",
        })
    } else if eq_str(preset, "go") {
        let exclude_paths = vec!["\".ssh/*\"", "\".aws/*\""];
        assert(crate::text::str_views(exclude_paths@) =~= seq!["\".ssh/*\""@, "\".aws/*\""@]);
        Some(TemplateParams {
            pm_name: "go",
            image_line: "  ref: golang:1.23-bookworm",
            exclude_paths,
            profile_comment: "\
# profiles:  # Example: profile for running the compiled binary.\n\
#   run:\n\
#     mode: sandbox\n\
#     network: off\n\
#     writable: false",
            dispatch_comment: "\
# dispatch:  # Example: route `go run ...` to the `run` profile.\n\
#   run:\n\
#     match:\n\
#       - \"go run*\"\n\
#     profile: run",
        })
    } else {
        None
    }
}

/// Template parameters by their characters.
pub open spec fn params_view(p: TemplateParams) -> ParamsView {
    (p.pm_name@, p.image_line@, crate::text::str_views(p.exclude_paths@), p.profile_comment@, p.dispatch_comment@)
}

/// The lines listing the excluded paths: `    - path` each, one per line.
pub open spec fn exclude_lines(paths: Seq<Seq<char>>) -> Seq<char> {
    join(paths.map_values(|e: Seq<char>| "    - "@ + e), "\n"@)
}

/// The full template of a language preset, with its image line.
pub open spec fn full_template_text(pm: Seq<char>, image_line: Seq<char>, excludes: Seq<Seq<char>>, profile_comment: Seq<char>, dispatch_comment: Seq<char>) -> Seq<char> {
    template_part0() + exclude_lines(excludes) + template_part1() + image_line + template_part2() + pm + template_part3()
        + profile_comment + template_part4() + dispatch_comment + template_part5()
}

/// The full template text of template parameters, with the given image line.
pub fn full_template(p: &TemplateParams, image_line: &str) -> (r: String)
    ensures
        r@ == full_template_text(p.pm_name@, image_line@, crate::text::str_views(p.exclude_paths@), p.profile_comment@, p.dispatch_comment@),
{
    let mut lines: Vec<String> = Vec::new();
    let mut i: usize = 0;
    let ghost ev = crate::text::str_views(p.exclude_paths@).map_values(|e: Seq<char>| "    - "@ + e);
    proof {
        reveal_strlit("    - ");
        reveal_strlit("\n");
    }
    while i < p.exclude_paths.len()
        invariant
            i <= p.exclude_paths@.len(),
            ev == crate::text::str_views(p.exclude_paths@).map_values(|e: Seq<char>| "    - "@ + e),
            views(lines@) == ev.take(i as int),
        decreases p.exclude_paths@.len() - i,
    {
        let line = concat2("    - ", p.exclude_paths[i]);
        let ghost lv = line@;
        let ghost before = views(lines@);
        lines.push(line);
        assert(views(lines@) =~= before.push(lv));
        assert(views(lines@) =~= ev.take(i + 1));
        i = i + 1;
    }
    assert(ev.take(ev.len() as int) =~= ev);
    let exclude = join_strings(lines.as_slice(), "\n");
    let mut out = owned(template_part0_text());
    crate::text::append(&mut out, exclude.as_str());
    crate::text::append(&mut out, template_part1_text());
    crate::text::append(&mut out, image_line);
    crate::text::append(&mut out, template_part2_text());
    crate::text::append(&mut out, p.pm_name);
    crate::text::append(&mut out, template_part3_text());
    crate::text::append(&mut out, p.profile_comment);
    crate::text::append(&mut out, template_part4_text());
    crate::text::append(&mut out, p.dispatch_comment);
    crate::text::append(&mut out, template_part5_text());
    out
}

/// The template text of a preset: a language preset's full template, the
/// generic one for `generic` and `polyglot`; other names are not presets.
pub open spec fn template_of(preset: Seq<char>, image_line: Option<Seq<char>>) -> Option<Seq<char>> {
    match preset_params(preset) {
        Some((pm, img, ex, pc, dc)) => Some(
            full_template_text(
                pm,
                match image_line {
                    Some(l) => l,
                    None => img,
                },
                ex,
                pc,
                dc,
            ),
        ),
        None => if preset == "generic"@ || preset == "polyglot"@ {
            Some(generic_template())
        } else {
            None
        },
    }
}

/// The `sbox.yaml` template of a preset.
pub fn render_template(preset: &str) -> (r: Result<String, SboxError>)
    ensures
        match template_of(preset@, None) {
            Some(t) => r is Ok && r->Ok_0@ == t,
            None => r matches Err(SboxError::UnknownPreset { name }) && name@ == preset@,
        },
{
    match template_params(preset) {
        Some(p) => Ok(full_template(&p, p.image_line)),
        None => {
            if eq_str(preset, "generic") || eq_str(preset, "polyglot") {
                Ok(owned(generic_template_text()))
            } else {
                Err(SboxError::UnknownPreset { name: owned(preset) })
            }
        },
    }
}

/// The template of a preset with another image line (language presets
/// only; others as `render_template`).
pub fn render_template_with_image_line(preset: &str, image_line: &str) -> (r: Result<String, SboxError>)
    ensures
        match template_of(preset@, Some(image_line@)) {
            Some(t) => r is Ok && r->Ok_0@ == t,
            None => r matches Err(SboxError::UnknownPreset { name }) && name@ == preset@,
        },
{
    match template_params(preset) {
        Some(p) => Ok(full_template(&p, image_line)),
        None => render_template(preset),
    }
}

// ---------------------------------------------------------------------------
// Edits of a generated configuration
// ---------------------------------------------------------------------------

/// `s` with the first occurrence of `from` replaced by `to`; an empty `from`
/// occurs first, so `to` goes in front (`str::replacen(from, to, 1)`).
pub open spec fn replace_first(s: Seq<char>, from: Seq<char>, to: Seq<char>) -> Seq<char>
    decreases s.len(),
{
    if from.len() == 0 {
        to + s
    } else if s.len() == 0 {
        s
    } else if starts_with(s, from) {
        to + s.skip(from.len() as int)
    } else {
        seq![s[0]] + replace_first(s.drop_first(), from, to)
    }
}

/// `s.replacen(from, to, 1)`.
pub fn replace_first_str(s: &str, from: &str, to: &str) -> (r: String)
    ensures
        r@ == replace_first(s@, from@, to@),
{
    let cs = str_chars(s);
    let cf = str_chars(from);
    if cf.len() == 0 {
        return concat2(to, s);
    }
    let mut i: usize = 0;
    assert(s@.skip(0) =~= s@);
    while i < cs.len()
        invariant
            cs@ == s@,
            cf@ == from@,
            from@.len() > 0,
            i <= cs@.len(),
            replace_first(s@, from@, to@) == s@.take(i as int) + replace_first(s@.skip(i as int), from@, to@),
        decreases cs@.len() - i,
    {
        let ghost t = s@.skip(i as int);
        if crate::text::chars_occur_at(&cs, &cf, i) {
            assert(t.subrange(0, from@.len() as int) =~= s@.subrange(i as int, i + from@.len()));
            assert(t.skip(from@.len() as int) =~= s@.skip(i + from@.len()));
            let head = string_from_chars(&crate::text::chars_take(&cs, i));
            let tail = crate::text::str_skip(s, i + cf.len());
            let r = concat3(head.as_str(), to, tail.as_str());
            assert(r@ =~= replace_first(s@, from@, to@));
            return r;
        }
        proof {
            if starts_with(t, from@) {
                assert(t.subrange(0, from@.len() as int) =~= s@.subrange(i as int, i + from@.len()));
            }
            assert(t.drop_first() =~= s@.skip(i + 1));
            assert(s@.take(i + 1) =~= s@.take(i as int) + seq![t[0]]);
        }
        i = i + 1;
    }
    assert(s@.skip(cs@.len() as int) =~= Seq::<char>::empty());
    assert(s@.take(cs@.len() as int) =~= s@);
    owned(s)
}

/// A generated configuration with the runtime's backend set to `kind` and,
/// when known, its rootless mode and the identity mapping that goes with it.
pub open spec fn runtime_backend_patch(config: Seq<char>, kind: Seq<char>, rootless: Option<bool>) -> Seq<char> {
    let c = replace_first(
        replace_first(config, "  backend: podman"@, "  backend: "@ + kind),
        "  backend: docker"@,
        "  backend: "@ + kind,
    );
    match rootless {
        Some(b) => {
            let w = if b {
                "true"@
            } else {
                "false"@
            };
            let c2 = replace_first(replace_first(c, "  rootless: true"@, "  rootless: "@ + w), "  rootless: false"@, "  rootless: "@ + w);
            replace_first(replace_first(c2, "  map_user: true"@, "  map_user: "@ + w), "  map_user: false"@, "  map_user: "@ + w)
        },
        None => c,
    }
}

/// Sets the runtime backend (and, when known, the rootless mode and user
/// mapping) of a generated configuration.
pub fn apply_runtime_backend(config: String, kind: &str, rootless: Option<bool>) -> (r: String)
    ensures
        r@ == runtime_backend_patch(config@, kind@, rootless),
{
    proof {
        reveal_strlit("  backend: podman");
        reveal_strlit("  backend: docker");
        reveal_strlit("  rootless: true");
        reveal_strlit("  rootless: false");
        reveal_strlit("  map_user: true");
        reveal_strlit("  map_user: false");
    }
    let line = concat2("  backend: ", kind);
    let c = replace_first_str(config.as_str(), "  backend: podman", line.as_str());
    let c = replace_first_str(c.as_str(), "  backend: docker", line.as_str());
    match rootless {
        Some(b) => {
            let w = if b {
                "true"
            } else {
                "false"
            };
            let rl = concat2("  rootless: ", w);
            let mu = concat2("  map_user: ", w);
            let c = replace_first_str(c.as_str(), "  rootless: true", rl.as_str());
            let c = replace_first_str(c.as_str(), "  rootless: false", rl.as_str());
            let c = replace_first_str(c.as_str(), "  map_user: true", mu.as_str());
            replace_first_str(c.as_str(), "  map_user: false", mu.as_str())
        },
        None => c,
    }
}

/// The generic template with its image section's `ref:` line replaced.
pub fn render_generic_template_with_image_line(image_line: &str) -> (r: Result<String, SboxError>)
    ensures
        r is Ok && r->Ok_0@ == replace_first(generic_template(), "image:\n  ref: ubuntu:24.04"@, "image:\n"@ + image_line@),
{
    proof {
        reveal_strlit("image:\n  ref: ubuntu:24.04");
    }
    let config = owned(generic_template_text());
    let to = concat2("image:\n", image_line);
    Ok(replace_first_str(config.as_str(), "image:\n  ref: ubuntu:24.04", to.as_str()))
}

/// A command alias asked for during `sbox init`.
pub struct CommandAliasPrompt {
    pub name: String,
    pub run: Vec<String>,
    pub profile: Option<String>,
    pub description: Option<String>,
}

/// The profile recommended for an alias: `host` for container-engine commands.
pub open spec fn alias_profile(run: Seq<Seq<char>>) -> Option<Seq<char>> {
    if run.len() > 0 && (run[0] == "docker"@ || run[0] == "docker-compose"@ || run[0] == "podman"@ || run[0] == "podman-compose"@) {
        Some("host"@)
    } else {
        None
    }
}

/// The profile recommended for an alias, if any.
pub fn recommended_alias_profile(run: &Vec<String>) -> (r: Option<&'static str>)
    ensures
        match alias_profile(views(run@)) {
            Some(p) => r is Some && r->Some_0@ == p,
            None => r is None,
        },
{
    if run.len() == 0 {
        return None;
    }
    let first = run[0].as_str();
    assert(views(run@)[0] == first@);
    if eq_str(first, "docker") || eq_str(first, "docker-compose") || eq_str(first, "podman") || eq_str(first, "podman-compose") {
        Some("host")
    } else {
        None
    }
}

/// A string with each `"` escaped as `\"`.
pub open spec fn escape_quotes(s: Seq<char>) -> Seq<char> {
    replace_all(s, seq!['"'], seq!['\\', '"'])
}

/// The `commands:` entry of an alias: its name, its words quoted in a
/// list, then its profile and description when it has them.
pub open spec fn alias_yaml(name: Seq<char>, run: Seq<Seq<char>>, profile: Option<Seq<char>>, description: Option<Seq<char>>) -> Seq<char> {
    "  "@ + name + ":\n    run: ["@ + join(run.map_values(|w: Seq<char>| "\""@ + escape_quotes(w) + "\""@), ", "@) + "]"@
        + match profile {
        Some(p) => "\n    profile: "@ + p,
        None => Seq::empty(),
    } + match description {
        Some(d) => "\n    description: \""@ + escape_quotes(d) + "\""@,
        None => Seq::empty(),
    }
}

fn escape_quotes_str(s: &str) -> (r: String)
    ensures
        r@ == escape_quotes(s@),
{
    proof {
        reveal_strlit("\"");
        reveal_strlit("\\\"");
        assert("\""@ =~= seq!['"']);
        assert("\\\""@ =~= seq!['\\', '"']);
    }
    crate::resolve::replace_str(s, "\"", "\\\"")
}

/// The `commands:` entry of an alias.
pub fn render_command_alias_yaml(alias: &CommandAliasPrompt) -> (r: String)
    ensures
        r@ == alias_yaml(alias.name@, views(alias.run@), opt_chars(alias.profile), opt_chars(alias.description)),
{
    let ghost quoted = views(alias.run@).map_values(|w: Seq<char>| "\""@ + escape_quotes(w) + "\""@);
    let mut parts: Vec<String> = Vec::new();
    let mut i: usize = 0;
    proof {
        reveal_strlit("\"");
    }
    while i < alias.run.len()
        invariant
            i <= alias.run@.len(),
            quoted == views(alias.run@).map_values(|w: Seq<char>| "\""@ + escape_quotes(w) + "\""@),
            views(parts@) == quoted.take(i as int),
        decreases alias.run@.len() - i,
    {
        let e = escape_quotes_str(alias.run[i].as_str());
        let q = concat3("\"", e.as_str(), "\"");
        let ghost qv = q@;
        let ghost before = views(parts@);
        parts.push(q);
        assert(views(parts@) =~= before.push(qv));
        assert(views(parts@) =~= quoted.take(i + 1));
        i = i + 1;
    }
    assert(quoted.take(quoted.len() as int) =~= quoted);
    let run = join_strings(parts.as_slice(), ", ");
    let a = concat3("  ", alias.name.as_str(), ":\n    run: [");
    let mut yaml = concat3(a.as_str(), run.as_str(), "]");
    match &alias.profile {
        Some(p) => crate::text::append(&mut yaml, concat2("\n    profile: ", p.as_str()).as_str()),
        None => {},
    }
    match &alias.description {
        Some(d) => {
            let e = escape_quotes_str(d.as_str());
            crate::text::append(&mut yaml, concat3("\n    description: \"", e.as_str(), "\"").as_str());
        },
        None => {},
    }
    yaml
}

/// The example `commands:` block of the templates.
pub open spec fn example_commands_block() -> Seq<char> {
    "# commands:  # Example command alias.\n#   build:\n#     run: [\"npm\", \"run\", \"build\"]\n#     profile: default\n#     description: \"Build project\""@
}

/// A configuration with a `commands:` block for the aliases: in place of the
/// example block when it is there, else before the custom-commands heading.
pub open spec fn with_command_aliases(config: Seq<char>, entries: Seq<Seq<char>>) -> Seq<char> {
    let yaml = join(entries, "\n"@);
    if contains(config, example_commands_block()) {
        replace_first(config, example_commands_block(), "commands:\n"@ + yaml)
    } else {
        replace_first(config, "# ── Custom commands"@, "commands:\n"@ + yaml + "\n\n# ── Custom commands"@)
    }
}

/// Alias entries by their `commands:` text.
pub open spec fn alias_entries(aliases: Seq<CommandAliasPrompt>) -> Seq<Seq<char>> {
    aliases.map_values(|a: CommandAliasPrompt| alias_yaml(a.name@, views(a.run@), opt_chars(a.profile), opt_chars(a.description)))
}

/// Adds a `commands:` block for the aliases to a generated configuration.
pub fn insert_command_aliases(config: String, aliases: &Vec<CommandAliasPrompt>) -> (r: String)
    ensures
        r@ == with_command_aliases(config@, alias_entries(aliases@)),
{
    let ghost ents = alias_entries(aliases@);
    let mut entries: Vec<String> = Vec::new();
    let mut i: usize = 0;
    while i < aliases.len()
        invariant
            i <= aliases@.len(),
            ents == alias_entries(aliases@),
            views(entries@) == ents.take(i as int),
        decreases aliases@.len() - i,
    {
        let y = render_command_alias_yaml(&aliases[i]);
        let ghost yv = y@;
        let ghost before = views(entries@);
        entries.push(y);
        assert(views(entries@) =~= before.push(yv));
        assert(views(entries@) =~= ents.take(i + 1));
        i = i + 1;
    }
    assert(ents.take(ents.len() as int) =~= ents);
    let yaml = join_strings(entries.as_slice(), "\n");
    let example = "# commands:  # Example command alias.\n#   build:\n#     run: [\"npm\", \"run\", \"build\"]\n#     profile: default\n#     description: \"Build project\"";
    proof {
        reveal_strlit("# commands:  # Example command alias.\n#   build:\n#     run: [\"npm\", \"run\", \"build\"]\n#     profile: default\n#     description: \"Build project\"");
        reveal_strlit("# ── Custom commands");
    }
    if str_contains(config.as_str(), example) {
        let to = concat2("commands:\n", yaml.as_str());
        replace_first_str(config.as_str(), example, to.as_str())
    } else {
        let to = concat3("commands:\n", yaml.as_str(), "\n\n# ── Custom commands");
        replace_first_str(config.as_str(), "# ── Custom commands", to.as_str())
    }
}

// ---------------------------------------------------------------------------
// What the project already has
// ---------------------------------------------------------------------------

/// The package manager detected for a project, and the ones offered.
pub struct PackageManagerContext {
    pub detected: Option<String>,
    pub choices: Vec<String>,
}

/// The package manager to recommend: the detected one, else the first choice.
pub open spec fn recommended_pm(detected: Option<Seq<char>>, choices: Seq<Seq<char>>) -> Option<Seq<char>> {
    match detected {
        Some(d) => Some(d),
        None => if choices.len() > 0 {
            Some(choices[0])
        } else {
            None
        },
    }
}

/// The package manager to recommend.
pub fn recommended_package_manager(context: &PackageManagerContext) -> (r: Option<String>)
    ensures
        opt_chars(r) == recommended_pm(opt_chars(context.detected), views(context.choices@)),
{
    match &context.detected {
        Some(d) => Some(d.clone()),
        None => if context.choices.len() > 0 {
            Some(context.choices[0].clone())
        } else {
            None
        },
    }
}

/// A container definition file of the project, and the engine it suggests.
pub struct ContainerDefinition {
    pub path: String,
    pub backend_hint: &'static str,
}

/// The engine a project points to: its compose file's name (`podman-compose…`
/// or `docker-compose…`), else its container definition's hint, else what is
/// on `PATH` (podman first).
pub open spec fn backend_kind_for(
    definition_hint: Option<Seq<char>>,
    compose_file: Option<Seq<char>>,
    podman_on_path: bool,
    docker_on_path: bool,
) -> Option<Seq<char>> {
    match compose_file {
        Some(f) => if starts_with(f, "podman-compose"@) {
            Some("podman"@)
        } else if starts_with(f, "docker-compose"@) {
            Some("docker"@)
        } else {
            None
        },
        None => match definition_hint {
            Some(h) => Some(h),
            None => if podman_on_path {
                Some("podman"@)
            } else if docker_on_path {
                Some("docker"@)
            } else {
                None
            },
        },
    }
}

/// Whether an engine runs rootless, from what its `info` command printed
/// (`None`: it could not be run): podman prints `true` or `false`, docker
/// lists `rootless` among its security options; anything else is unknown.
pub open spec fn rootless_of(kind: Seq<char>, output: Option<Seq<char>>) -> Option<bool> {
    match output {
        None => None,
        Some(o) => if kind == "podman"@ {
            if crate::proxy::trim(o) == "true"@ {
                Some(true)
            } else if crate::proxy::trim(o) == "false"@ {
                Some(false)
            } else {
                None
            }
        } else if kind == "docker"@ {
            Some(contains(o, "rootless"@))
        } else {
            None
        },
    }
}

/// The words of the `info` command that tells whether an engine runs
/// rootless, for podman and docker.
pub fn rootless_info_args(kind: &str) -> (r: Option<Vec<String>>)
    ensures
        kind@ == "podman"@ ==> (r matches Some(v) && views(v@) == seq!["info"@, "--format"@, "{{.Host.Security.Rootless}}"@]),
        kind@ == "docker"@ ==> (r matches Some(v) && views(v@) == seq!["info"@, "--format"@, "{{.SecurityOptions}}"@]),
        kind@ != "podman"@ && kind@ != "docker"@ ==> r is None,
{
    proof {
        reveal_strlit("podman");
        reveal_strlit("docker");
        assert("podman"@[0] != "docker"@[0]);
    }
    if eq_str(kind, "podman") {
        let v = crate::text::owned_list(&["info", "--format", "{{.Host.Security.Rootless}}"]);
        assert(views(v@) =~= seq!["info"@, "--format"@, "{{.Host.Security.Rootless}}"@]);
        Some(v)
    } else if eq_str(kind, "docker") {
        let v = crate::text::owned_list(&["info", "--format", "{{.SecurityOptions}}"]);
        assert(views(v@) =~= seq!["info"@, "--format"@, "{{.SecurityOptions}}"@]);
        Some(v)
    } else {
        None
    }
}

/// Whether an engine runs rootless, from what its `info` command printed.
pub fn rootless_from_info(kind: &str, output: Option<&str>) -> (r: Option<bool>)
    ensures
        r == rootless_of(
            kind@,
            match output {
                Some(o) => Some(o@),
                None => None,
            },
        ),
{
    proof {
        reveal_strlit("podman");
        reveal_strlit("docker");
        reveal_strlit("true");
        reveal_strlit("false");
        reveal_strlit("rootless");
    }
    match output {
        None => None,
        Some(o) => if eq_str(kind, "podman") {
            let t = crate::proxy::trim_str(o);
            if eq_str(t.as_str(), "true") {
                Some(true)
            } else if eq_str(t.as_str(), "false") {
                Some(false)
            } else {
                None
            }
        } else if eq_str(kind, "docker") {
            Some(str_contains(o, "rootless"))
        } else {
            None
        },
    }
}

/// The engine a project points to, if any; `compose_file` is the name of
/// its compose file when it has one.
pub fn detect_backend_kind(
    container_definition: Option<&ContainerDefinition>,
    compose_file: Option<&str>,
    podman_on_path: bool,
    docker_on_path: bool,
) -> (r: Option<&'static str>)
    ensures
        match backend_kind_for(
            match container_definition {
                Some(d) => Some(d.backend_hint@),
                None => None,
            },
            match compose_file {
                Some(f) => Some(f@),
                None => None,
            },
            podman_on_path,
            docker_on_path,
        ) {
            Some(k) => r is Some && r->Some_0@ == k,
            None => r is None,
        },
{
    match compose_file {
        Some(f) => {
            if str_starts_with(f, "podman-compose") {
                Some("podman")
            } else if str_starts_with(f, "docker-compose") {
                Some("docker")
            } else {
                None
            }
        },
        None => match container_definition {
            Some(d) => Some(d.backend_hint),
            None => if podman_on_path {
                Some("podman")
            } else if docker_on_path {
                Some("docker")
            } else {
                None
            },
        },
    }
}

/// The package manager a container definition's (lowercased) text uses:
/// the first group of markers it contains.
pub open spec fn definition_pm(text: Seq<char>) -> Option<Seq<char>> {
    if crate::text::contains_any(text, seq![" pnpm "@, "pnpm install"@, "corepack enable pnpm"@]) {
        Some("pnpm"@)
    } else if crate::text::contains_any(text, seq![" yarn "@, "yarn install"@, "corepack enable yarn"@]) {
        Some("yarn"@)
    } else if crate::text::contains_any(text, seq![" bun "@, "bun install"@, "oven/bun"@]) {
        Some("bun"@)
    } else if crate::text::contains_any(text, seq!["npm ci"@, "npm install"@, " npm "@]) {
        Some("npm"@)
    } else if crate::text::contains_any(text, seq!["uv sync"@, "uv pip"@, "ghcr.io/astral-sh/uv"@, " astral-sh/uv"@]) {
        Some("uv"@)
    } else if crate::text::contains_any(text, seq!["poetry install"@, " poetry "@]) {
        Some("poetry"@)
    } else if crate::text::contains_any(text, seq!["pip install"@, "python -m pip"@]) {
        Some("pip"@)
    } else if crate::text::contains_any(text, seq!["cargo build"@, "cargo check"@, "cargo chef"@, " rust:"@]) {
        Some("cargo"@)
    } else if crate::text::contains_any(text, seq!["go mod download"@, "go build"@, " golang:"@]) {
        Some("go"@)
    } else {
        None
    }
}

fn definition_pm_of(text: &str) -> (r: Option<&'static str>)
    ensures
        match definition_pm(text@) {
            Some(a) => r is Some && r->Some_0@ == a,
            None => r is None,
        },
{
    let g0 = [" pnpm ", "pnpm install", "corepack enable pnpm"];
    assert(crate::text::str_views(g0@) =~= seq![" pnpm "@, "pnpm install"@, "corepack enable pnpm"@]);
    if crate::text::str_contains_any(text, &g0) {
        return Some("pnpm");
    }
    let g1 = [" yarn ", "yarn install", "corepack enable yarn"];
    assert(crate::text::str_views(g1@) =~= seq![" yarn "@, "yarn install"@, "corepack enable yarn"@]);
    if crate::text::str_contains_any(text, &g1) {
        return Some("yarn");
    }
    let g2 = [" bun ", "bun install", "oven/bun"];
    assert(crate::text::str_views(g2@) =~= seq![" bun "@, "bun install"@, "oven/bun"@]);
    if crate::text::str_contains_any(text, &g2) {
        return Some("bun");
    }
    let g3 = ["npm ci", "npm install", " npm "];
    assert(crate::text::str_views(g3@) =~= seq!["npm ci"@, "npm install"@, " npm "@]);
    if crate::text::str_contains_any(text, &g3) {
        return Some("npm");
    }
    let g4 = ["uv sync", "uv pip", "ghcr.io/astral-sh/uv", " astral-sh/uv"];
    assert(crate::text::str_views(g4@) =~= seq!["uv sync"@, "uv pip"@, "ghcr.io/astral-sh/uv"@, " astral-sh/uv"@]);
    if crate::text::str_contains_any(text, &g4) {
        return Some("uv");
    }
    let g5 = ["poetry install", " poetry "];
    assert(crate::text::str_views(g5@) =~= seq!["poetry install"@, " poetry "@]);
    if crate::text::str_contains_any(text, &g5) {
        return Some("poetry");
    }
    let g6 = ["pip install", "python -m pip"];
    assert(crate::text::str_views(g6@) =~= seq!["pip install"@, "python -m pip"@]);
    if crate::text::str_contains_any(text, &g6) {
        return Some("pip");
    }
    let g7 = ["cargo build", "cargo check", "cargo chef", " rust:"];
    assert(crate::text::str_views(g7@) =~= seq!["cargo build"@, "cargo check"@, "cargo chef"@, " rust:"@]);
    if crate::text::str_contains_any(text, &g7) {
        return Some("cargo");
    }
    let g8 = ["go mod download", "go build", " golang:"];
    assert(crate::text::str_views(g8@) =~= seq!["go mod download"@, "go build"@, " golang:"@]);
    if crate::text::str_contains_any(text, &g8) {
        return Some("go");
    }
    None
}

/// The package manager the commands of a container definition use, if one
/// is recognised.
pub fn detect_package_manager_from_container_definition(contents: &str) -> (r: Option<&'static str>)
    ensures
        match definition_pm(crate::text::lowercase(contents@)) {
            Some(a) => r is Some && r->Some_0@ == a,
            None => r is None,
        },
{
    let lower = crate::text::to_lowercase(contents);
    definition_pm_of(lower.as_str())
}

/// The package manager named by the `packageManager` markers of a
/// (lowercased) `package.json`.
pub open spec fn package_json_marker(text: Seq<char>) -> Option<Seq<char>> {
    if crate::text::contains_any(text, seq!["\"packagemanager\":\"pnpm@"@, "\"packagemanager\": \"pnpm@"@]) {
        Some("pnpm"@)
    } else if crate::text::contains_any(text, seq!["\"packagemanager\":\"yarn@"@, "\"packagemanager\": \"yarn@"@]) {
        Some("yarn"@)
    } else if crate::text::contains_any(text, seq!["\"packagemanager\":\"bun@"@, "\"packagemanager\": \"bun@"@]) {
        Some("bun"@)
    } else if crate::text::contains_any(text, seq!["\"packagemanager\":\"npm@"@, "\"packagemanager\": \"npm@"@]) {
        Some("npm"@)
    } else {
        None
    }
}

fn package_json_marker_of(text: &str) -> (r: Option<&'static str>)
    ensures
        match package_json_marker(text@) {
            Some(a) => r is Some && r->Some_0@ == a,
            None => r is None,
        },
{
    let g0 = ["\"packagemanager\":\"pnpm@", "\"packagemanager\": \"pnpm@"];
    assert(crate::text::str_views(g0@) =~= seq!["\"packagemanager\":\"pnpm@"@, "\"packagemanager\": \"pnpm@"@]);
    if crate::text::str_contains_any(text, &g0) {
        return Some("pnpm");
    }
    let g1 = ["\"packagemanager\":\"yarn@", "\"packagemanager\": \"yarn@"];
    assert(crate::text::str_views(g1@) =~= seq!["\"packagemanager\":\"yarn@"@, "\"packagemanager\": \"yarn@"@]);
    if crate::text::str_contains_any(text, &g1) {
        return Some("yarn");
    }
    let g2 = ["\"packagemanager\":\"bun@", "\"packagemanager\": \"bun@"];
    assert(crate::text::str_views(g2@) =~= seq!["\"packagemanager\":\"bun@"@, "\"packagemanager\": \"bun@"@]);
    if crate::text::str_contains_any(text, &g2) {
        return Some("bun");
    }
    let g3 = ["\"packagemanager\":\"npm@", "\"packagemanager\": \"npm@"];
    assert(crate::text::str_views(g3@) =~= seq!["\"packagemanager\":\"npm@"@, "\"packagemanager\": \"npm@"@]);
    if crate::text::str_contains_any(text, &g3) {
        return Some("npm");
    }
    None
}

/// The package manager a `package.json` names in its `packageManager` field.
pub open spec fn package_json_pm(contents: Seq<char>) -> Option<Seq<char>> {
    let lower = crate::text::lowercase(contents);
    if contains(lower, "\"packagemanager\""@) {
        package_json_marker(lower)
    } else {
        None
    }
}

/// The package manager a `package.json` names, if any.
pub fn detect_package_json_package_manager(contents: &str) -> (r: Option<&'static str>)
    ensures
        match package_json_pm(contents@) {
            Some(a) => r is Some && r->Some_0@ == a,
            None => r is None,
        },
{
    let lower = crate::text::to_lowercase(contents);
    if !str_contains(lower.as_str(), "\"packagemanager\"") {
        return None;
    }
    package_json_marker_of(lower.as_str())
}

/// The first file of the list that exists in `dir`, with its answer.
pub open spec fn first_file_hit(dir: Seq<char>, files: Seq<(Seq<char>, Seq<char>)>, existing: Seq<Seq<char>>) -> Option<(Seq<char>, Seq<char>)>
    decreases files.len(),
{
    if files.len() == 0 {
        None
    } else if seq_has(existing, path_join(dir, files[0].0)) {
        Some(files[0])
    } else {
        first_file_hit(dir, files.drop_first(), existing)
    }
}

/// Pairs by their characters.
pub open spec fn pair_strs(v: Seq<(&'static str, &'static str)>) -> Seq<(Seq<char>, Seq<char>)> {
    v.map_values(|p: (&'static str, &'static str)| (p.0@, p.1@))
}

pub(crate) fn first_file(dir: &str, files: &Vec<(&'static str, &'static str)>, existing: &Vec<String>) -> (r: Option<(&'static str, &'static str)>)
    ensures
        match first_file_hit(dir@, pair_strs(files@), views(existing@)) {
            Some((f, a)) => r is Some && r->Some_0.0@ == f && r->Some_0.1@ == a,
            None => r is None,
        },
{
    let ghost fv = pair_strs(files@);
    let mut i: usize = 0;
    assert(fv.skip(0) =~= fv);
    while i < files.len()
        invariant
            fv == pair_strs(files@),
            i <= fv.len(),
            first_file_hit(dir@, fv, views(existing@)) == first_file_hit(dir@, fv.skip(i as int), views(existing@)),
        decreases fv.len() - i,
    {
        assert(fv.skip(i as int)[0] == (files@[i as int].0@, files@[i as int].1@));
        let path = crate::paths::path_join_str(dir, files[i].0);
        if strings_contain(existing.as_slice(), path.as_str()) {
            return Some(files[i]);
        }
        assert(fv.skip(i as int).drop_first() =~= fv.skip(i + 1));
        i = i + 1;
    }
    None
}

/// Container definition files, in the order looked for, and the engine each suggests.
pub open spec fn definition_files() -> Seq<(Seq<char>, Seq<char>)> {
    seq![
        ("Containerfile"@, "podman"@),
        ("Containerfile.dev"@, "podman"@),
        ("Containerfile.local"@, "podman"@),
        ("containerfile"@, "podman"@),
        ("Dockerfile"@, "docker"@),
        ("Dockerfile.dev"@, "docker"@),
        ("Dockerfile.local"@, "docker"@),
        ("dockerfile"@, "docker"@),
    ]
}

/// The container definition of a project, if it has one.
pub fn detect_container_definition(dir: &str, existing: &Vec<String>) -> (r: Option<ContainerDefinition>)
    ensures
        match first_file_hit(dir@, definition_files(), views(existing@)) {
            Some((f, h)) => r is Some && r->Some_0.path@ == f && r->Some_0.backend_hint@ == h,
            None => r is None,
        },
{
    let files: Vec<(&'static str, &'static str)> = vec![
        ("Containerfile", "podman"),
        ("Containerfile.dev", "podman"),
        ("Containerfile.local", "podman"),
        ("containerfile", "podman"),
        ("Dockerfile", "docker"),
        ("Dockerfile.dev", "docker"),
        ("Dockerfile.local", "docker"),
        ("dockerfile", "docker"),
    ];
    assert(pair_strs(files@) =~= definition_files());
    match first_file(dir, &files, existing) {
        Some((f, h)) => Some(ContainerDefinition { path: owned(f), backend_hint: h }),
        None => None,
    }
}

/// Lockfiles, in order of priority, and the package manager each marks.
pub open spec fn lockfile_presets() -> Seq<(Seq<char>, Seq<char>)> {
    seq![
        ("package-lock.json"@, "npm"@),
        ("npm-shrinkwrap.json"@, "npm"@),
        ("yarn.lock"@, "yarn"@),
        ("pnpm-lock.yaml"@, "pnpm"@),
        ("bun.lockb"@, "bun"@),
        ("bun.lock"@, "bun"@),
        ("uv.lock"@, "uv"@),
        ("poetry.lock"@, "poetry"@),
        ("requirements.txt"@, "pip"@),
        ("Cargo.lock"@, "cargo"@),
        ("go.sum"@, "go"@),
        ("composer.lock"@, "composer"@),
        ("Gemfile.lock"@, "bundler"@),
    ]
}

/// The package manager a project's lockfiles mark: the first lockfile found,
/// except that `uv` gives way to `pip` when `requirements.txt` exists and the
/// container definition installs it with pip.
pub open spec fn lockfile_pm(dir: Seq<char>, existing: Seq<Seq<char>>, definition_text: Option<Seq<char>>) -> Option<Seq<char>> {
    match first_file_hit(dir, lockfile_presets(), existing) {
        None => None,
        Some((_, pm)) => if pm == "uv"@ && seq_has(existing, path_join(dir, "requirements.txt"@)) && (match definition_text {
            Some(t) => contains(t, "pip install"@) && contains(t, "requirements.txt"@),
            None => false,
        }) {
            Some("pip"@)
        } else {
            Some(pm)
        },
    }
}

/// The package manager a project's lockfiles mark; `definition_text` is the
/// text of its container definition, when it has one that could be read.
pub fn detect_lockfile_preset(dir: &str, existing: &Vec<String>, definition_text: &Option<String>) -> (r: Option<&'static str>)
    ensures
        match lockfile_pm(dir@, views(existing@), opt_chars(*definition_text)) {
            Some(a) => r is Some && r->Some_0@ == a,
            None => r is None,
        },
{
    let files: Vec<(&'static str, &'static str)> = vec![
        ("package-lock.json", "npm"),
        ("npm-shrinkwrap.json", "npm"),
        ("yarn.lock", "yarn"),
        ("pnpm-lock.yaml", "pnpm"),
        ("bun.lockb", "bun"),
        ("bun.lock", "bun"),
        ("uv.lock", "uv"),
        ("poetry.lock", "poetry"),
        ("requirements.txt", "pip"),
        ("Cargo.lock", "cargo"),
        ("go.sum", "go"),
        ("composer.lock", "composer"),
        ("Gemfile.lock", "bundler"),
    ];
    assert(pair_strs(files@) =~= lockfile_presets());
    let preset = match first_file(dir, &files, existing) {
        Some((_, pm)) => pm,
        None => return None,
    };
    proof {
        reveal_strlit("uv");
        reveal_strlit("requirements.txt");
    }
    if eq_str(preset, "uv") {
        let req = crate::paths::path_join_str(dir, "requirements.txt");
        if strings_contain(existing.as_slice(), req.as_str()) {
            match definition_text {
                Some(t) => {
                    if str_contains(t.as_str(), "pip install") && str_contains(t.as_str(), "requirements.txt") {
                        return Some("pip");
                    }
                },
                None => {},
            }
        }
    }
    Some(preset)
}

/// What `sbox init` knows of a project's files: which paths below it exist,
/// and the texts of its `package.json` and container definition when they
/// could be read.
pub struct ProjectFiles {
    pub existing: Vec<String>,
    pub package_json: Option<String>,
    pub definition_text: Option<String>,
}

/// All package managers `sbox init` offers.
pub open spec fn all_pms() -> Seq<Seq<char>> {
    seq!["npm"@, "yarn"@, "pnpm"@, "bun"@, "uv"@, "pip"@, "poetry"@, "cargo"@, "go"@]
}

/// The package-manager context of a project: a detected manager from its
/// lockfiles, `package.json` field or container definition; else the
/// managers its manifests suggest; else every manager.
pub open spec fn pm_context(dir: Seq<char>, f: ProjectFiles) -> (Option<Seq<char>>, Seq<Seq<char>>) {
    let ex = views(f.existing@);
    let lock = lockfile_pm(dir, ex, opt_chars(f.definition_text));
    let pj = match f.package_json {
        Some(t) => package_json_pm(t@),
        None => None,
    };
    let def = match first_file_hit(dir, definition_files(), ex) {
        Some(_) => match f.definition_text {
            Some(t) => definition_pm(crate::text::lowercase(t@)),
            None => None,
        },
        None => None,
    };
    if lock is Some && seq_has(all_pms(), lock.unwrap()) {
        (lock, seq![lock.unwrap()])
    } else if pj is Some {
        (pj, seq![pj.unwrap()])
    } else if def is Some {
        (def, seq![def.unwrap()])
    } else if seq_has(ex, path_join(dir, "package.json"@)) {
        (None, seq!["npm"@, "yarn"@, "pnpm"@, "bun"@])
    } else if seq_has(ex, path_join(dir, "pyproject.toml"@)) || seq_has(ex, path_join(dir, "requirements.txt"@))
        || seq_has(ex, path_join(dir, "requirements-dev.txt"@)) || seq_has(ex, path_join(dir, "setup.py"@)) {
        (None, seq!["uv"@, "pip"@, "poetry"@])
    } else if seq_has(ex, path_join(dir, "Cargo.toml"@)) {
        (Some("cargo"@), seq!["cargo"@])
    } else if seq_has(ex, path_join(dir, "go.mod"@)) {
        (Some("go"@), seq!["go"@])
    } else {
        (None, all_pms())
    }
}

fn exists_below(dir: &str, name: &str, existing: &Vec<String>) -> (r: bool)
    ensures
        r == seq_has(views(existing@), path_join(dir@, name@)),
{
    let p = crate::paths::path_join_str(dir, name);
    strings_contain(existing.as_slice(), p.as_str())
}

fn single(s: &str) -> (r: Vec<String>)
    ensures
        views(r@) == seq![s@],
{
    let mut v: Vec<String> = Vec::new();
    push_string(&mut v, owned(s));
    assert(views(v@) =~= seq![s@]);
    v
}

/// The package-manager context of a project.
pub fn detect_package_manager_context(dir: &str, files: &ProjectFiles) -> (r: PackageManagerContext)
    ensures
        (opt_chars(r.detected), views(r.choices@)) == pm_context(dir@, *files),
{
    let lock = detect_lockfile_preset(dir, &files.existing, &files.definition_text);
    let all = ["npm", "yarn", "pnpm", "bun", "uv", "pip", "poetry", "cargo", "go"];
    assert(crate::text::str_views(all@) =~= all_pms());
    match lock {
        Some(pm) => {
            let mut k: usize = 0;
            let mut known = false;
            while k < 9
                invariant
                    k <= 9,
                    crate::text::str_views(all@) == all_pms(),
                    known ==> seq_has(all_pms(), pm@),
                    !known ==> forall|j: int| 0 <= j < k ==> all_pms()[j] != pm@,
                decreases 9 - k,
            {
                assert(all_pms()[k as int] == all[k as int]@);
                if eq_str(all[k], pm) {
                    known = true;
                }
                k = k + 1;
            }
            if known {
                return PackageManagerContext { detected: Some(owned(pm)), choices: single(pm) };
            }
        },
        None => {},
    }
    let pj = match &files.package_json {
        Some(t) => detect_package_json_package_manager(t.as_str()),
        None => None,
    };
    match pj {
        Some(pm) => return PackageManagerContext { detected: Some(owned(pm)), choices: single(pm) },
        None => {},
    }
    let def = match detect_container_definition(dir, &files.existing) {
        Some(_) => match &files.definition_text {
            Some(t) => detect_package_manager_from_container_definition(t.as_str()),
            None => None,
        },
        None => None,
    };
    match def {
        Some(pm) => return PackageManagerContext { detected: Some(owned(pm)), choices: single(pm) },
        None => {},
    }
    if exists_below(dir, "package.json", &files.existing) {
        let node = ["npm", "yarn", "pnpm", "bun"];
        assert(crate::text::str_views(node@) =~= seq!["npm"@, "yarn"@, "pnpm"@, "bun"@]);
        return PackageManagerContext { detected: None, choices: crate::text::owned_list(&node) };
    }
    if exists_below(dir, "pyproject.toml", &files.existing) || exists_below(dir, "requirements.txt", &files.existing)
        || exists_below(dir, "requirements-dev.txt", &files.existing) || exists_below(dir, "setup.py", &files.existing) {
        let py = ["uv", "pip", "poetry"];
        assert(crate::text::str_views(py@) =~= seq!["uv"@, "pip"@, "poetry"@]);
        return PackageManagerContext { detected: None, choices: crate::text::owned_list(&py) };
    }
    if exists_below(dir, "Cargo.toml", &files.existing) {
        return PackageManagerContext { detected: Some(owned("cargo")), choices: single("cargo") };
    }
    if exists_below(dir, "go.mod", &files.existing) {
        return PackageManagerContext { detected: Some(owned("go")), choices: single("go") };
    }
    PackageManagerContext { detected: None, choices: crate::text::owned_list(&all) }
}


// ---------------------------------------------------------------------------
// Pinning the template's image to a digest
// ---------------------------------------------------------------------------

/// `i` is the first position where `p` occurs in `s`.
pub open spec fn is_first_at(s: Seq<char>, p: Seq<char>, i: int) -> bool {
    crate::text::occurs_at(s, p, i) && forall|j: int| 0 <= j < i ==> !crate::text::occurs_at(s, p, j)
}

/// The first position where `p` occurs in `s`, if it occurs.
pub open spec fn first_at(s: Seq<char>, p: Seq<char>) -> Option<int> {
    if contains(s, p) {
        Some(choose|i: int| is_first_at(s, p, i))
    } else {
        None
    }
}

/// The line that says a template's image is already pinned.
pub open spec fn digest_marker() -> Seq<char> {
    "\n  digest:"@
}

/// What precedes the image reference of a template.
pub open spec fn image_ref_needle() -> Seq<char> {
    "\nimage:\n  ref: "@
}

/// Where a template's image reference line ends, and the reference: none
/// when the template already has a digest, sets no `image.ref`, or the
/// reference is blank or its line unfinished.
pub open spec fn pin_site(t: Seq<char>) -> Option<(int, Seq<char>)> {
    if contains(t, digest_marker()) {
        None
    } else {
        match first_at(t, image_ref_needle()) {
            None => None,
            Some(st) => {
                let rs = st + image_ref_needle().len();
                let rest = t.skip(rs);
                match first_at(rest, "\n"@) {
                    None => None,
                    Some(k) => {
                        let reference = crate::proxy::trim(rest.take(k));
                        if reference.len() == 0 {
                            None
                        } else {
                            Some((rs + k, reference))
                        }
                    },
                }
            },
        }
    }
}

/// The template with the digest inserted after its image reference line,
/// when it has one to pin and a digest was found; else the template itself.
pub open spec fn pinned_template(t: Seq<char>, digest: Option<Seq<char>>) -> Seq<char> {
    match (pin_site(t), digest) {
        (Some((at, _)), Some(d)) => t.take(at) + "\n  digest: "@ + d + t.skip(at),
        _ => t,
    }
}

proof fn lemma_first_at(s: Seq<char>, p: Seq<char>, i: int)
    requires
        is_first_at(s, p, i),
    ensures
        first_at(s, p) == Some(i),
{
    assert(contains(s, p));
    let c = choose|k: int| is_first_at(s, p, k);
    assert(is_first_at(s, p, c));
    if c < i {
        assert(!crate::text::occurs_at(s, p, c));
    }
    if i < c {
        assert(!crate::text::occurs_at(s, p, i));
    }
}

fn find_first(s: &Vec<char>, p: &Vec<char>) -> (r: Option<usize>)
    ensures
        r matches Some(i) ==> is_first_at(s@, p@, i as int),
        match first_at(s@, p@) {
            Some(i) => r == Some(i as usize),
            None => r is None,
        },
{
    match crate::text::chars_find_from(s.as_slice(), p.as_slice(), 0) {
        Some(i) => {
            proof {
                lemma_first_at(s@, p@, i as int);
            }
            Some(i)
        },
        None => {
            assert(!contains(s@, p@));
            None
        },
    }
}

fn chars_skip(v: &Vec<char>, n: usize) -> (r: Vec<char>)
    requires
        n <= v@.len(),
    ensures
        r@ == v@.skip(n as int),
{
    let mut out: Vec<char> = Vec::new();
    let mut i: usize = n;
    while i < v.len()
        invariant
            n <= i <= v@.len(),
            out@ == v@.subrange(n as int, i as int),
        decreases v@.len() - i,
    {
        out.push(v[i]);
        assert(v@.subrange(n as int, i + 1) =~= v@.subrange(n as int, i as int).push(v@[i as int]));
        i = i + 1;
    }
    assert(out@ =~= v@.skip(n as int));
    out
}

fn pin_site_exec(cs: &Vec<char>) -> (r: Option<(usize, String)>)
    ensures
        r matches Some((a, _)) ==> a <= cs@.len(),
        match pin_site(cs@) {
            Some((at, reference)) => r matches Some((a, x)) && a == at && x@ == reference,
            None => r is None,
        },
{
    let marker = str_chars("\n  digest:");
    let needle = str_chars("\nimage:\n  ref: ");
    let nl = str_chars("\n");
    proof {
        reveal_strlit("\n  digest:");
        reveal_strlit("\nimage:\n  ref: ");
        reveal_strlit("\n");
    }
    if crate::text::chars_contains(cs.as_slice(), marker.as_slice()) {
        return None;
    }
    let st = match find_first(cs, &needle) {
        None => {
            return None;
        },
        Some(st) => st,
    };
    assert(crate::text::occurs_at(cs@, needle@, st as int));
    let total = cs.len();
    assert(st + needle@.len() <= total);
    let rs = st + needle.len();
    let rest = chars_skip(cs, rs);
    let k = match find_first(&rest, &nl) {
        None => {
            return None;
        },
        Some(k) => k,
    };
    assert(crate::text::occurs_at(rest@, nl@, k as int));
    assert(k + nl@.len() <= rest@.len());
    let line = crate::text::chars_take(&rest, k);
    let line_text = string_from_chars(line.as_slice());
    let reference = crate::proxy::trim_str(line_text.as_str());
    if str_chars(reference.as_str()).len() == 0 {
        return None;
    }
    Some((rs + k, reference))
}

/// The image reference a template would pin, if it has one to pin.
pub fn image_ref_to_pin(template: &str) -> (r: Option<String>)
    ensures
        match pin_site(template@) {
            Some((_, reference)) => r matches Some(x) && x@ == reference,
            None => r is None,
        },
{
    let cs = str_chars(template);
    match pin_site_exec(&cs) {
        Some((_, reference)) => Some(reference),
        None => None,
    }
}

/// Pins a template's image: `digest` is what was found for the reference
/// that `image_ref_to_pin` gave (`None`: nothing was found, or nothing was
/// asked). A template with nothing to pin comes back unchanged.
pub fn pin_digest_in_template(template: String, digest: Option<String>) -> (r: String)
    ensures
        r@ == pinned_template(
            template@,
            match digest {
                Some(d) => Some(d@),
                None => None,
            },
        ),
{
    let cs = str_chars(template.as_str());
    match (pin_site_exec(&cs), digest) {
        (Some((at, _)), Some(d)) => {
            let head = crate::text::chars_take(&cs, at);
            let tail = chars_skip(&cs, at);
            let mut out = string_from_chars(head.as_slice());
            crate::text::append(&mut out, "\n  digest: ");
            crate::text::append(&mut out, d.as_str());
            let tail_text = string_from_chars(tail.as_slice());
            crate::text::append(&mut out, tail_text.as_str());
            proof {
                reveal_strlit("\n  digest: ");
            }
            out
        },
        _ => template,
    }
}

} // verus!
