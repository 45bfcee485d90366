//! The configuration as written in `sbox.yaml`, after deserialization.
//!
//! Paths are kept as strings; profiles and dispatch rules keep their declaration
//! order in an `IndexMap`.

use indexmap::IndexMap;
use vstd::prelude::*;

verus! {

/// The whole configuration file.
#[derive(Debug)]
pub struct Config {
    pub version: u32,
    pub runtime: Option<RuntimeConfig>,
    pub workspace: Option<WorkspaceConfig>,
    pub identity: Option<IdentityConfig>,
    pub image: Option<ImageConfig>,
    pub environment: Option<EnvironmentConfig>,
    pub mounts: Vec<MountConfig>,
    pub caches: Vec<CacheConfig>,
    pub secrets: Vec<SecretConfig>,
    pub profiles: IndexMap<String, ProfileConfig>,
    pub dispatch: IndexMap<String, DispatchRule>,
    pub package_manager: Option<PackageManagerConfig>,
}

/// Top-level `package_manager:` block. Generates install/build/default profiles and
/// dispatch rules automatically.
#[derive(Clone, Debug)]
pub struct PackageManagerConfig {
    /// One of: npm, yarn, pnpm, bun, uv, pip, poetry, cargo, go
    pub name: String,
    /// Override the preset's install writable paths.
    pub install_writable: Option<Vec<String>>,
    /// Override the preset's build writable paths.
    pub build_writable: Option<Vec<String>>,
    /// Override the preset's network_allow list for the install profile.
    pub network_allow: Option<Vec<String>>,
    /// Commands to run on the host before the sandboxed install.
    pub pre_run: Option<Vec<String>>,
}

#[derive(Clone, Copy, Debug, PartialEq, Eq, Structural)]
pub enum BackendKind {
    Podman,
    Docker,
}

#[derive(Clone, Copy, Debug, PartialEq, Eq, Structural)]
pub enum PullPolicy {
    IfMissing,
    Always,
    Never,
}

#[derive(Clone, Debug)]
pub struct RuntimeConfig {
    pub backend: Option<BackendKind>,
    pub rootless: Option<bool>,
    pub strict_security: Option<bool>,
    pub reuse_container: Option<bool>,
    pub container_name: Option<String>,
    pub pull_policy: Option<PullPolicy>,
    pub require_pinned_image: Option<bool>,
}

#[derive(Clone, Debug)]
pub struct WorkspaceConfig {
    pub root: Option<String>,
    pub mount: Option<String>,
    pub writable: Option<bool>,
    pub writable_paths: Vec<String>,
    /// Files/patterns to mask inside the container with /dev/null.
    pub exclude_paths: Vec<String>,
}

#[derive(Clone, Debug)]
pub struct IdentityConfig {
    pub map_user: Option<bool>,
    pub uid: Option<u32>,
    pub gid: Option<u32>,
}

#[derive(Clone, Debug)]
pub struct ImageConfig {
    pub reference: Option<String>,
    pub build: Option<String>,
    pub preset: Option<String>,
    pub digest: Option<String>,
    pub verify_signature: Option<bool>,
    pub pull_policy: Option<PullPolicy>,
    pub tag: Option<String>,
}

/// The `environment:` block. `set` holds its entries in ascending order of name,
/// each name once, as the YAML mapping is read into.
#[derive(Clone, Debug)]
pub struct EnvironmentConfig {
    pub pass_through: Vec<String>,
    pub set: Vec<(String, String)>,
    pub deny: Vec<String>,
}

#[derive(Clone, Copy, Debug, PartialEq, Eq, Structural)]
pub enum MountType {
    Bind,
    Tmpfs,
}

#[derive(Clone, Debug)]
pub struct MountConfig {
    pub source: Option<String>,
    pub target: Option<String>,
    pub mount_type: MountType,
    pub read_only: Option<bool>,
    pub create: Option<bool>,
}

#[derive(Clone, Debug)]
pub struct CacheConfig {
    pub name: String,
    pub target: String,
    pub source: Option<String>,
    pub read_only: Option<bool>,
}

#[derive(Clone, Debug)]
pub struct SecretConfig {
    pub name: String,
    pub source: String,
    pub target: String,
    /// Include this secret only when the active profile is one of these; empty means all.
    pub when_profiles: Vec<String>,
    /// Exclude this secret when the active profile has one of these roles.
    pub deny_roles: Vec<ProfileRole>,
}

#[derive(Clone, Copy, Debug, PartialEq, Eq, Structural)]
pub enum ExecutionMode {
    Host,
    Sandbox,
}

/// Role of a profile; `Install` enables install-style policy enforcement.
#[derive(Clone, Copy, Debug, PartialEq, Eq, Structural)]
pub enum ProfileRole {
    Install,
    Run,
    Build,
}

/// Structured form: `capabilities: { drop: [all], add: [NET_BIND_SERVICE] }`
#[derive(Clone, Debug)]
pub struct CapabilitiesConfig {
    pub drop: Vec<String>,
    pub add: Vec<String>,
}

/// The three accepted forms of `capabilities:`.
#[derive(Clone, Debug)]
pub enum CapabilitiesSpec {
    Structured(CapabilitiesConfig),
    List(Vec<String>),
    Keyword(String),
}

#[derive(Clone, Debug)]
pub struct ProfileConfig {
    pub mode: ExecutionMode,
    pub image: Option<ImageConfig>,
    pub network: Option<String>,
    pub writable: Option<bool>,
    pub require_pinned_image: Option<bool>,
    pub require_lockfile: Option<bool>,
    pub role: Option<ProfileRole>,
    pub lockfile_files: Vec<String>,
    pub pre_run: Vec<String>,
    pub ports: Vec<String>,
    pub network_allow: Vec<String>,
    pub capabilities: Option<CapabilitiesSpec>,
    pub no_new_privileges: Option<bool>,
    pub read_only_rootfs: Option<bool>,
    pub reuse_container: Option<bool>,
    pub shell: Option<String>,
    pub writable_paths: Option<Vec<String>>,
}

#[derive(Clone, Debug)]
pub struct DispatchRule {
    pub patterns: Vec<String>,
    pub profile: String,
}

} // verus!
