# sbox

A native Linux sandbox for development commands (`npm install`, `cargo build`,
`uv sync`), with its decisions written in Verus and proved against their
contracts.

## Layout

- `src/` — the verified library.
  - `policy.rs`, `sandbox.rs`: what a command may touch — network need,
    writable paths, scrubbed variables, read-only and read-write grants,
    masked `.env` files, whether outbound TCP is denied.
  - `proxy.rs`: the egress proxy's decision on each request (allow-list).
  - `lock.rs`: the SHA-256 dependency hash and the check before a run,
    from the text of the lock file.
  - `json.rs`, `yaml.rs`: the values JSON and YAML texts are read into,
    and how their members are looked up; the compose readers in
    `harden.rs` and `shadow.rs` and the policy reader in
    `backend/podman.rs` work on them.
  - `shim.rs`: the wrapper scripts that route tools through `sbox run`.
  - `config/`, `resolve.rs`, `dispatch.rs`, `workspace.rs`, `environment.rs`:
    the configuration model, its validation and elaboration, and the plan
    of a command for the container backends (`backend/`).
  - `plan.rs`, `explain.rs`, `doctor.rs`, `lint.rs`, `harden.rs`, `init.rs`,
    `wizard.rs` and the rest: the reports and generated files of the other
    subcommands.
- `app/main.rs` — the command line and the work the library decides on:
  Landlock rules, namespaces, bind mounts, the proxy's sockets, files.
- `tests/` — tests of the library on concrete values.

Laws that span functions are public proof functions named `law_*`.
