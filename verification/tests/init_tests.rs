use sbox::init::{rootless_from_info, rootless_info_args};
use sbox::init::{
    apply_runtime_backend, detect_backend_kind, detect_lockfile_preset, detect_package_manager_context,
    detect_package_manager_from_container_definition, insert_command_aliases, recommended_alias_profile,
    recommended_package_manager, render_generic_template_with_image_line, render_template, CommandAliasPrompt,
    ContainerDefinition, PackageManagerContext, ProjectFiles,
};

#[test]
fn renders_node_template_with_package_manager() {
    let rendered = render_template("node").expect("node preset should exist");
    assert!(rendered.contains("ref: node:22-bookworm-slim"));
    assert!(rendered.contains("package_manager:"));
    assert!(rendered.contains("name: npm"));
    assert!(rendered.contains("# Example extra profile:"));
    assert!(rendered.contains("# commands:"));
}

#[test]
fn renders_python_template_with_package_manager() {
    let rendered = render_template("python").expect("python preset should exist");
    assert!(rendered.contains("ghcr.io/astral-sh/uv:python3.13-bookworm-slim"));
    assert!(rendered.contains("name: uv"));
}

#[test]
fn renders_rust_template_with_package_manager() {
    let rendered = render_template("rust").expect("rust preset should exist");
    assert!(rendered.contains("ref: rust:1-bookworm"));
    assert!(rendered.contains("name: cargo"));
}

#[test]
fn docker_backend_patch_disables_map_user() {
    let rendered = render_template("python").expect("python preset should exist");
    let rendered = apply_runtime_backend(rendered, "docker", Some(false));
    assert!(rendered.contains("backend: docker"));
    assert!(rendered.contains("rootless: false"));
    assert!(rendered.contains("map_user: false"));
}

#[test]
fn renders_generic_template_with_profiles() {
    let rendered = render_template("generic").expect("generic preset should exist");
    assert!(rendered.contains("profiles:"));
    assert!(!rendered.contains("package_manager:"));
    assert!(rendered.contains("# commands:"));
}

fn in_dir(names: &[&str]) -> Vec<String> {
    names.iter().map(|n| format!("/proj/{n}")).collect()
}

#[test]
fn detects_npm_from_package_lock_json() {
    assert_eq!(detect_lockfile_preset("/proj", &in_dir(&["package-lock.json"]), &None), Some("npm"));
}

#[test]
fn detects_yarn_from_yarn_lock() {
    assert_eq!(detect_lockfile_preset("/proj", &in_dir(&["yarn.lock"]), &None), Some("yarn"));
}

#[test]
fn detects_uv_over_requirements_txt_when_both_present() {
    assert_eq!(
        detect_lockfile_preset("/proj", &in_dir(&["uv.lock", "requirements.txt"]), &None),
        Some("uv")
    );
}

#[test]
fn detects_composer_from_composer_lock() {
    assert_eq!(detect_lockfile_preset("/proj", &in_dir(&["composer.lock"]), &None), Some("composer"));
}

#[test]
fn detects_bundler_from_gemfile_lock() {
    assert_eq!(detect_lockfile_preset("/proj", &in_dir(&["Gemfile.lock"]), &None), Some("bundler"));
}

#[test]
fn returns_none_when_no_lockfile_found() {
    assert_eq!(detect_lockfile_preset("/proj", &Vec::new(), &None), None);
}

#[test]
fn package_json_limits_choices_to_node_package_managers() {
    let files = ProjectFiles {
        existing: in_dir(&["package.json"]),
        package_json: Some("{\"name\":\"demo\"}".to_string()),
        definition_text: None,
    };
    let context = detect_package_manager_context("/proj", &files);
    assert_eq!(context.detected, None);
    assert_eq!(context.choices, vec!["npm", "yarn", "pnpm", "bun"]);
    assert_eq!(recommended_package_manager(&context), Some("npm".to_string()));
}

#[test]
fn package_json_package_manager_field_is_used_when_present() {
    let files = ProjectFiles {
        existing: in_dir(&["package.json"]),
        package_json: Some("{\"name\":\"demo\",\"packageManager\":\"pnpm@9.0.0\"}".to_string()),
        definition_text: None,
    };
    let context = detect_package_manager_context("/proj", &files);
    assert_eq!(context.detected, Some("pnpm".to_string()));
    assert_eq!(context.choices, vec!["pnpm"]);
}

#[test]
fn pyproject_limits_choices_to_python_package_managers() {
    let files = ProjectFiles { existing: in_dir(&["pyproject.toml"]), package_json: None, definition_text: None };
    let context = detect_package_manager_context("/proj", &files);
    assert_eq!(context.detected, None);
    assert_eq!(context.choices, vec!["uv", "pip", "poetry"]);
    assert_eq!(recommended_package_manager(&context), Some("uv".to_string()));
}

#[test]
fn backend_prefers_project_files_over_path_detection() {
    let container_definition = ContainerDefinition { path: "Containerfile".to_string(), backend_hint: "podman" };
    let backend = detect_backend_kind(Some(&container_definition), None, false, true).unwrap();
    assert_eq!(backend, "podman");
}

#[test]
fn backend_patch_preserves_map_user_when_rootless_unknown() {
    let rendered = render_template("python").expect("python preset should exist");
    let rendered = apply_runtime_backend(rendered, "docker", None);
    assert!(rendered.contains("backend: docker"));
    assert!(rendered.contains("rootless: true"));
    assert!(rendered.contains("map_user: true"));
}

#[test]
fn inserts_command_aliases_as_real_commands_block() {
    let rendered = render_template("python").expect("python preset should exist");
    let updated = insert_command_aliases(
        rendered,
        &vec![CommandAliasPrompt {
            name: "up".to_string(),
            run: vec!["docker".to_string(), "compose".to_string(), "up".to_string(), "--build".to_string()],
            profile: None,
            description: None,
        }],
    );
    assert!(updated.contains("commands:\n  up:\n    run: [\"docker\", \"compose\", \"up\", \"--build\"]"));
    assert!(!updated.contains("#   build:\n#     run: [\"npm\", \"run\", \"build\"]"));
}

#[test]
fn recommends_host_profile_for_docker_aliases() {
    let run = vec!["docker".to_string(), "compose".to_string(), "up".to_string(), "--build".to_string()];
    assert_eq!(recommended_alias_profile(&run), Some("host"));
}

#[test]
fn recommended_package_manager_uses_detected_value() {
    let context = PackageManagerContext { detected: Some("cargo".to_string()), choices: vec!["cargo".to_string()] };
    assert_eq!(recommended_package_manager(&context), Some("cargo".to_string()));
}

#[test]
fn detects_package_manager_from_dockerfile_commands() {
    let text = "FROM node:22\nRUN corepack enable pnpm && pnpm install --frozen-lockfile\n";
    assert_eq!(detect_package_manager_from_container_definition(text), Some("pnpm"));
}

#[test]
fn generic_template_replaces_default_image_line() {
    let rendered = render_generic_template_with_image_line("  build: Dockerfile").expect("renders");
    assert!(rendered.contains("image:\n  build: Dockerfile"));
    assert!(!rendered.contains("ref: ubuntu:24.04"));
}

#[test]
fn generic_preset_uses_ubuntu() {
    let template = render_template("generic").expect("generic preset should exist");
    assert!(template.contains("ref: ubuntu:24.04"));
    assert!(template.contains("backend: podman"));
    assert!(template.contains("mode: sandbox"));
}

#[test]
fn python_preset_uses_python_image() {
    let template = render_template("python").expect("python preset should exist");
    assert!(template.contains("ghcr.io/astral-sh/uv:python3.13-bookworm-slim"));
}

#[test]
fn rust_preset_uses_rust_image() {
    let template = render_template("rust").expect("rust preset should exist");
    assert!(template.contains("ref: rust:1-bookworm"));
}

#[test]
fn node_preset_uses_node_image() {
    let template = render_template("node").expect("node preset should exist");
    assert!(template.contains("ref: node:22-bookworm-slim"));
}

#[test]
fn polyglot_preset_uses_ubuntu() {
    let template = render_template("polyglot").expect("polyglot preset should exist");
    assert!(template.contains("ref: ubuntu:24.04"));
}

#[test]
fn init_tests_unknown_preset_returns_error() {
    let result = render_template("nonexistent");
    assert!(result.is_err());
    let error = result.unwrap_err();
    assert!(error.message().contains("unknown preset"));
}

#[test]
fn template_contains_required_sections() {
    let template = render_template("generic").expect("generic preset should exist");

    assert!(template.contains("version: 1"));
    assert!(template.contains("runtime:"));
    assert!(template.contains("workspace:"));
    assert!(template.contains("image:"));
    assert!(template.contains("environment:"));
    assert!(template.contains("profiles:"));
    assert!(template.contains("dispatch:"));
}

#[test]
fn template_has_security_defaults() {
    let template = render_template("generic").expect("generic preset should exist");

    assert!(template.contains("rootless: true"));
    assert!(template.contains("network: off"));
    assert!(template.contains("no_new_privileges: true"));
}

#[test]
fn template_has_default_and_host_profiles() {
    let template = render_template("generic").expect("generic preset should exist");

    assert!(template.contains("default:"));
    assert!(template.contains("mode: sandbox"));
    assert!(template.contains("host:"));
    assert!(template.contains("mode: host"));
}

#[test]
fn template_passes_through_term() {
    let template = render_template("generic").expect("generic preset should exist");

    assert!(template.contains("- TERM"));
}


#[test]
fn noop_when_digest_already_present() {
    let input = "version: 1\n\nimage:\n  ref: ubuntu:24.04\n  digest: sha256:deadbeef\n";
    assert_eq!(sbox::init::image_ref_to_pin(input), None);
    let out = sbox::init::pin_digest_in_template(input.to_string(), Some("sha256:feed".to_string()));
    assert_eq!(out, input);
}

#[test]
fn noop_when_no_image_ref() {
    let input = "version: 1\n\nimage:\n  build: Dockerfile\n";
    assert_eq!(sbox::init::image_ref_to_pin(input), None);
    let out = sbox::init::pin_digest_in_template(input.to_string(), Some("sha256:feed".to_string()));
    assert_eq!(out, input);
}

#[test]
fn pins_digest_after_image_reference() {
    let input = "version: 1\n\nimage:\n  ref: ubuntu:24.04 \nruntime:\n";
    assert_eq!(sbox::init::image_ref_to_pin(input), Some("ubuntu:24.04".to_string()));
    let out = sbox::init::pin_digest_in_template(input.to_string(), Some("sha256:feed".to_string()));
    assert_eq!(out, "version: 1\n\nimage:\n  ref: ubuntu:24.04 \n  digest: sha256:feed\nruntime:\n");
    let unchanged = sbox::init::pin_digest_in_template(input.to_string(), None);
    assert_eq!(unchanged, input);
}

#[test]
fn rootless_detection_from_engine_info() {
    assert_eq!(rootless_from_info("podman", Some("true\n")), Some(true));
    assert_eq!(rootless_from_info("podman", Some(" false")), Some(false));
    assert_eq!(rootless_from_info("podman", Some("maybe")), None);
    assert_eq!(rootless_from_info("docker", Some("[name=seccomp name=rootless]")), Some(true));
    assert_eq!(rootless_from_info("docker", Some("[name=seccomp]")), Some(false));
    assert_eq!(rootless_from_info("docker", None), None);
    assert_eq!(rootless_from_info("lxc", Some("true")), None);
    assert_eq!(rootless_info_args("podman").unwrap(), vec!["info", "--format", "{{.Host.Security.Rootless}}"]);
    assert_eq!(rootless_info_args("docker").unwrap(), vec!["info", "--format", "{{.SecurityOptions}}"]);
    assert!(rootless_info_args("lxc").is_none());
}
