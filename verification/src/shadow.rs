//! Plans for projects without an `sbox.yaml`: the project's own container
//! setup (a compose file or a Dockerfile) decides the image, under a locked
//! down default policy.

use vstd::prelude::*;

use crate::config::model::{BackendKind, ExecutionMode};
use crate::dispatch::command_line;
use crate::error::SboxError;
use crate::paths::{path_join, path_join_str};
use crate::resolve::{
    CwdMapping, ExecutionAudit, ExecutionPlan, ImageTrust, LockfileAudit, ModeSource, ProfileSource,
    ResolvedEnvironment, ResolvedImage, ResolvedImageSource, ResolvedPolicy, ResolvedUser, ResolvedWorkspace,
};
use crate::text::{concat2, concat3, eq_str, format_decimal, decimal, owned, seq_has, strings_contain, views};
use crate::yaml::{as_mapping, as_str, get, member, opt_mapping, opt_str, yaml_document, YamlValue};

verus! {

/// The container setup a project already has.
pub enum InfraKind {
    Compose { file: String, service: Option<String> },
    Dockerfile(String),
    Bare,
}

/// The compose files looked for, in order: Podman's own first under Podman.
pub open spec fn compose_candidates(backend: BackendKind) -> Seq<Seq<char>> {
    match backend {
        BackendKind::Podman => seq![
            "podman-compose.yml"@,
            "podman-compose.yaml"@,
            "docker-compose.yml"@,
            "docker-compose.yaml"@,
            "compose.yml"@,
            "compose.yaml"@,
        ],
        BackendKind::Docker => seq!["docker-compose.yml"@, "docker-compose.yaml"@, "compose.yml"@, "compose.yaml"@],
    }
}

/// The first candidate compose file that exists below the workspace.
pub open spec fn first_existing(dir: Seq<char>, names: Seq<Seq<char>>, existing: Seq<Seq<char>>) -> Option<Seq<char>>
    decreases names.len(),
{
    if names.len() == 0 {
        None
    } else if seq_has(existing, path_join(dir, names[0])) {
        Some(path_join(dir, names[0]))
    } else {
        first_existing(dir, names.drop_first(), existing)
    }
}

/// The setup of a workspace: the first existing compose file, else a
/// `Dockerfile`, else none.
pub open spec fn infrastructure_of(workspace: Seq<char>, backend: BackendKind, existing: Seq<Seq<char>>, r: InfraKind) -> bool {
    match first_existing(workspace, compose_candidates(backend), existing) {
        Some(f) => r matches InfraKind::Compose { file, service } && file@ == f && service is None,
        None => if seq_has(existing, path_join(workspace, "Dockerfile"@)) {
            r matches InfraKind::Dockerfile(p) && p@ == path_join(workspace, "Dockerfile"@)
        } else {
            r is Bare
        },
    }
}

/// Detects the container setup of a workspace; `existing_paths` are the host
/// paths that exist.
pub fn detect_infrastructure(workspace: &str, backend: BackendKind, existing_paths: &Vec<String>) -> (r: InfraKind)
    ensures
        infrastructure_of(workspace@, backend, views(existing_paths@), r),
{
    let names: Vec<String> = match backend {
        BackendKind::Podman => {
            let a = [
                "podman-compose.yml",
                "podman-compose.yaml",
                "docker-compose.yml",
                "docker-compose.yaml",
                "compose.yml",
                "compose.yaml",
            ];
            assert(crate::text::str_views(a@) =~= compose_candidates(backend));
            crate::text::owned_list(&a)
        },
        BackendKind::Docker => {
            let a = ["docker-compose.yml", "docker-compose.yaml", "compose.yml", "compose.yaml"];
            assert(crate::text::str_views(a@) =~= compose_candidates(backend));
            crate::text::owned_list(&a)
        },
    };
    let ghost cands = compose_candidates(backend);
    let mut i: usize = 0;
    assert(cands.skip(0) =~= cands);
    while i < names.len()
        invariant
            views(names@) == cands,
            cands == compose_candidates(backend),
            i <= cands.len(),
            first_existing(workspace@, cands, views(existing_paths@)) == first_existing(
                workspace@,
                cands.skip(i as int),
                views(existing_paths@),
            ),
        decreases cands.len() - i,
    {
        assert(cands.skip(i as int)[0] == names@[i as int]@);
        let path = path_join_str(workspace, names[i].as_str());
        if strings_contain(existing_paths.as_slice(), path.as_str()) {
            assert(first_existing(workspace@, cands.skip(i as int), views(existing_paths@)) == Some(path@));
            return InfraKind::Compose { file: path, service: None };
        }
        assert(cands.skip(i as int).drop_first() =~= cands.skip(i + 1));
        i = i + 1;
    }
    assert(cands.skip(cands.len() as int) =~= Seq::<Seq<char>>::empty());
    let dockerfile = path_join_str(workspace, "Dockerfile");
    proof {
        reveal_strlit("Dockerfile");
    }
    if strings_contain(existing_paths.as_slice(), dockerfile.as_str()) {
        return InfraKind::Dockerfile(dockerfile);
    }
    InfraKind::Bare
}

/// What a compose file says about its services: each service's key (when it
/// is a string) and image (when it names one), in file order; `None` when
/// the file has no `services` mapping.
pub struct ComposeServices {
    pub services: Option<Vec<(Option<String>, Option<String>)>>,
}

/// The locked-down plan every shadow plan starts from.
pub open spec fn base_plan(plan: ExecutionPlan, command: Seq<Seq<char>>, root: Seq<char>, inv: Seq<char>, backend: BackendKind) -> bool {
    &&& views(plan.command@) == command
    &&& plan.command_string@ == command_line(command)
    &&& plan.backend == backend
    &&& plan.profile_source is Shadow
    &&& plan.mode == ExecutionMode::Sandbox
    &&& plan.mode_source == ModeSource::Default
    &&& plan.workspace.root@ == root
    &&& plan.workspace.invocation_dir@ == inv
    &&& plan.workspace.effective_host_dir@ == root
    &&& plan.workspace.mount@ == "/src"@
    &&& plan.workspace.sandbox_cwd@ == "/src"@
    &&& plan.workspace.cwd_mapping == CwdMapping::WorkspaceRootFallback
    &&& !plan.policy.writable
    &&& plan.policy.ports@.len() == 0
    &&& plan.policy.no_new_privileges
    &&& plan.policy.read_only_rootfs
    &&& !plan.policy.reuse_container
    &&& plan.policy.reusable_session_name is None
    &&& views(plan.policy.cap_drop@) == seq!["ALL"@]
    &&& plan.policy.cap_add@.len() == 0
    &&& plan.policy.pull_policy is None
    &&& plan.policy.network_allow@.len() == 0
    &&& plan.policy.network_allow_patterns@.len() == 0
    &&& plan.environment.variables@.len() == 0
    &&& plan.environment.denied@.len() == 0
    &&& plan.mounts@.len() == 0
    &&& plan.caches@.len() == 0
    &&& plan.secrets@.len() == 0
    &&& plan.user == ResolvedUser::KeepId
    &&& !plan.audit.install_style
    &&& !plan.audit.trusted_image_required
    &&& plan.audit.sensitive_pass_through_vars@.len() == 0
    &&& !plan.audit.lockfile.applicable
    &&& !plan.audit.lockfile.required
    &&& !plan.audit.lockfile.present
    &&& plan.audit.lockfile.expected_files@.len() == 0
    &&& plan.audit.pre_run@.len() == 0
}

/// The locked-down plan every shadow plan starts from: sandboxed, network
/// on, read-only, no capabilities, the invoking user's ids.
pub fn base_shadow_plan(command: &Vec<String>, workspace_root: &str, invocation_dir: &str, backend: BackendKind) -> (r: ExecutionPlan)
    ensures
        base_plan(r, views(command@), workspace_root@, invocation_dir@, backend),
        r.policy.network@ == "on"@,
{
    proof {
        reveal_strlit("/src");
        reveal_strlit("ALL");
        reveal_strlit("on");
    }
    let mut cap_drop: Vec<String> = Vec::new();
    crate::text::push_string(&mut cap_drop, owned("ALL"));
    assert(views(cap_drop@) =~= seq!["ALL"@]);
    ExecutionPlan {
        command_string: crate::dispatch::command_string(command.as_slice()),
        command: crate::text::clone_strings(command),
        backend,
        image: ResolvedImage {
            description: String::new(),
            source: ResolvedImageSource::Reference(String::new()),
            trust: ImageTrust::MutableReference,
            verify_signature: false,
        },
        profile_name: owned("shadow"),
        profile_source: ProfileSource::Shadow,
        mode: ExecutionMode::Sandbox,
        mode_source: ModeSource::Default,
        workspace: ResolvedWorkspace {
            root: owned(workspace_root),
            invocation_dir: owned(invocation_dir),
            effective_host_dir: owned(workspace_root),
            mount: owned("/src"),
            sandbox_cwd: owned("/src"),
            cwd_mapping: CwdMapping::WorkspaceRootFallback,
        },
        policy: ResolvedPolicy {
            network: owned("on"),
            writable: false,
            ports: Vec::new(),
            no_new_privileges: true,
            read_only_rootfs: true,
            reuse_container: false,
            reusable_session_name: None,
            cap_drop,
            cap_add: Vec::new(),
            pull_policy: None,
            network_allow: Vec::new(),
            network_allow_patterns: Vec::new(),
        },
        environment: ResolvedEnvironment { variables: Vec::new(), denied: Vec::new() },
        mounts: Vec::new(),
        caches: Vec::new(),
        secrets: Vec::new(),
        user: ResolvedUser::KeepId,
        audit: ExecutionAudit {
            install_style: false,
            trusted_image_required: false,
            sensitive_pass_through_vars: Vec::new(),
            lockfile: LockfileAudit { applicable: false, required: false, present: false, expected_files: Vec::new() },
            pre_run: Vec::new(),
        },
    }
}

/// Service names preferred as the application service.
pub open spec fn preferred_services() -> Seq<Seq<char>> {
    seq!["app"@, "web"@, "api"@, "backend"@, "server"@]
}

/// Service keys by their characters (non-string keys as `None`).
pub open spec fn service_keys(s: Seq<(Option<String>, Option<String>)>) -> Seq<Option<Seq<char>>> {
    s.map_values(|e: (Option<String>, Option<String>)| crate::resolve::opt_chars(e.0))
}

/// The first preferred name that is a service key.
pub open spec fn first_preferred(keys: Seq<Option<Seq<char>>>, names: Seq<Seq<char>>) -> Option<Seq<char>>
    decreases names.len(),
{
    if names.len() == 0 {
        None
    } else if keys.contains(Some(names[0])) {
        Some(names[0])
    } else {
        first_preferred(keys, names.drop_first())
    }
}

/// The service a command runs in: the one asked for, else the first
/// preferred name present, else the first key (when it is a string).
pub open spec fn target_service(service: Option<Seq<char>>, keys: Seq<Option<Seq<char>>>) -> Option<Seq<char>> {
    match service {
        Some(s) => Some(s),
        None => match first_preferred(keys, preferred_services()) {
            Some(p) => Some(p),
            None => if keys.len() > 0 {
                keys[0]
            } else {
                None
            },
        },
    }
}

/// The image of a service: that of the first entry with its key, if it
/// names one.
pub open spec fn service_image(s: Seq<(Option<String>, Option<String>)>, name: Seq<char>) -> Option<Seq<char>>
    decreases s.len(),
{
    if s.len() == 0 {
        None
    } else if crate::resolve::opt_chars(s[0].0) == Some(name) {
        crate::resolve::opt_chars(s[0].1)
    } else {
        service_image(s.drop_first(), name)
    }
}

fn find_key(s: &Vec<(Option<String>, Option<String>)>, name: &str) -> (r: Option<usize>)
    ensures
        r matches Some(i) ==> i < s@.len() && service_keys(s@)[i as int] == Some(name@) && service_image(s@, name@)
            == crate::resolve::opt_chars(s@[i as int].1),
        r is None ==> !service_keys(s@).contains(Some(name@)) && service_image(s@, name@) is None,
{
    let ghost ks = service_keys(s@);
    let mut i: usize = 0;
    assert(s@.skip(0) =~= s@);
    while i < s.len()
        invariant
            ks == service_keys(s@),
            i <= s@.len(),
            forall|j: int| 0 <= j < i ==> ks[j] != Some(name@),
            service_image(s@, name@) == service_image(s@.skip(i as int), name@),
        decreases s@.len() - i,
    {
        assert(s@.skip(i as int)[0] == s@[i as int]);
        let hit = match &s[i].0 {
            Some(k) => eq_str(k.as_str(), name),
            None => false,
        };
        if hit {
            return Some(i);
        }
        assert(s@.skip(i as int).drop_first() =~= s@.skip(i + 1));
        i = i + 1;
    }
    None
}

/// The error when the compose file names no usable service.
pub open spec fn no_services_error(e: SboxError) -> bool {
    e matches SboxError::InfrastructureDetectionFailed { reason } && reason@ == "no services found in compose file"@
}

/// The plan for a compose project: the target service's image (or
/// `ubuntu:24.04` when it names none), mutable.
pub open spec fn compose_plan(
    services: ComposeServices,
    service: Option<Seq<char>>,
    command: Seq<Seq<char>>,
    root: Seq<char>,
    inv: Seq<char>,
    backend: BackendKind,
    r: Result<ExecutionPlan, SboxError>,
) -> bool {
    match services.services {
        None => r matches Err(SboxError::InfrastructureDetectionFailed { reason }) && reason@
            == "invalid compose file: no services found"@,
        Some(s) => match target_service(service, service_keys(s@)) {
            None => r is Err && no_services_error(r->Err_0),
            Some(t) => {
                &&& r is Ok
                &&& base_plan(r->Ok_0, command, root, inv, backend)
                &&& r->Ok_0.policy.network@ == "on"@
                &&& r->Ok_0.profile_name@ == "shadow-compose-"@ + t
                &&& r->Ok_0.image.description@ == "Inherited from compose service '"@ + t + "'"@
                &&& r->Ok_0.image.source matches ResolvedImageSource::Reference(x) && x@ == match service_image(s@, t) {
                    Some(img) => img,
                    None => "ubuntu:24.04"@,
                }
                &&& r->Ok_0.image.trust == ImageTrust::MutableReference
                &&& !r->Ok_0.image.verify_signature
            },
        },
    }
}

/// The shadow plan of a compose project, given what its compose file says.
pub fn resolve_compose_shadow(
    services: &ComposeServices,
    service: &Option<String>,
    command: &Vec<String>,
    workspace_root: &str,
    invocation_dir: &str,
    backend: BackendKind,
) -> (r: Result<ExecutionPlan, SboxError>)
    ensures
        compose_plan(*services, crate::resolve::opt_chars(*service), views(command@), workspace_root@, invocation_dir@, backend, r),
{
    proof {
        reveal_strlit("invalid compose file: no services found");
        reveal_strlit("no services found in compose file");
        reveal_strlit("ubuntu:24.04");
        reveal_strlit("shadow-compose-");
        reveal_strlit("Inherited from compose service '");
        reveal_strlit("'");
    }
    let s = match &services.services {
        Some(s) => s,
        None => return Err(
            SboxError::InfrastructureDetectionFailed { reason: owned("invalid compose file: no services found") },
        ),
    };
    let ghost ks = service_keys(s@);
    let target: Option<String> = match service {
        Some(name) => Some(name.clone()),
        None => {
            let preferred = ["app", "web", "api", "backend", "server"];
            assert(crate::text::str_views(preferred@) =~= preferred_services());
            let mut found: Option<String> = None;
            let mut k: usize = 0;
            assert(preferred_services().skip(0) =~= preferred_services());
            while k < 5 && found.is_none()
                invariant
                    k <= 5,
                    ks == service_keys(s@),
                    crate::text::str_views(preferred@) == preferred_services(),
                    found matches Some(f) ==> first_preferred(ks, preferred_services()) == Some(f@),
                    found is None ==> first_preferred(ks, preferred_services()) == first_preferred(
                        ks,
                        preferred_services().skip(k as int),
                    ),
                decreases 5 - k,
            {
                assert(preferred_services().skip(k as int)[0] == preferred[k as int]@);
                match find_key(s, preferred[k]) {
                    Some(j) => {
                        assert(ks[j as int] == Some(preferred[k as int]@));
                        assert(ks.contains(Some(preferred[k as int]@)));
                        assert(first_preferred(ks, preferred_services().skip(k as int)) == Some(preferred[k as int]@));
                        found = Some(owned(preferred[k]));
                    },
                    None => {
                        assert(preferred_services().skip(k as int).drop_first() =~= preferred_services().skip(k + 1));
                    },
                }
                k = k + 1;
            }
            match found {
                Some(f) => Some(f),
                None => {
                    assert(preferred_services().skip(5) =~= Seq::<Seq<char>>::empty());
                    if s.len() > 0 {
                        assert(ks[0] == crate::resolve::opt_chars(s@[0].0));
                        match &s[0].0 {
                            Some(key) => Some(key.clone()),
                            None => None,
                        }
                    } else {
                        None
                    }
                },
            }
        },
    };
    let t = match target {
        Some(t) => t,
        None => return Err(
            SboxError::InfrastructureDetectionFailed { reason: owned("no services found in compose file") },
        ),
    };
    let image_ref = match find_key(s, t.as_str()) {
        Some(i) => match &s[i].1 {
            Some(img) => img.clone(),
            None => owned("ubuntu:24.04"),
        },
        None => owned("ubuntu:24.04"),
    };
    let mut plan = base_shadow_plan(command, workspace_root, invocation_dir, backend);
    plan.image = ResolvedImage {
        description: concat3("Inherited from compose service '", t.as_str(), "'"),
        source: ResolvedImageSource::Reference(image_ref),
        trust: ImageTrust::MutableReference,
        verify_signature: false,
    };
    plan.profile_name = concat2("shadow-compose-", t.as_str());
    Ok(plan)
}

/// The shadow plan of a project with a Dockerfile: built locally under a
/// per-process tag.
pub fn resolve_dockerfile_shadow(
    path: &str,
    command: &Vec<String>,
    workspace_root: &str,
    invocation_dir: &str,
    backend: BackendKind,
    process_id: u32,
) -> (r: ExecutionPlan)
    ensures
        base_plan(r, views(command@), workspace_root@, invocation_dir@, backend),
        r.policy.network@ == "on"@,
        r.profile_name@ == "shadow-dockerfile"@,
        r.image.description@ == "Built from Dockerfile"@,
        r.image.source matches ResolvedImageSource::Build { recipe_path, tag } && recipe_path@ == path@ && tag@
            == "sbox-shadow-"@ + decimal(process_id as nat),
        r.image.trust == ImageTrust::LocalBuild,
        !r.image.verify_signature,
{
    let mut plan = base_shadow_plan(command, workspace_root, invocation_dir, backend);
    let pid = format_decimal(process_id as u64);
    plan.image = ResolvedImage {
        description: owned("Built from Dockerfile"),
        source: ResolvedImageSource::Build { recipe_path: owned(path), tag: concat2("sbox-shadow-", pid.as_str()) },
        trust: ImageTrust::LocalBuild,
        verify_signature: false,
    };
    plan.profile_name = owned("shadow-dockerfile");
    plan
}

/// The shadow plan of a project with no container setup: a stock image with
/// the network off.
pub fn resolve_default_shadow(command: &Vec<String>, workspace_root: &str, invocation_dir: &str, backend: BackendKind) -> (r: ExecutionPlan)
    ensures
        base_plan(r, views(command@), workspace_root@, invocation_dir@, backend),
        r.policy.network@ == "off"@,
        r.profile_name@ == "shadow-default"@,
        r.image.description@ == "Default secure image"@,
        r.image.source matches ResolvedImageSource::Reference(x) && x@ == "ubuntu:24.04"@,
        r.image.trust == ImageTrust::MutableReference,
        !r.image.verify_signature,
{
    let mut plan = base_shadow_plan(command, workspace_root, invocation_dir, backend);
    plan.image = ResolvedImage {
        description: owned("Default secure image"),
        source: ResolvedImageSource::Reference(owned("ubuntu:24.04")),
        trust: ImageTrust::MutableReference,
        verify_signature: false,
    };
    plan.profile_name = owned("shadow-default");
    plan.policy.network = owned("off");
    plan
}

/// The shadow plan of a project by its container setup, given what the
/// compose file says when the setup is a compose file.
pub open spec fn shadow_plan(
    infra: InfraKind,
    compose: ComposeServices,
    command: Seq<Seq<char>>,
    workspace_root: Seq<char>,
    invocation_dir: Seq<char>,
    backend: BackendKind,
    process_id: u32,
    r: Result<ExecutionPlan, SboxError>,
) -> bool {
    match infra {
        InfraKind::Compose { file, service } => compose_plan(
            compose,
            crate::resolve::opt_chars(service),
            command,
            workspace_root,
            invocation_dir,
            backend,
            r,
        ),
        InfraKind::Dockerfile(p) => r is Ok && base_plan(r->Ok_0, command, workspace_root, invocation_dir, backend)
            && r->Ok_0.profile_name@ == "shadow-dockerfile"@ && r->Ok_0.policy.network@ == "on"@
            && r->Ok_0.image.description@ == "Built from Dockerfile"@ && r->Ok_0.image.trust == ImageTrust::LocalBuild
            && !r->Ok_0.image.verify_signature && (r->Ok_0.image.source matches ResolvedImageSource::Build {
            recipe_path,
            tag,
        } && recipe_path@ == p@ && tag@ == "sbox-shadow-"@ + decimal(process_id as nat)),
        InfraKind::Bare => r is Ok && base_plan(r->Ok_0, command, workspace_root, invocation_dir, backend)
            && r->Ok_0.profile_name@ == "shadow-default"@ && r->Ok_0.policy.network@ == "off"@
            && r->Ok_0.image.description@ == "Default secure image"@ && (r->Ok_0.image.source matches ResolvedImageSource::Reference(
            x,
        ) && x@ == "ubuntu:24.04"@) && r->Ok_0.image.trust == ImageTrust::MutableReference
            && !r->Ok_0.image.verify_signature,
    }
}

/// The shadow plan of a project by its container setup. `compose` is what
/// the compose file says (read when the setup is a compose file);
/// `process_id` tags a Dockerfile build.
pub fn resolve_shadow_plan(
    infra: &InfraKind,
    command: &Vec<String>,
    workspace_root: &str,
    invocation_dir: &str,
    backend: BackendKind,
    compose: &ComposeServices,
    process_id: u32,
) -> (r: Result<ExecutionPlan, SboxError>)
    ensures
        shadow_plan(*infra, *compose, views(command@), workspace_root@, invocation_dir@, backend, process_id, r),
{
    match infra {
        InfraKind::Compose { file: _, service } => resolve_compose_shadow(
            compose,
            service,
            command,
            workspace_root,
            invocation_dir,
            backend,
        ),
        InfraKind::Dockerfile(path) => Ok(
            resolve_dockerfile_shadow(path.as_str(), command, workspace_root, invocation_dir, backend, process_id),
        ),
        InfraKind::Bare => Ok(resolve_default_shadow(command, workspace_root, invocation_dir, backend)),
    }
}

/// A key of the `services` mapping as the services are looked up by name:
/// only a plain string key names a service.
pub open spec fn plain_key(k: YamlValue) -> Option<Seq<char>> {
    match k {
        YamlValue::Str(s) => Some(s@),
        _ => None,
    }
}

/// What a compose file's YAML value says about its services: the entries
/// of its `services` mapping in order, each with its plain string key and
/// the string under its `image`.
pub open spec fn services_read(cs: ComposeServices, v: YamlValue) -> bool {
    match opt_mapping(member(v, "services"@)) {
        Some(es) => cs.services matches Some(ss) && ss.len() == es.len() && forall|i: int|
            0 <= i < es.len() ==> {
                &&& crate::resolve::opt_chars(#[trigger] ss@[i].0) == plain_key(es[i].0)
                &&& crate::resolve::opt_chars(ss@[i].1) == opt_str(member(es[i].1, "image"@))
            },
        None => cs.services is None,
    }
}

/// What a compose file's YAML value says about its services.
pub fn compose_services(v: &YamlValue) -> (r: ComposeServices)
    ensures
        services_read(r, *v),
{
    proof {
        reveal_strlit("services");
        reveal_strlit("image");
    }
    let es = match get(v, "services") {
        Some(x) => match as_mapping(x) {
            Some(es) => es,
            None => return ComposeServices { services: None },
        },
        None => return ComposeServices { services: None },
    };
    let mut out: Vec<(Option<String>, Option<String>)> = Vec::new();
    let mut i: usize = 0;
    while i < es.len()
        invariant
            i <= es@.len(),
            out@.len() == i,
            forall|j: int|
                0 <= j < i ==> {
                    &&& crate::resolve::opt_chars(#[trigger] out@[j].0) == plain_key(es@[j].0)
                    &&& crate::resolve::opt_chars(out@[j].1) == opt_str(member(es@[j].1, "image"@))
                },
        decreases es@.len() - i,
    {
        let key = match &es[i].0 {
            YamlValue::Str(k) => Some(k.clone()),
            _ => None,
        };
        let image = match get(&es[i].1, "image") {
            Some(x) => as_str(x),
            None => None,
        };
        out.push((key, image));
        i = i + 1;
    }
    ComposeServices { services: Some(out) }
}

/// What the text of a compose file says about its services; a text that is
/// no YAML fails the shadow plan with the parser's message.
pub fn compose_services_from_text(text: &str) -> (r: Result<ComposeServices, SboxError>)
    ensures
        match yaml_document(text@) {
            Ok(v) => r matches Ok(cs) && services_read(cs, v),
            Err(m) => r matches Err(SboxError::ShadowComposeGeneration { message }) && message@ == m,
        },
{
    match crate::yaml::parse_yaml(text) {
        Ok(v) => Ok(compose_services(&v)),
        Err(m) => Err(SboxError::ShadowComposeGeneration { message: m }),
    }
}

/// The shadow plan of a project by its container setup, from what reading
/// the compose file gave (its text, or the read error's message); the
/// read is looked at only when the setup is a compose file. An unreadable
/// compose file fails the detection of the setup.
pub fn resolve_shadow_plan_from_text(
    infra: &InfraKind,
    command: &Vec<String>,
    workspace_root: &str,
    invocation_dir: &str,
    backend: BackendKind,
    compose_read: &Result<String, String>,
    process_id: u32,
) -> (r: Result<ExecutionPlan, SboxError>)
    ensures
        match *infra {
            InfraKind::Compose { file, service } => match compose_read {
                Err(m) => r matches Err(SboxError::InfrastructureDetectionFailed { reason }) && reason@
                    == "failed to read compose file: "@ + m@,
                Ok(t) => match yaml_document(t@) {
                    Err(m) => r matches Err(SboxError::ShadowComposeGeneration { message }) && message@ == m,
                    Ok(v) => exists|cs: ComposeServices|
                        services_read(cs, v) && #[trigger] compose_plan(
                            cs,
                            crate::resolve::opt_chars(service),
                            views(command@),
                            workspace_root@,
                            invocation_dir@,
                            backend,
                            r,
                        ),
                },
            },
            _ => shadow_plan(
                *infra,
                ComposeServices { services: None },
                views(command@),
                workspace_root@,
                invocation_dir@,
                backend,
                process_id,
                r,
            ),
        },
{
    match infra {
        InfraKind::Compose { file: _, service: _ } => {
            let text = match compose_read {
                Ok(t) => t,
                Err(m) => {
                    let reason = concat2("failed to read compose file: ", m.as_str());
                    return Err(SboxError::InfrastructureDetectionFailed { reason });
                },
            };
            let services = match compose_services_from_text(text.as_str()) {
                Ok(cs) => cs,
                Err(e) => return Err(e),
            };
            let r = resolve_shadow_plan(infra, command, workspace_root, invocation_dir, backend, &services, process_id);
            r
        },
        _ => {
            let empty = ComposeServices { services: None };
            resolve_shadow_plan(infra, command, workspace_root, invocation_dir, backend, &empty, process_id)
        },
    }
}

} // verus!
