//! The Docker command lines of a plan.

use vstd::prelude::*;

use crate::backend::args::{
    binds_have_sources, caches_args, current_uid_gid, env_args, first_bad_secret, first_unknown_mount,
    flag_pairs, format_user, home_view, mounts_args, network_args, proc_id, push2, push_caches_args,
    push_env_args, push_flag_pairs, push_mounts_args, push_network_args, push_secrets_args,
    push_security_args, secret_check, secret_error_matches, secrets_args, security_args, user_spec,
    HostContext,
};
use crate::error::SboxError;
use crate::resolve::{ExecutionPlan, ResolvedMount, ResolvedUser};
use crate::text::{concat3, eq_str, owned, push_string, views};

verus! {

/// Host names of cloud metadata services; they are pointed at an address
/// that goes nowhere whenever the network is on.
pub open spec fn metadata_hosts() -> Seq<Seq<char>> {
    seq![
        "metadata.google.internal"@,
        "metadata.internal"@,
        "instance-data.ec2.internal"@,
        "169.254.169.254"@,
        "100.100.100.200"@,
    ]
}

/// The host names of cloud metadata services.
pub fn cloud_metadata_hostnames() -> (r: Vec<String>)
    ensures
        views(r@) == metadata_hosts(),
{
    let a = [
        "metadata.google.internal",
        "metadata.internal",
        "instance-data.ec2.internal",
        "169.254.169.254",
        "100.100.100.200",
    ];
    assert(crate::text::str_views(a@) =~= metadata_hosts());
    crate::text::owned_list(&a)
}

/// `--add-host name:address` for each pair.
pub open spec fn add_host_args(pairs: Seq<(Seq<char>, Seq<char>)>) -> Seq<Seq<char>>
    decreases pairs.len(),
{
    if pairs.len() == 0 {
        Seq::empty()
    } else {
        add_host_args(pairs.drop_last()) + seq!["--add-host"@, pairs.last().0 + ":"@ + pairs.last().1]
    }
}

/// The allow-list words: DNS pointed nowhere and each allowed pair as a
/// host entry, when there is an allow-list.
pub open spec fn allow_args(pairs: Seq<(Seq<char>, Seq<char>)>) -> Seq<Seq<char>> {
    if pairs.len() == 0 {
        Seq::empty()
    } else {
        seq!["--dns"@, "192.0.2.1"@] + add_host_args(pairs)
    }
}

/// The words that sink the metadata host names, when the network is on.
pub open spec fn metadata_args(network: Seq<char>) -> Seq<Seq<char>> {
    if network != "off"@ {
        add_host_args(metadata_hosts().map_values(|h: Seq<char>| (h, "192.0.2.1"@)))
    } else {
        Seq::empty()
    }
}

/// Appends `--add-host name:address` for each pair.
pub fn push_add_hosts(args: &mut Vec<String>, pairs: &Vec<(String, String)>)
    ensures
        views(final(args)@) == views(old(args)@) + add_host_args(crate::network::pair_views(pairs@)),
{
    let ghost pv = crate::network::pair_views(pairs@);
    let ghost start = views(args@);
    let mut i: usize = 0;
    assert(pv.take(0) =~= Seq::<(Seq<char>, Seq<char>)>::empty());
    while i < pairs.len()
        invariant
            pv == crate::network::pair_views(pairs@),
            i <= pv.len(),
            views(args@) == start + add_host_args(pv.take(i as int)),
        decreases pv.len() - i,
    {
        assert(pv.take(i + 1).drop_last() =~= pv.take(i as int));
        assert(pv.take(i + 1).last() == (pairs@[i as int].0@, pairs@[i as int].1@));
        let entry = concat3(pairs[i].0.as_str(), ":", pairs[i].1.as_str());
        push2(args, "--add-host", entry.as_str());
        assert(views(args@) =~= start + add_host_args(pv.take(i + 1)));
        i = i + 1;
    }
    assert(pv.take(pv.len() as int) =~= pv);
}

/// Appends the allow-list words.
pub fn push_allow_args(args: &mut Vec<String>, pairs: &Vec<(String, String)>)
    ensures
        views(final(args)@) == views(old(args)@) + allow_args(crate::network::pair_views(pairs@)),
{
    if pairs.len() > 0 {
        let ghost start = views(args@);
        push2(args, "--dns", "192.0.2.1");
        push_add_hosts(args, pairs);
        assert(views(args@) =~= start + allow_args(crate::network::pair_views(pairs@)));
    } else {
        assert(views(args@) =~= views(args@) + Seq::<Seq<char>>::empty());
    }
}

/// Appends the words that sink the metadata host names.
pub fn push_metadata_args(args: &mut Vec<String>, network: &str)
    ensures
        views(final(args)@) == views(old(args)@) + metadata_args(network@),
{
    proof {
        reveal_strlit("off");
    }
    if !eq_str(network, "off") {
        let hosts = cloud_metadata_hostnames();
        let mut pairs: Vec<(String, String)> = Vec::new();
        let mut i: usize = 0;
        while i < hosts.len()
            invariant
                views(hosts@) == metadata_hosts(),
                i <= hosts@.len(),
                crate::network::pair_views(pairs@) == metadata_hosts().take(i as int).map_values(
                    |h: Seq<char>| (h, "192.0.2.1"@),
                ),
            decreases hosts@.len() - i,
        {
            let ghost before = crate::network::pair_views(pairs@);
            let h = hosts[i].clone();
            let a = owned("192.0.2.1");
            proof {
                reveal_strlit("192.0.2.1");
            }
            assert(metadata_hosts()[i as int] == hosts@[i as int]@);
            assert(h@ == hosts@[i as int]@);
            let ghost hv = h@;
            let ghost av = a@;
            pairs.push((h, a));
            assert(crate::network::pair_views(pairs@) =~= before.push((hv, av)));
            assert(crate::network::pair_views(pairs@) =~= metadata_hosts().take(i + 1).map_values(
                |h: Seq<char>| (h, "192.0.2.1"@),
            ));
            i = i + 1;
        }
        assert(metadata_hosts().take(5) =~= metadata_hosts());
        push_add_hosts(args, &pairs);
    } else {
        assert(views(args@) =~= views(args@) + Seq::<Seq<char>>::empty());
    }
}

/// The user words under Docker, which has no id mapping: the caller's ids
/// (read from its process status) stand in for `keep-id`.
pub open spec fn docker_user_args(user: ResolvedUser, proc_status: Seq<char>) -> Seq<Seq<char>> {
    match user {
        ResolvedUser::KeepId => seq![
            "--user"@,
            user_spec(proc_id(proc_status, "Uid:"@), proc_id(proc_status, "Gid:"@)),
        ],
        ResolvedUser::Explicit { uid, gid } => seq!["--user"@, user_spec(uid, gid)],
        ResolvedUser::Default => Seq::empty(),
    }
}

fn push_docker_user_args(args: &mut Vec<String>, user: ResolvedUser, proc_status: &str)
    ensures
        views(final(args)@) == views(old(args)@) + docker_user_args(user, proc_status@),
{
    match user {
        ResolvedUser::KeepId => {
            let (uid, gid) = current_uid_gid(proc_status);
            let u = format_user(uid, gid);
            push2(args, "--user", u.as_str());
        },
        ResolvedUser::Explicit { uid, gid } => {
            let u = format_user(uid, gid);
            push2(args, "--user", u.as_str());
        },
        ResolvedUser::Default => {
            assert(views(args@) =~= views(args@) + Seq::<Seq<char>>::empty());
        },
    }
}

/// The `--pull` words of a pull policy, if any.
pub open spec fn pull_args(pull: Option<String>) -> Seq<Seq<char>> {
    match pull {
        Some(p) => seq!["--pull"@, p@],
        None => Seq::empty(),
    }
}

/// Appends the `--pull` words of a pull policy.
pub fn push_pull_args(args: &mut Vec<String>, pull: &Option<String>)
    ensures
        views(final(args)@) == views(old(args)@) + pull_args(*pull),
{
    match pull {
        Some(p) => push2(args, "--pull", p.as_str()),
        None => {
            assert(views(args@) =~= views(args@) + Seq::<Seq<char>>::empty());
        },
    }
}

/// The hardening, network, allow-list, port and user settings of a plan.
pub open spec fn docker_front(plan: ExecutionPlan, ctx: HostContext, metadata: bool) -> Seq<Seq<char>> {
    let pol = plan.policy;
    security_args(pol.read_only_rootfs, pol.no_new_privileges, views(pol.cap_drop@), views(pol.cap_add@))
        + network_args(pol.network@) + allow_args(crate::network::pair_views(pol.network_allow@)) + (if metadata {
        metadata_args(pol.network@)
    } else {
        Seq::empty()
    }) + flag_pairs("--publish"@, views(pol.ports@)) + docker_user_args(plan.user, ctx.proc_status@)
}

/// The mount, cache, secret and environment settings of a plan.
pub open spec fn storage_args(plan: ExecutionPlan, mounts: Seq<ResolvedMount>, ctx: HostContext, podman: bool) -> Seq<Seq<char>> {
    let root = plan.workspace.root@;
    mounts_args(mounts) + caches_args(plan.caches@, root, home_view(ctx), podman) + secrets_args(
        plan.secrets@,
        root,
        home_view(ctx),
        views(ctx.existing_paths@),
        podman,
    ) + env_args(plan.environment.variables@)
}

/// The container settings Docker gets, after the working directory: hardening,
/// network, allow-list, ports, user, mounts, caches, secrets and environment.
pub open spec fn docker_settings(plan: ExecutionPlan, ctx: HostContext, metadata: bool) -> Seq<Seq<char>> {
    docker_front(plan, ctx, metadata) + storage_args(plan, plan.mounts@, ctx, false)
}

fn push_docker_front(args: &mut Vec<String>, plan: &ExecutionPlan, ctx: &HostContext, metadata: bool)
    ensures
        views(final(args)@) == views(old(args)@) + docker_front(*plan, *ctx, metadata),
{
    let ghost s0 = views(args@);
    let pol = &plan.policy;
    push_security_args(args, pol.read_only_rootfs, pol.no_new_privileges, &pol.cap_drop, &pol.cap_add);
    let ghost s1 = views(args@);
    push_network_args(args, pol.network.as_str());
    let ghost s2 = views(args@);
    push_allow_args(args, &pol.network_allow);
    let ghost s3 = views(args@);
    if metadata {
        push_metadata_args(args, pol.network.as_str());
    } else {
        assert(views(args@) =~= views(args@) + Seq::<Seq<char>>::empty());
    }
    let ghost s4 = views(args@);
    push_flag_pairs(args, "--publish", &pol.ports);
    let ghost s5 = views(args@);
    push_docker_user_args(args, plan.user, ctx.proc_status.as_str());
    assert(views(args@) =~= s0 + docker_front(*plan, *ctx, metadata));
}

/// Appends the mount, cache, secret and environment settings, failing as
/// building the command line does.
pub fn push_storage_args(args: &mut Vec<String>, plan: &ExecutionPlan, mounts: &Vec<ResolvedMount>, ctx: &HostContext, podman: bool) -> (r: Result<(), SboxError>)
    requires
        binds_have_sources(mounts@),
    ensures
        args_outcome(
            *plan,
            mounts@,
            *ctx,
            views(old(args)@) + storage_args(*plan, mounts@, *ctx, podman),
            match r {
                Ok(()) => Ok(*final(args)),
                Err(e) => Err(e),
            },
        ),
{
    let ghost s0 = views(args@);
    match push_mounts_args(args, mounts) {
        Ok(()) => {},
        Err(e) => return Err(e),
    }
    let ghost s1 = views(args@);
    push_caches_args(args, &plan.caches, plan.workspace.root.as_str(), &ctx.home, podman);
    let ghost s2 = views(args@);
    match push_secrets_args(args, &plan.secrets, plan.workspace.root.as_str(), ctx, podman) {
        Ok(()) => {},
        Err(e) => return Err(e),
    }
    let ghost s3 = views(args@);
    push_env_args(args, &plan.environment.variables);
    assert(views(args@) =~= s0 + storage_args(*plan, mounts@, *ctx, podman));
    Ok(())
}

/// How building a command line from a plan turns out: the first mount of an
/// unknown kind fails it, else the first secret whose source does not check
/// out, else it succeeds with `words`.
pub open spec fn args_outcome(plan: ExecutionPlan, mounts: Seq<ResolvedMount>, ctx: HostContext, words: Seq<Seq<char>>, r: Result<Vec<String>, SboxError>) -> bool {
    let root = plan.workspace.root@;
    let home = home_view(ctx);
    let existing = views(ctx.existing_paths@);
    match first_unknown_mount(mounts) {
        Some(kind) => r matches Err(SboxError::UnsupportedMountType { mount_type }) && mount_type@ == kind,
        None => match first_bad_secret(plan.secrets@, root, home, existing) {
            Some(j) => r is Err && secret_error_matches(
                plan.secrets@[j],
                secret_check(plan.secrets@[j], root, home, existing),
                r->Err_0,
            ),
            None => r is Ok && views(r->Ok_0@) == words,
        },
    }
}

fn push_docker_settings(args: &mut Vec<String>, plan: &ExecutionPlan, ctx: &HostContext, metadata: bool) -> (r: Result<(), SboxError>)
    requires
        binds_have_sources(plan.mounts@),
    ensures
        args_outcome(
            *plan,
            plan.mounts@,
            *ctx,
            views(old(args)@) + docker_settings(*plan, *ctx, metadata),
            match r {
                Ok(()) => Ok(*final(args)),
                Err(e) => Err(e),
            },
        ),
{
    let ghost s0 = views(args@);
    push_docker_front(args, plan, ctx, metadata);
    let ghost s1 = views(args@);
    assert(s1 + storage_args(*plan, plan.mounts@, *ctx, false) =~= s0 + docker_settings(*plan, *ctx, metadata));
    push_storage_args(args, plan, &plan.mounts, ctx, false)
}

/// The `docker run` words of a plan: a throw-away interactive container (with
/// a terminal when `tty`), its settings, the sunk metadata hosts, the pull
/// policy, then the image and the command.
pub open spec fn docker_run_words(plan: ExecutionPlan, image: Seq<char>, tty: bool, ctx: HostContext) -> Seq<Seq<char>> {
    seq!["run"@, "--rm"@, "-i"@] + (if tty {
        seq!["-t"@]
    } else {
        Seq::empty()
    }) + seq!["--workdir"@, plan.workspace.sandbox_cwd@] + docker_settings(plan, ctx, true) + pull_args(
        plan.policy.pull_policy,
    ) + seq![image] + views(plan.command@)
}

/// The `docker run` arguments of a plan, with a terminal when `tty`.
pub fn build_run_args_with_options(plan: &ExecutionPlan, image: &str, tty: bool, ctx: &HostContext) -> (r: Result<Vec<String>, SboxError>)
    requires
        binds_have_sources(plan.mounts@),
    ensures
        args_outcome(*plan, plan.mounts@, *ctx, docker_run_words(*plan, image@, tty, *ctx), r),
{
    let mut args: Vec<String> = Vec::new();
    assert(views(args@) =~= Seq::<Seq<char>>::empty());
    push_string(&mut args, owned("run"));
    push_string(&mut args, owned("--rm"));
    push_string(&mut args, owned("-i"));
    if tty {
        push_string(&mut args, owned("-t"));
    }
    push2(&mut args, "--workdir", plan.workspace.sandbox_cwd.as_str());
    let ghost head = views(args@);
    proof {
        reveal_strlit("run");
        reveal_strlit("--rm");
        reveal_strlit("-i");
        reveal_strlit("-t");
        assert(head =~= seq!["run"@, "--rm"@, "-i"@] + (if tty {
            seq!["-t"@]
        } else {
            Seq::<Seq<char>>::empty()
        }) + seq!["--workdir"@, plan.workspace.sandbox_cwd@]);
    }
    match push_docker_settings(&mut args, plan, ctx, true) {
        Ok(()) => {},
        Err(e) => return Err(e),
    }
    push_pull_args(&mut args, &plan.policy.pull_policy);
    push_string(&mut args, owned(image));
    let ghost before = views(args@);
    let cmd = crate::text::clone_strings(&plan.command);
    crate::text::add_all(&mut args, cmd);
    assert(views(args@) =~= docker_run_words(*plan, image@, tty, *ctx));
    Ok(args)
}

/// The `docker run` arguments of a plan, without a terminal.
pub fn build_run_args(plan: &ExecutionPlan, image: &str, ctx: &HostContext) -> (r: Result<Vec<String>, SboxError>)
    requires
        binds_have_sources(plan.mounts@),
    ensures
        args_outcome(*plan, plan.mounts@, *ctx, docker_run_words(*plan, image@, false, *ctx), r),
{
    build_run_args_with_options(plan, image, false, ctx)
}

/// The `docker create` words of a reusable session container that sleeps
/// until commands are run in it.
pub open spec fn docker_create_words(plan: ExecutionPlan, image: Seq<char>, session: Seq<char>, ctx: HostContext) -> Seq<Seq<char>> {
    seq!["create"@, "--name"@, session, "--workdir"@, plan.workspace.sandbox_cwd@] + docker_settings(plan, ctx, false)
        + seq![image, "sleep"@, "infinity"@]
}

/// The `docker create` arguments of a plan's reusable session container.
pub fn build_create_args(plan: &ExecutionPlan, image: &str, session_name: &str, ctx: &HostContext) -> (r: Result<Vec<String>, SboxError>)
    requires
        binds_have_sources(plan.mounts@),
    ensures
        args_outcome(*plan, plan.mounts@, *ctx, docker_create_words(*plan, image@, session_name@, *ctx), r),
{
    let mut args: Vec<String> = Vec::new();
    assert(views(args@) =~= Seq::<Seq<char>>::empty());
    push_string(&mut args, owned("create"));
    push2(&mut args, "--name", session_name);
    push2(&mut args, "--workdir", plan.workspace.sandbox_cwd.as_str());
    proof {
        reveal_strlit("create");
    }
    match push_docker_settings(&mut args, plan, ctx, false) {
        Ok(()) => {},
        Err(e) => return Err(e),
    }
    push_string(&mut args, owned(image));
    push2(&mut args, "sleep", "infinity");
    assert(views(args@) =~= docker_create_words(*plan, image@, session_name@, *ctx));
    Ok(args)
}

/// The `docker run` arguments give each capability the policy adds right
/// after `--cap-add`, and each one it drops right after `--cap-drop`.
pub proof fn law_docker_run_grants_added_capabilities(plan: ExecutionPlan, image: Seq<char>, tty: bool, ctx: HostContext)
    ensures
        forall|i: int|
            0 <= i < plan.policy.cap_add@.len() ==> crate::backend::args::follows(
                docker_run_words(plan, image, tty, ctx),
                "--cap-add"@,
                #[trigger] plan.policy.cap_add@[i]@,
            ),
        forall|i: int|
            0 <= i < plan.policy.cap_drop@.len() ==> crate::backend::args::follows(
                docker_run_words(plan, image, tty, ctx),
                "--cap-drop"@,
                #[trigger] plan.policy.cap_drop@[i]@,
            ),
{
    let pol = plan.policy;
    let sec = security_args(pol.read_only_rootfs, pol.no_new_privileges, views(pol.cap_drop@), views(pol.cap_add@));
    let a = seq!["run"@, "--rm"@, "-i"@] + (if tty {
        seq!["-t"@]
    } else {
        Seq::empty()
    }) + seq!["--workdir"@, plan.workspace.sandbox_cwd@];
    let w = docker_run_words(plan, image, tty, ctx);
    let b = w.subrange((a.len() + sec.len()) as int, w.len() as int);
    assert(w =~= a + sec + b);
    crate::backend::args::law_capabilities_follow_their_flags(
        pol.read_only_rootfs,
        pol.no_new_privileges,
        views(pol.cap_drop@),
        views(pol.cap_add@),
    );
    assert forall|i: int| 0 <= i < pol.cap_add@.len() implies crate::backend::args::follows(
        w,
        "--cap-add"@,
        #[trigger] pol.cap_add@[i]@,
    ) by {
        assert(views(pol.cap_add@)[i] == pol.cap_add@[i]@);
        crate::backend::args::lemma_follows_in_context(a, sec, b, "--cap-add"@, pol.cap_add@[i]@);
    }
    assert forall|i: int| 0 <= i < pol.cap_drop@.len() implies crate::backend::args::follows(
        w,
        "--cap-drop"@,
        #[trigger] pol.cap_drop@[i]@,
    ) by {
        assert(views(pol.cap_drop@)[i] == pol.cap_drop@[i]@);
        crate::backend::args::lemma_follows_in_context(a, sec, b, "--cap-drop"@, pol.cap_drop@[i]@);
    }
}

} // verus!
