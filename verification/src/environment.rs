//! The environment of a sandboxed command and the audit facts of a plan:
//! pass-through and set variables, credential-looking pass-throughs, the
//! lockfile check and the host commands that run first.

use vstd::prelude::*;

use crate::config::model::EnvironmentConfig;
use crate::network::pair_views;
use crate::order::{insert_sorted, lex_lt, strictly_sorted};
use crate::paths::{path_join, path_join_str};
use crate::resolve::{sensitive_env, looks_like_sensitive_env, EnvVarSource, LockfileAudit, ResolvedEnvVar, ResolvedEnvironment};
use crate::text::{clone_strings, eq_str, seq_has, split_words, strings_contain, views, words};

verus! {

/// The process environment by characters.
pub open spec fn env_view(env: Seq<(String, String)>) -> Seq<(Seq<char>, Seq<char>)> {
    pair_views(env)
}

/// The value of `name` in an environment: that of its first entry.
pub open spec fn env_lookup(env: Seq<(Seq<char>, Seq<char>)>, name: Seq<char>) -> Option<Seq<char>>
    decreases env.len(),
{
    if env.len() == 0 {
        None
    } else if env[0].0 == name {
        Some(env[0].1)
    } else {
        env_lookup(env.drop_first(), name)
    }
}

/// One assignment of a variable: name, value and where it came from.
pub type EnvEvent = (Seq<char>, Seq<char>, EnvVarSource);

/// The pass-through variables that are not denied and that the process
/// environment holds, in order.
pub open spec fn pass_events(pass: Seq<Seq<char>>, deny: Seq<Seq<char>>, env: Seq<(Seq<char>, Seq<char>)>) -> Seq<EnvEvent>
    decreases pass.len(),
{
    if pass.len() == 0 {
        Seq::empty()
    } else {
        pass_events(pass.drop_last(), deny, env) + if !seq_has(deny, pass.last()) && env_lookup(env, pass.last()) is Some {
            seq![(pass.last(), env_lookup(env, pass.last()).unwrap(), EnvVarSource::PassThrough)]
        } else {
            Seq::empty()
        }
    }
}

/// The set variables that are not denied, in order.
pub open spec fn set_events(set: Seq<(Seq<char>, Seq<char>)>, deny: Seq<Seq<char>>) -> Seq<EnvEvent>
    decreases set.len(),
{
    if set.len() == 0 {
        Seq::empty()
    } else {
        set_events(set.drop_last(), deny) + if !seq_has(deny, set.last().0) {
            seq![(set.last().0, set.last().1, EnvVarSource::SetValue)]
        } else {
            Seq::empty()
        }
    }
}

/// Every assignment, pass-through variables first, then set ones.
pub open spec fn env_events(c: EnvironmentConfig, env: Seq<(Seq<char>, Seq<char>)>) -> Seq<EnvEvent> {
    pass_events(views(c.pass_through@), views(c.deny@), env) + set_events(pair_views(c.set@), views(c.deny@))
}

/// The value and origin a variable ends with: those of its last assignment.
pub open spec fn last_event(ev: Seq<EnvEvent>, name: Seq<char>) -> Option<(Seq<char>, EnvVarSource)>
    decreases ev.len(),
{
    if ev.len() == 0 {
        None
    } else if ev.last().0 == name {
        Some((ev.last().1, ev.last().2))
    } else {
        last_event(ev.drop_last(), name)
    }
}

/// The names of resolved variables.
pub open spec fn var_names(v: Seq<ResolvedEnvVar>) -> Seq<Seq<char>> {
    v.map_values(|x: ResolvedEnvVar| x.name@)
}

/// The resolved environment of a configuration: each assigned variable once,
/// sorted by name, with its last assignment; and the denied names.
pub open spec fn environment_of(c: EnvironmentConfig, env: Seq<(Seq<char>, Seq<char>)>, r: ResolvedEnvironment) -> bool {
    let ev = env_events(c, env);
    &&& strictly_sorted(var_names(r.variables@))
    &&& forall|i: int|
        0 <= i < r.variables@.len() ==> last_event(ev, (#[trigger] r.variables@[i]).name@) == Some(
            (r.variables@[i].value@, r.variables@[i].source),
        )
    &&& forall|k: Seq<char>| #[trigger] last_event(ev, k) is Some ==> seq_has(var_names(r.variables@), k)
    &&& views(r.denied@) == views(c.deny@)
}

/// The value of `name` in the process environment.
fn lookup_env(env: &Vec<(String, String)>, name: &str) -> (r: Option<String>)
    ensures
        match r {
            Some(v) => env_lookup(env_view(env@), name@) == Some(v@),
            None => env_lookup(env_view(env@), name@) is None,
        },
{
    let mut i: usize = 0;
    assert(env_view(env@).skip(0) =~= env_view(env@));
    while i < env.len()
        invariant
            i <= env@.len(),
            env_lookup(env_view(env@), name@) == env_lookup(env_view(env@).skip(i as int), name@),
        decreases env@.len() - i,
    {
        assert(env_view(env@).skip(i as int)[0] == (env@[i as int].0@, env@[i as int].1@));
        if eq_str(env[i].0.as_str(), name) {
            return Some(env[i].1.clone());
        }
        assert(env_view(env@).skip(i as int).drop_first() =~= env_view(env@).skip(i + 1));
        i = i + 1;
    }
    None
}

/// Assignments by their characters.
pub open spec fn event_views(v: Seq<(String, String, EnvVarSource)>) -> Seq<EnvEvent> {
    v.map_values(|e: (String, String, EnvVarSource)| (e.0@, e.1@, e.2))
}

fn push_event(v: &mut Vec<(String, String, EnvVarSource)>, e: (String, String, EnvVarSource))
    ensures
        event_views(final(v)@) == event_views(old(v)@).push((e.0@, e.1@, e.2)),
{
    let ghost before = v@;
    v.push(e);
    assert(event_views(v@) =~= event_views(before).push((e.0@, e.1@, e.2)));
}

fn collect_events(c: &EnvironmentConfig, env: &Vec<(String, String)>) -> (r: Vec<(String, String, EnvVarSource)>)
    ensures
        event_views(r@) == env_events(*c, env_view(env@)),
{
    let mut out: Vec<(String, String, EnvVarSource)> = Vec::new();
    let ghost pass = views(c.pass_through@);
    let ghost deny = views(c.deny@);
    let mut i: usize = 0;
    assert(event_views(out@) =~= pass_events(pass.take(0), deny, env_view(env@)));
    while i < c.pass_through.len()
        invariant
            pass == views(c.pass_through@),
            deny == views(c.deny@),
            i <= pass.len(),
            event_views(out@) == pass_events(pass.take(i as int), deny, env_view(env@)),
        decreases pass.len() - i,
    {
        let name = c.pass_through[i].as_str();
        assert(pass.take(i + 1).drop_last() =~= pass.take(i as int));
        assert(pass.take(i + 1).last() == name@);
        let ghost before = event_views(out@);
        if !strings_contain(c.deny.as_slice(), name) {
            match lookup_env(env, name) {
                Some(value) => {
                    push_event(&mut out, (c.pass_through[i].clone(), value, EnvVarSource::PassThrough));
                },
                None => {
                    assert(event_views(out@) =~= before + Seq::<EnvEvent>::empty());
                },
            }
        } else {
            assert(event_views(out@) =~= before + Seq::<EnvEvent>::empty());
        }
        i = i + 1;
    }
    assert(pass.take(pass.len() as int) =~= pass);
    let ghost passed = event_views(out@);
    let ghost set = pair_views(c.set@);
    let mut k: usize = 0;
    assert(passed + set_events(set.take(0), deny) =~= passed);
    while k < c.set.len()
        invariant
            set == pair_views(c.set@),
            deny == views(c.deny@),
            k <= set.len(),
            event_views(out@) == passed + set_events(set.take(k as int), deny),
        decreases set.len() - k,
    {
        let entry = &c.set[k];
        assert(set.take(k + 1).drop_last() =~= set.take(k as int));
        assert(set.take(k + 1).last() == (entry.0@, entry.1@));
        if !strings_contain(c.deny.as_slice(), entry.0.as_str()) {
            push_event(&mut out, (entry.0.clone(), entry.1.clone(), EnvVarSource::SetValue));
            assert(event_views(out@) =~= passed + set_events(set.take(k + 1), deny));
        } else {
            assert(event_views(out@) =~= passed + set_events(set.take(k + 1), deny));
        }
        k = k + 1;
    }
    assert(set.take(set.len() as int) =~= set);
    out
}

/// Some assignment sets `name`.
pub open spec fn assigned(ev: Seq<EnvEvent>, name: Seq<char>) -> bool {
    exists|j: int| 0 <= j < ev.len() && (#[trigger] ev[j]).0 == name
}

proof fn lemma_last_event_some(ev: Seq<EnvEvent>, name: Seq<char>)
    ensures
        last_event(ev, name) is Some <==> assigned(ev, name),
    decreases ev.len(),
{
    if ev.len() > 0 {
        lemma_last_event_some(ev.drop_last(), name);
        if assigned(ev.drop_last(), name) {
            let j = choose|j: int| 0 <= j < ev.drop_last().len() && (#[trigger] ev.drop_last()[j]).0 == name;
            assert(ev[j].0 == name);
        }
        if assigned(ev, name) && ev.last().0 != name {
            let j = choose|j: int| 0 <= j < ev.len() && (#[trigger] ev[j]).0 == name;
            assert(ev.drop_last()[j].0 == name);
        }
    }
}

/// The position of the last assignment of `name`.
fn find_last(events: &Vec<(String, String, EnvVarSource)>, name: &str) -> (r: Option<usize>)
    ensures
        match r {
            Some(j) => j < events@.len() && last_event(event_views(events@), name@) == Some(
                (events@[j as int].1@, events@[j as int].2),
            ),
            None => last_event(event_views(events@), name@) is None,
        },
{
    let ghost ev = event_views(events@);
    let mut n: usize = events.len();
    assert(ev.take(n as int) =~= ev);
    while n > 0
        invariant
            ev == event_views(events@),
            n <= events@.len(),
            last_event(ev, name@) == last_event(ev.take(n as int), name@),
        decreases n,
    {
        assert(ev.take(n as int).last() == (events@[n - 1].0@, events@[n - 1].1@, events@[n - 1].2));
        if eq_str(events[n - 1].0.as_str(), name) {
            return Some(n - 1);
        }
        assert(ev.take(n as int).drop_last() =~= ev.take(n - 1));
        n = n - 1;
    }
    None
}

/// The resolved environment: pass-through variables found in the process
/// environment, then set variables, the later assignment of a name winning,
/// denied names left out, sorted by name.
pub fn resolve_environment(config: &EnvironmentConfig, env: &Vec<(String, String)>) -> (r: ResolvedEnvironment)
    ensures
        environment_of(*config, env_view(env@), r),
{
    let events = collect_events(config, env);
    let ghost ev = event_views(events@);
    let mut names: Vec<String> = Vec::new();
    let mut i: usize = 0;
    while i < events.len()
        invariant
            ev == event_views(events@),
            i <= events@.len(),
            strictly_sorted(views(names@)),
            forall|s: Seq<char>| seq_has(views(names@), s) <==> assigned(ev.take(i as int), s),
        decreases events@.len() - i,
    {
        let ghost old_names = views(names@);
        insert_sorted(&mut names, events[i].0.as_str());
        assert forall|s: Seq<char>| seq_has(views(names@), s) <==> assigned(ev.take(i + 1), s) by {
            if assigned(ev.take(i + 1), s) && s != events@[i as int].0@ {
                let j = choose|j: int| 0 <= j < ev.take(i + 1).len() && (#[trigger] ev.take(i + 1)[j]).0 == s;
                assert(ev.take(i as int)[j].0 == s);
            }
            if s == events@[i as int].0@ {
                assert(ev.take(i + 1)[i as int].0 == s);
            }
            if assigned(ev.take(i as int), s) {
                let j = choose|j: int| 0 <= j < ev.take(i as int).len() && (#[trigger] ev.take(i as int)[j]).0 == s;
                assert(ev.take(i + 1)[j].0 == s);
            }
        }
        i = i + 1;
    }
    assert(ev.take(events@.len() as int) =~= ev);
    let mut vars: Vec<ResolvedEnvVar> = Vec::new();
    let mut k: usize = 0;
    while k < names.len()
        invariant
            ev == event_views(events@),
            ev == env_events(*config, env_view(env@)),
            k <= names@.len(),
            vars@.len() == k,
            strictly_sorted(views(names@)),
            forall|s: Seq<char>| seq_has(views(names@), s) <==> assigned(ev, s),
            forall|j: int| 0 <= j < k ==> (#[trigger] vars@[j]).name@ == names@[j]@,
            forall|j: int|
                0 <= j < k ==> last_event(ev, (#[trigger] vars@[j]).name@) == Some((vars@[j].value@, vars@[j].source)),
        decreases names@.len() - k,
    {
        let name = names[k].as_str();
        proof {
            assert(views(names@)[k as int] == name@);
            assert(seq_has(views(names@), name@));
            lemma_last_event_some(ev, name@);
        }
        match find_last(&events, name) {
            Some(j) => {
                vars.push(ResolvedEnvVar { name: names[k].clone(), value: events[j].1.clone(), source: events[j].2 });
            },
            None => {
                assert(false);
            },
        }
        k = k + 1;
    }
    assert(var_names(vars@) =~= views(names@));
    assert forall|s: Seq<char>| #[trigger] last_event(ev, s) is Some implies seq_has(var_names(vars@), s) by {
        lemma_last_event_some(ev, s);
    }
    ResolvedEnvironment { variables: vars, denied: clone_strings(&config.deny) }
}

/// The pass-through variables whose names look like credentials, in order.
pub open spec fn sensitive_pass(v: Seq<ResolvedEnvVar>) -> Seq<Seq<char>>
    decreases v.len(),
{
    if v.len() == 0 {
        Seq::empty()
    } else {
        sensitive_pass(v.drop_last()) + if v.last().source == EnvVarSource::PassThrough && sensitive_env(v.last().name@) {
            seq![v.last().name@]
        } else {
            Seq::empty()
        }
    }
}

/// The names of pass-through variables that look like credentials.
pub fn resolved_sensitive_pass_through_vars(environment: &ResolvedEnvironment) -> (r: Vec<String>)
    ensures
        views(r@) == sensitive_pass(environment.variables@),
{
    let ghost v = environment.variables@;
    let mut out: Vec<String> = Vec::new();
    let mut i: usize = 0;
    assert(views(out@) =~= sensitive_pass(v.take(0)));
    while i < environment.variables.len()
        invariant
            v == environment.variables@,
            i <= v.len(),
            views(out@) == sensitive_pass(v.take(i as int)),
        decreases v.len() - i,
    {
        let var = &environment.variables[i];
        assert(v.take(i + 1).drop_last() =~= v.take(i as int));
        assert(v.take(i + 1).last() == *var);
        let ghost before = views(out@);
        if var.source == EnvVarSource::PassThrough && looks_like_sensitive_env(var.name.as_str()) {
            out.push(var.name.clone());
            assert(views(out@) =~= before + seq![var.name@]);
        } else {
            assert(views(out@) =~= before + Seq::<Seq<char>>::empty());
        }
        i = i + 1;
    }
    assert(v.take(v.len() as int) =~= v);
    out
}

/// Some lockfile of the list exists below `dir`.
pub open spec fn lockfile_present(files: Seq<Seq<char>>, dir: Seq<char>, existing: Seq<Seq<char>>) -> bool {
    exists|i: int| 0 <= i < files.len() && seq_has(existing, path_join(dir, #[trigger] files[i]))
}

/// The lockfile audit of a profile: it applies to install-style profiles that
/// name lockfiles, is then required unless switched off (otherwise only when
/// switched on), and notes whether any of them exists in the project
/// directory.
pub open spec fn lockfile_audit_for(
    files: Seq<Seq<char>>,
    install_style: bool,
    dir: Seq<char>,
    require: Option<bool>,
    existing: Seq<Seq<char>>,
    r: LockfileAudit,
) -> bool {
    let applicable = install_style && files.len() > 0;
    &&& r.applicable == applicable
    &&& r.required == if applicable {
        require != Some(false)
    } else {
        require == Some(true)
    }
    &&& r.present == (applicable && lockfile_present(files, dir, existing))
    &&& views(r.expected_files@) == if applicable {
        files
    } else {
        Seq::empty()
    }
}

/// The lockfile audit of a profile; `existing_paths` are the host paths that exist.
pub fn resolve_lockfile_audit(
    lockfile_files: &Vec<String>,
    install_style: bool,
    project_dir: &str,
    require_lockfile: Option<bool>,
    existing_paths: &Vec<String>,
) -> (r: LockfileAudit)
    ensures
        lockfile_audit_for(views(lockfile_files@), install_style, project_dir@, require_lockfile, views(existing_paths@), r),
{
    if !install_style || lockfile_files.len() == 0 {
        let none: Vec<String> = Vec::new();
        assert(views(none@) =~= Seq::<Seq<char>>::empty());
        return LockfileAudit {
            applicable: false,
            required: require_lockfile == Some(true),
            present: false,
            expected_files: none,
        };
    }
    let mut present = false;
    let mut i: usize = 0;
    while i < lockfile_files.len()
        invariant
            i <= lockfile_files@.len(),
            present ==> lockfile_present(views(lockfile_files@), project_dir@, views(existing_paths@)),
            !present ==> forall|j: int| 0 <= j < i ==> !seq_has(views(existing_paths@), #[trigger] path_join(project_dir@, views(lockfile_files@)[j])),
        decreases lockfile_files@.len() - i,
    {
        let candidate = path_join_str(project_dir, lockfile_files[i].as_str());
        assert(views(lockfile_files@)[i as int] == lockfile_files@[i as int]@);
        if strings_contain(existing_paths.as_slice(), candidate.as_str()) {
            present = true;
        }
        i = i + 1;
    }
    LockfileAudit {
        applicable: true,
        required: require_lockfile != Some(false),
        present,
        expected_files: clone_strings(lockfile_files),
    }
}

/// The host commands of a profile's `pre_run`, each as its words; blank
/// entries are dropped.
pub open spec fn pre_run_commands(pre_run: Seq<Seq<char>>) -> Seq<Seq<Seq<char>>>
    decreases pre_run.len(),
{
    if pre_run.len() == 0 {
        Seq::empty()
    } else {
        pre_run_commands(pre_run.drop_last()) + if words(pre_run.last()).len() > 0 {
            seq![words(pre_run.last())]
        } else {
            Seq::empty()
        }
    }
}

/// Commands by the characters of their words.
pub open spec fn command_views(v: Seq<Vec<String>>) -> Seq<Seq<Seq<char>>> {
    v.map_values(|c: Vec<String>| views(c@))
}

/// Splits each `pre_run` entry into its words, dropping blank ones.
pub fn parse_pre_run_commands(pre_run: &Vec<String>) -> (r: Vec<Vec<String>>)
    ensures
        command_views(r@) == pre_run_commands(views(pre_run@)),
{
    let ghost p = views(pre_run@);
    let mut out: Vec<Vec<String>> = Vec::new();
    let mut i: usize = 0;
    assert(command_views(out@) =~= pre_run_commands(p.take(0)));
    while i < pre_run.len()
        invariant
            p == views(pre_run@),
            i <= p.len(),
            command_views(out@) == pre_run_commands(p.take(i as int)),
        decreases p.len() - i,
    {
        assert(p.take(i + 1).drop_last() =~= p.take(i as int));
        assert(p.take(i + 1).last() == pre_run@[i as int]@);
        let tokens = split_words(pre_run[i].as_str());
        let ghost before = command_views(out@);
        if tokens.len() > 0 {
            let ghost t = views(tokens@);
            out.push(tokens);
            assert(command_views(out@) =~= before + seq![t]);
        } else {
            assert(command_views(out@) =~= before + Seq::<Seq<Seq<char>>>::empty());
        }
        i = i + 1;
    }
    assert(p.take(p.len() as int) =~= p);
    out
}

/// A variable that ends with some value was assigned somewhere.
proof fn lemma_last_event_assigned(ev: Seq<EnvEvent>, name: Seq<char>)
    ensures
        last_event(ev, name) is Some ==> exists|i: int| 0 <= i < ev.len() && (#[trigger] ev[i]).0 == name,
    decreases ev.len(),
{
    if ev.len() > 0 && ev.last().0 != name {
        lemma_last_event_assigned(ev.drop_last(), name);
        if last_event(ev, name) is Some {
            let i = choose|i: int| 0 <= i < ev.drop_last().len() && (#[trigger] ev.drop_last()[i]).0 == name;
            assert(ev[i] == ev.drop_last()[i]);
        }
    } else if ev.len() > 0 {
        assert(ev[ev.len() - 1] == ev.last());
    }
}

/// No pass-through assignment is of a denied name.
proof fn lemma_pass_events_not_denied(pass: Seq<Seq<char>>, deny: Seq<Seq<char>>, env: Seq<(Seq<char>, Seq<char>)>)
    ensures
        forall|i: int| 0 <= i < pass_events(pass, deny, env).len() ==> !seq_has(deny, (#[trigger] pass_events(pass, deny, env)[i]).0),
    decreases pass.len(),
{
    if pass.len() > 0 {
        lemma_pass_events_not_denied(pass.drop_last(), deny, env);
        let head = pass_events(pass.drop_last(), deny, env);
        assert forall|i: int| 0 <= i < pass_events(pass, deny, env).len() implies !seq_has(
            deny,
            (#[trigger] pass_events(pass, deny, env)[i]).0,
        ) by {
            if i < head.len() {
                assert(pass_events(pass, deny, env)[i] == head[i]);
            }
        }
    }
}

/// No set assignment is of a denied name.
proof fn lemma_set_events_not_denied(set: Seq<(Seq<char>, Seq<char>)>, deny: Seq<Seq<char>>)
    ensures
        forall|i: int| 0 <= i < set_events(set, deny).len() ==> !seq_has(deny, (#[trigger] set_events(set, deny)[i]).0),
    decreases set.len(),
{
    if set.len() > 0 {
        lemma_set_events_not_denied(set.drop_last(), deny);
        let head = set_events(set.drop_last(), deny);
        assert forall|i: int| 0 <= i < set_events(set, deny).len() implies !seq_has(
            deny,
            (#[trigger] set_events(set, deny)[i]).0,
        ) by {
            if i < head.len() {
                assert(set_events(set, deny)[i] == head[i]);
            }
        }
    }
}

/// A denied variable never reaches the command: no resolved variable has a
/// name on the deny list, whether it was passed through or set.
pub proof fn law_denied_variables_are_never_resolved(
    c: EnvironmentConfig,
    env: Seq<(Seq<char>, Seq<char>)>,
    r: ResolvedEnvironment,
)
    requires
        environment_of(c, env, r),
    ensures
        forall|i: int| 0 <= i < r.variables@.len() ==> !seq_has(views(c.deny@), (#[trigger] r.variables@[i]).name@),
{
    let ev = env_events(c, env);
    let deny = views(c.deny@);
    let pe = pass_events(views(c.pass_through@), deny, env);
    let se = set_events(pair_views(c.set@), deny);
    lemma_pass_events_not_denied(views(c.pass_through@), deny, env);
    lemma_set_events_not_denied(pair_views(c.set@), deny);
    assert forall|i: int| 0 <= i < r.variables@.len() implies !seq_has(deny, (#[trigger] r.variables@[i]).name@) by {
        let name = r.variables@[i].name@;
        assert(last_event(ev, name) is Some);
        lemma_last_event_assigned(ev, name);
        let k = choose|k: int| 0 <= k < ev.len() && (#[trigger] ev[k]).0 == name;
        if k < pe.len() {
            assert(ev[k] == pe[k]);
        } else {
            assert(ev[k] == se[k - pe.len()]);
        }
    }
}

} // verus!
