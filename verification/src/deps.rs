//! Resolving a task and its dependencies into an ordered list of calls: each
//! dependency is resolved before the task that needs it, each task at most
//! once, and a task met again on its own dependency path is a cycle.
use vstd::prelude::*;

use crate::config::{
    build_commands_spec, build_cwd_spec, build_env_vars_spec, matches_io, stdio_field_spec, collect, lemma_collect_all, lemma_collect_err, lemma_collect_step, matches_opt_text,
    render_all_both, substitution_context_spec, Config, Dep, DepV, OptV, OptValue, OptValueV,
    OptOverrides, Task, TaskV,
};
use crate::error::{DoerError, ErrorV};
use crate::order::{deps_come_first, is_prefix, walk_basic};
use crate::spec::{env_views, EnvVarV, Runnable, RunnableV, SpecIo, stdio_of};
use crate::strmap::{Duplicate, StrMap};
use crate::template::{render_both, Templatable};
use crate::text::{copy_opt_string, copy_string, copy_strings, opt_text, owned, same_text, texts};

verus! {

/// What a dependency becomes for one call of its parent: the task to call
/// and everything the call carries, rendered in the parent's context.
#[derive(Debug)]
pub struct DepResolution {
    pub name: String,
    pub args: Vec<String>,
    pub opt_overrides: OptOverrides,
    pub background: bool,
    pub stdin: Option<String>,
    pub stdout: Option<String>,
    pub stderr: Option<String>,
    pub nice: Option<i32>,
}

/// One call of a task: the arguments, overrides and settings it gets.
pub ghost struct ReqV {
    pub args: Seq<Seq<char>>,
    pub ov: Map<Seq<char>, OptValueV>,
    pub background: bool,
    pub nice: Option<i32>,
    pub stdin: Option<Seq<char>>,
    pub stdout: Option<Seq<char>>,
    pub stderr: Option<Seq<char>>,
}

pub ghost struct DepResolutionV {
    pub name: Seq<char>,
    pub req: ReqV,
}

impl View for DepResolution {
    type V = DepResolutionV;

    open spec fn view(&self) -> DepResolutionV {
        DepResolutionV {
            name: self.name@,
            req: ReqV {
                args: texts(self.args@),
                ov: self.opt_overrides@,
                background: self.background,
                nice: self.nice,
                stdin: opt_text(self.stdin),
                stdout: opt_text(self.stdout),
                stderr: opt_text(self.stderr),
            },
        }
    }
}

/// The value a dependency's option passes on: a string rendered through both
/// stages of the parent, a flag as it is.
pub open spec fn dep_opt_pair(o: OptV, ctx: Map<Seq<char>, Seq<char>>, args: Seq<Seq<char>>) -> Result<
    (Seq<char>, OptValueV),
    ErrorV,
> {
    match o.value {
        OptValueV::Str(s) => match render_both(s, ctx, args) {
            Ok(v) => Ok((o.name, OptValueV::Str(v))),
            Err(e) => Err(e),
        },
        OptValueV::Flag(b) => Ok((o.name, OptValueV::Flag(b))),
    }
}

/// The map built by inserting the pairs in order.
pub open spec fn pairs_map(ps: Seq<(Seq<char>, OptValueV)>) -> Map<Seq<char>, OptValueV>
    decreases ps.len(),
{
    if ps.len() == 0 {
        Map::empty()
    } else {
        pairs_map(ps.drop_last()).insert(ps.last().0, ps.last().1)
    }
}

/// An optional template rendered through both stages.
pub open spec fn opt_both(o: Option<Seq<char>>, ctx: Map<Seq<char>, Seq<char>>, args: Seq<Seq<char>>) -> Result<
    Option<Seq<char>>,
    ErrorV,
> {
    match o {
        None => Ok(None),
        Some(s) => match render_both(s, ctx, args) {
            Ok(v) => Ok(Some(v)),
            Err(e) => Err(e),
        },
    }
}

/// A dependency of `t`, resolved for a call of `t` with the given arguments
/// and overrides: its arguments, string options and stdio rendered in that
/// order in `t`'s context; its flags, background and nice passed on as they
/// are. The overrides of the dependency are its own options only.
pub open spec fn build_dep_spec(
    t: TaskV,
    d: DepV,
    args: Seq<Seq<char>>,
    ov: Map<Seq<char>, OptValueV>,
) -> Result<DepResolutionV, ErrorV> {
    let ctx = substitution_context_spec(t, ov);
    match render_all_both(d.args, ctx, args) {
        Err(e) => Err(e),
        Ok(ra) => match collect(d.opts.map_values(|o: OptV| dep_opt_pair(o, ctx, args))) {
            Err(e) => Err(e),
            Ok(ps) => match opt_both(d.stdin, ctx, args) {
                Err(e) => Err(e),
                Ok(si) => match opt_both(d.stdout, ctx, args) {
                    Err(e) => Err(e),
                    Ok(so) => match opt_both(d.stderr, ctx, args) {
                        Err(e) => Err(e),
                        Ok(se) => Ok(
                            DepResolutionV {
                                name: d.name,
                                req: ReqV {
                                    args: ra,
                                    ov: pairs_map(ps),
                                    background: d.background,
                                    nice: d.nice,
                                    stdin: si,
                                    stdout: so,
                                    stderr: se,
                                },
                            },
                        ),
                    },
                },
            },
        },
    }
}

pub open spec fn matches_dep(r: Result<DepResolution, DoerError>, s: Result<DepResolutionV, ErrorV>) -> bool {
    match r {
        Ok(v) => s == Ok::<DepResolutionV, ErrorV>(v@),
        Err(e) => s == Err::<DepResolutionV, ErrorV>(e@),
    }
}

proof fn lemma_pairs_map_dom(ps: Seq<(Seq<char>, OptValueV)>)
    ensures
        pairs_map(ps).dom() == ps.map_values(|p: (Seq<char>, OptValueV)| p.0).to_set(),
    decreases ps.len(),
{
    if ps.len() > 0 {
        lemma_pairs_map_dom(ps.drop_last());
        let names = ps.map_values(|p: (Seq<char>, OptValueV)| p.0);
        assert(ps.drop_last().map_values(|p: (Seq<char>, OptValueV)| p.0) =~= names.drop_last());
        assert forall|k: Seq<char>| names.to_set().contains(k) == (names.drop_last().to_set().insert(
            ps.last().0,
        )).contains(k) by {
            if names.contains(k) {
                let j = choose|j: int| 0 <= j < names.len() && names[j] == k;
                if j < names.len() - 1 {
                    assert(names.drop_last()[j] == k);
                }
            }
            if names.drop_last().contains(k) {
                let j = choose|j: int| 0 <= j < names.drop_last().len() && names.drop_last()[j] == k;
                assert(names[j] == k);
            }
            assert(names[names.len() - 1] == ps.last().0);
        }
        assert(pairs_map(ps).dom() =~= names.to_set());
    } else {
        assert(pairs_map(ps).dom() =~= ps.map_values(|p: (Seq<char>, OptValueV)| p.0).to_set());
    }
}

/// The options of a resolved dependency are exactly the dependency's own
/// options: none of the parent's options leak into the call.
pub proof fn law_dep_overrides_are_own(
    t: TaskV,
    d: DepV,
    args: Seq<Seq<char>>,
    ov: Map<Seq<char>, OptValueV>,
)
    requires
        build_dep_spec(t, d, args, ov) is Ok,
    ensures
        build_dep_spec(t, d, args, ov)->Ok_0.req.ov.dom() == d.opts.map_values(|o: OptV| o.name).to_set(),
{
    let ctx = substitution_context_spec(t, ov);
    let rs = d.opts.map_values(|o: OptV| dep_opt_pair(o, ctx, args));
    let ps = collect(rs)->Ok_0;
    lemma_collect_names(rs, d.opts, ctx, args);
    lemma_pairs_map_dom(ps);
}

proof fn lemma_pairs_map_last(ps: Seq<(Seq<char>, OptValueV)>, j: int)
    requires
        0 <= j < ps.len(),
        forall|k: int| j < k < ps.len() ==> ps[k].0 != ps[j].0,
    ensures
        pairs_map(ps).contains_key(ps[j].0),
        pairs_map(ps)[ps[j].0] == ps[j].1,
    decreases ps.len(),
{
    if j < ps.len() - 1 {
        let p = ps.drop_last();
        assert(p[j] == ps[j]);
        assert forall|k: int| j < k < p.len() implies p[k].0 != p[j].0 by {
            assert(p[k] == ps[k]);
        }
        lemma_pairs_map_last(p, j);
        assert(ps.last().0 != ps[j].0);
    }
}

/// What a dependency passes on for each of its options: a boolean option
/// passes its value unchanged, and a string option passes its text rendered
/// in the parent's context; for an option named more than once, the last of
/// that name counts.
pub proof fn law_dep_option_values(
    t: TaskV,
    d: DepV,
    args: Seq<Seq<char>>,
    ov: Map<Seq<char>, OptValueV>,
    j: int,
)
    requires
        build_dep_spec(t, d, args, ov) is Ok,
        0 <= j < d.opts.len(),
        forall|k: int| j < k < d.opts.len() ==> d.opts[k].name != d.opts[j].name,
    ensures
        ({
            let r = build_dep_spec(t, d, args, ov)->Ok_0;
            let o = d.opts[j];
            &&& r.req.ov.contains_key(o.name)
            &&& o.value matches OptValueV::Flag(b) ==> r.req.ov[o.name] == OptValueV::Flag(b)
            &&& o.value matches OptValueV::Str(s) ==> render_both(s, substitution_context_spec(t, ov), args)
                == Ok::<Seq<char>, ErrorV>(r.req.ov[o.name]->Str_0) && r.req.ov[o.name] is Str
        }),
{
    let ctx = substitution_context_spec(t, ov);
    let rs = d.opts.map_values(|o: OptV| dep_opt_pair(o, ctx, args));
    crate::parse::lemma_collect_ok(rs);
    let ps = collect(rs)->Ok_0;
    assert forall|k: int| 0 <= k < ps.len() implies #[trigger] ps[k].0 == d.opts[k].name by {
        assert(rs[k] == dep_opt_pair(d.opts[k], ctx, args));
    }
    assert(rs[j] == dep_opt_pair(d.opts[j], ctx, args));
    assert forall|k: int| j < k < ps.len() implies ps[k].0 != ps[j].0 by {
        assert(ps[k].0 == d.opts[k].name);
    }
    lemma_pairs_map_last(ps, j);
}

proof fn lemma_collect_names(
    rs: Seq<Result<(Seq<char>, OptValueV), ErrorV>>,
    opts: Seq<OptV>,
    ctx: Map<Seq<char>, Seq<char>>,
    args: Seq<Seq<char>>,
)
    requires
        rs == opts.map_values(|o: OptV| dep_opt_pair(o, ctx, args)),
        collect(rs) is Ok,
    ensures
        collect(rs)->Ok_0.map_values(|p: (Seq<char>, OptValueV)| p.0) == opts.map_values(|o: OptV| o.name),
    decreases rs.len(),
{
    if rs.len() > 0 {
        assert(rs.drop_last() == opts.drop_last().map_values(|o: OptV| dep_opt_pair(o, ctx, args)));
        lemma_collect_names(rs.drop_last(), opts.drop_last(), ctx, args);
        let ps = collect(rs)->Ok_0;
        let prev = collect(rs.drop_last())->Ok_0;
        assert(rs.last() == dep_opt_pair(opts.last(), ctx, args));
        assert(ps == prev.push(rs.last()->Ok_0));
        assert(ps.drop_last() =~= prev);
        assert(opts.map_values(|o: OptV| o.name).drop_last() =~= opts.drop_last().map_values(|o: OptV| o.name));
        let n = rs.len() - 1;
        assert(dep_opt_pair(opts[n], ctx, args)->Ok_0.0 == opts[n].name);
        assert forall|k: int| 0 <= k < ps.len() implies ps[k].0 == opts[k].name by {
            if k < n {
                assert(ps[k] == prev[k]);
                assert(prev.map_values(|p: (Seq<char>, OptValueV)| p.0)[k] == opts.drop_last().map_values(|o: OptV| o.name)[k]);
            } else {
                assert(ps[k] == rs.last()->Ok_0);
            }
        }
        assert(ps.map_values(|p: (Seq<char>, OptValueV)| p.0) =~= opts.map_values(|o: OptV| o.name));
    } else {
        assert(collect(rs)->Ok_0.map_values(|p: (Seq<char>, OptValueV)| p.0) =~= opts.map_values(|o: OptV| o.name));
    }
}

fn opt_both_exec(o: &Option<String>, ctx: &StrMap<String>, args: &[String]) -> (r: Result<Option<String>, DoerError>)
    ensures
        matches_opt_text(r, opt_both(opt_text(*o), ctx@, texts(args@))),
{
    match o {
        None => Ok(None),
        Some(s) => Ok(Some(s.resolve_both(ctx, args)?)),
    }
}

impl Task {
    /// The request that dependency `dep` makes when the task is called with `args` and `opt_overrides`.
    pub fn build_dep(&self, dep: &Dep, args: &[String], opt_overrides: &OptOverrides) -> (r: Result<DepResolution, DoerError>)
        ensures
            matches_dep(r, build_dep_spec(self@, dep@, texts(args@), opt_overrides@)),
    {
        let ctx = self.substitution_context(opt_overrides);
        let resolved_args = self.render_list(&dep.args, &ctx, Some(args))?;
        let ghost rs = dep@.opts.map_values(|o: OptV| dep_opt_pair(o, ctx@, texts(args@)));
        let ghost mut ps: Seq<(Seq<char>, OptValueV)> = seq![];
        let mut resolved_opts: OptOverrides = StrMap::new();
        proof {
            assert(rs.take(0) =~= Seq::<Result<(Seq<char>, OptValueV), ErrorV>>::empty());
        }
        for i in 0..dep.opts.len()
            invariant
                rs == dep@.opts.map_values(|o: OptV| dep_opt_pair(o, ctx@, texts(args@))),
                rs.len() == dep.opts@.len(),
                ctx@ == substitution_context_spec(self@, opt_overrides@),
                render_all_both(dep@.args, ctx@, texts(args@)) == Ok::<Seq<Seq<char>>, ErrorV>(texts(resolved_args@)),
                collect(rs.take(i as int)) == Ok::<Seq<(Seq<char>, OptValueV)>, ErrorV>(ps),
                resolved_opts@ == pairs_map(ps),
        {
            proof {
                lemma_collect_step(rs, i as int);
            }
            let opt = &dep.opts[i];
            let value = match &opt.value {
                OptValue::String(s) => match s.resolve_both(&ctx, args) {
                    Ok(v) => OptValue::String(v),
                    Err(e) => {
                        proof {
                            lemma_collect_err(rs, i + 1);
                        }
                        return Err(e);
                    },
                },
                OptValue::Bool(b) => OptValue::Bool(*b),
            };
            let ghost pair = (opt.name@, value@);
            proof {
                assert(rs[i as int] == Ok::<(Seq<char>, OptValueV), ErrorV>(pair));
                assert(ps.push(pair).drop_last() =~= ps);
            }
            resolved_opts.insert(copy_string(&opt.name), value);
            proof {
                ps = ps.push(pair);
            }
        }
        proof {
            lemma_collect_all(rs);
        }
        let stdin = opt_both_exec(&dep.stdin, &ctx, args)?;
        let stdout = opt_both_exec(&dep.stdout, &ctx, args)?;
        let stderr = opt_both_exec(&dep.stderr, &ctx, args)?;
        Ok(DepResolution {
            name: copy_string(&dep.name),
            args: resolved_args,
            opt_overrides: resolved_opts,
            background: dep.background,
            stdin,
            stdout,
            stderr,
            nice: dep.nice,
        })
    }
}

// ---------------------------------------------------------------------------
// Finding tasks
// ---------------------------------------------------------------------------

/// The index of the first task with the given name.
pub open spec fn find_task_spec(tasks: Seq<TaskV>, name: Seq<char>) -> Option<int>
    decreases tasks.len(),
{
    if tasks.len() == 0 {
        None
    } else if tasks[0].name == name {
        Some(0)
    } else {
        match find_task_spec(tasks.drop_first(), name) {
            Some(i) => Some(i + 1),
            None => None,
        }
    }
}

pub proof fn lemma_find_task_bounds(tasks: Seq<TaskV>, name: Seq<char>)
    ensures
        match find_task_spec(tasks, name) {
            Some(i) => 0 <= i < tasks.len() && tasks[i].name == name && forall|j: int| 0 <= j < i ==> tasks[j].name != name,
            None => forall|j: int| 0 <= j < tasks.len() ==> tasks[j].name != name,
        },
    decreases tasks.len(),
{
    if tasks.len() > 0 {
        lemma_find_task_bounds(tasks.drop_first(), name);
        if tasks[0].name != name {
            match find_task_spec(tasks.drop_first(), name) {
                Some(i) => {
                    assert forall|j: int| 0 <= j < i + 1 implies tasks[j].name != name by {
                        if j > 0 {
                            assert(tasks[j] == tasks.drop_first()[j - 1]);
                        }
                    }
                },
                None => {
                    assert forall|j: int| 0 <= j < tasks.len() implies tasks[j].name != name by {
                        if j > 0 {
                            assert(tasks[j] == tasks.drop_first()[j - 1]);
                        }
                    }
                },
            }
        }
    }
}

proof fn lemma_find_task_at(tasks: Seq<TaskV>, name: Seq<char>, i: int)
    requires
        0 <= i < tasks.len(),
        tasks[i].name == name,
        forall|j: int| 0 <= j < i ==> tasks[j].name != name,
    ensures
        find_task_spec(tasks, name) == Some(i),
    decreases i,
{
    if i > 0 {
        lemma_find_task_at(tasks.drop_first(), name, i - 1);
    }
}

/// The names of the tasks.
pub open spec fn task_names(tasks: Seq<TaskV>) -> Set<Seq<char>> {
    tasks.map_values(|t: TaskV| t.name).to_set()
}

impl Config {
    /// The first task with the given name.
    pub fn find_task(&self, name: &str) -> (r: Option<&Task>)
        ensures
            match r {
                Some(t) => find_task_spec(self@.tasks, name@) matches Some(i) && self.tasks@[i] == *t,
                None => find_task_spec(self@.tasks, name@) is None,
            },
    {
        let key = owned(name);
        for i in 0..self.tasks.len()
            invariant
                key@ == name@,
                forall|j: int| 0 <= j < i ==> self@.tasks[j].name != name@,
        {
            if self.tasks[i].name == key {
                proof {
                    lemma_find_task_at(self@.tasks, name@, i as int);
                }
                return Some(&self.tasks[i]);
            }
        }
        proof {
            lemma_find_task_bounds(self@.tasks, name@);
            if find_task_spec(self@.tasks, name@) is Some {
                let i = find_task_spec(self@.tasks, name@)->Some_0;
                assert(self@.tasks[i].name == name@);
            }
        }
        None
    }
}


// ---------------------------------------------------------------------------
// Resolving a task with its dependencies
// ---------------------------------------------------------------------------

/// One resolved call of a task.
#[derive(Debug)]
pub struct TaskCall<'a> {
    pub task: &'a Task,
    pub args: Vec<String>,
    pub opt_overrides: OptOverrides,
    pub background: bool,
    pub stdin: Option<String>,
    pub stdout: Option<String>,
    pub stderr: Option<String>,
    pub nice: Option<i32>,
}

pub ghost struct CallV {
    pub task: TaskV,
    pub req: ReqV,
}

impl<'a> View for TaskCall<'a> {
    type V = CallV;

    open spec fn view(&self) -> CallV {
        CallV {
            task: self.task@,
            req: ReqV {
                args: texts(self.args@),
                ov: self.opt_overrides@,
                background: self.background,
                nice: self.nice,
                stdin: opt_text(self.stdin),
                stdout: opt_text(self.stdout),
                stderr: opt_text(self.stderr),
            },
        }
    }
}

pub open spec fn call_views<'a>(v: Seq<TaskCall<'a>>) -> Seq<CallV> {
    v.map_values(|c: TaskCall<'a>| c@)
}

/// The state of a resolution: the calls so far, and the names already resolved.
pub ghost struct WalkV {
    pub calls: Seq<CallV>,
    pub done: Set<Seq<char>>,
}

/// The call recorded for a task: the request, with the task's own nice value
/// when the request has none.
pub open spec fn call_of(task: TaskV, req: ReqV) -> CallV {
    CallV {
        task,
        req: ReqV {
            nice: match req.nice {
                Some(n) => Some(n),
                None => task.nice,
            },
            ..req
        },
    }
}

/// The request that a resolved dependency makes.
pub open spec fn req_of(r: DepResolutionV) -> ReqV {
    r.req
}

pub proof fn lemma_measure_drops(names: Set<Seq<char>>, path: Set<Seq<char>>, n: Seq<char>)
    requires
        names.finite(),
        names.contains(n),
        !path.contains(n),
    ensures
        names.difference(path.insert(n)).len() < names.difference(path).len(),
{
    assert(names.difference(path.insert(n)) =~= names.difference(path).remove(n));
    assert(names.difference(path).contains(n));
}

/// Resolves the task `name` for a request, given the names on the current
/// dependency path and the walk so far: a name already resolved adds
/// nothing; a name on the path is a cycle; an unknown name is an error;
/// otherwise the task's dependencies are resolved in order, then the task's
/// own call is recorded.
pub open spec fn visit(
    tasks: Seq<TaskV>,
    name: Seq<char>,
    req: ReqV,
    path: Set<Seq<char>>,
    w: WalkV,
) -> Result<WalkV, ErrorV>
    decreases task_names(tasks).difference(path).len(), 0int, 0int,
{
    if w.done.contains(name) {
        Ok(w)
    } else if path.contains(name) {
        Err(ErrorV::CircularDependency { name })
    } else {
        match find_task_spec(tasks, name) {
            None => Err(ErrorV::TaskNotFound { name }),
            Some(i) => {
                proof {
                    lemma_find_task_bounds(tasks, name);
                    assert(tasks.map_values(|t: TaskV| t.name)[i] == name);
                    lemma_measure_drops(task_names(tasks), path, name);
                }
                let task = tasks[i];
                match visit_deps(tasks, task, req, path.insert(name), w, 0) {
                    Err(e) => Err(e),
                    Ok(w2) => Ok(
                        WalkV { calls: w2.calls.push(call_of(task, req)), done: w2.done.insert(name) },
                    ),
                }
            },
        }
    }
}

/// Resolves the dependencies of `task` from the `i`-th on.
pub open spec fn visit_deps(
    tasks: Seq<TaskV>,
    task: TaskV,
    req: ReqV,
    path: Set<Seq<char>>,
    w: WalkV,
    i: int,
) -> Result<WalkV, ErrorV>
    decreases task_names(tasks).difference(path).len(), 1int, task.deps.len() - i,
{
    if i < 0 || i >= task.deps.len() {
        Ok(w)
    } else {
        match build_dep_spec(task, task.deps[i], req.args, req.ov) {
            Err(e) => Err(e),
            Ok(r) => match visit(tasks, r.name, req_of(r), path, w) {
                Err(e) => Err(e),
                Ok(w2) => visit_deps(tasks, task, req, path, w2, i + 1),
            },
        }
    }
}

/// The request of a top-level call: foreground, no nice value, no stdio override.
pub open spec fn root_req(args: Seq<Seq<char>>, ov: Map<Seq<char>, OptValueV>) -> ReqV {
    ReqV { args, ov, background: false, nice: None, stdin: None, stdout: None, stderr: None }
}

/// The calls that resolving `name` gives, dependencies first.
pub open spec fn resolve_spec(tasks: Seq<TaskV>, name: Seq<char>, req: ReqV) -> Result<
    Seq<CallV>,
    ErrorV,
> {
    match visit(tasks, name, req, Set::empty(), WalkV { calls: seq![], done: Set::empty() }) {
        Ok(w) => Ok(w.calls),
        Err(e) => Err(e),
    }
}

pub open spec fn walk_of<'a>(calls: Seq<TaskCall<'a>>, done: Seq<String>) -> WalkV {
    WalkV { calls: call_views(calls), done: texts(done).to_set() }
}

fn contains_text(v: &Vec<String>, s: &str) -> (r: bool)
    ensures
        r == texts(v@).to_set().contains(s@),
{
    let key = owned(s);
    for i in 0..v.len()
        invariant
            key@ == s@,
            forall|j: int| 0 <= j < i ==> v@[j]@ != s@,
    {
        if v[i] == key {
            proof {
                assert(texts(v@)[i as int] == s@);
            }
            return true;
        }
    }
    proof {
        if texts(v@).to_set().contains(s@) {
            let t = texts(v@);
            let j = choose|j: int| 0 <= j < t.len() && #[trigger] t[j] == s@;
            assert(v@[j]@ == s@);
        }
    }
    false
}

proof fn lemma_push_to_set(a: Seq<Seq<char>>, x: Seq<char>)
    ensures
        a.push(x).to_set() == a.to_set().insert(x),
{
    let b = a.push(x);
    assert forall|y: Seq<char>| b.to_set().contains(y) == a.to_set().insert(x).contains(y) by {
        if b.contains(y) {
            let j = choose|j: int| 0 <= j < b.len() && #[trigger] b[j] == y;
            if j < a.len() {
                assert(a[j] == y);
            }
        }
        if a.contains(y) {
            let j = choose|j: int| 0 <= j < a.len() && #[trigger] a[j] == y;
            assert(b[j] == y);
        }
        assert(b[b.len() - 1] == x);
    }
    assert(b.to_set() =~= a.to_set().insert(x));
}

proof fn lemma_texts_push(v: Seq<String>, s: String)
    ensures
        texts(v.push(s)) == texts(v).push(s@),
        texts(v.push(s)).to_set() == texts(v).to_set().insert(s@),
{
    assert(texts(v.push(s)) =~= texts(v).push(s@));
    lemma_push_to_set(texts(v), s@);
}

impl Config {
    #[verifier::rlimit(30)]
    fn build_task_with_deps_inner<'a>(
        &'a self,
        task_name: &str,
        args: Vec<String>,
        opt_overrides: OptOverrides,
        background: bool,
        nice: Option<i32>,
        stdin: Option<String>,
        stdout: Option<String>,
        stderr: Option<String>,
        resolved: &mut Vec<TaskCall<'a>>,
        resolved_set: &mut Vec<String>,
        resolving: &mut Vec<String>,
    ) -> (r: Result<(), DoerError>)
        ensures
            match r {
                Ok(()) => visit(
                    self@.tasks,
                    task_name@,
                    ReqV {
                        args: texts(args@),
                        ov: opt_overrides@,
                        background,
                        nice,
                        stdin: opt_text(stdin),
                        stdout: opt_text(stdout),
                        stderr: opt_text(stderr),
                    },
                    texts(old(resolving)@).to_set(),
                    walk_of(old(resolved)@, old(resolved_set)@),
                ) == Ok::<WalkV, ErrorV>(walk_of(final(resolved)@, final(resolved_set)@))
                    && texts(final(resolving)@) == texts(old(resolving)@),
                Err(e) => visit(
                    self@.tasks,
                    task_name@,
                    ReqV {
                        args: texts(args@),
                        ov: opt_overrides@,
                        background,
                        nice,
                        stdin: opt_text(stdin),
                        stdout: opt_text(stdout),
                        stderr: opt_text(stderr),
                    },
                    texts(old(resolving)@).to_set(),
                    walk_of(old(resolved)@, old(resolved_set)@),
                ) == Err::<WalkV, ErrorV>(e@),
            },
            r is Ok && walk_basic(texts(old(resolving)@).to_set(), walk_of(old(resolved)@, old(resolved_set)@))
                ==> {
                &&& walk_basic(texts(old(resolving)@).to_set(), walk_of(final(resolved)@, final(resolved_set)@))
                &&& is_prefix(call_views(old(resolved)@), call_views(final(resolved)@))
                &&& texts(final(resolved_set)@).to_set().contains(task_name@)
                &&& !texts(old(resolved_set)@).to_set().contains(task_name@) ==> final(resolved)@.len() > 0
                    && call_views(final(resolved)@).last().task.name == task_name@
                &&& deps_come_first(call_views(old(resolved)@)) ==> deps_come_first(call_views(final(resolved)@))
            },
        decreases task_names(self@.tasks).difference(texts(old(resolving)@).to_set()).len(),
    {
        let ghost tasks = self@.tasks;
        let ghost req = ReqV {
            args: texts(args@),
            ov: opt_overrides@,
            background,
            nice,
            stdin: opt_text(stdin),
            stdout: opt_text(stdout),
            stderr: opt_text(stderr),
        };
        let ghost path0 = texts(resolving@).to_set();
        let ghost w0 = walk_of(resolved@, resolved_set@);
        if contains_text(resolved_set, task_name) {
            proof {
                assert(call_views(resolved@).take(call_views(resolved@).len() as int) =~= call_views(resolved@));
            }
            return Ok(());
        }
        if contains_text(resolving, task_name) {
            return Err(DoerError::CircularDependency { name: owned(task_name) });
        }
        let ghost rs0 = resolving@;
        let pushed = owned(task_name);
        resolving.push(pushed);
        proof {
            lemma_texts_push(rs0, pushed);
        }
        let task = match self.find_task(task_name) {
            Some(t) => t,
            None => {
                return Err(DoerError::TaskNotFound { name: owned(task_name) });
            },
        };
        let ghost idx = find_task_spec(tasks, task_name@)->Some_0;
        let ghost path = path0.insert(task_name@);
        proof {
            lemma_find_task_bounds(tasks, task_name@);
            assert(tasks[idx] == task@);
            assert(tasks.map_values(|t: TaskV| t.name)[idx] == task_name@);
            lemma_measure_drops(task_names(tasks), path0, task_name@);
        }
        for i in 0..task.deps.len()
            invariant
                tasks == self@.tasks,
                0 <= idx < tasks.len(),
                find_task_spec(tasks, task_name@) == Some(idx),
                task@ == tasks[idx],
                !w0.done.contains(task_name@),
                !path0.contains(task_name@),
                w0 == walk_of(old(resolved)@, old(resolved_set)@),
                path0 == texts(old(resolving)@).to_set(),
                path == path0.insert(task_name@),
                texts(resolving@) == texts(rs0).push(task_name@),
                texts(rs0).to_set() == path0,
                task_names(tasks).difference(path).len() < task_names(tasks).difference(path0).len(),
                task_names(tasks).difference(path0).len() == task_names(self@.tasks).difference(texts(old(resolving)@).to_set()).len(),
                req == (ReqV {
                    args: texts(args@),
                    ov: opt_overrides@,
                    background,
                    nice,
                    stdin: opt_text(stdin),
                    stdout: opt_text(stdout),
                    stderr: opt_text(stderr),
                }),
                visit_deps(tasks, task@, req, path, w0, 0) == visit_deps(
                    tasks,
                    task@,
                    req,
                    path,
                    walk_of(resolved@, resolved_set@),
                    i as int,
                ),
        {
            let ghost wi = walk_of(resolved@, resolved_set@);
            let r = match task.build_dep(&task.deps[i], &args, &opt_overrides) {
                Ok(r) => r,
                Err(e) => {
                    return Err(e);
                },
            };
            let ghost rv = r@;
            let DepResolution {
                name: dname,
                args: dargs,
                opt_overrides: dov,
                background: dbg,
                stdin: dsi,
                stdout: dso,
                stderr: dse,
                nice: dnice,
            } = r;
            proof {
                assert(texts(resolving@).to_set() == path) by {
                    lemma_push_to_set(texts(rs0), task_name@);
                }
                assert(task.deps@[i as int]@ == task@.deps[i as int]);
                assert(rv.name == dname@);
            }
            match self.build_task_with_deps_inner(
                dname.as_str(),
                dargs,
                dov,
                dbg,
                dnice,
                dsi,
                dso,
                dse,
                resolved,
                resolved_set,
                resolving,
            ) {
                Ok(()) => {},
                Err(e) => {
                    return Err(e);
                },
            }
        }
        let call_nice = match nice {
            Some(n) => Some(n),
            None => task.nice,
        };
        let ghost before_calls = resolved@;
        let ghost before_set = resolved_set@;
        resolved.push(
            TaskCall {
                task,
                args,
                opt_overrides,
                background,
                stdin,
                stdout,
                stderr,
                nice: call_nice,
            },
        );
        let ghost before_resolving = resolving@;
        let _ = resolving.pop();
        let done_name = owned(task_name);
        resolved_set.push(done_name);
        proof {
            lemma_texts_push(before_set, done_name);
            assert(texts(before_resolving.drop_last()) =~= texts(before_resolving).drop_last());
            assert(texts(resolving@) =~= texts(rs0));
            assert(call_views(resolved@) =~= call_views(before_calls).push(call_of(task@, req)));
            if walk_basic(path0, w0) {
                crate::order::law_visit_extends(tasks, task_name@, req, path0, w0);
            }
        }
        Ok(())
    }

    /// Resolves a task and its dependencies into calls, each dependency
    /// before the task that needs it and each task once.
    pub fn build_task_with_deps<'a>(
        &'a self,
        task_name: &str,
        args: &[String],
        opt_overrides: &OptOverrides,
    ) -> (r: Result<Vec<TaskCall<'a>>, DoerError>)
        ensures
            match r {
                Ok(v) => resolve_spec(self@.tasks, task_name@, root_req(texts(args@), opt_overrides@))
                    == Ok::<Seq<CallV>, ErrorV>(call_views(v@)),
                Err(e) => resolve_spec(self@.tasks, task_name@, root_req(texts(args@), opt_overrides@))
                    == Err::<Seq<CallV>, ErrorV>(e@),
            },
            r matches Ok(v) ==> {
                &&& v@.len() > 0
                &&& v@.last().task.name@ == task_name@
                &&& v@.last().opt_overrides@ == opt_overrides@
                &&& texts(v@.last().args@) == texts(args@)
                &&& !v@.last().background
            },
    {
        let mut resolved: Vec<TaskCall<'a>> = Vec::new();
        let mut resolved_set: Vec<String> = Vec::new();
        let mut resolving: Vec<String> = Vec::new();
        proof {
            assert(call_views(resolved@) =~= Seq::<CallV>::empty());
            assert(texts(resolved_set@).to_set() =~= Set::<Seq<char>>::empty());
            assert(texts(resolving@).to_set() =~= Set::<Seq<char>>::empty());
        }
        self.build_task_with_deps_inner(
            task_name,
            copy_strings(args),
            opt_overrides.duplicate_map(),
            false,
            None,
            None,
            None,
            None,
            &mut resolved,
            &mut resolved_set,
            &mut resolving,
        )?;
        proof {
            crate::order::law_root_call(self@.tasks, task_name@, texts(args@), opt_overrides@);
            assert(call_views(resolved@).last() == resolved@.last()@);
        }
        Ok(resolved)
    }
}

// ---------------------------------------------------------------------------
// Runnables
// ---------------------------------------------------------------------------

/// A stdio setting given literally by a dependency: read as it is.
pub open spec fn parse_spec_stdio_spec(raw: Seq<char>, label: Seq<char>, task: Seq<char>) -> Result<
    SpecIo,
    ErrorV,
> {
    match stdio_of(raw) {
        Some(io) => Ok(io),
        None => Err(ErrorV::InvalidStdio { task, label, value: raw, resolved: false }),
    }
}

/// Reads a stdio setting given by a dependency for a task.
pub fn parse_spec_stdio(raw: &str, label: &str, task_name: &str) -> (r: Result<SpecIo, DoerError>)
    ensures
        matches_io(r, parse_spec_stdio_spec(raw@, label@, task_name@)),
{
    match SpecIo::try_from(raw) {
        Ok(io) => Ok(io),
        Err(_) => Err(
            DoerError::InvalidStdio {
                task: owned(task_name),
                label: owned(label),
                value: owned(raw),
                resolved: false,
            },
        ),
    }
}

/// The stdio of a call: the dependency's setting when it gave one, else the
/// task's own field rendered for the call.
pub open spec fn call_stdio(
    c: CallV,
    given: Option<Seq<char>>,
    own: Option<Seq<char>>,
    label: Seq<char>,
) -> Result<SpecIo, ErrorV> {
    match given {
        Some(v) => parse_spec_stdio_spec(v, label, c.task.name),
        None => stdio_field_spec(c.task, own, c.req.args, c.req.ov, label),
    }
}

/// The runnable of a call: stdin, stdout and stderr are settled first, then
/// the commands, the working directory and the environment are rendered.
#[verifier::opaque]
pub open spec fn runnable_of(c: CallV) -> Result<RunnableV, ErrorV> {
    match call_stdio(c, c.req.stdin, c.task.stdin, "stdin"@) {
        Err(e) => Err(e),
        Ok(si) => match call_stdio(c, c.req.stdout, c.task.stdout, "stdout"@) {
            Err(e) => Err(e),
            Ok(so) => match call_stdio(c, c.req.stderr, c.task.stderr, "stderr"@) {
                Err(e) => Err(e),
                Ok(se) => match build_commands_spec(c.task, c.req.args, c.req.ov) {
                    Err(e) => Err(e),
                    Ok(cmds) => match build_cwd_spec(c.task, c.req.args, c.req.ov) {
                        Err(e) => Err(e),
                        Ok(cwd) => match build_env_vars_spec(c.task, c.req.args, c.req.ov) {
                            Err(e) => Err(e),
                            Ok(envs) => Ok(
                                RunnableV {
                                    name: c.task.name,
                                    commands: cmds,
                                    cwd,
                                    env_vars: envs,
                                    user: c.task.user,
                                    stdin: si,
                                    stdout: so,
                                    stderr: se,
                                    nice: c.req.nice,
                                    background: c.req.background,
                                },
                            ),
                        },
                    },
                },
            },
        },
    }
}

/// The runnables of a task and its dependencies, in resolution order.
pub open spec fn build_all_spec(
    tasks: Seq<TaskV>,
    name: Seq<char>,
    args: Seq<Seq<char>>,
    ov: Map<Seq<char>, OptValueV>,
) -> Result<Seq<RunnableV>, ErrorV> {
    match resolve_spec(tasks, name, root_req(args, ov)) {
        Err(e) => Err(e),
        Ok(calls) => collect(calls.map_values(|c: CallV| runnable_of(c))),
    }
}

pub open spec fn runnable_views(v: Seq<Runnable>) -> Seq<RunnableV> {
    v.map_values(|r: Runnable| r@)
}

fn call_stdio_exec(call: &TaskCall, given: &Option<String>, own: &Option<String>, label: &str) -> (r: Result<SpecIo, DoerError>)
    ensures
        matches_io(r, call_stdio(call@, opt_text(*given), opt_text(*own), label@)),
{
    match given {
        Some(val) => parse_spec_stdio(val.as_str(), label, call.task.name.as_str()),
        None => call.task.build_stdio_field(own, &call.args, &call.opt_overrides, label),
    }
}

fn runnable_exec(call: &TaskCall) -> (r: Result<Runnable, DoerError>)
    ensures
        match r {
            Ok(v) => runnable_of(call@) == Ok::<RunnableV, ErrorV>(v@),
            Err(e) => runnable_of(call@) == Err::<RunnableV, ErrorV>(e@),
        },
{
    proof {
        reveal(runnable_of);
    }
    let stdin = call_stdio_exec(call, &call.stdin, &call.task.stdin, "stdin")?;
    let stdout = call_stdio_exec(call, &call.stdout, &call.task.stdout, "stdout")?;
    let stderr = call_stdio_exec(call, &call.stderr, &call.task.stderr, "stderr")?;
    let commands = call.task.build_commands(&call.args, &call.opt_overrides)?;
    let cwd = call.task.build_cwd(&call.args, &call.opt_overrides)?;
    let env_vars = call.task.build_env_vars(&call.args, &call.opt_overrides)?;
    Ok(
        Runnable {
            name: copy_string(&call.task.name),
            commands,
            cwd,
            env_vars,
            user: copy_opt_string(&call.task.user),
            stdin,
            stdout,
            stderr,
            nice: call.nice,
            background: call.background,
        },
    )
}

impl Config {
    /// The runnables of a task and its dependencies, dependencies first.
    pub fn build_all(&self, task_name: &str, args: &[String], opt_overrides: &OptOverrides) -> (r: Result<Vec<Runnable>, DoerError>)
        ensures
            match r {
                Ok(v) => build_all_spec(self@.tasks, task_name@, texts(args@), opt_overrides@)
                    == Ok::<Seq<RunnableV>, ErrorV>(runnable_views(v@)),
                Err(e) => build_all_spec(self@.tasks, task_name@, texts(args@), opt_overrides@)
                    == Err::<Seq<RunnableV>, ErrorV>(e@),
            },
            r matches Ok(v) ==> forall|k: int|
                0 <= k < v@.len() ==> (find_task_spec(self@.tasks, #[trigger] v@[k].name@) matches Some(i)
                    && opt_text(v@[k].user) == self@.tasks[i].user),
    {
        let calls = self.build_task_with_deps(task_name, args, opt_overrides)?;
        let ghost rs = call_views(calls@).map_values(|c: CallV| runnable_of(c));
        let mut out: Vec<Runnable> = Vec::new();
        proof {
            assert(rs.take(0) =~= Seq::<Result<RunnableV, ErrorV>>::empty());
            assert(runnable_views(out@) =~= Seq::<RunnableV>::empty());
        }
        for i in 0..calls.len()
            invariant
                rs == call_views(calls@).map_values(|c: CallV| runnable_of(c)),
                rs.len() == calls@.len(),
                resolve_spec(self@.tasks, task_name@, root_req(texts(args@), opt_overrides@))
                    == Ok::<Seq<CallV>, ErrorV>(call_views(calls@)),
                collect(rs.take(i as int)) == Ok::<Seq<RunnableV>, ErrorV>(runnable_views(out@)),
        {
            proof {
                lemma_collect_step(rs, i as int);
            }
            match runnable_exec(&calls[i]) {
                Err(e) => {
                    proof {
                        lemma_collect_err(rs, i + 1);
                    }
                    return Err(e);
                },
                Ok(v) => {
                    let ghost before = runnable_views(out@);
                    out.push(v);
                    proof {
                        assert(runnable_views(out@) =~= before.push(rs[i as int]->Ok_0));
                    }
                },
            }
        }
        proof {
            lemma_collect_all(rs);
            assert(build_all_spec(self@.tasks, task_name@, texts(args@), opt_overrides@) == Ok::<Seq<RunnableV>, ErrorV>(runnable_views(out@)));
            crate::order::law_runnables_follow_their_tasks(self@.tasks, task_name@, texts(args@), opt_overrides@);
            assert forall|k: int| 0 <= k < out@.len() implies (find_task_spec(self@.tasks, #[trigger] out@[k].name@) matches Some(i)
                && opt_text(out@[k].user) == self@.tasks[i].user) by {
                let rsv = build_all_spec(self@.tasks, task_name@, texts(args@), opt_overrides@)->Ok_0;
                assert(rsv == runnable_views(out@));
                assert(rsv[k] == out@[k]@);
                assert(rsv[k].name == out@[k].name@);
            }
        }
        Ok(out)
    }
}
} // verus!
