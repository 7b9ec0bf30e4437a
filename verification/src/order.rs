//! The order in which a task and its dependencies are called: what every
//! successful resolution keeps, whatever the configuration.
use vstd::prelude::*;

use crate::deps::{
    build_all_spec, build_dep_spec, call_of, find_task_spec, lemma_find_task_bounds,
    lemma_measure_drops, resolve_spec, root_req, runnable_of, task_names, visit, visit_deps, CallV,
    ReqV, WalkV,
};
use crate::config::{OptValueV, TaskV};
use crate::error::ErrorV;
use crate::parse::lemma_collect_ok;
use crate::spec::RunnableV;

verus! {

/// The task names of a list of calls, in order.
pub open spec fn call_names(calls: Seq<CallV>) -> Seq<Seq<char>> {
    calls.map_values(|c: CallV| c.task.name)
}

/// Some call before position `k` is a call of task `x`.
pub open spec fn called_before(calls: Seq<CallV>, k: int, x: Seq<char>) -> bool {
    exists|m: int| 0 <= m < k && calls[m].task.name == x
}

/// Every dependency of every call is called before it.
pub open spec fn deps_come_first(calls: Seq<CallV>) -> bool {
    forall|k: int, j: int|
        0 <= k < calls.len() && 0 <= j < calls[k].task.deps.len() ==> called_before(
            calls,
            k,
            #[trigger] calls[k].task.deps[j].name,
        )
}

/// The resolver's state invariant: no name on the current path is resolved
/// yet, each task is called at most once, and the resolved names are exactly
/// those called.
pub open spec fn walk_basic(path: Set<Seq<char>>, w: WalkV) -> bool {
    &&& forall|n: Seq<char>| path.contains(n) ==> !w.done.contains(n)
    &&& call_names(w.calls).no_duplicates()
    &&& call_names(w.calls).to_set() == w.done
}

/// The state invariant, and, when `ordered`, dependencies coming first.
pub open spec fn walk_inv(path: Set<Seq<char>>, w: WalkV, ordered: bool) -> bool {
    &&& walk_basic(path, w)
    &&& ordered ==> deps_come_first(w.calls)
}

/// `a` is a prefix of `b`.
pub open spec fn is_prefix(a: Seq<CallV>, b: Seq<CallV>) -> bool {
    a.len() <= b.len() && b.take(a.len() as int) == a
}

proof fn lemma_prefix_done(w: WalkV, w2: WalkV, x: Seq<char>)
    requires
        call_names(w.calls).to_set() == w.done,
        call_names(w2.calls).to_set() == w2.done,
        is_prefix(w.calls, w2.calls),
        w.done.contains(x),
    ensures
        w2.done.contains(x),
{
    assert(call_names(w.calls).contains(x));
    let m = choose|m: int| 0 <= m < call_names(w.calls).len() && call_names(w.calls)[m] == x;
    assert(w2.calls.take(w.calls.len() as int)[m] == w.calls[m]);
    assert(call_names(w2.calls)[m] == x);
}

proof fn lemma_prefix_trans(a: Seq<CallV>, b: Seq<CallV>, c: Seq<CallV>)
    requires
        is_prefix(a, b),
        is_prefix(b, c),
    ensures
        is_prefix(a, c),
{
    assert(c.take(a.len() as int) =~= a) by {
        assert forall|i: int| 0 <= i < a.len() implies c.take(a.len() as int)[i] == a[i] by {
            assert(c.take(b.len() as int)[i] == b[i]);
            assert(b.take(a.len() as int)[i] == a[i]);
        }
    }
}

proof fn lemma_push_call(path: Set<Seq<char>>, w2: WalkV, name: Seq<char>, c: CallV, ordered: bool)
    requires
        walk_inv(path.insert(name), w2, ordered),
        !path.contains(name),
        c.task.name == name,
        forall|j: int| 0 <= j < c.task.deps.len() ==> w2.done.contains(#[trigger] c.task.deps[j].name),
    ensures
        walk_inv(path, WalkV { calls: w2.calls.push(c), done: w2.done.insert(name) }, ordered),
        is_prefix(w2.calls, w2.calls.push(c)),
{
    let calls = w2.calls.push(c);
    let w3 = WalkV { calls, done: w2.done.insert(name) };
    assert(call_names(calls) =~= call_names(w2.calls).push(name));
    assert(!call_names(w2.calls).contains(name)) by {
        assert(path.insert(name).contains(name));
        assert(!w2.done.contains(name));
    }
    assert(call_names(calls).no_duplicates()) by {
        assert forall|i: int, j: int|
            0 <= i < call_names(calls).len() && 0 <= j < call_names(calls).len() && i != j implies
            call_names(calls)[i] != call_names(calls)[j] by {
            if i < w2.calls.len() && j < w2.calls.len() {
            } else if i == w2.calls.len() {
                assert(call_names(w2.calls)[j] == call_names(calls)[j]);
            } else {
                assert(call_names(w2.calls)[i] == call_names(calls)[i]);
            }
        }
    }
    assert(call_names(calls).to_set() =~= w2.done.insert(name)) by {
        assert forall|x: Seq<char>| #[trigger] call_names(calls).to_set().contains(x) == w2.done.insert(name).contains(x) by {
            if call_names(calls).contains(x) {
                let m = choose|m: int| 0 <= m < call_names(calls).len() && call_names(calls)[m] == x;
                if m < w2.calls.len() {
                    assert(call_names(w2.calls)[m] == x);
                }
            }
            if w2.done.contains(x) {
                assert(call_names(w2.calls).contains(x));
                let m = choose|m: int| 0 <= m < call_names(w2.calls).len() && call_names(w2.calls)[m] == x;
                assert(call_names(calls)[m] == x);
            }
            if x == name {
                assert(call_names(calls)[w2.calls.len() as int] == name);
            }
        }
    }
    if ordered {
        assert forall|k: int, j: int| 0 <= k < calls.len() && 0 <= j < calls[k].task.deps.len() implies called_before(
            calls,
            k,
            #[trigger] calls[k].task.deps[j].name,
        ) by {
            if k < w2.calls.len() {
                assert(calls[k] == w2.calls[k]);
                assert(called_before(w2.calls, k, w2.calls[k].task.deps[j].name));
                let m = choose|m: int| 0 <= m < k && w2.calls[m].task.name == w2.calls[k].task.deps[j].name;
                assert(calls[m] == w2.calls[m]);
            } else {
                let x = c.task.deps[j].name;
                assert(w2.done.contains(x));
                assert(call_names(w2.calls).contains(x));
                let m = choose|m: int| 0 <= m < call_names(w2.calls).len() && call_names(w2.calls)[m] == x;
                assert(calls[m] == w2.calls[m]);
                assert(calls[m].task.name == calls[k].task.deps[j].name);
            }
        }
        assert(deps_come_first(calls));
    }
    assert forall|n: Seq<char>| path.contains(n) implies !w2.done.insert(name).contains(n) by {
        assert(path.insert(name).contains(n));
    }
    assert(w2.calls.push(c).take(w2.calls.len() as int) =~= w2.calls);
}

proof fn lemma_visit(tasks: Seq<TaskV>, name: Seq<char>, req: ReqV, path: Set<Seq<char>>, w: WalkV, ordered: bool)
    requires
        walk_inv(path, w, ordered),
    ensures
        visit(tasks, name, req, path, w) matches Ok(w2) ==> {
            &&& walk_inv(path, w2, ordered)
            &&& is_prefix(w.calls, w2.calls)
            &&& w2.done.contains(name)
        },
    decreases task_names(tasks).difference(path).len(), 0int, 0int,
{
    if w.done.contains(name) {
        assert(w.calls.take(w.calls.len() as int) =~= w.calls);
    } else if path.contains(name) {
    } else {
        match find_task_spec(tasks, name) {
            None => {},
            Some(i) => {
                lemma_find_task_bounds(tasks, name);
                assert(tasks.map_values(|t: TaskV| t.name)[i] == name);
                lemma_measure_drops(task_names(tasks), path, name);
                let task = tasks[i];
                let p2 = path.insert(name);
                lemma_visit_deps(tasks, task, req, p2, w, 0, ordered);
                match visit_deps(tasks, task, req, p2, w, 0) {
                    Err(_) => {},
                    Ok(w2) => {
                        lemma_push_call(path, w2, name, call_of(task, req), ordered);
                        lemma_prefix_trans(w.calls, w2.calls, w2.calls.push(call_of(task, req)));
                    },
                }
            },
        }
    }
}

proof fn lemma_visit_deps(
    tasks: Seq<TaskV>,
    task: TaskV,
    req: ReqV,
    path: Set<Seq<char>>,
    w: WalkV,
    i: int,
    ordered: bool,
)
    requires
        walk_inv(path, w, ordered),
        0 <= i,
    ensures
        visit_deps(tasks, task, req, path, w, i) matches Ok(w2) ==> {
            &&& walk_inv(path, w2, ordered)
            &&& is_prefix(w.calls, w2.calls)
            &&& forall|j: int| i <= j < task.deps.len() ==> w2.done.contains(#[trigger] task.deps[j].name)
        },
    decreases task_names(tasks).difference(path).len(), 1int, task.deps.len() - i,
{
    if i >= task.deps.len() {
        assert(w.calls.take(w.calls.len() as int) =~= w.calls);
    } else {
        match build_dep_spec(task, task.deps[i], req.args, req.ov) {
            Err(_) => {},
            Ok(r) => {
                assert(r.name == task.deps[i].name);
                lemma_visit(tasks, r.name, r.req, path, w, ordered);
                match visit(tasks, r.name, r.req, path, w) {
                    Err(_) => {},
                    Ok(w2) => {
                        lemma_visit_deps(tasks, task, req, path, w2, i + 1, ordered);
                        match visit_deps(tasks, task, req, path, w2, i + 1) {
                            Err(_) => {},
                            Ok(w3) => {
                                lemma_prefix_trans(w.calls, w2.calls, w3.calls);
                                lemma_prefix_done(w2, w3, r.name);
                            },
                        }
                    },
                }
            },
        }
    }
}

/// One step of the resolver only extends what it has resolved: from any
/// state that keeps the resolver's invariant (no name in progress is
/// resolved, no task called twice, the resolved names are those called),
/// resolving a task keeps that invariant, leaves the calls made so far as a
/// prefix of the new calls, and records the task as resolved; when the task
/// was not resolved before, the new calls end with its own call. When
/// dependencies came first before the step, they still do. The path of
/// tasks in progress is the same before and after, as the step takes it by
/// value.
pub proof fn law_visit_extends(tasks: Seq<TaskV>, name: Seq<char>, req: ReqV, path: Set<Seq<char>>, w: WalkV)
    requires
        walk_basic(path, w),
    ensures
        visit(tasks, name, req, path, w) matches Ok(w2) ==> {
            &&& walk_basic(path, w2)
            &&& is_prefix(w.calls, w2.calls)
            &&& w2.done.contains(name)
            &&& !w.done.contains(name) ==> w2.calls.len() > 0 && w2.calls.last().task.name == name
            &&& deps_come_first(w.calls) ==> deps_come_first(w2.calls)
        },
{
    lemma_visit(tasks, name, req, path, w, false);
    if deps_come_first(w.calls) {
        lemma_visit(tasks, name, req, path, w, true);
    }
    if !w.done.contains(name) && !path.contains(name) {
        if let Some(i) = find_task_spec(tasks, name) {
            lemma_find_task_bounds(tasks, name);
        }
    }
}

/// The order of a successful resolution: the requested task is called last,
/// with the request made of it;
/// every task is called at most once, however many tasks depend on it; and
/// every dependency of a called task is called before that task.
pub proof fn law_resolution_order(tasks: Seq<TaskV>, name: Seq<char>, req: ReqV)
    requires
        resolve_spec(tasks, name, req) is Ok,
    ensures
        ({
            let calls = resolve_spec(tasks, name, req)->Ok_0;
            &&& calls.len() > 0
            &&& calls.last().task.name == name
            &&& calls.last() == call_of(tasks[find_task_spec(tasks, name)->Some_0], req)
            &&& call_names(calls).no_duplicates()
            &&& deps_come_first(calls)
        }),
{
    let w0 = WalkV { calls: seq![], done: Set::empty() };
    assert(call_names(w0.calls).to_set() =~= Set::<Seq<char>>::empty());
    assert(walk_inv(Set::empty(), w0, true));
    lemma_visit(tasks, name, req, Set::empty(), w0, true);
    let i = find_task_spec(tasks, name)->Some_0;
    lemma_find_task_bounds(tasks, name);
}

/// A task that names itself among its dependencies never resolves: its
/// resolution fails, whatever the request.
pub proof fn law_self_dependency_fails(tasks: Seq<TaskV>, name: Seq<char>, req: ReqV, j: int)
    requires
        find_task_spec(tasks, name) is Some,
        0 <= j < tasks[find_task_spec(tasks, name)->Some_0].deps.len(),
        tasks[find_task_spec(tasks, name)->Some_0].deps[j].name == name,
    ensures
        resolve_spec(tasks, name, req) is Err,
{
    if resolve_spec(tasks, name, req) is Ok {
        law_resolution_order(tasks, name, req);
        let calls = resolve_spec(tasks, name, req)->Ok_0;
        let k = calls.len() - 1;
        assert(calls.last() == calls[k]);
        assert(called_before(calls, k, calls[k].task.deps[j].name));
        let m = choose|m: int| 0 <= m < k && calls[m].task.name == calls[k].task.deps[j].name;
        assert(call_names(calls)[m] == call_names(calls)[k]);
    }
}

/// A task with a single dependency on a task that has none resolves to two
/// calls: first the dependency's, with the request that the dependency
/// makes (its arguments, options, background, stdio and nice value, the
/// child's own nice value when the dependency gives none), then the task's
/// own call with the request made of it. When the dependency cannot be
/// rendered, its error is the result.
pub proof fn law_single_dependency(tasks: Seq<TaskV>, p: TaskV, c: TaskV, req: ReqV)
    requires
        find_task_spec(tasks, p.name) matches Some(i) && tasks[i] == p,
        find_task_spec(tasks, c.name) matches Some(j) && tasks[j] == c,
        p.deps.len() == 1,
        p.deps[0].name == c.name,
        c.deps.len() == 0,
        c.name != p.name,
    ensures
        match build_dep_spec(p, p.deps[0], req.args, req.ov) {
            Ok(r) => resolve_spec(tasks, p.name, req) == Ok::<Seq<CallV>, ErrorV>(
                seq![call_of(c, r.req), call_of(p, req)],
            ),
            Err(e) => resolve_spec(tasks, p.name, req) == Err::<Seq<CallV>, ErrorV>(e),
        },
{
    let w0 = WalkV { calls: seq![], done: Set::empty() };
    let path1 = Set::<Seq<char>>::empty().insert(p.name);
    lemma_find_task_bounds(tasks, p.name);
    lemma_find_task_bounds(tasks, c.name);
    assert(!w0.done.contains(p.name));
    assert(!Set::<Seq<char>>::empty().contains(p.name));
    match build_dep_spec(p, p.deps[0], req.args, req.ov) {
        Err(e) => {
            assert(visit_deps(tasks, p, req, path1, w0, 0) == Err::<WalkV, ErrorV>(e));
        },
        Ok(r) => {
            assert(r.name == c.name);
            let path2 = path1.insert(c.name);
            assert(!path1.contains(c.name));
            assert(visit_deps(tasks, c, r.req, path2, w0, 0) == Ok::<WalkV, ErrorV>(w0));
            let w1 = WalkV { calls: seq![call_of(c, r.req)], done: Set::empty().insert(c.name) };
            assert(seq![].push(call_of(c, r.req)) =~= seq![call_of(c, r.req)]);
            assert(visit(tasks, c.name, r.req, path1, w0) == Ok::<WalkV, ErrorV>(w1));
            assert(visit_deps(tasks, p, req, path1, w1, 1) == Ok::<WalkV, ErrorV>(w1));
            assert(visit_deps(tasks, p, req, path1, w0, 0) == Ok::<WalkV, ErrorV>(w1));
            assert(w1.calls.push(call_of(p, req)) =~= seq![call_of(c, r.req), call_of(p, req)]);
        },
    }
}

/// The names of a list of runnables, in order.
pub open spec fn runnable_names(rs: Seq<RunnableV>) -> Seq<Seq<char>> {
    rs.map_values(|r: RunnableV| r.name)
}

/// What `build_all` gives, when it succeeds: one runnable per task, no task
/// twice, each after the tasks it depends on, and the requested task last,
/// in the foreground.
pub proof fn law_build_all_order(
    tasks: Seq<TaskV>,
    name: Seq<char>,
    args: Seq<Seq<char>>,
    ov: Map<Seq<char>, OptValueV>,
)
    requires
        build_all_spec(tasks, name, args, ov) is Ok,
    ensures
        ({
            let rs = build_all_spec(tasks, name, args, ov)->Ok_0;
            let calls = resolve_spec(tasks, name, root_req(args, ov))->Ok_0;
            &&& rs.len() == calls.len()
            &&& runnable_names(rs) == call_names(calls)
            &&& rs.len() > 0
            &&& rs.last().name == name
            &&& !rs.last().background
            &&& runnable_names(rs).no_duplicates()
            &&& deps_come_first(calls)
        }),
{
    let req = root_req(args, ov);
    law_resolution_order(tasks, name, req);
    let calls = resolve_spec(tasks, name, req)->Ok_0;
    let ms = calls.map_values(|c: CallV| runnable_of(c));
    lemma_collect_ok(ms);
    let rs = build_all_spec(tasks, name, args, ov)->Ok_0;
    assert forall|i: int| 0 <= i < rs.len() implies #[trigger] rs[i].name == calls[i].task.name && rs[i].background == calls[i].req.background by {
        assert(ms[i] == runnable_of(calls[i]));
        reveal(runnable_of);
    }
    assert(runnable_names(rs) =~= call_names(calls));
    let k = rs.len() - 1;
    assert(calls.last() == calls[k]);
    assert(!calls[k].req.background);
    assert(rs[k].name == calls[k].task.name);
    assert(rs[k].background == calls[k].req.background);
    assert(runnable_names(rs).no_duplicates());
}

/// The requested task's call carries exactly what the caller asked for: the
/// last call of a successful resolution is a call of the first task of the
/// requested name, with the caller's arguments and option overrides, in the
/// foreground, with no stdio given, and with the task's own nice value.
pub proof fn law_root_call(tasks: Seq<TaskV>, name: Seq<char>, args: Seq<Seq<char>>, ov: Map<Seq<char>, OptValueV>)
    requires
        resolve_spec(tasks, name, root_req(args, ov)) is Ok,
    ensures
        ({
            let calls = resolve_spec(tasks, name, root_req(args, ov))->Ok_0;
            &&& calls.len() > 0
            &&& find_task_spec(tasks, name) matches Some(i) && calls.last().task == tasks[i]
            &&& calls.last().task.name == name
            &&& calls.last().req.args == args
            &&& calls.last().req.ov == ov
            &&& !calls.last().req.background
            &&& calls.last().req.stdin is None
            &&& calls.last().req.stdout is None
            &&& calls.last().req.stderr is None
            &&& calls.last().req.nice == calls.last().task.nice
        }),
{
    law_resolution_order(tasks, name, root_req(args, ov));
    lemma_find_task_bounds(tasks, name);
}

/// Every call is a call of a task of the configuration: the first task with
/// the call's name.
pub open spec fn calls_from_tasks(tasks: Seq<TaskV>, calls: Seq<CallV>) -> bool {
    forall|k: int|
        0 <= k < calls.len() ==> (find_task_spec(tasks, #[trigger] calls[k].task.name) matches Some(i) && tasks[i]
            == calls[k].task)
}

proof fn lemma_visit_from_tasks(tasks: Seq<TaskV>, name: Seq<char>, req: ReqV, path: Set<Seq<char>>, w: WalkV)
    requires
        calls_from_tasks(tasks, w.calls),
    ensures
        visit(tasks, name, req, path, w) matches Ok(w2) ==> calls_from_tasks(tasks, w2.calls),
    decreases task_names(tasks).difference(path).len(), 0int, 0int,
{
    if !w.done.contains(name) && !path.contains(name) {
        if let Some(i) = find_task_spec(tasks, name) {
            lemma_find_task_bounds(tasks, name);
            assert(tasks.map_values(|t: TaskV| t.name)[i] == name);
            lemma_measure_drops(task_names(tasks), path, name);
            let task = tasks[i];
            lemma_visit_deps_from_tasks(tasks, task, req, path.insert(name), w, 0);
            if let Ok(w2) = visit_deps(tasks, task, req, path.insert(name), w, 0) {
                let calls = w2.calls.push(call_of(task, req));
                assert forall|k: int| 0 <= k < calls.len() implies (find_task_spec(tasks, #[trigger] calls[k].task.name) matches Some(j)
                    && tasks[j] == calls[k].task) by {
                    if k < w2.calls.len() {
                        assert(calls[k] == w2.calls[k]);
                    }
                }
            }
        }
    }
}

proof fn lemma_visit_deps_from_tasks(
    tasks: Seq<TaskV>,
    task: TaskV,
    req: ReqV,
    path: Set<Seq<char>>,
    w: WalkV,
    i: int,
)
    requires
        calls_from_tasks(tasks, w.calls),
    ensures
        visit_deps(tasks, task, req, path, w, i) matches Ok(w2) ==> calls_from_tasks(tasks, w2.calls),
    decreases task_names(tasks).difference(path).len(), 1int, task.deps.len() - i,
{
    if 0 <= i < task.deps.len() {
        if let Ok(r) = build_dep_spec(task, task.deps[i], req.args, req.ov) {
            lemma_visit_from_tasks(tasks, r.name, r.req, path, w);
            if let Ok(w2) = visit(tasks, r.name, r.req, path, w) {
                lemma_visit_deps_from_tasks(tasks, task, req, path, w2, i + 1);
            }
        }
    }
}

/// Each runnable that `build_all` gives is the runnable of a task of the
/// configuration, the first of its name: it runs as that task's user, and it
/// carries the background flag and nice value of its call, one runnable per
/// call, in order.
pub proof fn law_runnables_follow_their_tasks(
    tasks: Seq<TaskV>,
    name: Seq<char>,
    args: Seq<Seq<char>>,
    ov: Map<Seq<char>, OptValueV>,
)
    requires
        build_all_spec(tasks, name, args, ov) is Ok,
    ensures
        ({
            let rs = build_all_spec(tasks, name, args, ov)->Ok_0;
            let calls = resolve_spec(tasks, name, root_req(args, ov))->Ok_0;
            &&& rs.len() == calls.len()
            &&& forall|k: int| 0 <= k < rs.len() ==> {
                &&& find_task_spec(tasks, #[trigger] rs[k].name) matches Some(i) && rs[k].user == tasks[i].user
                &&& rs[k].name == calls[k].task.name
                &&& rs[k].user == calls[k].task.user
                &&& rs[k].background == calls[k].req.background
                &&& rs[k].nice == calls[k].req.nice
            }
        }),
{
    let req = root_req(args, ov);
    let w0 = WalkV { calls: seq![], done: Set::empty() };
    lemma_visit_from_tasks(tasks, name, req, Set::empty(), w0);
    let calls = resolve_spec(tasks, name, req)->Ok_0;
    let ms = calls.map_values(|c: CallV| runnable_of(c));
    lemma_collect_ok(ms);
    let rs = build_all_spec(tasks, name, args, ov)->Ok_0;
    assert forall|k: int| 0 <= k < rs.len() implies {
        &&& find_task_spec(tasks, #[trigger] rs[k].name) matches Some(i) && rs[k].user == tasks[i].user
        &&& rs[k].name == calls[k].task.name
        &&& rs[k].user == calls[k].task.user
        &&& rs[k].background == calls[k].req.background
        &&& rs[k].nice == calls[k].req.nice
    } by {
        assert(ms[k] == runnable_of(calls[k]));
        reveal(runnable_of);
        assert(find_task_spec(tasks, calls[k].task.name) matches Some(j) && tasks[j] == calls[k].task);
    }
}

} // verus!
