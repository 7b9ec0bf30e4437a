//! Reading the configuration from a KDL document: the `tasks` node, each
//! task's commands, arguments, options, dependencies, settings and
//! environment, and the `git-hooks` switch.
use vstd::prelude::*;

use crate::config::{
    collect, lemma_collect_all, lemma_collect_err, lemma_collect_step, matches_opt_text,
    matches_texts, opt_views, Opt, OptV, OptValue, OptValueV,
};
use crate::document::{
    nodes_named, string_of, Document, Entry, KdlDocumentExt, KdlEntryExt, KdlNodeExt, Node, NodeV, Value,
    ValueV,
};
use crate::error::{DoerError, ErrorV, Scope, ScopeV};
use crate::template::matches_text;
use crate::text::{copy_string, owned, push_signed_decimal, push_str, signed_decimal, texts};

verus! {

/// An error inside a scope.
pub open spec fn scoped(scope: ScopeV, e: ErrorV) -> ErrorV {
    ErrorV::Context { scope, inner: Box::new(e) }
}

/// The error for a node that does not have exactly `expected` entries.
pub open spec fn count_error(n: NodeV, expected: nat, label: Seq<char>) -> Option<ErrorV> {
    if n.entries.len() != expected {
        Some(ErrorV::EntryCount { label, expected, actual: n.entries.len() })
    } else {
        None
    }
}

/// Checks that a node has exactly `expected` entries.
pub fn ensure_entries_count(node: &Node, expected: usize, label: &str) -> (r: Result<(), DoerError>)
    ensures
        match r {
            Ok(()) => count_error(node@, expected as nat, label@) is None,
            Err(e) => count_error(node@, expected as nat, label@) == Some(e@),
        },
{
    let actual = node.entries.len();
    if actual == expected {
        Ok(())
    } else {
        Err(DoerError::EntryCount { label: owned(label), expected, actual })
    }
}

/// The text of a string, integer or float value.
pub open spec fn value_text(v: ValueV) -> Option<Seq<char>> {
    match v {
        ValueV::Str(s) => Some(s),
        ValueV::Int(i) => Some(signed_decimal(i)),
        ValueV::Float { text, debug } => Some(text),
        _ => None,
    }
}

/// The option value of an entry value: a boolean is a flag, a string or
/// number is its text.
pub open spec fn value_opt(v: ValueV) -> Option<OptValueV> {
    match v {
        ValueV::Bool(b) => Some(OptValueV::Flag(b)),
        _ => match value_text(v) {
            Some(s) => Some(OptValueV::Str(s)),
            None => None,
        },
    }
}

/// The text of a string, integer or float value.
pub fn entry_value_to_string(val: &Value) -> (r: Option<String>)
    ensures
        crate::text::opt_text(r) == value_text(val@),
{
    match val {
        Value::Str(s) => Some(copy_string(s)),
        Value::Integer(i) => {
            let mut t = String::new();
            push_signed_decimal(&mut t, *i);
            proof {
                assert(t@ =~= signed_decimal(*i as int));
            }
            Some(t)
        },
        Value::Float { text, debug } => Some(copy_string(text)),
        _ => None,
    }
}

/// The option value of an entry value.
pub fn entry_opt_value(val: &Value) -> (r: Option<OptValue>)
    ensures
        match r {
            Some(v) => value_opt(val@) == Some(v@),
            None => value_opt(val@) is None,
        },
{
    match val {
        Value::Bool(b) => Some(OptValue::Bool(*b)),
        _ => match entry_value_to_string(val) {
            Some(s) => Some(OptValue::String(s)),
            None => None,
        },
    }
}

pub open spec fn matches_nodes(v: Seq<&Node>, nodes: Seq<NodeV>) -> bool {
    v.len() == nodes.len() && forall|i: int| 0 <= i < v.len() ==> v[i]@ == nodes[i]
}

// ---- commands ----

pub open spec fn dash_spec(n: NodeV, task: Seq<char>) -> Result<Seq<char>, ErrorV> {
    match count_error(n, 1, "'-'"@) {
        Some(e) => Err(scoped(ScopeV::TaskPlain(task), e)),
        None => match string_of(n.entries[0]) {
            Some(s) => Ok(s),
            None => Err(scoped(ScopeV::Task(task), ErrorV::DashWithoutCommand)),
        },
    }
}

/// The commands of a task: its single entry, or the `-` children in order.
pub open spec fn parse_commands_spec(n: NodeV, task: Seq<char>) -> Result<Seq<Seq<char>>, ErrorV> {
    if n.entries.len() > 0 {
        match count_error(n, 1, "command"@) {
            Some(e) => Err(scoped(ScopeV::Task(task), e)),
            None => match string_of(n.entries[0]) {
                Some(s) => Ok(seq![s]),
                None => Err(scoped(ScopeV::Task(task), ErrorV::NotAString { what: "command"@ })),
            },
        }
    } else {
        match n.children {
            Some(c) => collect(nodes_named(c, "-"@).map_values(|d: NodeV| dash_spec(d, task))),
            None => Ok(seq![]),
        }
    }
}

fn dash_command(dash: &Node, task_name: &str) -> (r: Result<String, DoerError>)
    ensures
        matches_text(r, dash_spec(dash@, task_name@)),
{
    match ensure_entries_count(dash, 1, "'-'") {
        Err(e) => {
            return Err(e.within(Scope::TaskPlain(owned(task_name))));
        },
        Ok(()) => {},
    }
    match dash.first_string() {
        Some(s) => Ok(owned(s)),
        None => Err(DoerError::DashWithoutCommand.within(Scope::Task(owned(task_name)))),
    }
}

/// The commands of a task node.
pub fn parse_commands(node: &Node, task_name: &str) -> (r: Result<Vec<String>, DoerError>)
    ensures
        matches_texts(r, parse_commands_spec(node@, task_name@)),
{
    if let Some(entry) = node.first_entry() {
        match ensure_entries_count(node, 1, "command") {
            Err(e) => {
                return Err(e.within(Scope::Task(owned(task_name))));
            },
            Ok(()) => {},
        }
        match entry.string_value() {
            Some(s) => {
                let mut v = Vec::new();
                v.push(owned(s));
                proof {
                    assert(texts(v@) =~= seq![s@]);
                }
                Ok(v)
            },
            None => Err(
                DoerError::NotAString { what: owned("command") }.within(
                    Scope::Task(owned(task_name)),
                ),
            ),
        }
    } else if let Some(children) = &node.children {
        let dashes = children.nodes_by_name("-");
        let ghost named = nodes_named(children@, "-"@);
        let ghost rs = named.map_values(|d: NodeV| dash_spec(d, task_name@));
        let mut out: Vec<String> = Vec::new();
        proof {
            assert(node@.entries.len() == 0);
        }
        proof {
            assert(rs.take(0) =~= Seq::<Result<Seq<char>, ErrorV>>::empty());
            assert(texts(out@) =~= Seq::<Seq<char>>::empty());
        }
        for i in 0..dashes.len()
            invariant
                matches_nodes(dashes@, named),
                rs == named.map_values(|d: NodeV| dash_spec(d, task_name@)),
                parse_commands_spec(node@, task_name@) == collect(rs),
                collect(rs.take(i as int)) == Ok::<Seq<Seq<char>>, ErrorV>(texts(out@)),
        {
            proof {
                lemma_collect_step(rs, i as int);
            }
            match dash_command(dashes[i], task_name) {
                Err(e) => {
                    proof {
                        lemma_collect_err(rs, i + 1);
                    }
                    return Err(e);
                },
                Ok(v) => {
                    let ghost before = texts(out@);
                    out.push(v);
                    proof {
                        assert(texts(out@) =~= before.push(rs[i as int]->Ok_0));
                    }
                },
            }
        }
        proof {
            lemma_collect_all(rs);
        }
        Ok(out)
    } else {
        let v: Vec<String> = Vec::new();
        proof {
            assert(texts(v@) =~= Seq::<Seq<char>>::empty());
        }
        Ok(v)
    }
}

// ---- args ----

/// An argument node: one string entry.
pub open spec fn parse_arg_spec(n: NodeV, task: Seq<char>) -> Result<Seq<char>, ErrorV> {
    match count_error(n, 1, "arg"@) {
        Some(e) => Err(scoped(ScopeV::Task(task), e)),
        None => match string_of(n.entries[0]) {
            Some(s) => Ok(s),
            None => Err(scoped(ScopeV::Task(task), ErrorV::NotAString { what: "arg value"@ })),
        },
    }
}

/// The arguments of a task: its `arg` children in order.
pub open spec fn parse_args_spec(n: NodeV, task: Seq<char>) -> Result<Seq<Seq<char>>, ErrorV> {
    match n.children {
        None => Ok(seq![]),
        Some(c) => collect(nodes_named(c, "arg"@).map_values(|a: NodeV| parse_arg_spec(a, task))),
    }
}

/// An argument node.
pub fn parse_arg(node: &Node, task_name: &str) -> (r: Result<String, DoerError>)
    ensures
        matches_text(r, parse_arg_spec(node@, task_name@)),
{
    match ensure_entries_count(node, 1, "arg") {
        Err(e) => {
            return Err(e.within(Scope::Task(owned(task_name))));
        },
        Ok(()) => {},
    }
    match node.first_string() {
        Some(s) => Ok(owned(s)),
        None => Err(
            DoerError::NotAString { what: owned("arg value") }.within(Scope::Task(owned(task_name))),
        ),
    }
}

/// The arguments of a task node.
pub fn parse_args(node: &Node, task_name: &str) -> (r: Result<Vec<String>, DoerError>)
    ensures
        matches_texts(r, parse_args_spec(node@, task_name@)),
{
    let children = match &node.children {
        None => {
            let v: Vec<String> = Vec::new();
            proof {
                assert(texts(v@) =~= Seq::<Seq<char>>::empty());
            }
            return Ok(v);
        },
        Some(c) => c,
    };
    let nodes = children.nodes_by_name("arg");
    let ghost named = nodes_named(children@, "arg"@);
    let ghost rs = named.map_values(|a: NodeV| parse_arg_spec(a, task_name@));
    let mut out: Vec<String> = Vec::new();
    proof {
        assert(rs.take(0) =~= Seq::<Result<Seq<char>, ErrorV>>::empty());
        assert(texts(out@) =~= Seq::<Seq<char>>::empty());
    }
    for i in 0..nodes.len()
        invariant
            matches_nodes(nodes@, named),
            rs == named.map_values(|a: NodeV| parse_arg_spec(a, task_name@)),
            parse_args_spec(node@, task_name@) == collect(rs),
            collect(rs.take(i as int)) == Ok::<Seq<Seq<char>>, ErrorV>(texts(out@)),
    {
        proof {
            lemma_collect_step(rs, i as int);
        }
        match parse_arg(nodes[i], task_name) {
            Err(e) => {
                proof {
                    lemma_collect_err(rs, i + 1);
                }
                return Err(e);
            },
            Ok(v) => {
                let ghost before = texts(out@);
                out.push(v);
                proof {
                    assert(texts(out@) =~= before.push(rs[i as int]->Ok_0));
                }
            },
        }
    }
    proof {
        lemma_collect_all(rs);
    }
    Ok(out)
}

// ---- opts ----

/// An option node: one property entry whose value is a string, number or
/// boolean.
pub open spec fn parse_opt_spec(n: NodeV, task: Seq<char>) -> Result<OptV, ErrorV> {
    match count_error(n, 1, "opt"@) {
        Some(e) => Err(scoped(ScopeV::Task(task), e)),
        None => match n.entries[0].name {
            None => Err(scoped(ScopeV::Task(task), ErrorV::OptWithoutKey)),
            Some(k) => match value_opt(n.entries[0].value) {
                None => Err(scoped(ScopeV::Task(task), ErrorV::OptValueUnsupported)),
                Some(v) => Ok(OptV { name: k, value: v }),
            },
        },
    }
}

/// The options of a task: its `opt` children in order.
pub open spec fn parse_opts_spec(n: NodeV, task: Seq<char>) -> Result<Seq<OptV>, ErrorV> {
    match n.children {
        None => Ok(seq![]),
        Some(c) => collect(nodes_named(c, "opt"@).map_values(|o: NodeV| parse_opt_spec(o, task))),
    }
}

pub open spec fn matches_opt(r: Result<Opt, DoerError>, s: Result<OptV, ErrorV>) -> bool {
    match r {
        Ok(v) => s == Ok::<OptV, ErrorV>(v@),
        Err(e) => s == Err::<OptV, ErrorV>(e@),
    }
}

pub open spec fn matches_opts(r: Result<Vec<Opt>, DoerError>, s: Result<Seq<OptV>, ErrorV>) -> bool {
    match r {
        Ok(v) => s == Ok::<Seq<OptV>, ErrorV>(opt_views(v@)),
        Err(e) => s == Err::<Seq<OptV>, ErrorV>(e@),
    }
}

/// An option node.
pub fn parse_opt(node: &Node, task_name: &str) -> (r: Result<Opt, DoerError>)
    ensures
        matches_opt(r, parse_opt_spec(node@, task_name@)),
{
    match ensure_entries_count(node, 1, "opt") {
        Err(e) => {
            return Err(e.within(Scope::Task(owned(task_name))));
        },
        Ok(()) => {},
    }
    let entry = &node.entries[0];
    let name = match entry.key() {
        Some(k) => owned(k),
        None => {
            return Err(DoerError::OptWithoutKey.within(Scope::Task(owned(task_name))));
        },
    };
    match entry_opt_value(&entry.value) {
        Some(value) => Ok(Opt { name, value }),
        None => Err(DoerError::OptValueUnsupported.within(Scope::Task(owned(task_name)))),
    }
}

fn parse_opt_list(nodes: &Vec<&Node>, Ghost(named): Ghost<Seq<NodeV>>, owner: &str) -> (r: Result<Vec<Opt>, DoerError>)
    requires
        matches_nodes(nodes@, named),
    ensures
        matches_opts(r, collect(named.map_values(|o: NodeV| parse_opt_spec(o, owner@)))),
{
    let ghost rs = named.map_values(|o: NodeV| parse_opt_spec(o, owner@));
    let mut out: Vec<Opt> = Vec::new();
    proof {
        assert(rs.take(0) =~= Seq::<Result<OptV, ErrorV>>::empty());
        assert(opt_views(out@) =~= Seq::<OptV>::empty());
    }
    for i in 0..nodes.len()
        invariant
            matches_nodes(nodes@, named),
            rs == named.map_values(|o: NodeV| parse_opt_spec(o, owner@)),
            collect(rs.take(i as int)) == Ok::<Seq<OptV>, ErrorV>(opt_views(out@)),
    {
        proof {
            lemma_collect_step(rs, i as int);
        }
        match parse_opt(nodes[i], owner) {
            Err(e) => {
                proof {
                    lemma_collect_err(rs, i + 1);
                }
                return Err(e);
            },
            Ok(v) => {
                let ghost before = opt_views(out@);
                out.push(v);
                proof {
                    assert(opt_views(out@) =~= before.push(rs[i as int]->Ok_0));
                }
            },
        }
    }
    proof {
        lemma_collect_all(rs);
    }
    Ok(out)
}

/// The options of a task node.
pub fn parse_opts(node: &Node, task_name: &str) -> (r: Result<Vec<Opt>, DoerError>)
    ensures
        matches_opts(r, parse_opts_spec(node@, task_name@)),
{
    match &node.children {
        None => {
            let v: Vec<Opt> = Vec::new();
            proof {
                assert(opt_views(v@) =~= Seq::<OptV>::empty());
            }
            Ok(v)
        },
        Some(children) => {
            let nodes = children.nodes_by_name("opt");
            parse_opt_list(&nodes, Ghost(nodes_named(children@, "opt"@)), task_name)
        },
    }
}


// ---- deps ----

/// `dep '<name>'`, as the owner of a field in messages.
pub open spec fn dep_owner(n: Seq<char>) -> Seq<char> {
    "dep '"@ + n + "'"@
}

/// `task '<name>'`, as the owner of a field in messages.
pub open spec fn task_owner(n: Seq<char>) -> Seq<char> {
    "task '"@ + n + "'"@
}

fn owner_text(prefix_dep: bool, name: &str) -> (r: String)
    ensures
        r@ == if prefix_dep {
            dep_owner(name@)
        } else {
            task_owner(name@)
        },
{
    let mut r = String::new();
    if prefix_dep {
        push_str(&mut r, "dep '");
    } else {
        push_str(&mut r, "task '");
    }
    push_str(&mut r, name);
    push_str(&mut r, "'");
    proof {
        if prefix_dep {
            assert(r@ =~= dep_owner(name@));
        } else {
            assert(r@ =~= task_owner(name@));
        }
    }
    r
}

/// An argument of a dependency: one string entry.
pub open spec fn parse_dep_arg_spec(n: NodeV, dep: Seq<char>) -> Result<Seq<char>, ErrorV> {
    match count_error(n, 1, "dep arg"@) {
        Some(e) => Err(scoped(ScopeV::Dep(dep), e)),
        None => match string_of(n.entries[0]) {
            Some(s) => Ok(s),
            None => Err(scoped(ScopeV::Dep(dep), ErrorV::NotAString { what: "arg value"@ })),
        },
    }
}

/// An argument node of a dependency.
pub fn parse_dep_arg(node: &Node, dep_name: &str) -> (r: Result<String, DoerError>)
    ensures
        matches_text(r, parse_dep_arg_spec(node@, dep_name@)),
{
    match ensure_entries_count(node, 1, "dep arg") {
        Err(e) => {
            return Err(e.within(Scope::Dep(owned(dep_name))));
        },
        Ok(()) => {},
    }
    match node.first_string() {
        Some(s) => Ok(owned(s)),
        None => Err(
            DoerError::NotAString { what: owned("arg value") }.within(Scope::Dep(owned(dep_name))),
        ),
    }
}

/// A field that occurs at most once with one string entry; `scope` is the
/// scope of its errors and `owner` its name in the count message.
pub open spec fn optional_string_field(
    c: Seq<NodeV>,
    field: Seq<char>,
    scope: ScopeV,
    owner: Seq<char>,
) -> Result<Option<Seq<char>>, ErrorV> {
    let nodes = nodes_named(c, field);
    if nodes.len() > 1 {
        Err(ErrorV::TooManyNodes { owner, field, actual: nodes.len() })
    } else if nodes.len() == 0 {
        Ok(None)
    } else {
        match count_error(nodes[0], 1, field) {
            Some(e) => Err(scoped(scope, e)),
            None => match string_of(nodes[0].entries[0]) {
                Some(s) => Ok(Some(s)),
                None => Err(scoped(scope, ErrorV::NotAString { what: field + " value"@ })),
            },
        }
    }
}

fn optional_string(children: &Document, field: &str, scope_dep: bool, name: &str) -> (r: Result<Option<String>, DoerError>)
    ensures
        matches_opt_text(r, optional_string_field(
            children@,
            field@,
            if scope_dep {
                ScopeV::Dep(name@)
            } else {
                ScopeV::Task(name@)
            },
            if scope_dep {
                dep_owner(name@)
            } else {
                task_owner(name@)
            },
        )),
{
    let nodes = children.nodes_by_name(field);
    if nodes.len() > 1 {
        return Err(DoerError::TooManyNodes { owner: owner_text(scope_dep, name), field: owned(field), actual: nodes.len() });
    }
    if nodes.len() == 0 {
        return Ok(None);
    }
    let n = nodes[0];
    let scope = if scope_dep {
        Scope::Dep(owned(name))
    } else {
        Scope::Task(owned(name))
    };
    match ensure_entries_count(n, 1, field) {
        Err(e) => {
            return Err(e.within(scope));
        },
        Ok(()) => {},
    }
    match n.first_string() {
        Some(s) => Ok(Some(owned(s))),
        None => {
            let mut what = owned(field);
            push_str(&mut what, " value");
            Err(DoerError::NotAString { what }.within(scope))
        },
    }
}

/// The stdio of a dependency: optional `stdin`, `stdout`, `stderr` children.
pub open spec fn parse_dep_stdio_spec(n: NodeV, dep: Seq<char>) -> Result<
    (Option<Seq<char>>, Option<Seq<char>>, Option<Seq<char>>),
    ErrorV,
> {
    match n.children {
        None => Ok((None, None, None)),
        Some(c) => match optional_string_field(c, "stdin"@, ScopeV::Dep(dep), dep_owner(dep)) {
            Err(e) => Err(e),
            Ok(si) => match optional_string_field(c, "stdout"@, ScopeV::Dep(dep), dep_owner(dep)) {
                Err(e) => Err(e),
                Ok(so) => match optional_string_field(c, "stderr"@, ScopeV::Dep(dep), dep_owner(dep)) {
                    Err(e) => Err(e),
                    Ok(se) => Ok((si, so, se)),
                },
            },
        },
    }
}

/// Whether a dependency runs in the background: a `background` child with no
/// entry, or with one boolean entry; absent means no.
pub open spec fn parse_dep_background_spec(n: NodeV) -> Result<bool, ErrorV> {
    match n.children {
        None => Ok(false),
        Some(c) => {
            let bg = nodes_named(c, "background"@);
            if bg.len() == 0 {
                Ok(false)
            } else if bg.len() != 1 {
                Err(ErrorV::TooManyNodes { owner: "dep"@, field: "background"@, actual: bg.len() })
            } else if bg[0].entries.len() == 0 {
                Ok(true)
            } else if bg[0].entries.len() == 1 {
                match bg[0].entries[0].value {
                    ValueV::Bool(b) => Ok(b),
                    v => Err(ErrorV::BackgroundNotBool { found: v }),
                }
            } else {
                Err(ErrorV::BackgroundEntryCount)
            }
        },
    }
}

/// An integer field at most once, with one integer entry in the nice range.
pub open spec fn optional_integer_field(
    c: Seq<NodeV>,
    field: Seq<char>,
    scope: ScopeV,
    owner: Seq<char>,
) -> Result<Option<i32>, ErrorV> {
    let nodes = nodes_named(c, field);
    if nodes.len() > 1 {
        Err(ErrorV::TooManyNodes { owner, field, actual: nodes.len() })
    } else if nodes.len() == 0 {
        Ok(None)
    } else {
        match count_error(nodes[0], 1, field) {
            Some(e) => Err(scoped(scope, e)),
            None => match nodes[0].entries[0].value {
                ValueV::Int(raw) => if -20 <= raw <= 19 {
                    Ok(Some(raw as i32))
                } else {
                    Err(scoped(scope, ErrorV::OutOfRange { field, number: raw }))
                },
                _ => Err(scoped(scope, ErrorV::NotAnInteger { field })),
            },
        }
    }
}

fn optional_integer(children: &Document, field: &str, scope_dep: bool, name: &str) -> (r: Result<Option<i32>, DoerError>)
    ensures
        match r {
            Ok(v) => optional_integer_field(
                children@,
                field@,
                if scope_dep {
                    ScopeV::Dep(name@)
                } else {
                    ScopeV::Task(name@)
                },
                if scope_dep {
                    dep_owner(name@)
                } else {
                    task_owner(name@)
                },
            ) == Ok::<Option<i32>, ErrorV>(v),
            Err(e) => optional_integer_field(
                children@,
                field@,
                if scope_dep {
                    ScopeV::Dep(name@)
                } else {
                    ScopeV::Task(name@)
                },
                if scope_dep {
                    dep_owner(name@)
                } else {
                    task_owner(name@)
                },
            ) == Err::<Option<i32>, ErrorV>(e@),
        },
{
    let nodes = children.nodes_by_name(field);
    if nodes.len() > 1 {
        return Err(DoerError::TooManyNodes { owner: owner_text(scope_dep, name), field: owned(field), actual: nodes.len() });
    }
    if nodes.len() == 0 {
        return Ok(None);
    }
    let n = nodes[0];
    let scope = if scope_dep {
        Scope::Dep(owned(name))
    } else {
        Scope::Task(owned(name))
    };
    match ensure_entries_count(n, 1, field) {
        Err(e) => {
            return Err(e.within(scope));
        },
        Ok(()) => {},
    }
    match &n.entries[0].value {
        Value::Integer(raw) => {
            if -20 <= *raw && *raw <= 19 {
                Ok(Some(*raw as i32))
            } else {
                Err(DoerError::OutOfRange { field: owned(field), number: *raw }.within(scope))
            }
        },
        _ => Err(DoerError::NotAnInteger { field: owned(field) }.within(scope)),
    }
}

/// A dependency node: one string entry naming the task, and optional
/// `arg`, `opt`, `background`, stdio and `nice` children.
pub open spec fn parse_dep_spec(n: NodeV) -> Result<crate::config::DepV, ErrorV> {
    match count_error(n, 1, "dep"@) {
        Some(e) => Err(e),
        None => match string_of(n.entries[0]) {
            None => Err(ErrorV::NotAString { what: "dep value"@ }),
            Some(name) => match (match n.children {
                Some(c) => collect(nodes_named(c, "arg"@).map_values(|a: NodeV| parse_dep_arg_spec(a, name))),
                None => Ok(seq![]),
            }) {
                Err(e) => Err(e),
                Ok(args) => match (match n.children {
                    Some(c) => collect(nodes_named(c, "opt"@).map_values(|o: NodeV| parse_opt_spec(o, name))),
                    None => Ok(seq![]),
                }) {
                    Err(e) => Err(e),
                    Ok(opts) => match parse_dep_background_spec(n) {
                        Err(e) => Err(e),
                        Ok(background) => match parse_dep_stdio_spec(n, name) {
                            Err(e) => Err(e),
                            Ok(stdio) => match (match n.children {
                                None => Ok(None),
                                Some(c) => optional_integer_field(c, "nice"@, ScopeV::Dep(name), dep_owner(name)),
                            }) {
                                Err(e) => Err(e),
                                Ok(nice) => Ok(crate::config::DepV {
                                    name,
                                    args,
                                    opts,
                                    background,
                                    stdin: stdio.0,
                                    stdout: stdio.1,
                                    stderr: stdio.2,
                                    nice,
                                }),
                            },
                        },
                    },
                },
            },
        },
    }
}

/// The dependencies of a task: its `dep` children in order, any error
/// scoped to the task.
pub open spec fn parse_deps_spec(n: NodeV, task: Seq<char>) -> Result<Seq<crate::config::DepV>, ErrorV> {
    match n.children {
        None => Ok(seq![]),
        Some(c) => match collect(nodes_named(c, "dep"@).map_values(|d: NodeV| parse_dep_spec(d))) {
            Ok(v) => Ok(v),
            Err(e) => Err(scoped(ScopeV::Task(task), e)),
        },
    }
}

fn parse_dep_background(node: &Node) -> (r: Result<bool, DoerError>)
    ensures
        match r {
            Ok(b) => parse_dep_background_spec(node@) == Ok::<bool, ErrorV>(b),
            Err(e) => parse_dep_background_spec(node@) == Err::<bool, ErrorV>(e@),
        },
{
    let children = match &node.children {
        None => {
            return Ok(false);
        },
        Some(c) => c,
    };
    let bg = children.nodes_by_name("background");
    if bg.len() == 0 {
        return Ok(false);
    }
    if bg.len() != 1 {
        return Err(DoerError::TooManyNodes { owner: owned("dep"), field: owned("background"), actual: bg.len() });
    }
    let b = bg[0];
    if b.entries.len() == 0 {
        Ok(true)
    } else if b.entries.len() == 1 {
        match &b.entries[0].value {
            Value::Bool(v) => Ok(*v),
            other => Err(DoerError::BackgroundNotBool { found: other.copy() }),
        }
    } else {
        Err(DoerError::BackgroundEntryCount)
    }
}

pub open spec fn matches_dep_v(r: Result<crate::config::Dep, DoerError>, s: Result<crate::config::DepV, ErrorV>) -> bool {
    match r {
        Ok(v) => s == Ok::<crate::config::DepV, ErrorV>(v@),
        Err(e) => s == Err::<crate::config::DepV, ErrorV>(e@),
    }
}

fn parse_dep_args(node: &Node, dep_name: &str) -> (r: Result<Vec<String>, DoerError>)
    ensures
        matches_texts(r, match node@.children {
            Some(c) => collect(nodes_named(c, "arg"@).map_values(|a: NodeV| parse_dep_arg_spec(a, dep_name@))),
            None => Ok(seq![]),
        }),
{
    let children = match &node.children {
        None => {
            let v: Vec<String> = Vec::new();
            proof {
                assert(texts(v@) =~= Seq::<Seq<char>>::empty());
            }
            return Ok(v);
        },
        Some(c) => c,
    };
    let nodes = children.nodes_by_name("arg");
    let ghost named = nodes_named(children@, "arg"@);
    let ghost rs = named.map_values(|a: NodeV| parse_dep_arg_spec(a, dep_name@));
    let mut out: Vec<String> = Vec::new();
    proof {
        assert(rs.take(0) =~= Seq::<Result<Seq<char>, ErrorV>>::empty());
        assert(texts(out@) =~= Seq::<Seq<char>>::empty());
    }
    for i in 0..nodes.len()
        invariant
            matches_nodes(nodes@, named),
            rs == named.map_values(|a: NodeV| parse_dep_arg_spec(a, dep_name@)),
            (match node@.children {
                Some(c) => collect(nodes_named(c, "arg"@).map_values(|a: NodeV| parse_dep_arg_spec(a, dep_name@))),
                None => Ok(seq![]),
            }) == collect(rs),
            collect(rs.take(i as int)) == Ok::<Seq<Seq<char>>, ErrorV>(texts(out@)),
    {
        proof {
            lemma_collect_step(rs, i as int);
        }
        match parse_dep_arg(nodes[i], dep_name) {
            Err(e) => {
                proof {
                    lemma_collect_err(rs, i + 1);
                }
                return Err(e);
            },
            Ok(v) => {
                let ghost before = texts(out@);
                out.push(v);
                proof {
                    assert(texts(out@) =~= before.push(rs[i as int]->Ok_0));
                }
            },
        }
    }
    proof {
        lemma_collect_all(rs);
    }
    Ok(out)
}

/// A dependency node.
pub fn parse_dep(node: &Node) -> (r: Result<crate::config::Dep, DoerError>)
    ensures
        matches_dep_v(r, parse_dep_spec(node@)),
{
    ensure_entries_count(node, 1, "dep")?;
    let name = match node.first_string() {
        Some(s) => owned(s),
        None => {
            return Err(DoerError::NotAString { what: owned("dep value") });
        },
    };
    let args = parse_dep_args(node, name.as_str())?;
    let opts = match &node.children {
        Some(children) => {
            let nodes = children.nodes_by_name("opt");
            parse_opt_list(&nodes, Ghost(nodes_named(children@, "opt"@)), name.as_str())?
        },
        None => {
            let v: Vec<Opt> = Vec::new();
            proof {
                assert(opt_views(v@) =~= Seq::<OptV>::empty());
            }
            v
        },
    };
    let background = parse_dep_background(node)?;
    let (stdin, stdout, stderr) = match &node.children {
        None => (None, None, None),
        Some(c) => {
            let si = optional_string(c, "stdin", true, name.as_str())?;
            let so = optional_string(c, "stdout", true, name.as_str())?;
            let se = optional_string(c, "stderr", true, name.as_str())?;
            (si, so, se)
        },
    };
    let nice = match &node.children {
        None => None,
        Some(c) => optional_integer(c, "nice", true, name.as_str())?,
    };
    Ok(crate::config::Dep { name, args, opts, background, stdin, stdout, stderr, nice })
}

pub open spec fn matches_deps(r: Result<Vec<crate::config::Dep>, DoerError>, s: Result<Seq<crate::config::DepV>, ErrorV>) -> bool {
    match r {
        Ok(v) => s == Ok::<Seq<crate::config::DepV>, ErrorV>(crate::config::dep_views(v@)),
        Err(e) => s == Err::<Seq<crate::config::DepV>, ErrorV>(e@),
    }
}

/// The dependencies of a task node.
pub fn parse_deps(node: &Node, task_name: &str) -> (r: Result<Vec<crate::config::Dep>, DoerError>)
    ensures
        matches_deps(r, parse_deps_spec(node@, task_name@)),
{
    let children = match &node.children {
        None => {
            let v: Vec<crate::config::Dep> = Vec::new();
            proof {
                assert(crate::config::dep_views(v@) =~= Seq::<crate::config::DepV>::empty());
            }
            return Ok(v);
        },
        Some(c) => c,
    };
    let nodes = children.nodes_by_name("dep");
    let ghost named = nodes_named(children@, "dep"@);
    let ghost rs = named.map_values(|d: NodeV| parse_dep_spec(d));
    let mut out: Vec<crate::config::Dep> = Vec::new();
    proof {
        assert(rs.take(0) =~= Seq::<Result<crate::config::DepV, ErrorV>>::empty());
        assert(crate::config::dep_views(out@) =~= Seq::<crate::config::DepV>::empty());
    }
    for i in 0..nodes.len()
        invariant
            matches_nodes(nodes@, named),
            rs == named.map_values(|d: NodeV| parse_dep_spec(d)),
            parse_deps_spec(node@, task_name@) == (match collect(rs) {
                Ok(v) => Ok(v),
                Err(e) => Err(scoped(ScopeV::Task(task_name@), e)),
            }),
            collect(rs.take(i as int)) == Ok::<Seq<crate::config::DepV>, ErrorV>(crate::config::dep_views(out@)),
    {
        proof {
            lemma_collect_step(rs, i as int);
        }
        match parse_dep(nodes[i]) {
            Err(e) => {
                proof {
                    lemma_collect_err(rs, i + 1);
                }
                return Err(e.within(Scope::Task(owned(task_name))));
            },
            Ok(v) => {
                let ghost before = crate::config::dep_views(out@);
                out.push(v);
                proof {
                    assert(crate::config::dep_views(out@) =~= before.push(rs[i as int]->Ok_0));
                }
            },
        }
    }
    proof {
        lemma_collect_all(rs);
    }
    Ok(out)
}

// ---- user / cwd / nice / stdio ----

/// An optional integer field of a task node.
pub open spec fn parse_optional_integer_spec(n: NodeV, task: Seq<char>, field: Seq<char>) -> Result<Option<i32>, ErrorV> {
    match n.children {
        None => Ok(None),
        Some(c) => optional_integer_field(c, field, ScopeV::Task(task), task_owner(task)),
    }
}

/// An optional string field of a task node.
pub open spec fn parse_optional_string_spec(n: NodeV, task: Seq<char>, field: Seq<char>) -> Result<Option<Seq<char>>, ErrorV> {
    match n.children {
        None => Ok(None),
        Some(c) => optional_string_field(c, field, ScopeV::Task(task), task_owner(task)),
    }
}

/// An optional integer field (`nice`) of a task node, in the nice range.
pub fn parse_optional_integer(node: &Node, task_name: &str, field: &str) -> (r: Result<Option<i32>, DoerError>)
    ensures
        match r {
            Ok(v) => parse_optional_integer_spec(node@, task_name@, field@) == Ok::<Option<i32>, ErrorV>(v),
            Err(e) => parse_optional_integer_spec(node@, task_name@, field@) == Err::<Option<i32>, ErrorV>(e@),
        },
{
    match &node.children {
        None => Ok(None),
        Some(c) => optional_integer(c, field, false, task_name),
    }
}

/// An optional string field (`user`, `cwd`) of a task node.
pub fn parse_optional_string(node: &Node, task_name: &str, field: &str) -> (r: Result<Option<String>, DoerError>)
    ensures
        matches_opt_text(r, parse_optional_string_spec(node@, task_name@, field@)),
{
    match &node.children {
        None => Ok(None),
        Some(c) => optional_string(c, field, false, task_name),
    }
}

fn parse_optional_stdio(node: &Node, task_name: &str, field: &str) -> (r: Result<Option<String>, DoerError>)
    ensures
        matches_opt_text(r, parse_optional_string_spec(node@, task_name@, field@)),
{
    parse_optional_string(node, task_name, field)
}

/// The stdio fields of a task node.
pub open spec fn parse_stdio_spec(n: NodeV, task: Seq<char>) -> Result<
    (Option<Seq<char>>, Option<Seq<char>>, Option<Seq<char>>),
    ErrorV,
> {
    match parse_optional_string_spec(n, task, "stdin"@) {
        Err(e) => Err(e),
        Ok(si) => match parse_optional_string_spec(n, task, "stdout"@) {
            Err(e) => Err(e),
            Ok(so) => match parse_optional_string_spec(n, task, "stderr"@) {
                Err(e) => Err(e),
                Ok(se) => Ok((si, so, se)),
            },
        },
    }
}

/// The `stdin`, `stdout` and `stderr` fields of a task node.
pub fn parse_stdio(node: &Node, task_name: &str) -> (r: Result<(Option<String>, Option<String>, Option<String>), DoerError>)
    ensures
        match r {
            Ok((a, b, c)) => parse_stdio_spec(node@, task_name@) == Ok::<(Option<Seq<char>>, Option<Seq<char>>, Option<Seq<char>>), ErrorV>(
                (crate::text::opt_text(a), crate::text::opt_text(b), crate::text::opt_text(c)),
            ),
            Err(e) => parse_stdio_spec(node@, task_name@) == Err::<(Option<Seq<char>>, Option<Seq<char>>, Option<Seq<char>>), ErrorV>(e@),
        },
{
    let stdin = parse_optional_stdio(node, task_name, "stdin")?;
    let stdout = parse_optional_stdio(node, task_name, "stdout")?;
    let stderr = parse_optional_stdio(node, task_name, "stderr")?;
    Ok((stdin, stdout, stderr))
}

// ---- env vars ----

/// An environment variable node: its name is the variable, its one entry a
/// string or number.
pub open spec fn parse_env_var_spec(n: NodeV, task: Seq<char>) -> Result<crate::spec::EnvVarV, ErrorV> {
    match count_error(n, 1, "env var"@) {
        Some(e) => Err(scoped(ScopeV::Task(task), e)),
        None => match value_text(n.entries[0].value) {
            None => Err(scoped(ScopeV::Task(task), ErrorV::EnvValueUnsupported)),
            Some(v) => Ok(crate::spec::EnvVarV { name: n.name, value: v }),
        },
    }
}

/// The environment of a task: every child of its one `env` node.
pub open spec fn parse_env_vars_spec(n: NodeV, task: Seq<char>) -> Result<Seq<crate::spec::EnvVarV>, ErrorV> {
    match n.children {
        None => Ok(seq![]),
        Some(c) => {
            let envs = nodes_named(c, "env"@);
            if envs.len() > 1 {
                Err(ErrorV::TooManyNodes { owner: task_owner(task), field: "env"@, actual: envs.len() })
            } else if envs.len() == 0 {
                Ok(seq![])
            } else {
                match envs[0].children {
                    None => Ok(seq![]),
                    Some(ec) => collect(ec.map_values(|v: NodeV| parse_env_var_spec(v, task))),
                }
            }
        },
    }
}

/// An environment variable node.
pub fn parse_env_var(node: &Node, task_name: &str) -> (r: Result<crate::spec::EnvVar, DoerError>)
    ensures
        match r {
            Ok(v) => parse_env_var_spec(node@, task_name@) == Ok::<crate::spec::EnvVarV, ErrorV>(v@),
            Err(e) => parse_env_var_spec(node@, task_name@) == Err::<crate::spec::EnvVarV, ErrorV>(e@),
        },
{
    match ensure_entries_count(node, 1, "env var") {
        Err(e) => {
            return Err(e.within(Scope::Task(owned(task_name))));
        },
        Ok(()) => {},
    }
    match entry_value_to_string(&node.entries[0].value) {
        Some(value) => Ok(crate::spec::EnvVar { name: copy_string(&node.name), value }),
        None => Err(DoerError::EnvValueUnsupported.within(Scope::Task(owned(task_name)))),
    }
}

/// The environment of a task node.
pub fn parse_env_vars(node: &Node, task_name: &str) -> (r: Result<Vec<crate::spec::EnvVar>, DoerError>)
    ensures
        crate::config::matches_envs(r, parse_env_vars_spec(node@, task_name@)),
{
    let empty: Vec<crate::spec::EnvVar> = Vec::new();
    proof {
        assert(crate::spec::env_views(empty@) =~= Seq::<crate::spec::EnvVarV>::empty());
    }
    let children = match &node.children {
        None => {
            return Ok(empty);
        },
        Some(c) => c,
    };
    let envs = children.nodes_by_name("env");
    if envs.len() > 1 {
        return Err(DoerError::TooManyNodes { owner: owner_text(false, task_name), field: owned("env"), actual: envs.len() });
    }
    if envs.len() == 0 {
        return Ok(empty);
    }
    let env_children = match &envs[0].children {
        None => {
            return Ok(empty);
        },
        Some(c) => c,
    };
    let ghost rs = env_children@.map_values(|v: NodeV| parse_env_var_spec(v, task_name@));
    let mut out: Vec<crate::spec::EnvVar> = Vec::new();
    proof {
        assert(rs.take(0) =~= Seq::<Result<crate::spec::EnvVarV, ErrorV>>::empty());
        assert(crate::spec::env_views(out@) =~= Seq::<crate::spec::EnvVarV>::empty());
    }
    proof {
        crate::document::lemma_nodes_view_index(env_children.nodes@);
    }
    for i in 0..env_children.nodes.len()
        invariant
            env_children@.len() == env_children.nodes@.len(),
            forall|k: int| 0 <= k < env_children.nodes@.len() ==> #[trigger] env_children@[k] == env_children.nodes@[k]@,
            rs == env_children@.map_values(|v: NodeV| parse_env_var_spec(v, task_name@)),
            parse_env_vars_spec(node@, task_name@) == collect(rs),
            collect(rs.take(i as int)) == Ok::<Seq<crate::spec::EnvVarV>, ErrorV>(crate::spec::env_views(out@)),
    {
        proof {
            lemma_collect_step(rs, i as int);
        }
        match parse_env_var(&env_children.nodes[i], task_name) {
            Err(e) => {
                proof {
                    lemma_collect_err(rs, i + 1);
                }
                return Err(e);
            },
            Ok(v) => {
                let ghost before = crate::spec::env_views(out@);
                out.push(v);
                proof {
                    assert(crate::spec::env_views(out@) =~= before.push(rs[i as int]->Ok_0));
                }
            },
        }
    }
    proof {
        lemma_collect_all(rs);
    }
    Ok(out)
}

// ---- tasks and the whole configuration ----

/// A task node: its name, commands, arguments, options and dependencies
/// (a task needs a command or a dependency), then user, working directory,
/// environment, stdio and nice value.
pub open spec fn parse_task_spec(n: NodeV) -> Result<crate::config::TaskV, ErrorV> {
    let name = n.name;
    match parse_commands_spec(n, name) {
        Err(e) => Err(e),
        Ok(commands) => match parse_args_spec(n, name) {
            Err(e) => Err(e),
            Ok(args) => match parse_opts_spec(n, name) {
                Err(e) => Err(e),
                Ok(opts) => match parse_deps_spec(n, name) {
                    Err(e) => Err(e),
                    Ok(deps) => if commands.len() == 0 && deps.len() == 0 {
                        Err(ErrorV::NoCommandNoDeps { task: name })
                    } else {
                        match parse_optional_string_spec(n, name, "user"@) {
                            Err(e) => Err(e),
                            Ok(user) => match parse_optional_string_spec(n, name, "cwd"@) {
                                Err(e) => Err(e),
                                Ok(cwd) => match parse_env_vars_spec(n, name) {
                                    Err(e) => Err(e),
                                    Ok(env_vars) => match parse_stdio_spec(n, name) {
                                        Err(e) => Err(e),
                                        Ok(stdio) => match parse_optional_integer_spec(n, name, "nice"@) {
                                            Err(e) => Err(e),
                                            Ok(nice) => Ok(crate::config::TaskV {
                                                name,
                                                commands,
                                                args,
                                                cwd,
                                                env_vars,
                                                opts,
                                                deps,
                                                user,
                                                stdin: stdio.0,
                                                stderr: stdio.2,
                                                stdout: stdio.1,
                                                nice,
                                            }),
                                        },
                                    },
                                },
                            },
                        }
                    },
                },
            },
        },
    }
}

/// The `git-hooks` switch: the first node of that name, with one boolean entry.
pub open spec fn git_hooks_spec(doc: Seq<NodeV>) -> Result<Option<bool>, ErrorV> {
    match crate::document::first_named(doc, "git-hooks"@) {
        None => Ok(None),
        Some(n) => if n.entries.len() != 1 {
            Err(ErrorV::GitHooksEntryCount { actual: n.entries.len() })
        } else {
            match n.entries[0].value {
                ValueV::Bool(b) => Ok(Some(b)),
                v => Err(ErrorV::GitHooksNotBool { found: v }),
            }
        },
    }
}

/// A configuration result compared by views.
pub open spec fn config_result(r: Result<crate::config::Config, DoerError>) -> Result<crate::config::ConfigV, ErrorV> {
    match r {
        Ok(c) => Ok(c@),
        Err(e) => Err(e@),
    }
}

/// The configuration of a document: the children of its first `tasks`
/// node, read in order, and the `git-hooks` switch.
pub open spec fn from_document_spec(doc: Seq<NodeV>) -> Result<crate::config::ConfigV, ErrorV> {
    match crate::document::first_named(doc, "tasks"@) {
        None => Err(ErrorV::MissingTasksNode),
        Some(t) => match t.children {
            None => Err(ErrorV::TasksWithoutChildren),
            Some(c) => match git_hooks_spec(doc) {
                Err(e) => Err(e),
                Ok(git_hooks) => match collect(c.map_values(|n: NodeV| parse_task_spec(n))) {
                    Err(e) => Err(e),
                    Ok(tasks) => Ok(crate::config::ConfigV { tasks, git_hooks }),
                },
            },
        },
    }
}

fn parse_task(node: &Node) -> (r: Result<crate::config::Task, DoerError>)
    ensures
        match r {
            Ok(t) => parse_task_spec(node@) == Ok::<crate::config::TaskV, ErrorV>(t@),
            Err(e) => parse_task_spec(node@) == Err::<crate::config::TaskV, ErrorV>(e@),
        },
{
    let name = copy_string(&node.name);
    let commands = parse_commands(node, name.as_str())?;
    let args = parse_args(node, name.as_str())?;
    let opts = parse_opts(node, name.as_str())?;
    let deps = parse_deps(node, name.as_str())?;
    if commands.len() == 0 && deps.len() == 0 {
        return Err(DoerError::NoCommandNoDeps { task: name });
    }
    let user = parse_optional_string(node, name.as_str(), "user")?;
    let cwd = parse_optional_string(node, name.as_str(), "cwd")?;
    let env_vars = parse_env_vars(node, name.as_str())?;
    let (stdin, stdout, stderr) = parse_stdio(node, name.as_str())?;
    let nice = parse_optional_integer(node, name.as_str(), "nice")?;
    Ok(crate::config::Task {
        name,
        commands,
        args,
        cwd,
        env_vars,
        opts,
        deps,
        user,
        stdin,
        stderr,
        stdout,
        nice,
    })
}

fn git_hooks(doc: &Document) -> (r: Result<Option<bool>, DoerError>)
    ensures
        match r {
            Ok(v) => git_hooks_spec(doc@) == Ok::<Option<bool>, ErrorV>(v),
            Err(e) => git_hooks_spec(doc@) == Err::<Option<bool>, ErrorV>(e@),
        },
{
    match doc.get("git-hooks") {
        None => Ok(None),
        Some(n) => {
            if n.entries.len() != 1 {
                return Err(DoerError::GitHooksEntryCount { actual: n.entries.len() });
            }
            match &n.entries[0].value {
                Value::Bool(b) => Ok(Some(*b)),
                other => Err(DoerError::GitHooksNotBool { found: other.copy() }),
            }
        },
    }
}

impl crate::config::Config {
    /// Reads the configuration from a KDL document.
    pub fn from_document(doc: &Document) -> (r: Result<crate::config::Config, DoerError>)
        ensures
            match r {
                Ok(c) => from_document_spec(doc@) == Ok::<crate::config::ConfigV, ErrorV>(c@),
                Err(e) => from_document_spec(doc@) == Err::<crate::config::ConfigV, ErrorV>(e@),
            },
    {
        let tasks_node = match doc.get("tasks") {
            None => {
                return Err(DoerError::MissingTasksNode);
            },
            Some(n) => n,
        };
        let children = match &tasks_node.children {
            None => {
                return Err(DoerError::TasksWithoutChildren);
            },
            Some(c) => c,
        };
        let git_hooks = git_hooks(doc)?;
        let ghost rs = children@.map_values(|n: NodeV| parse_task_spec(n));
        let mut tasks: Vec<crate::config::Task> = Vec::new();
        proof {
            assert(rs.take(0) =~= Seq::<Result<crate::config::TaskV, ErrorV>>::empty());
            assert(crate::config::task_views(tasks@) =~= Seq::<crate::config::TaskV>::empty());
        }
        proof {
            crate::document::lemma_nodes_view_index(children.nodes@);
        }
        for i in 0..children.nodes.len()
            invariant
                children@.len() == children.nodes@.len(),
                forall|k: int| 0 <= k < children.nodes@.len() ==> #[trigger] children@[k] == children.nodes@[k]@,
                rs == children@.map_values(|n: NodeV| parse_task_spec(n)),
                from_document_spec(doc@) == (match collect(rs) {
                    Err(e) => Err(e),
                    Ok(ts) => Ok(crate::config::ConfigV { tasks: ts, git_hooks }),
                }),
                collect(rs.take(i as int)) == Ok::<Seq<crate::config::TaskV>, ErrorV>(crate::config::task_views(tasks@)),
        {
            proof {
                lemma_collect_step(rs, i as int);
            }
            match parse_task(&children.nodes[i]) {
                Err(e) => {
                    proof {
                        lemma_collect_err(rs, i + 1);
                    }
                    return Err(e);
                },
                Ok(t) => {
                    let ghost before = crate::config::task_views(tasks@);
                    tasks.push(t);
                    proof {
                        assert(crate::config::task_views(tasks@) =~= before.push(rs[i as int]->Ok_0));
                    }
                },
            }
        }
        proof {
            lemma_collect_all(rs);
        }
        Ok(crate::config::Config { tasks, git_hooks })
    }

    /// Reads the configuration from KDL text: text that the `kdl` crate does
    /// not read as a document is a syntax error; the document it reads is
    /// read as `from_document` reads it.
    pub fn from_kdl_str(content: &str) -> (r: Result<crate::config::Config, DoerError>)
        ensures
            match crate::document::kdl_read(content@) {
                None => r is Err && r->Err_0@ == ErrorV::KdlSyntax,
                Some(doc) => config_result(r) == from_document_spec(doc),
            },
            r matches Ok(c) ==> config_well_formed(c@),
    {
        match Document::parse(content) {
            Err(e) => Err(e),
            Ok(doc) => {
                let r = Self::from_document(&doc);
                proof {
                    if r is Ok {
                        law_read_config_well_formed(doc@);
                    }
                }
                r
            },
        }
    }
}
// ---- what every configuration that reads successfully keeps ----

/// A nice value, when there is one, lies in the valid range.
pub open spec fn nice_in_range(n: Option<i32>) -> bool {
    n matches Some(x) ==> crate::spec::NICE_MIN <= x <= crate::spec::NICE_MAX
}

/// Every task has a command or a dependency, and every nice value of a task
/// or of a dependency lies in the valid range.
pub open spec fn config_well_formed(c: crate::config::ConfigV) -> bool {
    forall|i: int|
        0 <= i < c.tasks.len() ==> {
            let t = #[trigger] c.tasks[i];
            &&& (t.commands.len() > 0 || t.deps.len() > 0)
            &&& nice_in_range(t.nice)
            &&& forall|j: int| 0 <= j < t.deps.len() ==> nice_in_range(#[trigger] t.deps[j].nice)
        }
}

pub(crate) proof fn lemma_collect_ok<T>(rs: Seq<Result<T, ErrorV>>)
    ensures
        collect(rs) matches Ok(vs) ==> vs.len() == rs.len() && forall|i: int|
            0 <= i < rs.len() ==> #[trigger] rs[i] == Ok::<T, ErrorV>(vs[i]),
    decreases rs.len(),
{
    if rs.len() > 0 {
        lemma_collect_ok(rs.drop_last());
        if let Ok(vs) = collect(rs) {
            let prev = collect(rs.drop_last())->Ok_0;
            assert(vs == prev.push(rs.last()->Ok_0));
            assert forall|i: int| 0 <= i < rs.len() implies #[trigger] rs[i] == Ok::<T, ErrorV>(vs[i]) by {
                if i < rs.len() - 1 {
                    assert(rs.drop_last()[i] == rs[i]);
                }
            }
        }
    }
}

proof fn lemma_integer_field_in_range(c: Seq<NodeV>, field: Seq<char>, scope: ScopeV, owner: Seq<char>)
    ensures
        optional_integer_field(c, field, scope, owner) matches Ok(n) ==> nice_in_range(n),
{
}

proof fn lemma_task_well_formed(n: NodeV)
    ensures
        parse_task_spec(n) matches Ok(t) ==> {
            &&& (t.commands.len() > 0 || t.deps.len() > 0)
            &&& nice_in_range(t.nice)
            &&& forall|j: int| 0 <= j < t.deps.len() ==> nice_in_range(#[trigger] t.deps[j].nice)
        },
{
    if let Ok(t) = parse_task_spec(n) {
        if let Some(c) = n.children {
            lemma_integer_field_in_range(c, "nice"@, ScopeV::Task(n.name), task_owner(n.name));
            let ds = nodes_named(c, "dep"@).map_values(|d: NodeV| parse_dep_spec(d));
            lemma_collect_ok(ds);
            assert forall|j: int| 0 <= j < t.deps.len() implies nice_in_range(#[trigger] t.deps[j].nice) by {
                let d = nodes_named(c, "dep"@)[j];
                assert(ds[j] == parse_dep_spec(d));
                let name = string_of(d.entries[0])->Some_0;
                if let Some(dc) = d.children {
                    lemma_integer_field_in_range(dc, "nice"@, ScopeV::Dep(name), dep_owner(name));
                }
            }
        }
    }
}

/// Every configuration that reads successfully is well formed: each task
/// has a command or a dependency, and each nice value, of a task or of a
/// dependency, lies within `NICE_MIN..=NICE_MAX`.
pub proof fn law_read_config_well_formed(doc: Seq<NodeV>)
    requires
        from_document_spec(doc) is Ok,
    ensures
        config_well_formed(from_document_spec(doc)->Ok_0),
{
    let t = crate::document::first_named(doc, "tasks"@)->Some_0;
    let c = t.children->Some_0;
    let rs = c.map_values(|n: NodeV| parse_task_spec(n));
    lemma_collect_ok(rs);
    let cfg = from_document_spec(doc)->Ok_0;
    assert forall|i: int| 0 <= i < cfg.tasks.len() implies {
        let t = #[trigger] cfg.tasks[i];
        &&& (t.commands.len() > 0 || t.deps.len() > 0)
        &&& nice_in_range(t.nice)
        &&& forall|j: int| 0 <= j < t.deps.len() ==> nice_in_range(#[trigger] t.deps[j].nice)
    } by {
        assert(rs[i] == parse_task_spec(c[i]));
        lemma_task_well_formed(c[i]);
    }
}

// ---- where each field of a task comes from ----

/// The string of a node's child named `field`: the string entry of the first
/// child of that name, nothing when the node has no child of that name.
pub open spec fn child_text(n: NodeV, field: Seq<char>) -> Option<Seq<char>> {
    match n.children {
        None => None,
        Some(c) => if nodes_named(c, field).len() == 0 {
            None
        } else {
            string_of(nodes_named(c, field)[0].entries[0])
        },
    }
}

/// The value of a node's child named `field`: the entry of the first child of
/// that name, nothing when the node has no child of that name.
pub open spec fn child_value(n: NodeV, field: Seq<char>) -> Option<ValueV> {
    match n.children {
        None => None,
        Some(c) => if nodes_named(c, field).len() == 0 {
            None
        } else {
            Some(nodes_named(c, field)[0].entries[0].value)
        },
    }
}

/// Each setting of a task that reads successfully comes from the task
/// node's child of the same name: `user`, `cwd`, `stdin`, `stdout` and
/// `stderr` are the string of that child, or none without such a child, and
/// `nice` is the integer of the `nice` child, or none without one. The task
/// keeps the node's name.
pub proof fn law_task_settings_from_children(n: NodeV)
    requires
        parse_task_spec(n) is Ok,
    ensures
        ({
            let t = parse_task_spec(n)->Ok_0;
            &&& t.name == n.name
            &&& t.user == child_text(n, "user"@)
            &&& t.cwd == child_text(n, "cwd"@)
            &&& t.stdin == child_text(n, "stdin"@)
            &&& t.stdout == child_text(n, "stdout"@)
            &&& t.stderr == child_text(n, "stderr"@)
            &&& t.nice is None <==> child_value(n, "nice"@) is None
            &&& t.nice matches Some(x) ==> child_value(n, "nice"@) == Some(ValueV::Int(x as int))
        }),
{
}

/// Each task of a configuration that reads successfully takes its settings
/// from its own node: task `i` is read from the `i`-th child of the `tasks`
/// node, and its `user`, `cwd`, `stdin`, `stdout`, `stderr` and `nice` come
/// from that node's children of those names.
pub proof fn law_config_settings_from_children(doc: Seq<NodeV>)
    requires
        from_document_spec(doc) is Ok,
    ensures
        ({
            let cfg = from_document_spec(doc)->Ok_0;
            let nodes = crate::document::first_named(doc, "tasks"@)->Some_0.children->Some_0;
            &&& cfg.tasks.len() == nodes.len()
            &&& forall|i: int| 0 <= i < cfg.tasks.len() ==> {
                &&& (#[trigger] cfg.tasks[i]).name == nodes[i].name
                &&& cfg.tasks[i].user == child_text(nodes[i], "user"@)
                &&& cfg.tasks[i].cwd == child_text(nodes[i], "cwd"@)
                &&& cfg.tasks[i].stdin == child_text(nodes[i], "stdin"@)
                &&& cfg.tasks[i].stdout == child_text(nodes[i], "stdout"@)
                &&& cfg.tasks[i].stderr == child_text(nodes[i], "stderr"@)
                &&& cfg.tasks[i].nice matches Some(x) ==> child_value(nodes[i], "nice"@) == Some(ValueV::Int(x as int))
            }
        }),
{
    let nodes = crate::document::first_named(doc, "tasks"@)->Some_0.children->Some_0;
    let rs = nodes.map_values(|n: NodeV| parse_task_spec(n));
    lemma_collect_ok(rs);
    let cfg = from_document_spec(doc)->Ok_0;
    assert forall|i: int| 0 <= i < cfg.tasks.len() implies {
        &&& (#[trigger] cfg.tasks[i]).name == nodes[i].name
        &&& cfg.tasks[i].user == child_text(nodes[i], "user"@)
        &&& cfg.tasks[i].cwd == child_text(nodes[i], "cwd"@)
        &&& cfg.tasks[i].stdin == child_text(nodes[i], "stdin"@)
        &&& cfg.tasks[i].stdout == child_text(nodes[i], "stdout"@)
        &&& cfg.tasks[i].stderr == child_text(nodes[i], "stderr"@)
        &&& cfg.tasks[i].nice matches Some(x) ==> child_value(nodes[i], "nice"@) == Some(ValueV::Int(x as int))
    } by {
        assert(rs[i] == parse_task_spec(nodes[i]));
        law_task_settings_from_children(nodes[i]);
    }
}

} // verus!
