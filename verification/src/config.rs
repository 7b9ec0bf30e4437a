//! The configuration: tasks with their commands, arguments, options,
//! dependencies and settings; how one task's templates are rendered; and how
//! a task and its dependencies are resolved into an ordered list of calls.
use vstd::prelude::*;

use crate::error::{DoerError, ErrorV};
use crate::spec::{dedup_names, env_contains, env_views, EnvVar, EnvVarV, Runnable, RunnableV, SpecIo, stdio_of};
use crate::strmap::{Duplicate, StrMap};
use crate::template::{
    matches_text, render_both, render_template, ResolverV, Templatable,
};
use crate::text::{
    copy_opt_string, copy_string, copy_strings, decimal, opt_text, owned, push_char,
    push_decimal, push_str, texts,
};

verus! {

/// The value of an option: a string, or a boolean flag.
#[derive(Debug)]
pub enum OptValue {
    String(String),
    Bool(bool),
}

pub ghost enum OptValueV {
    Str(Seq<char>),
    Flag(bool),
}

impl View for OptValue {
    type V = OptValueV;

    open spec fn view(&self) -> OptValueV {
        match self {
            OptValue::String(s) => OptValueV::Str(s@),
            OptValue::Bool(b) => OptValueV::Flag(*b),
        }
    }
}

impl PartialEq for OptValue {
    fn eq(&self, other: &Self) -> (r: bool) {
        match (self, other) {
            (OptValue::String(a), OptValue::String(b)) => *a == *b,
            (OptValue::Bool(a), OptValue::Bool(b)) => *a == *b,
            _ => false,
        }
    }
}

impl vstd::std_specs::cmp::PartialEqSpecImpl for OptValue {
    open spec fn obeys_eq_spec() -> bool {
        true
    }

    open spec fn eq_spec(&self, other: &Self) -> bool {
        self@ == other@
    }
}

impl Duplicate for OptValue {
    fn duplicate(&self) -> (r: OptValue) {
        match self {
            OptValue::String(s) => OptValue::String(copy_string(s)),
            OptValue::Bool(b) => OptValue::Bool(*b),
        }
    }
}

/// An option of a task: a name and its default value.
#[derive(Debug)]
pub struct Opt {
    pub name: String,
    pub value: OptValue,
}

pub ghost struct OptV {
    pub name: Seq<char>,
    pub value: OptValueV,
}

impl View for Opt {
    type V = OptV;

    open spec fn view(&self) -> OptV {
        OptV { name: self.name@, value: self.value@ }
    }
}

pub open spec fn opt_views(v: Seq<Opt>) -> Seq<OptV> {
    v.map_values(|o: Opt| o@)
}

/// A dependency of a task: the task it calls, with the arguments, options,
/// stdio and priority of that call.
#[derive(Debug)]
pub struct Dep {
    pub name: String,
    pub args: Vec<String>,
    pub opts: Vec<Opt>,
    pub background: bool,
    pub stdin: Option<String>,
    pub stdout: Option<String>,
    pub stderr: Option<String>,
    pub nice: Option<i32>,
}

pub ghost struct DepV {
    pub name: Seq<char>,
    pub args: Seq<Seq<char>>,
    pub opts: Seq<OptV>,
    pub background: bool,
    pub stdin: Option<Seq<char>>,
    pub stdout: Option<Seq<char>>,
    pub stderr: Option<Seq<char>>,
    pub nice: Option<i32>,
}

impl View for Dep {
    type V = DepV;

    open spec fn view(&self) -> DepV {
        DepV {
            name: self.name@,
            args: texts(self.args@),
            opts: opt_views(self.opts@),
            background: self.background,
            stdin: opt_text(self.stdin),
            stdout: opt_text(self.stdout),
            stderr: opt_text(self.stderr),
            nice: self.nice,
        }
    }
}

pub open spec fn dep_views(v: Seq<Dep>) -> Seq<DepV> {
    v.map_values(|d: Dep| d@)
}

/// A task of the configuration.
#[derive(Debug)]
pub struct Task {
    pub name: String,
    pub commands: Vec<String>,
    pub args: Vec<String>,
    pub cwd: Option<String>,
    pub env_vars: Vec<EnvVar>,
    pub opts: Vec<Opt>,
    pub deps: Vec<Dep>,
    pub user: Option<String>,
    pub stdin: Option<String>,
    pub stderr: Option<String>,
    pub stdout: Option<String>,
    pub nice: Option<i32>,
}

pub ghost struct TaskV {
    pub name: Seq<char>,
    pub commands: Seq<Seq<char>>,
    pub args: Seq<Seq<char>>,
    pub cwd: Option<Seq<char>>,
    pub env_vars: Seq<EnvVarV>,
    pub opts: Seq<OptV>,
    pub deps: Seq<DepV>,
    pub user: Option<Seq<char>>,
    pub stdin: Option<Seq<char>>,
    pub stderr: Option<Seq<char>>,
    pub stdout: Option<Seq<char>>,
    pub nice: Option<i32>,
}

impl View for Task {
    type V = TaskV;

    open spec fn view(&self) -> TaskV {
        TaskV {
            name: self.name@,
            commands: texts(self.commands@),
            args: texts(self.args@),
            cwd: opt_text(self.cwd),
            env_vars: env_views(self.env_vars@),
            opts: opt_views(self.opts@),
            deps: dep_views(self.deps@),
            user: opt_text(self.user),
            stdin: opt_text(self.stdin),
            stderr: opt_text(self.stderr),
            stdout: opt_text(self.stdout),
            nice: self.nice,
        }
    }
}

pub open spec fn task_views(v: Seq<Task>) -> Seq<TaskV> {
    v.map_values(|t: Task| t@)
}

/// The configuration: its tasks in order, and whether git hooks are wanted.
#[derive(Debug)]
pub struct Config {
    pub tasks: Vec<Task>,
    pub git_hooks: Option<bool>,
}

pub ghost struct ConfigV {
    pub tasks: Seq<TaskV>,
    pub git_hooks: Option<bool>,
}

impl View for Config {
    type V = ConfigV;

    open spec fn view(&self) -> ConfigV {
        ConfigV { tasks: task_views(self.tasks@), git_hooks: self.git_hooks }
    }
}

/// Option overrides: option name to the value that replaces its default.
pub type OptOverrides = StrMap<OptValue>;

// ---------------------------------------------------------------------------
// The substitution context
// ---------------------------------------------------------------------------

/// The text of an option value: a string as it is, a flag as `true` or `false`.
pub open spec fn opt_value_text(v: OptValueV) -> Seq<char> {
    match v {
        OptValueV::Str(s) => s,
        OptValueV::Flag(b) => if b {
            "true"@
        } else {
            "false"@
        },
    }
}

/// The value of an option for one call: its override if there is one, else
/// its default.
pub open spec fn effective(o: OptV, ov: Map<Seq<char>, OptValueV>) -> OptValueV {
    if ov.contains_key(o.name) {
        ov[o.name]
    } else {
        o.value
    }
}

/// The positional placeholder of argument `i`: `{i}`.
pub open spec fn positional(i: nat) -> Seq<char> {
    seq!['{'] + decimal(i) + seq!['}']
}

/// First stage of the context: each argument name to its positional
/// placeholder, later names replacing earlier ones.
pub open spec fn args_context(args: Seq<Seq<char>>) -> Map<Seq<char>, Seq<char>>
    decreases args.len(),
{
    if args.len() == 0 {
        Map::empty()
    } else {
        args_context(args.drop_last()).insert(args.last(), positional((args.len() - 1) as nat))
    }
}

/// Second stage: each option name to the text of its effective value.
pub open spec fn opts_context(
    base: Map<Seq<char>, Seq<char>>,
    opts: Seq<OptV>,
    ov: Map<Seq<char>, OptValueV>,
) -> Map<Seq<char>, Seq<char>>
    decreases opts.len(),
{
    if opts.len() == 0 {
        base
    } else {
        opts_context(base, opts.drop_last(), ov).insert(
            opts.last().name,
            opt_value_text(effective(opts.last(), ov)),
        )
    }
}

/// The name inside braces when a value is exactly `{name}`.
pub open spec fn braced_name(s: Seq<char>) -> Option<Seq<char>> {
    if s.len() >= 2 && s[0] == '{' && s.last() == '}' {
        Some(s.subrange(1, s.len() - 1))
    } else {
        None
    }
}

/// Whether a flag (boolean option) of the given name exists.
pub open spec fn has_flag(opts: Seq<OptV>, name: Seq<char>) -> bool {
    exists|k: int| 0 <= k < opts.len() && opts[k].value is Flag && opts[k].name == name
}

/// The first option of the given name.
pub open spec fn first_opt(opts: Seq<OptV>, name: Seq<char>) -> Option<OptV>
    decreases opts.len(),
{
    if opts.len() == 0 {
        None
    } else if opts[0].name == name {
        Some(opts[0])
    } else {
        first_opt(opts.drop_first(), name)
    }
}

/// Whether an option value turns a flag on.
pub open spec fn is_on(v: OptValueV) -> bool {
    v == OptValueV::Flag(true)
}

/// Third stage, for one option: a flag, or a string option whose default
/// refers to a flag as `{flag}`, is replaced by the option's own name when on
/// and by the empty text when off. A string option that refers to a flag is
/// on when its own override turns it on, or, without an override, when the
/// referred option (the first of that name) is on.
pub open spec fn flag_text(o: OptV, all: Seq<OptV>, ov: Map<Seq<char>, OptValueV>) -> Option<
    Seq<char>,
> {
    match o.value {
        OptValueV::Flag(_) => Some(
            if is_on(effective(o, ov)) {
                o.name
            } else {
                seq![]
            },
        ),
        OptValueV::Str(s) => match braced_name(s) {
            Some(r) => if has_flag(all, r) {
                let enabled = if ov.contains_key(o.name) {
                    is_on(ov[o.name])
                } else {
                    match first_opt(all, r) {
                        Some(ro) => is_on(effective(ro, ov)),
                        None => false,
                    }
                };
                Some(
                    if enabled {
                        o.name
                    } else {
                        seq![]
                    },
                )
            } else {
                None
            },
            None => None,
        },
    }
}

/// Third stage over the options in order.
pub open spec fn flags_context(
    base: Map<Seq<char>, Seq<char>>,
    opts: Seq<OptV>,
    all: Seq<OptV>,
    ov: Map<Seq<char>, OptValueV>,
) -> Map<Seq<char>, Seq<char>>
    decreases opts.len(),
{
    if opts.len() == 0 {
        base
    } else {
        let m = flags_context(base, opts.drop_last(), all, ov);
        match flag_text(opts.last(), all, ov) {
            Some(v) => m.insert(opts.last().name, v),
            None => m,
        }
    }
}

/// The substitution context of a task for a call with the given overrides.
pub open spec fn substitution_context_spec(t: TaskV, ov: Map<Seq<char>, OptValueV>) -> Map<
    Seq<char>,
    Seq<char>,
> {
    flags_context(opts_context(args_context(t.args), t.opts, ov), t.opts, t.opts, ov)
}

fn positional_text(i: usize) -> (r: String)
    ensures
        r@ == positional(i as nat),
{
    let mut r = String::new();
    push_char(&mut r, '{');
    push_decimal(&mut r, i as u128);
    push_char(&mut r, '}');
    proof {
        assert(r@ =~= positional(i as nat));
    }
    r
}

fn opt_value_string(v: &OptValue) -> (r: String)
    ensures
        r@ == opt_value_text(v@),
{
    match v {
        OptValue::String(s) => copy_string(s),
        OptValue::Bool(b) => if *b {
            owned("true")
        } else {
            owned("false")
        },
    }
}

fn effective_value<'a>(o: &'a Opt, ov: &'a OptOverrides) -> (r: &'a OptValue)
    ensures
        r@ == effective(o@, ov@),
{
    match ov.get(o.name.as_str()) {
        Some(v) => v,
        None => &o.value,
    }
}

pub(crate) fn braced_inner(s: &String) -> (r: Option<String>)
    ensures
        opt_text(r) == braced_name(s@),
{
    let chars = crate::text::chars_of(s.as_str());
    let n = chars.len();
    if n >= 2 && chars[0] == '{' && chars[n - 1] == '}' {
        let mut r = String::new();
        for i in 1..n - 1
            invariant
                chars@ == s@,
                n == chars@.len(),
                n >= 2,
                r@ == chars@.subrange(1, i as int),
        {
            push_char(&mut r, chars[i]);
            proof {
                assert(chars@.subrange(1, i + 1) == chars@.subrange(1, i as int).push(chars@[i as int]));
            }
        }
        Some(r)
    } else {
        None
    }
}

pub(crate) fn find_flag(opts: &Vec<Opt>, name: &String) -> (r: bool)
    ensures
        r == has_flag(opt_views(opts@), name@),
{
    for k in 0..opts.len()
        invariant
            forall|j: int|
                0 <= j < k ==> !(opt_views(opts@)[j].value is Flag && opt_views(opts@)[j].name
                    == name@),
    {
        match &opts[k].value {
            OptValue::Bool(_) => {
                if opts[k].name == *name {
                    proof {
                        assert(opt_views(opts@)[k as int].value is Flag);
                    }
                    return true;
                }
            },
            OptValue::String(_) => {},
        }
    }
    false
}

fn find_opt<'a>(opts: &'a Vec<Opt>, name: &String) -> (r: Option<&'a Opt>)
    ensures
        match r {
            Some(o) => first_opt(opt_views(opts@), name@) == Some(o@),
            None => first_opt(opt_views(opts@), name@) is None,
        },
{
    let ghost all = opt_views(opts@);
    proof {
        assert(all.skip(0) =~= all);
    }
    for k in 0..opts.len()
        invariant
            all == opt_views(opts@),
            first_opt(all, name@) == first_opt(all.skip(k as int), name@),
    {
        proof {
            assert(all.skip(k as int).drop_first() =~= all.skip(k + 1));
        }
        if opts[k].name == *name {
            return Some(&opts[k]);
        }
    }
    proof {
        assert(all.skip(opts@.len() as int).len() == 0);
    }
    None
}

impl Task {
    /// The substitution context: argument names to positional placeholders,
    /// option names to their values, and flags to their own name or nothing.
    pub fn substitution_context(&self, opt_overrides: &OptOverrides) -> (r: StrMap<String>)
        ensures
            r@ == substitution_context_spec(self@, opt_overrides@),
    {
        let ghost tv = self@;
        let ghost ov = opt_overrides@;
        let mut ctx: StrMap<String> = StrMap::new();
        for i in 0..self.args.len()
            invariant
                tv == self@,
                ctx@ == args_context(texts(self.args@).take(i as int)),
        {
            proof {
                assert(texts(self.args@).take(i + 1).drop_last() =~= texts(self.args@).take(
                    i as int,
                ));
            }
            ctx.insert(copy_string(&self.args[i]), positional_text(i));
        }
        proof {
            assert(texts(self.args@).take(self.args@.len() as int) =~= texts(self.args@));
        }
        let ghost base = ctx@;
        for i in 0..self.opts.len()
            invariant
                tv == self@,
                ov == opt_overrides@,
                base == args_context(tv.args),
                ctx@ == opts_context(base, opt_views(self.opts@).take(i as int), ov),
        {
            proof {
                assert(opt_views(self.opts@).take(i + 1).drop_last() =~= opt_views(
                    self.opts@,
                ).take(i as int));
            }
            let value = opt_value_string(effective_value(&self.opts[i], opt_overrides));
            ctx.insert(copy_string(&self.opts[i].name), value);
        }
        proof {
            assert(opt_views(self.opts@).take(self.opts@.len() as int) =~= opt_views(self.opts@));
        }
        let ghost base2 = ctx@;
        let ghost all = opt_views(self.opts@);
        for i in 0..self.opts.len()
            invariant
                tv == self@,
                ov == opt_overrides@,
                all == opt_views(self.opts@),
                base2 == opts_context(args_context(tv.args), all, ov),
                ctx@ == flags_context(base2, all.take(i as int), all, ov),
        {
            proof {
                assert(all.take(i + 1).drop_last() =~= all.take(i as int));
                assert(all.take(i + 1).last() == self.opts@[i as int]@);
            }
            let opt = &self.opts[i];
            match &opt.value {
                OptValue::Bool(_) => {
                    let on = match effective_value(opt, opt_overrides) {
                        OptValue::Bool(b) => *b,
                        OptValue::String(_) => false,
                    };
                    let flag = if on {
                        copy_string(&opt.name)
                    } else {
                        String::new()
                    };
                    ctx.insert(copy_string(&opt.name), flag);
                },
                OptValue::String(s) => {
                    match braced_inner(s) {
                        Some(ref_name) => {
                            if find_flag(&self.opts, &ref_name) {
                                let enabled = match opt_overrides.get(opt.name.as_str()) {
                                    Some(v) => match v {
                                        OptValue::Bool(b) => *b,
                                        OptValue::String(_) => false,
                                    },
                                    None => match find_opt(&self.opts, &ref_name) {
                                        Some(ro) => match effective_value(ro, opt_overrides) {
                                            OptValue::Bool(b) => *b,
                                            OptValue::String(_) => false,
                                        },
                                        None => false,
                                    },
                                };
                                let flag = if enabled {
                                    copy_string(&opt.name)
                                } else {
                                    String::new()
                                };
                                ctx.insert(copy_string(&opt.name), flag);
                            }
                        },
                        None => {},
                    }
                },
            }
        }
        proof {
            assert(all.take(all.len() as int) =~= all);
        }
        ctx
    }
}


// ---------------------------------------------------------------------------
// Rendering one task
// ---------------------------------------------------------------------------

/// The values of a sequence of results, or the first error among them.
pub open spec fn collect<T>(rs: Seq<Result<T, ErrorV>>) -> Result<Seq<T>, ErrorV>
    decreases rs.len(),
{
    if rs.len() == 0 {
        Ok(seq![])
    } else {
        match collect(rs.drop_last()) {
            Err(e) => Err(e),
            Ok(vs) => match rs.last() {
                Err(e) => Err(e),
                Ok(v) => Ok(vs.push(v)),
            },
        }
    }
}

pub(crate) proof fn lemma_collect_step<T>(rs: Seq<Result<T, ErrorV>>, i: int)
    requires
        0 <= i < rs.len(),
    ensures
        rs.take(i + 1).drop_last() == rs.take(i),
        rs.take(i + 1).last() == rs[i],
{
    assert(rs.take(i + 1).drop_last() =~= rs.take(i));
}

pub(crate) proof fn lemma_collect_err<T>(rs: Seq<Result<T, ErrorV>>, k: int)
    requires
        0 <= k <= rs.len(),
        collect(rs.take(k)) is Err,
    ensures
        collect(rs) == collect(rs.take(k)),
    decreases rs.len() - k,
{
    if k == rs.len() {
        assert(rs.take(k) =~= rs);
    } else {
        lemma_collect_step(rs, k);
        lemma_collect_err(rs, k + 1);
    }
}

pub(crate) proof fn lemma_collect_all<T>(rs: Seq<Result<T, ErrorV>>)
    ensures
        rs.take(rs.len() as int) == rs,
{
    assert(rs.take(rs.len() as int) =~= rs);
}

/// An exec list of strings against a result over texts.
pub open spec fn matches_texts(r: Result<Vec<String>, DoerError>, s: Result<Seq<Seq<char>>, ErrorV>) -> bool {
    match r {
        Ok(v) => s == Ok::<Seq<Seq<char>>, ErrorV>(texts(v@)),
        Err(e) => s == Err::<Seq<Seq<char>>, ErrorV>(e@),
    }
}

/// An exec optional string against a result over texts.
pub open spec fn matches_opt_text(r: Result<Option<String>, DoerError>, s: Result<Option<Seq<char>>, ErrorV>) -> bool {
    match r {
        Ok(v) => s == Ok::<Option<Seq<char>>, ErrorV>(opt_text(v)),
        Err(e) => s == Err::<Option<Seq<char>>, ErrorV>(e@),
    }
}

/// Renders each template of a list through both stages.
pub open spec fn render_all_both(ts: Seq<Seq<char>>, ctx: Map<Seq<char>, Seq<char>>, args: Seq<Seq<char>>) -> Result<Seq<Seq<char>>, ErrorV> {
    collect(ts.map_values(|t: Seq<char>| render_both(t, ctx, args)))
}

pub open spec fn command_template_spec(t: TaskV, ov: Map<Seq<char>, OptValueV>) -> Result<Seq<Seq<char>>, ErrorV> {
    let ctx = substitution_context_spec(t, ov);
    collect(t.commands.map_values(|c: Seq<char>| render_template(c, ResolverV::Names(ctx), "template"@)))
}

pub open spec fn build_commands_spec(t: TaskV, args: Seq<Seq<char>>, ov: Map<Seq<char>, OptValueV>) -> Result<Seq<Seq<char>>, ErrorV> {
    render_all_both(t.commands, substitution_context_spec(t, ov), args)
}

pub open spec fn cwd_template_spec(t: TaskV, ov: Map<Seq<char>, OptValueV>) -> Result<Option<Seq<char>>, ErrorV> {
    match t.cwd {
        None => Ok(None),
        Some(c) => match render_template(c, ResolverV::Names(substitution_context_spec(t, ov)), "template"@) {
            Ok(v) => Ok(Some(v)),
            Err(e) => Err(e),
        },
    }
}

pub open spec fn build_cwd_spec(t: TaskV, args: Seq<Seq<char>>, ov: Map<Seq<char>, OptValueV>) -> Result<Option<Seq<char>>, ErrorV> {
    match cwd_template_spec(t, ov) {
        Err(e) => Err(e),
        Ok(None) => Ok(None),
        Ok(Some(c)) => match render_template(c, ResolverV::Positions(args), "cwd template"@) {
            Ok(v) => Ok(Some(v)),
            Err(e) => Err(e),
        },
    }
}

/// A rendered value, paired with the name of its environment variable.
pub open spec fn with_name(name: Seq<char>, r: Result<Seq<char>, ErrorV>) -> Result<EnvVarV, ErrorV> {
    match r {
        Ok(v) => Ok(EnvVarV { name, value: v }),
        Err(e) => Err(e),
    }
}

pub open spec fn env_set(r: Result<Seq<EnvVarV>, ErrorV>) -> Result<Seq<EnvVarV>, ErrorV> {
    match r {
        Ok(vs) => Ok(dedup_names(vs)),
        Err(e) => Err(e),
    }
}

pub open spec fn env_vars_template_spec(t: TaskV, ov: Map<Seq<char>, OptValueV>) -> Result<Seq<EnvVarV>, ErrorV> {
    let ctx = substitution_context_spec(t, ov);
    env_set(collect(t.env_vars.map_values(|e: EnvVarV| with_name(e.name, render_template(e.value, ResolverV::Names(ctx), "template"@)))))
}

/// The label of the second stage of an environment value: `env var '<name>'`.
pub open spec fn env_label(name: Seq<char>) -> Seq<char> {
    "env var '"@ + name + "'"@
}

pub open spec fn env_value_both(e: EnvVarV, ctx: Map<Seq<char>, Seq<char>>, args: Seq<Seq<char>>) -> Result<Seq<char>, ErrorV> {
    match render_template(e.value, ResolverV::Names(ctx), "template"@) {
        Err(err) => Err(err),
        Ok(v) => render_template(v, ResolverV::Positions(args), env_label(e.name)),
    }
}

pub open spec fn build_env_vars_spec(t: TaskV, args: Seq<Seq<char>>, ov: Map<Seq<char>, OptValueV>) -> Result<Seq<EnvVarV>, ErrorV> {
    let ctx = substitution_context_spec(t, ov);
    env_set(collect(t.env_vars.map_values(|e: EnvVarV| with_name(e.name, env_value_both(e, ctx, args)))))
}

/// A stdio field of a task: unset is inherit; otherwise rendered through both
/// stages (the second labelled `<label> template`) and read as a setting.
pub open spec fn stdio_field_spec(
    t: TaskV,
    field: Option<Seq<char>>,
    args: Seq<Seq<char>>,
    ov: Map<Seq<char>, OptValueV>,
    label: Seq<char>,
) -> Result<SpecIo, ErrorV> {
    match field {
        None => Ok(SpecIo::Inherit),
        Some(raw) => match render_template(raw, ResolverV::Names(substitution_context_spec(t, ov)), "template"@) {
            Err(e) => Err(e),
            Ok(t1) => match render_template(t1, ResolverV::Positions(args), label + " template"@) {
                Err(e) => Err(e),
                Ok(v) => match stdio_of(v) {
                    Some(io) => Ok(io),
                    None => Err(ErrorV::InvalidStdio { task: t.name, label, value: v, resolved: true }),
                },
            },
        },
    }
}

pub open spec fn matches_io(r: Result<SpecIo, DoerError>, s: Result<SpecIo, ErrorV>) -> bool {
    match r {
        Ok(v) => s == Ok::<SpecIo, ErrorV>(v),
        Err(e) => s == Err::<SpecIo, ErrorV>(e@),
    }
}

pub open spec fn matches_envs(r: Result<Vec<EnvVar>, DoerError>, s: Result<Seq<EnvVarV>, ErrorV>) -> bool {
    match r {
        Ok(v) => s == Ok::<Seq<EnvVarV>, ErrorV>(env_views(v@)),
        Err(e) => s == Err::<Seq<EnvVarV>, ErrorV>(e@),
    }
}

impl Task {
    fn render_env(&self, ctx: &StrMap<String>, args: Option<&[String]>) -> (r: Result<Vec<EnvVar>, DoerError>)
        ensures
            matches_envs(r, match args {
                None => env_set(collect(self@.env_vars.map_values(|e: EnvVarV| with_name(e.name, render_template(e.value, ResolverV::Names(ctx@), "template"@))))),
                Some(a) => env_set(collect(self@.env_vars.map_values(|e: EnvVarV| with_name(e.name, env_value_both(e, ctx@, texts(a@)))))),
            }),
    {
        let ghost rs = match args {
            None => self@.env_vars.map_values(|e: EnvVarV| with_name(e.name, render_template(e.value, ResolverV::Names(ctx@), "template"@))),
            Some(a) => self@.env_vars.map_values(|e: EnvVarV| with_name(e.name, env_value_both(e, ctx@, texts(a@)))),
        };
        let mut out: Vec<EnvVar> = Vec::new();
        let ghost mut vals: Seq<EnvVarV> = seq![];
        for i in 0..self.env_vars.len()
            invariant
                rs.len() == self.env_vars@.len(),
                rs == (match args {
                    None => self@.env_vars.map_values(|e: EnvVarV| with_name(e.name, render_template(e.value, ResolverV::Names(ctx@), "template"@))),
                    Some(a) => self@.env_vars.map_values(|e: EnvVarV| with_name(e.name, env_value_both(e, ctx@, texts(a@)))),
                }),
                collect(rs.take(i as int)) == Ok::<Seq<EnvVarV>, ErrorV>(vals),
                env_views(out@) == dedup_names(vals),
        {
            proof {
                lemma_collect_step(rs, i as int);
            }
            let ev = &self.env_vars[i];
            let resolved = match args {
                None => ev.resolve_template(ctx),
                Some(a) => {
                    let mut label = String::new();
                    push_str(&mut label, "env var '");
                    push_str(&mut label, ev.name.as_str());
                    push_str(&mut label, "'");
                    proof {
                        assert(label@ =~= env_label(ev.name@));
                    }
                    match ev.resolve_template(ctx) {
                        Err(e) => Err(e),
                        Ok(t1) => t1.resolve_args(a, label.as_str()),
                    }
                },
            };
            match resolved {
                Err(e) => {
                    proof {
                        lemma_collect_err(rs, i + 1);
                    }
                    return Err(e);
                },
                Ok(v) => {
                    let ghost vv = v@;
                    proof {
                        assert(rs[i as int] == Ok::<EnvVarV, ErrorV>(vv));
                    }
                    let present = env_contains(&out, &v.name);
                    if !present {
                        out.push(v);
                    }
                    proof {
                        assert(vals.push(vv).drop_last() =~= vals);
                        vals = vals.push(vv);
                        if !present {
                            assert(env_views(out@) =~= dedup_names(vals.drop_last()).push(vv));
                        }
                    }
                },
            }
        }
        proof {
            lemma_collect_all(rs);
        }
        Ok(out)
    }

    pub(crate) fn render_list(&self, list: &Vec<String>, ctx: &StrMap<String>, args: Option<&[String]>) -> (r: Result<Vec<String>, DoerError>)
        ensures
            matches_texts(r, match args {
                None => collect(texts(list@).map_values(|c: Seq<char>| render_template(c, ResolverV::Names(ctx@), "template"@))),
                Some(a) => render_all_both(texts(list@), ctx@, texts(a@)),
            }),
    {
        let ghost rs = match args {
            None => texts(list@).map_values(|c: Seq<char>| render_template(c, ResolverV::Names(ctx@), "template"@)),
            Some(a) => texts(list@).map_values(|t: Seq<char>| render_both(t, ctx@, texts(a@))),
        };
        let mut out: Vec<String> = Vec::new();
        proof {
            assert(rs.take(0) =~= Seq::<Result<Seq<char>, ErrorV>>::empty());
            assert(texts(out@) =~= Seq::<Seq<char>>::empty());
        }
        for i in 0..list.len()
            invariant
                rs.len() == list@.len(),
                rs == (match args {
                    None => texts(list@).map_values(|c: Seq<char>| render_template(c, ResolverV::Names(ctx@), "template"@)),
                    Some(a) => texts(list@).map_values(|t: Seq<char>| render_both(t, ctx@, texts(a@))),
                }),
                collect(rs.take(i as int)) == Ok::<Seq<Seq<char>>, ErrorV>(texts(out@)),
        {
            proof {
                lemma_collect_step(rs, i as int);
            }
            let resolved = match args {
                None => list[i].resolve_template(ctx),
                Some(a) => list[i].resolve_both(ctx, a),
            };
            match resolved {
                Err(e) => {
                    proof {
                        lemma_collect_err(rs, i + 1);
                    }
                    return Err(e);
                },
                Ok(v) => {
                    let ghost before = texts(out@);
                    out.push(v);
                    proof {
                        assert(texts(out@) =~= before.push(rs[i as int]->Ok_0));
                    }
                },
            }
        }
        proof {
            lemma_collect_all(rs);
        }
        Ok(out)
    }

    /// The commands with the substitution context applied.
    pub fn command_template(&self, opt_overrides: &OptOverrides) -> (r: Result<Vec<String>, DoerError>)
        ensures
            matches_texts(r, command_template_spec(self@, opt_overrides@)),
    {
        let ctx = self.substitution_context(opt_overrides);
        self.render_list(&self.commands, &ctx, None)
    }

    /// The commands with the context and then the arguments applied.
    pub fn build_commands(&self, args: &[String], opt_overrides: &OptOverrides) -> (r: Result<Vec<String>, DoerError>)
        ensures
            matches_texts(r, build_commands_spec(self@, texts(args@), opt_overrides@)),
    {
        let ctx = self.substitution_context(opt_overrides);
        self.render_list(&self.commands, &ctx, Some(args))
    }

    /// The working directory with the substitution context applied.
    pub fn cwd_template(&self, opt_overrides: &OptOverrides) -> (r: Result<Option<String>, DoerError>)
        ensures
            matches_opt_text(r, cwd_template_spec(self@, opt_overrides@)),
    {
        match &self.cwd {
            None => Ok(None),
            Some(cwd) => {
                let ctx = self.substitution_context(opt_overrides);
                Ok(Some(cwd.resolve_template(&ctx)?))
            },
        }
    }

    /// The working directory with the context and then the arguments applied,
    /// the second stage labelled `cwd template`.
    pub fn build_cwd(&self, args: &[String], opt_overrides: &OptOverrides) -> (r: Result<Option<String>, DoerError>)
        ensures
            matches_opt_text(r, build_cwd_spec(self@, texts(args@), opt_overrides@)),
    {
        match &self.cwd {
            None => Ok(None),
            Some(cwd) => {
                let ctx = self.substitution_context(opt_overrides);
                let t1 = cwd.resolve_template(&ctx)?;
                Ok(Some(t1.resolve_args(args, "cwd template")?))
            },
        }
    }

    /// The environment with the substitution context applied to each value;
    /// of variables with the same name the first is kept.
    pub fn env_vars_template(&self, opt_overrides: &OptOverrides) -> (r: Result<Vec<EnvVar>, DoerError>)
        ensures
            matches_envs(r, env_vars_template_spec(self@, opt_overrides@)),
    {
        let ctx = self.substitution_context(opt_overrides);
        self.render_env(&ctx, None)
    }

    /// The environment with the context and then the arguments applied to
    /// each value, the second stage labelled `env var '<name>'`; of variables
    /// with the same name the first is kept.
    pub fn build_env_vars(&self, args: &[String], opt_overrides: &OptOverrides) -> (r: Result<Vec<EnvVar>, DoerError>)
        ensures
            matches_envs(r, build_env_vars_spec(self@, texts(args@), opt_overrides@)),
            r matches Ok(v) ==> crate::spec::env_names(env_views(v@)).no_duplicates(),
    {
        let ctx = self.substitution_context(opt_overrides);
        let r = self.render_env(&ctx, Some(args));
        proof {
            let rs = collect(self@.env_vars.map_values(|e: EnvVarV| with_name(e.name, env_value_both(e, substitution_context_spec(self@, opt_overrides@), texts(args@)))));
            if let Ok(vs) = rs {
                crate::spec::lemma_dedup_names_distinct(vs);
            }
        }
        r
    }

    pub(crate) fn build_stdio_field(&self, field: &Option<String>, args: &[String], opt_overrides: &OptOverrides, label: &str) -> (r: Result<SpecIo, DoerError>)
        ensures
            matches_io(r, stdio_field_spec(self@, opt_text(*field), texts(args@), opt_overrides@, label@)),
    {
        match field {
            None => Ok(SpecIo::Inherit),
            Some(raw) => {
                let ctx = self.substitution_context(opt_overrides);
                let t1 = raw.resolve_template(&ctx)?;
                let mut second = owned(label);
                push_str(&mut second, " template");
                let resolved = t1.resolve_args(args, second.as_str())?;
                match SpecIo::try_from(resolved.as_str()) {
                    Ok(io) => Ok(io),
                    Err(_) => Err(DoerError::InvalidStdio {
                        task: copy_string(&self.name),
                        label: owned(label),
                        value: resolved,
                        resolved: true,
                    }),
                }
            },
        }
    }

    /// The stdin setting for a call.
    pub fn build_stdin(&self, args: &[String], opt_overrides: &OptOverrides) -> (r: Result<SpecIo, DoerError>)
        ensures
            matches_io(r, stdio_field_spec(self@, self@.stdin, texts(args@), opt_overrides@, "stdin"@)),
    {
        self.build_stdio_field(&self.stdin, args, opt_overrides, "stdin")
    }

    /// The stdout setting for a call.
    pub fn build_stdout(&self, args: &[String], opt_overrides: &OptOverrides) -> (r: Result<SpecIo, DoerError>)
        ensures
            matches_io(r, stdio_field_spec(self@, self@.stdout, texts(args@), opt_overrides@, "stdout"@)),
    {
        self.build_stdio_field(&self.stdout, args, opt_overrides, "stdout")
    }

    /// The stderr setting for a call.
    pub fn build_stderr(&self, args: &[String], opt_overrides: &OptOverrides) -> (r: Result<SpecIo, DoerError>)
        ensures
            matches_io(r, stdio_field_spec(self@, self@.stderr, texts(args@), opt_overrides@, "stderr"@)),
    {
        self.build_stdio_field(&self.stderr, args, opt_overrides, "stderr")
    }
}

// ---------------------------------------------------------------------------
// Overrides of names that are no option
// ---------------------------------------------------------------------------

/// No option of the list has the name `k`.
pub open spec fn no_opt_named(opts: Seq<OptV>, k: Seq<char>) -> bool {
    forall|i: int| 0 <= i < opts.len() ==> opts[i].name != k
}

proof fn lemma_first_opt_name(opts: Seq<OptV>, name: Seq<char>)
    ensures
        first_opt(opts, name) matches Some(o) ==> o.name == name && opts.contains(o),
    decreases opts.len(),
{
    if opts.len() > 0 && opts[0].name != name {
        lemma_first_opt_name(opts.drop_first(), name);
        if let Some(o) = first_opt(opts.drop_first(), name) {
            let i = choose|i: int| 0 <= i < opts.drop_first().len() && opts.drop_first()[i] == o;
            assert(opts[i + 1] == o);
        }
    } else if opts.len() > 0 {
        assert(opts[0] == opts[0]);
    }
}

proof fn lemma_opts_context_ignores(
    base: Map<Seq<char>, Seq<char>>,
    opts: Seq<OptV>,
    ov: Map<Seq<char>, OptValueV>,
    k: Seq<char>,
    v: OptValueV,
)
    requires
        no_opt_named(opts, k),
    ensures
        opts_context(base, opts, ov.insert(k, v)) == opts_context(base, opts, ov),
    decreases opts.len(),
{
    if opts.len() > 0 {
        lemma_opts_context_ignores(base, opts.drop_last(), ov, k, v);
        assert(opts.last().name != k);
        assert(effective(opts.last(), ov.insert(k, v)) == effective(opts.last(), ov));
    }
}

proof fn lemma_flags_context_ignores(
    base: Map<Seq<char>, Seq<char>>,
    opts: Seq<OptV>,
    all: Seq<OptV>,
    ov: Map<Seq<char>, OptValueV>,
    k: Seq<char>,
    v: OptValueV,
)
    requires
        no_opt_named(opts, k),
        no_opt_named(all, k),
    ensures
        flags_context(base, opts, all, ov.insert(k, v)) == flags_context(base, opts, all, ov),
    decreases opts.len(),
{
    if opts.len() > 0 {
        lemma_flags_context_ignores(base, opts.drop_last(), all, ov, k, v);
        let o = opts.last();
        assert(o.name != k);
        assert(effective(o, ov.insert(k, v)) == effective(o, ov));
        if let OptValueV::Str(s) = o.value {
            if let Some(r) = braced_name(s) {
                lemma_first_opt_name(all, r);
                if let Some(ro) = first_opt(all, r) {
                    let i = choose|i: int| 0 <= i < all.len() && all[i] == ro;
                    assert(ro.name != k);
                    assert(effective(ro, ov.insert(k, v)) == effective(ro, ov));
                }
            }
        }
        assert(flag_text(o, all, ov.insert(k, v)) == flag_text(o, all, ov));
    }
}

/// An override whose name is no option of the task leaves the task's
/// substitution context as it is: overrides only ever replace the values of
/// the task's own options.
pub proof fn law_unknown_override_ignored(t: TaskV, ov: Map<Seq<char>, OptValueV>, k: Seq<char>, v: OptValueV)
    requires
        no_opt_named(t.opts, k),
    ensures
        substitution_context_spec(t, ov.insert(k, v)) == substitution_context_spec(t, ov),
{
    let base = args_context(t.args);
    lemma_opts_context_ignores(base, t.opts, ov, k, v);
    lemma_flags_context_ignores(opts_context(base, t.opts, ov), t.opts, t.opts, ov, k, v);
}

// ---------------------------------------------------------------------------
// The two stages, and one syntax for every templated field
// ---------------------------------------------------------------------------

/// The positional stage applied to each of a list of texts.
pub open spec fn positions_all(ws: Seq<Seq<char>>, args: Seq<Seq<char>>) -> Result<Seq<Seq<char>>, ErrorV> {
    collect(ws.map_values(|w: Seq<char>| render_template(w, ResolverV::Positions(args), "template"@)))
}

/// The named stage applied to each of a list of texts.
pub open spec fn names_all(ts: Seq<Seq<char>>, ctx: Map<Seq<char>, Seq<char>>) -> Result<Seq<Seq<char>>, ErrorV> {
    collect(ts.map_values(|t: Seq<char>| render_template(t, ResolverV::Names(ctx), "template"@)))
}

proof fn lemma_two_passes(ts: Seq<Seq<char>>, ctx: Map<Seq<char>, Seq<char>>, args: Seq<Seq<char>>)
    ensures
        render_all_both(ts, ctx, args) is Ok <==> (names_all(ts, ctx) is Ok && positions_all(
            names_all(ts, ctx)->Ok_0,
            args,
        ) is Ok),
        render_all_both(ts, ctx, args) is Ok ==> render_all_both(ts, ctx, args) == positions_all(
            names_all(ts, ctx)->Ok_0,
            args,
        ) && render_all_both(ts, ctx, args)->Ok_0.len() == ts.len(),
        names_all(ts, ctx) is Ok ==> names_all(ts, ctx)->Ok_0.len() == ts.len(),
    decreases ts.len(),
{
    if ts.len() > 0 {
        let p = ts.drop_last();
        let x = ts.last();
        lemma_two_passes(p, ctx, args);
        assert(ts.map_values(|t: Seq<char>| render_both(t, ctx, args)).drop_last() =~= p.map_values(
            |t: Seq<char>| render_both(t, ctx, args),
        ));
        assert(ts.map_values(|t: Seq<char>| render_template(t, ResolverV::Names(ctx), "template"@)).drop_last()
            =~= p.map_values(|t: Seq<char>| render_template(t, ResolverV::Names(ctx), "template"@)));
        if let Ok(ws) = names_all(p, ctx) {
            if let Ok(w) = render_template(x, ResolverV::Names(ctx), "template"@) {
                assert(names_all(ts, ctx) == Ok::<Seq<Seq<char>>, ErrorV>(ws.push(w)));
                assert(ws.push(w).map_values(|w: Seq<char>| render_template(w, ResolverV::Positions(args), "template"@)).drop_last()
                    =~= ws.map_values(|w: Seq<char>| render_template(w, ResolverV::Positions(args), "template"@)));
                assert(ws.push(w).last() == w);
            }
        }
    }
}

/// Commands are built in two passes: first every command is rendered with
/// the task's substitution context (`command_template`), then each of those
/// texts has its positional placeholders resolved with the call's
/// arguments. The builder succeeds exactly when both passes do, and then
/// gives what they give, one command for each of the task's commands.
pub proof fn law_build_commands_two_passes(t: TaskV, args: Seq<Seq<char>>, ov: Map<Seq<char>, OptValueV>)
    ensures
        build_commands_spec(t, args, ov) is Ok <==> (command_template_spec(t, ov) is Ok && positions_all(
            command_template_spec(t, ov)->Ok_0,
            args,
        ) is Ok),
        build_commands_spec(t, args, ov) is Ok ==> build_commands_spec(t, args, ov) == positions_all(
            command_template_spec(t, ov)->Ok_0,
            args,
        ) && build_commands_spec(t, args, ov)->Ok_0.len() == t.commands.len(),
{
    lemma_two_passes(t.commands, substitution_context_spec(t, ov), args);
}

/// One template syntax for every field: when the same template is a task's
/// only command, its working directory and the value of its only
/// environment variable, the three builders succeed together, with the
/// same text, or fail together.
pub proof fn law_one_template_syntax(
    t: TaskV,
    args: Seq<Seq<char>>,
    ov: Map<Seq<char>, OptValueV>,
    s: Seq<char>,
    n: Seq<char>,
)
    requires
        t.commands == seq![s],
        t.cwd == Some(s),
        t.env_vars == seq![EnvVarV { name: n, value: s }],
    ensures
        match crate::template::ok_text(render_both(s, substitution_context_spec(t, ov), args)) {
            Some(x) => {
                &&& build_commands_spec(t, args, ov) == Ok::<Seq<Seq<char>>, ErrorV>(seq![x])
                &&& build_cwd_spec(t, args, ov) == Ok::<Option<Seq<char>>, ErrorV>(Some(x))
                &&& build_env_vars_spec(t, args, ov) == Ok::<Seq<EnvVarV>, ErrorV>(
                    seq![EnvVarV { name: n, value: x }],
                )
            },
            None => {
                &&& build_commands_spec(t, args, ov) is Err
                &&& build_cwd_spec(t, args, ov) is Err
                &&& build_env_vars_spec(t, args, ov) is Err
            },
        },
{
    let ctx = substitution_context_spec(t, ov);
    let e = EnvVarV { name: n, value: s };
    let cs = t.commands.map_values(|c: Seq<char>| render_both(c, ctx, args));
    assert(cs.drop_last() =~= Seq::<Result<Seq<char>, ErrorV>>::empty());
    assert(cs.last() == render_both(s, ctx, args));
    let es = t.env_vars.map_values(|e: EnvVarV| with_name(e.name, env_value_both(e, ctx, args)));
    assert(es.drop_last() =~= Seq::<Result<EnvVarV, ErrorV>>::empty());
    assert(es.last() == with_name(n, env_value_both(e, ctx, args)));
    match render_template(s, ResolverV::Names(ctx), "template"@) {
        Err(_) => {},
        Ok(v) => {
            crate::template::law_label_only_in_errors(v, ResolverV::Positions(args), "template"@, "cwd template"@);
            crate::template::law_label_only_in_errors(v, ResolverV::Positions(args), "template"@, env_label(n));
        },
    }
    if let Some(x) = crate::template::ok_text(render_both(s, ctx, args)) {
        let one = seq![EnvVarV { name: n, value: x }];
        assert(one.drop_last() =~= Seq::<EnvVarV>::empty());
        assert(Seq::<EnvVarV>::empty().push(EnvVarV { name: n, value: x }) =~= one);
        assert(Seq::<Seq<char>>::empty().push(x) =~= seq![x]);
        assert(dedup_names(one.drop_last()) =~= Seq::<EnvVarV>::empty());
        assert(!Seq::<EnvVarV>::empty().map_values(|e: EnvVarV| e.name).contains(n));
        assert(dedup_names(one) == one);
        assert(env_value_both(e, ctx, args) == Ok::<Seq<char>, ErrorV>(x));
        assert(collect(es.drop_last()) == Ok::<Seq<EnvVarV>, ErrorV>(Seq::<EnvVarV>::empty()));
        assert(es.last() == Ok::<EnvVarV, ErrorV>(EnvVarV { name: n, value: x }));
        assert(collect(es) == Ok::<Seq<EnvVarV>, ErrorV>(one));
        assert(collect(cs.drop_last()) == Ok::<Seq<Seq<char>>, ErrorV>(Seq::<Seq<char>>::empty()));
        assert(collect(cs) == Ok::<Seq<Seq<char>>, ErrorV>(seq![x]));
    } else {
        assert(collect(cs.drop_last()) == Ok::<Seq<Seq<char>>, ErrorV>(Seq::<Seq<char>>::empty()));
        assert(collect(cs) is Err);
        assert(env_value_both(e, ctx, args) is Err);
        assert(collect(es.drop_last()) == Ok::<Seq<EnvVarV>, ErrorV>(Seq::<EnvVarV>::empty()));
        assert(collect(es) is Err);
    }
}

} // verus!
