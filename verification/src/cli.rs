//! The command line: what the user typed after the task name is split into
//! positional arguments and option overrides, and how each task is shown in
//! the task list.
use vstd::prelude::*;

use crate::config::{
    braced_inner, braced_name, find_flag, has_flag, opt_views, Opt, OptOverrides, OptV, OptValue,
    OptValueV, Task,
};
use crate::config::Config;
use crate::document::kdl_read;
use crate::error::{DoerError, ErrorV};
use crate::parse::{config_result, config_well_formed, from_document_spec};
use crate::spec::Runnable;
use crate::strmap::StrMap;
use crate::text::{chars_of, copy_string, owned, push_char, push_str, texts};

verus! {

/// The command line of the program.
#[derive(Debug)]
pub struct Cli {
    /// Path to the KDL configuration file.
    pub config: String,
    /// The task to run; without one, the tasks are listed.
    pub task: Option<String>,
    /// Parameters of the task: `--name` sets a flag, `name=value` sets an
    /// option, anything else is a positional argument.
    pub params: Vec<String>,
    /// Print the list of tasks.
    pub tasks: bool,
}

/// What one parameter of the command line means.
#[derive(Debug)]
pub enum Param {
    /// `--name`: the flag `name` is switched on.
    Flag(String),
    /// `name=value`, split at the first `=`.
    Assign(String, String),
    /// Anything else: a positional argument.
    Arg(String),
}

pub ghost enum ParamV {
    Flag(Seq<char>),
    Assign(Seq<char>, Seq<char>),
    Arg(Seq<char>),
}

impl View for Param {
    type V = ParamV;

    open spec fn view(&self) -> ParamV {
        match self {
            Param::Flag(k) => ParamV::Flag(k@),
            Param::Assign(k, v) => ParamV::Assign(k@, v@),
            Param::Arg(a) => ParamV::Arg(a@),
        }
    }
}

/// Whether `k` is the position of the first `=` in `p`.
pub open spec fn first_eq_at(p: Seq<char>, k: int) -> bool {
    &&& 0 <= k < p.len()
    &&& p[k] == '='
    &&& forall|j: int| 0 <= j < k ==> p[j] != '='
}

/// The meaning of a parameter: a leading `--` makes a flag of the rest; else
/// a `=` splits it into an option name and value at its first occurrence;
/// else it is a positional argument.
pub open spec fn classify_param(p: Seq<char>) -> ParamV {
    if p.len() >= 2 && p[0] == '-' && p[1] == '-' {
        ParamV::Flag(p.skip(2))
    } else if exists|k: int| 0 <= k < p.len() && p[k] == '=' {
        let k = choose|k: int| first_eq_at(p, k);
        ParamV::Assign(p.take(k), p.skip(k + 1))
    } else {
        ParamV::Arg(p)
    }
}

proof fn lemma_first_eq_unique(p: Seq<char>, k: int)
    requires
        first_eq_at(p, k),
    ensures
        exists|i: int| 0 <= i < p.len() && p[i] == '=',
        (choose|i: int| first_eq_at(p, i)) == k,
{
    assert(p[k] == '=');
    let c = choose|i: int| first_eq_at(p, i);
    assert(first_eq_at(p, c));
    if c < k {
        assert(p[c] == '=');
    } else if c > k {
        assert(p[k] == '=');
    }
}

fn chars_between(v: &Vec<char>, lo: usize, hi: usize) -> (r: String)
    requires
        lo <= hi <= v@.len(),
    ensures
        r@ == v@.subrange(lo as int, hi as int),
{
    let mut r = String::new();
    for i in lo..hi
        invariant
            lo <= hi <= v@.len(),
            r@ == v@.subrange(lo as int, i as int),
    {
        push_char(&mut r, v[i]);
        proof {
            assert(v@.subrange(lo as int, i + 1) == v@.subrange(lo as int, i as int).push(v@[i as int]));
        }
    }
    r
}

/// Reads one parameter of the command line.
pub fn classify(p: &str) -> (r: Param)
    ensures
        r@ == classify_param(p@),
{
    let cs = chars_of(p);
    let n = cs.len();
    if n >= 2 && cs[0] == '-' && cs[1] == '-' {
        let k = chars_between(&cs, 2, n);
        proof {
            assert(k@ =~= p@.skip(2));
        }
        return Param::Flag(k);
    }
    for i in 0..n
        invariant
            cs@ == p@,
            n == cs@.len(),
            !(n >= 2 && cs@[0] == '-' && cs@[1] == '-'),
            forall|j: int| 0 <= j < i ==> cs@[j] != '=',
    {
        if cs[i] == '=' {
            let key = chars_between(&cs, 0, i);
            let value = chars_between(&cs, i + 1, n);
            proof {
                assert(first_eq_at(p@, i as int));
                lemma_first_eq_unique(p@, i as int);
                assert(key@ =~= p@.take(i as int));
                assert(value@ =~= p@.skip(i + 1));
                assert(!(p@.len() >= 2 && p@[0] == '-' && p@[1] == '-'));
                assert(classify_param(p@) == ParamV::Assign(p@.take(i as int), p@.skip(i + 1)));
            }
            return Param::Assign(key, value);
        }
    }
    proof {
        assert(!(exists|k: int| 0 <= k < p@.len() && p@[k] == '='));
    }
    Param::Arg(owned(p))
}

/// The arguments and option overrides of a list of parameters, read in
/// order; a later override of the same option replaces an earlier one.
pub open spec fn split_params_spec(ps: Seq<Seq<char>>) -> (Seq<Seq<char>>, Map<Seq<char>, OptValueV>)
    decreases ps.len(),
{
    if ps.len() == 0 {
        (seq![], Map::empty())
    } else {
        let (a, m) = split_params_spec(ps.drop_last());
        match classify_param(ps.last()) {
            ParamV::Flag(k) => (a, m.insert(k, OptValueV::Flag(true))),
            ParamV::Assign(k, v) => (a, m.insert(k, OptValueV::Str(v))),
            ParamV::Arg(x) => (a.push(x), m),
        }
    }
}

/// Splits the parameters of the command line into positional arguments and
/// option overrides.
pub fn split_params(params: &[String]) -> (r: (Vec<String>, OptOverrides))
    ensures
        (texts(r.0@), r.1@) == split_params_spec(texts(params@)),
{
    let mut args: Vec<String> = Vec::new();
    let mut overrides: OptOverrides = StrMap::new();
    proof {
        assert(texts(params@).take(0) =~= Seq::<Seq<char>>::empty());
        assert(texts(args@) =~= Seq::<Seq<char>>::empty());
    }
    for i in 0..params.len()
        invariant
            (texts(args@), overrides@) == split_params_spec(texts(params@).take(i as int)),
    {
        let ghost ps = texts(params@).take(i + 1);
        proof {
            assert(ps.drop_last() =~= texts(params@).take(i as int));
            assert(ps.last() == params@[i as int]@);
        }
        let ghost prev = args@;
        match classify(params[i].as_str()) {
            Param::Flag(k) => {
                overrides.insert(k, OptValue::Bool(true));
            },
            Param::Assign(k, v) => {
                overrides.insert(k, OptValue::String(v));
            },
            Param::Arg(a) => {
                args.push(a);
                proof {
                    assert(texts(args@) =~= texts(prev).push(a@));
                }
            },
        }
    }
    proof {
        assert(texts(params@).take(params@.len() as int) =~= texts(params@));
    }
    (args, overrides)
}

/// Whether any of the runnables has a command to run.
pub fn any_commands(runnables: &[Runnable]) -> (r: bool)
    ensures
        r == exists|i: int| 0 <= i < runnables@.len() && runnables@[i].commands@.len() > 0,
{
    for i in 0..runnables.len()
        invariant
            forall|j: int| 0 <= j < i ==> runnables@[j].commands@.len() == 0,
    {
        if runnables[i].commands.len() > 0 {
            return true;
        }
    }
    false
}

/// Whether an option's default value is `{name}` for a flag `name` of the
/// same task: such an option only carries that flag and is not listed.
pub open spec fn refers_to_flag(o: OptV, all: Seq<OptV>) -> bool {
    match o.value {
        OptValueV::Str(s) => match braced_name(s) {
            Some(r) => has_flag(all, r),
            None => false,
        },
        OptValueV::Flag(_) => false,
    }
}

/// Whether options of this name are left out of the list.
pub open spec fn hidden_name(name: Seq<char>, all: Seq<OptV>) -> bool {
    exists|j: int| 0 <= j < all.len() && all[j].name == name && refers_to_flag(all[j], all)
}

/// How an option is shown: `--name` for a flag, `name=value` for a string.
pub open spec fn opt_display(o: OptV) -> Seq<char> {
    match o.value {
        OptValueV::Flag(_) => "--"@ + o.name,
        OptValueV::Str(v) => o.name + "="@ + v,
    }
}

/// The shown options among `os`, in order.
pub open spec fn shown_opts(os: Seq<OptV>, all: Seq<OptV>) -> Seq<Seq<char>>
    decreases os.len(),
{
    if os.len() == 0 {
        seq![]
    } else {
        let rest = shown_opts(os.drop_last(), all);
        if hidden_name(os.last().name, all) {
            rest
        } else {
            rest.push(opt_display(os.last()))
        }
    }
}

/// Texts joined with single spaces.
pub open spec fn join_spaced(s: Seq<Seq<char>>) -> Seq<char>
    decreases s.len(),
{
    if s.len() == 0 {
        seq![]
    } else if s.len() == 1 {
        s[0]
    } else {
        join_spaced(s.drop_last()) + " "@ + s.last()
    }
}

/// How the arguments of a task are shown: `<name>` each.
pub open spec fn arg_displays(args: Seq<Seq<char>>) -> Seq<Seq<char>> {
    args.map_values(|a: Seq<char>| seq!['<'] + a + seq!['>'])
}

fn push_joined(out: &mut String, part: &String, first: bool)
    ensures
        final(out)@ == (if first {
            old(out)@ + part@
        } else {
            old(out)@ + " "@ + part@
        }),
{
    if !first {
        push_char(out, ' ');
    }
    push_str(out, part.as_str());
    proof {
        if !first {
            reveal_strlit(" ");
            assert(old(out)@.push(' ') + part@ =~= old(out)@ + " "@ + part@);
        }
    }
}

proof fn lemma_join_push(s: Seq<Seq<char>>, x: Seq<char>)
    ensures
        join_spaced(s.push(x)) == (if s.len() == 0 {
            x
        } else {
            join_spaced(s) + " "@ + x
        }),
{
    assert(s.push(x).drop_last() =~= s);
}

fn opt_hidden(opts: &Vec<Opt>, name: &String) -> (r: bool)
    ensures
        r == hidden_name(name@, opt_views(opts@)),
{
    for j in 0..opts.len()
        invariant
            forall|k: int|
                0 <= k < j ==> !(opt_views(opts@)[k].name == name@ && refers_to_flag(
                    opt_views(opts@)[k],
                    opt_views(opts@),
                )),
    {
        if opts[j].name == *name {
            if let OptValue::String(s) = &opts[j].value {
                if let Some(inner) = braced_inner(s) {
                    if find_flag(opts, &inner) {
                        proof {
                            assert(refers_to_flag(opt_views(opts@)[j as int], opt_views(opts@)));
                        }
                        return true;
                    }
                }
            }
        }
    }
    false
}

/// The three parts of a task's line in the task list: its name, its
/// arguments as `<name>` joined by spaces, and its options joined by spaces,
/// flags as `--name` and strings as `name=value`, leaving out every option
/// whose name is that of an option standing for a flag (`{flag}`).
pub fn task_line(task: &Task) -> (r: (String, String, String))
    ensures
        r.0@ == task.name@,
        r.1@ == join_spaced(arg_displays(texts(task.args@))),
        r.2@ == join_spaced(shown_opts(opt_views(task.opts@), opt_views(task.opts@))),
{
    let name = copy_string(&task.name);
    let ghost ads = arg_displays(texts(task.args@));
    let mut args = String::new();
    for i in 0..task.args.len()
        invariant
            ads == arg_displays(texts(task.args@)),
            args@ == join_spaced(ads.take(i as int)),
    {
        let mut part = String::new();
        push_char(&mut part, '<');
        push_str(&mut part, task.args[i].as_str());
        push_char(&mut part, '>');
        let ghost before = args@;
        push_joined(&mut args, &part, i == 0);
        proof {
            assert(part@ =~= ads[i as int]);
            assert(ads.take(i + 1) =~= ads.take(i as int).push(ads[i as int]));
            lemma_join_push(ads.take(i as int), ads[i as int]);
            if i == 0 {
                assert(before =~= Seq::<char>::empty());
                assert(args@ =~= part@);
            }
        }
    }
    proof {
        assert(ads.take(task.args@.len() as int) =~= ads);
    }
    let ghost all = opt_views(task.opts@);
    let mut opts = String::new();
    let mut count: usize = 0;
    for i in 0..task.opts.len()
        invariant
            all == opt_views(task.opts@),
            opts@ == join_spaced(shown_opts(all.take(i as int), all)),
            count == shown_opts(all.take(i as int), all).len(),
            count <= i,
    {
        let o = &task.opts[i];
        let ghost os = all.take(i + 1);
        proof {
            assert(os.drop_last() =~= all.take(i as int));
            assert(os.last() == o@);
        }
        if !opt_hidden(&task.opts, &o.name) {
            let mut part = String::new();
            match &o.value {
                OptValue::Bool(_) => {
                    push_str(&mut part, "--");
                    push_str(&mut part, o.name.as_str());
                },
                OptValue::String(v) => {
                    push_str(&mut part, o.name.as_str());
                    push_char(&mut part, '=');
                    push_str(&mut part, v.as_str());
                    proof {
                        reveal_strlit("=");
                        assert(part@ =~= o.name@ + "="@ + v@);
                    }
                },
            }
            let ghost before = opts@;
            push_joined(&mut opts, &part, count == 0);
            proof {
                let prev = shown_opts(all.take(i as int), all);
                assert(part@ == opt_display(o@));
                lemma_join_push(prev, part@);
                if count == 0 {
                    assert(before =~= Seq::<char>::empty());
                    assert(opts@ =~= part@);
                }
            }
            count = count + 1;
        }
    }
    proof {
        assert(all.take(task.opts@.len() as int) =~= all);
    }
    (name, args, opts)
}

/// Loads the configuration from the text of the configuration file, `None`
/// when there is no file: then the error is `no 'doer.kdl' found`; else the
/// text is read as `Config::from_kdl_str` reads it.
pub fn load_config(content: Option<&str>) -> (r: Result<Config, DoerError>)
    ensures
        content is None ==> r is Err && r->Err_0@ == ErrorV::NoConfigFile,
        content matches Some(c) ==> match kdl_read(c@) {
            None => r is Err && r->Err_0@ == ErrorV::KdlSyntax,
            Some(doc) => config_result(r) == from_document_spec(doc),
        },
        r matches Ok(cfg) ==> config_well_formed(cfg@),
{
    match content {
        None => Err(DoerError::NoConfigFile),
        Some(c) => Config::from_kdl_str(c),
    }
}

} // verus!
