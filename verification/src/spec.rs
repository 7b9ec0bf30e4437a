//! What a task becomes once resolved: a `Runnable` with its commands,
//! working directory, environment, user, stdio and priority.
use vstd::prelude::*;

use crate::text::{copy_string, opt_text, push_str, same_text, texts};

verus! {

/// The lowest nice value (highest priority).
pub const NICE_MIN: i32 = -20;

/// The highest nice value (lowest priority).
pub const NICE_MAX: i32 = 19;

/// An environment variable. Two variables are equal when their names are.
#[derive(Debug)]
pub struct EnvVar {
    pub name: String,
    pub value: String,
}

pub ghost struct EnvVarV {
    pub name: Seq<char>,
    pub value: Seq<char>,
}

impl View for EnvVar {
    type V = EnvVarV;

    open spec fn view(&self) -> EnvVarV {
        EnvVarV { name: self.name@, value: self.value@ }
    }
}

impl PartialEq for EnvVar {
    fn eq(&self, other: &Self) -> (r: bool) {
        self.name == other.name
    }
}

impl vstd::std_specs::cmp::PartialEqSpecImpl for EnvVar {
    open spec fn obeys_eq_spec() -> bool {
        true
    }

    open spec fn eq_spec(&self, other: &Self) -> bool {
        self.name@ == other.name@
    }
}

impl EnvVar {
    /// A copy of the variable.
    pub fn copy(&self) -> (r: EnvVar)
        ensures
            r@ == self@,
    {
        EnvVar { name: copy_string(&self.name), value: copy_string(&self.value) }
    }
}

/// The views of a list of environment variables.
pub open spec fn env_views(v: Seq<EnvVar>) -> Seq<EnvVarV> {
    v.map_values(|e: EnvVar| e@)
}

/// Environment variables kept by name, the first of each name winning.
pub open spec fn dedup_names(vs: Seq<EnvVarV>) -> Seq<EnvVarV>
    decreases vs.len(),
{
    if vs.len() == 0 {
        seq![]
    } else {
        let d = dedup_names(vs.drop_last());
        if d.map_values(|e: EnvVarV| e.name).contains(vs.last().name) {
            d
        } else {
            d.push(vs.last())
        }
    }
}

/// The names of a list of environment variables, in order.
pub open spec fn env_names(vs: Seq<EnvVarV>) -> Seq<Seq<char>> {
    vs.map_values(|e: EnvVarV| e.name)
}

/// Keeping the first of each name leaves no name twice.
pub proof fn lemma_dedup_names_distinct(vs: Seq<EnvVarV>)
    ensures
        env_names(dedup_names(vs)).no_duplicates(),
    decreases vs.len(),
{
    if vs.len() > 0 {
        lemma_dedup_names_distinct(vs.drop_last());
        let d = dedup_names(vs.drop_last());
        if !env_names(d).contains(vs.last().name) {
            assert(env_names(d.push(vs.last())) =~= env_names(d).push(vs.last().name));
            assert forall|i: int, j: int|
                0 <= i < env_names(d.push(vs.last())).len() && 0 <= j < env_names(d.push(vs.last())).len()
                    && i != j implies env_names(d.push(vs.last()))[i] != env_names(d.push(vs.last()))[j] by {
                if i < d.len() && j < d.len() {
                    assert(env_names(d)[i] == env_names(d.push(vs.last()))[i]);
                    assert(env_names(d)[j] == env_names(d.push(vs.last()))[j]);
                } else if i == d.len() {
                    assert(env_names(d)[j] == env_names(d.push(vs.last()))[j]);
                } else {
                    assert(env_names(d)[i] == env_names(d.push(vs.last()))[i]);
                }
            }
        }
    }
}

pub(crate) fn env_contains(v: &Vec<EnvVar>, name: &String) -> (r: bool)
    ensures
        r == env_views(v@).map_values(|e: EnvVarV| e.name).contains(name@),
{
    for i in 0..v.len()
        invariant
            forall|j: int| 0 <= j < i ==> v@[j].name@ != name@,
    {
        if v[i].name == *name {
            proof {
                assert(env_views(v@).map_values(|e: EnvVarV| e.name)[i as int] == name@);
            }
            return true;
        }
    }
    proof {
        if env_views(v@).map_values(|e: EnvVarV| e.name).contains(name@) {
            let names = env_views(v@).map_values(|e: EnvVarV| e.name);
            let j = choose|j: int| 0 <= j < names.len() && #[trigger] names[j] == name@;
            assert(v@[j].name@ == name@);
        }
    }
    false
}

/// The variables with the first of each name kept, in order.
pub(crate) fn first_of_each_name(v: Vec<EnvVar>) -> (r: Vec<EnvVar>)
    ensures
        env_views(r@) == dedup_names(env_views(v@)),
        env_names(env_views(r@)).no_duplicates(),
{
    let ghost all = env_views(v@);
    let mut out: Vec<EnvVar> = Vec::new();
    proof {
        assert(all.take(0) =~= Seq::<EnvVarV>::empty());
        assert(env_views(out@) =~= Seq::<EnvVarV>::empty());
    }
    for i in 0..v.len()
        invariant
            all == env_views(v@),
            env_views(out@) == dedup_names(all.take(i as int)),
    {
        proof {
            assert(all.take(i + 1).drop_last() =~= all.take(i as int));
            assert(all.take(i + 1).last() == all[i as int]);
        }
        if !env_contains(&out, &v[i].name) {
            let e = v[i].copy();
            let ghost before = out@;
            out.push(e);
            proof {
                assert(env_views(out@) =~= env_views(before).push(all[i as int]));
            }
        }
    }
    proof {
        assert(all.take(all.len() as int) =~= all);
        lemma_dedup_names_distinct(all);
    }
    out
}

/// Where a standard stream of a command goes.
#[derive(Clone, Copy, PartialEq, Eq, Structural, Debug)]
pub enum SpecIo {
    /// The stream of the runner itself.
    Inherit,
    /// Nowhere.
    Null,
}

impl Default for SpecIo {
    fn default() -> (r: SpecIo)
        ensures
            r == SpecIo::Inherit,
    {
        SpecIo::Inherit
    }
}

/// The stdio setting named by a text: `inherit` and `default` inherit,
/// `null` and `void` discard; nothing else is a setting.
pub open spec fn stdio_of(s: Seq<char>) -> Option<SpecIo> {
    if s == "inherit"@ || s == "default"@ {
        Some(SpecIo::Inherit)
    } else if s == "null"@ || s == "void"@ {
        Some(SpecIo::Null)
    } else {
        None
    }
}

impl SpecIo {
    /// Reads a stdio setting; any other text is refused with
    /// `invalid stdio value: <text>`.
    pub fn try_from(value: &str) -> (r: Result<SpecIo, String>)
        ensures
            match r {
                Ok(io) => stdio_of(value@) == Some(io),
                Err(msg) => stdio_of(value@) is None && msg@ == "invalid stdio value: "@ + value@,
            },
    {
        if same_text(value, "inherit") || same_text(value, "default") {
            Ok(SpecIo::Inherit)
        } else if same_text(value, "null") || same_text(value, "void") {
            Ok(SpecIo::Null)
        } else {
            let mut msg = String::new();
            push_str(&mut msg, "invalid stdio value: ");
            push_str(&mut msg, value);
            Err(msg)
        }
    }
}

/// A resolved task, ready for the runner.
#[derive(Debug)]
pub struct Runnable {
    pub name: String,
    pub commands: Vec<String>,
    pub cwd: Option<String>,
    pub env_vars: Vec<EnvVar>,
    pub user: Option<String>,
    pub stdin: SpecIo,
    pub stdout: SpecIo,
    pub stderr: SpecIo,
    pub nice: Option<i32>,
    pub background: bool,
}

pub ghost struct RunnableV {
    pub name: Seq<char>,
    pub commands: Seq<Seq<char>>,
    pub cwd: Option<Seq<char>>,
    pub env_vars: Seq<EnvVarV>,
    pub user: Option<Seq<char>>,
    pub stdin: SpecIo,
    pub stdout: SpecIo,
    pub stderr: SpecIo,
    pub nice: Option<i32>,
    pub background: bool,
}

impl View for Runnable {
    type V = RunnableV;

    open spec fn view(&self) -> RunnableV {
        RunnableV {
            name: self.name@,
            commands: texts(self.commands@),
            cwd: opt_text(self.cwd),
            env_vars: env_views(self.env_vars@),
            user: opt_text(self.user),
            stdin: self.stdin,
            stdout: self.stdout,
            stderr: self.stderr,
            nice: self.nice,
            background: self.background,
        }
    }
}

/// Builds a `Runnable`: name and commands must be given; the working
/// directory, user and nice value default to none, the environment to empty,
/// stdio to inherit and background to false.
pub struct RunnableBuilder {
    pub name: Option<String>,
    pub commands: Option<Vec<String>>,
    pub cwd: Option<String>,
    pub env_vars: Vec<EnvVar>,
    pub user: Option<String>,
    pub stdin: SpecIo,
    pub stdout: SpecIo,
    pub stderr: SpecIo,
    pub nice: Option<i32>,
    pub background: bool,
}

impl Runnable {
    /// A builder with every optional field at its default.
    pub fn builder() -> (r: RunnableBuilder)
        ensures
            r.name is None,
            r.commands is None,
            r.cwd is None,
            r.env_vars@.len() == 0,
            r.user is None,
            r.stdin == SpecIo::Inherit,
            r.stdout == SpecIo::Inherit,
            r.stderr == SpecIo::Inherit,
            r.nice is None,
            !r.background,
    {
        RunnableBuilder {
            name: None,
            commands: None,
            cwd: None,
            env_vars: Vec::new(),
            user: None,
            stdin: SpecIo::Inherit,
            stdout: SpecIo::Inherit,
            stderr: SpecIo::Inherit,
            nice: None,
            background: false,
        }
    }
}

impl RunnableBuilder {
    pub fn name(self, name: String) -> (r: RunnableBuilder)
        ensures
            r == (RunnableBuilder { name: Some(name), ..self }),
    {
        RunnableBuilder { name: Some(name), ..self }
    }

    pub fn commands(self, commands: Vec<String>) -> (r: RunnableBuilder)
        ensures
            r == (RunnableBuilder { commands: Some(commands), ..self }),
    {
        RunnableBuilder { commands: Some(commands), ..self }
    }

    pub fn cwd(self, cwd: Option<String>) -> (r: RunnableBuilder)
        ensures
            r == (RunnableBuilder { cwd, ..self }),
    {
        RunnableBuilder { cwd, ..self }
    }

    /// Sets the environment, keeping the first variable of each name, as a
    /// set of variables compared by name does.
    pub fn env_vars(self, env_vars: Vec<EnvVar>) -> (r: RunnableBuilder)
        ensures
            env_views(r.env_vars@) == dedup_names(env_views(env_vars@)),
            env_names(env_views(r.env_vars@)).no_duplicates(),
            r.name == self.name,
            r.commands == self.commands,
            r.cwd == self.cwd,
            r.user == self.user,
            r.stdin == self.stdin,
            r.stdout == self.stdout,
            r.stderr == self.stderr,
            r.nice == self.nice,
            r.background == self.background,
    {
        RunnableBuilder { env_vars: first_of_each_name(env_vars), ..self }
    }

    pub fn user(self, user: Option<String>) -> (r: RunnableBuilder)
        ensures
            r == (RunnableBuilder { user, ..self }),
    {
        RunnableBuilder { user, ..self }
    }

    pub fn stdin(self, stdin: SpecIo) -> (r: RunnableBuilder)
        ensures
            r == (RunnableBuilder { stdin, ..self }),
    {
        RunnableBuilder { stdin, ..self }
    }

    pub fn stdout(self, stdout: SpecIo) -> (r: RunnableBuilder)
        ensures
            r == (RunnableBuilder { stdout, ..self }),
    {
        RunnableBuilder { stdout, ..self }
    }

    pub fn stderr(self, stderr: SpecIo) -> (r: RunnableBuilder)
        ensures
            r == (RunnableBuilder { stderr, ..self }),
    {
        RunnableBuilder { stderr, ..self }
    }

    pub fn nice(self, nice: Option<i32>) -> (r: RunnableBuilder)
        ensures
            r == (RunnableBuilder { nice, ..self }),
    {
        RunnableBuilder { nice, ..self }
    }

    pub fn background(self, background: bool) -> (r: RunnableBuilder)
        ensures
            r == (RunnableBuilder { background, ..self }),
    {
        RunnableBuilder { background, ..self }
    }

    /// The runnable with the fields set so far.
    pub fn build(self) -> (r: Runnable)
        requires
            self.name is Some,
            self.commands is Some,
        ensures
            r == (Runnable {
                name: self.name->0,
                commands: self.commands->0,
                cwd: self.cwd,
                env_vars: self.env_vars,
                user: self.user,
                stdin: self.stdin,
                stdout: self.stdout,
                stderr: self.stderr,
                nice: self.nice,
                background: self.background,
            }),
    {
        Runnable {
            name: self.name.unwrap(),
            commands: self.commands.unwrap(),
            cwd: self.cwd,
            env_vars: self.env_vars,
            user: self.user,
            stdin: self.stdin,
            stdout: self.stdout,
            stderr: self.stderr,
            nice: self.nice,
            background: self.background,
        }
    }
}

} // verus!
