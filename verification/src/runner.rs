//! The decisions of the runner: the command line that runs one command of a
//! runnable, where its stdio goes, how its nice value is applied, the order in
//! which commands run in the foreground and the background, and when a
//! finished command stops the run.
use vstd::prelude::*;

use crate::error::{DoerError, ErrorV};
use crate::spec::{env_views, EnvVar, EnvVarV, Runnable, SpecIo};
use crate::text::{copy_opt_string, copy_string, opt_text, owned, push_signed_decimal, push_str, signed_decimal, texts};

verus! {

/// Whether the nice value is applied inside the shell (`nice -n`): when the
/// task runs as another user through `sudo`. Otherwise the runner sets the
/// priority of the child process directly.
pub fn use_shell_nice(runnable: &Runnable) -> (r: bool)
    ensures
        r == runnable.user is Some,
{
    runnable.user.is_some()
}

/// The nice value that the runner sets on the child process itself.
pub fn process_nice(runnable: &Runnable) -> (r: Option<i32>)
    ensures
        r == (if runnable.user is Some {
            None
        } else {
            runnable.nice
        }),
{
    if use_shell_nice(runnable) {
        None
    } else {
        runnable.nice
    }
}

/// A process to start: program, arguments, extra environment, working directory.
#[derive(Debug)]
pub struct CommandLine {
    pub program: String,
    pub args: Vec<String>,
    pub env: Vec<EnvVar>,
    pub cwd: Option<String>,
}

pub ghost struct CommandLineV {
    pub program: Seq<char>,
    pub args: Seq<Seq<char>>,
    pub env: Seq<EnvVarV>,
    pub cwd: Option<Seq<char>>,
}

impl View for CommandLine {
    type V = CommandLineV;

    open spec fn view(&self) -> CommandLineV {
        CommandLineV {
            program: self.program@,
            args: texts(self.args@),
            env: env_views(self.env@),
            cwd: opt_text(self.cwd),
        }
    }
}

/// The shell text of a command: prefixed with `nice -n <value>` when the nice
/// value is applied inside the shell.
pub open spec fn shell_text(user: Option<Seq<char>>, nice: Option<i32>, command: Seq<char>) -> Seq<char> {
    match (nice, user) {
        (Some(n), Some(_)) => "nice -n "@ + signed_decimal(n as int) + " "@ + command,
        _ => command,
    }
}

/// `NAME=value` arguments for `sudo`, which resets the environment.
pub open spec fn env_assignments(env: Seq<EnvVarV>) -> Seq<Seq<char>> {
    env.map_values(|e: EnvVarV| e.name + "="@ + e.value)
}

/// The command line of one command of a runnable: `sh -cu <text>` with the
/// environment set on the process; or, with a user, `sudo -u <user>
/// NAME=value... sh -cu <text>`. The working directory is the runnable's.
pub open spec fn command_line_spec(
    user: Option<Seq<char>>,
    nice: Option<i32>,
    env: Seq<EnvVarV>,
    cwd: Option<Seq<char>>,
    command: Seq<char>,
) -> CommandLineV {
    let text = shell_text(user, nice, command);
    match user {
        Some(u) => CommandLineV {
            program: "sudo"@,
            args: seq!["-u"@, u] + env_assignments(env) + seq!["sh"@, "-cu"@, text],
            env: seq![],
            cwd,
        },
        None => CommandLineV { program: "sh"@, args: seq!["-cu"@, text], env, cwd },
    }
}

fn text_of(s: &str) -> (r: String)
    ensures
        r@ == s@,
{
    owned(s)
}

/// The process that runs `command` for the runnable.
pub fn build_command(runnable: &Runnable, command: &str) -> (r: CommandLine)
    ensures
        r@ == command_line_spec(
            opt_text(runnable.user),
            runnable.nice,
            env_views(runnable.env_vars@),
            opt_text(runnable.cwd),
            command@,
        ),
{
    let text = match (runnable.nice, &runnable.user) {
        (Some(n), Some(_)) => {
            let mut t = String::new();
            push_str(&mut t, "nice -n ");
            push_signed_decimal(&mut t, n as i128);
            push_str(&mut t, " ");
            push_str(&mut t, command);
            proof {
                assert(t@ =~= "nice -n "@ + signed_decimal(n as int) + " "@ + command@);
            }
            t
        },
        _ => text_of(command),
    };
    match &runnable.user {
        Some(user) => {
            let mut args: Vec<String> = Vec::new();
            args.push(text_of("-u"));
            args.push(copy_string(user));
            let ghost head = texts(args@);
            let ghost env = env_views(runnable.env_vars@);
            proof {
                assert(head =~= seq!["-u"@, user@]);
                assert(texts(args@) =~= head + env_assignments(env).take(0));
            }
            for i in 0..runnable.env_vars.len()
                invariant
                    env == env_views(runnable.env_vars@),
                    head == seq!["-u"@, user@],
                    texts(args@) == head + env_assignments(env).take(i as int),
            {
                let ev = &runnable.env_vars[i];
                let mut a = copy_string(&ev.name);
                push_str(&mut a, "=");
                push_str(&mut a, ev.value.as_str());
                let ghost before = texts(args@);
                args.push(a);
                proof {
                    assert(env_assignments(env)[i as int] == ev.name@ + "="@ + ev.value@);
                    assert(env_assignments(env).take(i + 1) =~= env_assignments(env).take(i as int).push(
                        env_assignments(env)[i as int],
                    ));
                    assert(texts(args@) =~= before.push(a@));
                    assert(texts(args@) =~= head + env_assignments(env).take(i + 1));
                }
            }
            proof {
                assert(env_assignments(env).take(env.len() as int) =~= env_assignments(env));
            }
            let ghost mid = texts(args@);
            args.push(text_of("sh"));
            args.push(text_of("-cu"));
            args.push(text);
            proof {
                assert(texts(args@) =~= mid + seq!["sh"@, "-cu"@, text@]);
            }
            let r = CommandLine {
                program: text_of("sudo"),
                args,
                env: Vec::new(),
                cwd: copy_opt_string(&runnable.cwd),
            };
            proof {
                assert(env_views(r.env@) =~= Seq::<EnvVarV>::empty());
            }
            r
        },
        None => {
            let mut args: Vec<String> = Vec::new();
            args.push(text_of("-cu"));
            args.push(text);
            proof {
                assert(texts(args@) =~= seq!["-cu"@, text@]);
            }
            let mut env: Vec<EnvVar> = Vec::new();
            for i in 0..runnable.env_vars.len()
                invariant
                    env_views(env@) == env_views(runnable.env_vars@).take(i as int),
            {
                let ghost before = env@;
                let e = runnable.env_vars[i].copy();
                env.push(e);
                proof {
                    assert(env@ == before.push(e));
                    assert(env_views(env@) =~= env_views(before).push(e@));
                    assert(env_views(runnable.env_vars@).take(i + 1) =~= env_views(runnable.env_vars@).take(i as int).push(
                        runnable.env_vars@[i as int]@,
                    ));
                }
            }
            proof {
                assert(env_views(runnable.env_vars@).take(runnable.env_vars@.len() as int) =~= env_views(runnable.env_vars@));
            }
            CommandLine { program: text_of("sh"), args, env, cwd: copy_opt_string(&runnable.cwd) }
        },
    }
}

/// Where the stdio of a command goes: a command started in the background
/// inherits all three streams; a foreground command uses the runnable's settings.
pub fn stdio_for(runnable: &Runnable, is_background: bool) -> (r: (SpecIo, SpecIo, SpecIo))
    ensures
        r == (if is_background {
            (SpecIo::Inherit, SpecIo::Inherit, SpecIo::Inherit)
        } else {
            (runnable.stdin, runnable.stdout, runnable.stderr)
        }),
{
    if is_background {
        (SpecIo::Inherit, SpecIo::Inherit, SpecIo::Inherit)
    } else {
        (runnable.stdin, runnable.stdout, runnable.stderr)
    }
}

/// The two parts of the line printed before a command runs:
/// `[<name>]` and `<prompt><bg> <command>`, where the prompt is `#` for a
/// task run as another user and `$` otherwise, and `<bg>` is ` &` for a
/// background command.
pub open spec fn running_line_spec(name: Seq<char>, user: bool, command: Seq<char>, is_background: bool) -> (Seq<char>, Seq<char>) {
    (
        seq!['['] + name + seq![']'],
        seq![if user { '#' } else { '$' }] + (if is_background { " &"@ } else { seq![] }) + seq![' '] + command,
    )
}

/// The line printed before a command runs, in two parts.
pub fn running_line(runnable: &Runnable, command: &str, is_background: bool) -> (r: (String, String))
    ensures
        (r.0@, r.1@) == running_line_spec(runnable.name@, runnable.user is Some, command@, is_background),
{
    let mut name_part = String::new();
    crate::text::push_char(&mut name_part, '[');
    push_str(&mut name_part, runnable.name.as_str());
    crate::text::push_char(&mut name_part, ']');
    let mut cmd_part = String::new();
    let prompt = if runnable.user.is_some() {
        '#'
    } else {
        '$'
    };
    crate::text::push_char(&mut cmd_part, prompt);
    if is_background {
        push_str(&mut cmd_part, " &");
    }
    crate::text::push_char(&mut cmd_part, ' ');
    push_str(&mut cmd_part, command);
    proof {
        assert(name_part@ =~= seq!['['] + runnable.name@ + seq![']']);
        assert(cmd_part@ =~= seq![prompt] + (if is_background { " &"@ } else { seq![] }) + seq![' '] + command@);
    }
    (name_part, cmd_part)
}

/// How a finished command is judged: success goes on; a failure stops the
/// run with `task '<name>' exited with status <code>` (`unknown` without a code).
pub fn check_exit(task_name: &str, success: bool, code: Option<i32>) -> (r: Result<(), DoerError>)
    ensures
        match r {
            Ok(()) => success,
            Err(e) => !success && e@ == (ErrorV::ExitFailure {
                task: task_name@,
                code: match code {
                    Some(c) => Some(c as int),
                    None => None,
                },
            }),
        },
{
    if success {
        Ok(())
    } else {
        Err(DoerError::ExitFailure { task: owned(task_name), code })
    }
}

/// One command to start: which runnable, which of its commands, and
/// whether it is left running in the background.
#[derive(Debug)]
pub struct RunStep {
    pub runnable: usize,
    pub command: usize,
    pub background: bool,
}

pub ghost struct StepV {
    pub runnable: nat,
    pub command: nat,
    pub background: bool,
}

impl View for RunStep {
    type V = StepV;

    open spec fn view(&self) -> StepV {
        StepV { runnable: self.runnable as nat, command: self.command as nat, background: self.background }
    }
}

pub open spec fn step_views(v: Seq<RunStep>) -> Seq<StepV> {
    v.map_values(|s: RunStep| s@)
}

/// The steps of one runnable: its commands in order, all waited for, except
/// that the last command of a background runnable is left running.
pub open spec fn runnable_steps(i: nat, n: nat, background: bool) -> Seq<StepV> {
    Seq::new(n, |j: int| StepV { runnable: i, command: j as nat, background: background && j == n - 1 })
}

/// The steps of a whole run: the runnables in order, those without commands
/// skipped; after the last step the runner waits for the background commands.
pub open spec fn run_plan_spec(rs: Seq<(nat, bool)>) -> Seq<StepV>
    decreases rs.len(),
{
    if rs.len() == 0 {
        seq![]
    } else {
        run_plan_spec(rs.drop_last()) + runnable_steps((rs.len() - 1) as nat, rs.last().0, rs.last().1)
    }
}

/// The number of commands and the background flag of each runnable.
pub open spec fn shapes(v: Seq<Runnable>) -> Seq<(nat, bool)> {
    v.map_values(|r: Runnable| (r.commands@.len(), r.background))
}

/// The steps that run all the runnables.
pub fn run_plan(runnables: &[Runnable]) -> (r: Vec<RunStep>)
    ensures
        step_views(r@) == run_plan_spec(shapes(runnables@)),
{
    let mut steps: Vec<RunStep> = Vec::new();
    proof {
        assert(shapes(runnables@).take(0) =~= Seq::<(nat, bool)>::empty());
        assert(step_views(steps@) =~= Seq::<StepV>::empty());
    }
    for i in 0..runnables.len()
        invariant
            step_views(steps@) == run_plan_spec(shapes(runnables@).take(i as int)),
    {
        let n = runnables[i].commands.len();
        let bg = runnables[i].background;
        let ghost before = step_views(steps@);
        for j in 0..n
            invariant
                i < runnables@.len(),
                n == runnables@[i as int].commands@.len(),
                bg == runnables@[i as int].background,
                step_views(steps@) == before + runnable_steps(i as nat, n as nat, bg).take(j as int),
        {
            let ghost prev = steps@;
            let st = RunStep { runnable: i, command: j, background: bg && j + 1 == n };
            steps.push(st);
            proof {
                assert(st@ == runnable_steps(i as nat, n as nat, bg)[j as int]);
                assert(step_views(steps@) =~= step_views(prev).push(st@));
                assert(runnable_steps(i as nat, n as nat, bg).take(j + 1) =~= runnable_steps(i as nat, n as nat, bg).take(j as int).push(
                    runnable_steps(i as nat, n as nat, bg)[j as int],
                ));
                assert(step_views(steps@) =~= before + runnable_steps(i as nat, n as nat, bg).take(j + 1));
            }
        }
        proof {
            assert(runnable_steps(i as nat, n as nat, bg).take(n as int) =~= runnable_steps(i as nat, n as nat, bg));
            assert(shapes(runnables@).take(i + 1).drop_last() =~= shapes(runnables@).take(i as int));
            assert(shapes(runnables@).take(i + 1).last() == (n as nat, bg));
        }
    }
    proof {
        assert(shapes(runnables@).take(runnables@.len() as int) =~= shapes(runnables@));
    }
    steps
}

/// The steps that run one runnable in the background: all its commands in
/// order, the last one left running; a runnable without commands is refused
/// with `task '<name>' has no commands`.
pub fn background_plan(runnable: &Runnable) -> (r: Result<Vec<RunStep>, DoerError>)
    ensures
        match r {
            Ok(v) => runnable.commands@.len() > 0 && step_views(v@) == runnable_steps(0, runnable.commands@.len(), true),
            Err(e) => runnable.commands@.len() == 0 && e@ == (ErrorV::NoCommands { task: runnable.name@ }),
        },
{
    let n = runnable.commands.len();
    if n == 0 {
        return Err(DoerError::NoCommands { task: copy_string(&runnable.name) });
    }
    let mut steps: Vec<RunStep> = Vec::new();
    for j in 0..n
        invariant
            n == runnable.commands@.len(),
            step_views(steps@) == runnable_steps(0, n as nat, true).take(j as int),
    {
        let ghost prev = steps@;
        let st = RunStep { runnable: 0, command: j, background: j + 1 == n };
        steps.push(st);
        proof {
            assert(st@ == runnable_steps(0, n as nat, true)[j as int]);
            assert(step_views(steps@) =~= step_views(prev).push(st@));
            assert(step_views(steps@) =~= runnable_steps(0, n as nat, true).take(j + 1));
        }
    }
    proof {
        assert(runnable_steps(0, n as nat, true).take(n as int) =~= runnable_steps(0, n as nat, true));
    }
    Ok(steps)
}

} // verus!
