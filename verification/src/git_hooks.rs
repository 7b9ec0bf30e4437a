//! Git hooks: which hook scripts the configuration asks for, which task each
//! one runs, and what a script says. Writing the scripts and pointing git at
//! them is left to the caller; an existing script is never overwritten.
use vstd::prelude::*;

use crate::config::{Config, ConfigV, TaskV};
use crate::text::{opt_text, owned, push_str, texts};

verus! {

/// Whether some task has the given name.
pub open spec fn has_task(tasks: Seq<TaskV>, name: Seq<char>) -> bool {
    exists|i: int| 0 <= i < tasks.len() && tasks[i].name == name
}

/// The first candidate that names a task.
pub open spec fn preferred_spec(tasks: Seq<TaskV>, candidates: Seq<Seq<char>>) -> Option<Seq<char>>
    decreases candidates.len(),
{
    if candidates.len() == 0 {
        None
    } else if has_task(tasks, candidates[0]) {
        Some(candidates[0])
    } else {
        preferred_spec(tasks, candidates.drop_first())
    }
}

fn task_exists(config: &Config, name: &str) -> (r: bool)
    ensures
        r == has_task(config@.tasks, name@),
{
    let key = owned(name);
    for i in 0..config.tasks.len()
        invariant
            key@ == name@,
            forall|j: int| 0 <= j < i ==> config@.tasks[j].name != name@,
    {
        if config.tasks[i].name == key {
            proof {
                assert(config@.tasks[i as int].name == name@);
            }
            return true;
        }
    }
    false
}

/// The first of the candidate names that is the name of a task.
pub fn find_preferred_task(config: &Config, candidates: &[&str]) -> (r: Option<String>)
    ensures
        opt_text(r) == preferred_spec(config@.tasks, candidates@.map_values(|c: &str| c@)),
{
    let ghost cs = candidates@.map_values(|c: &str| c@);
    proof {
        assert(cs.skip(0) =~= cs);
    }
    for i in 0..candidates.len()
        invariant
            cs == candidates@.map_values(|c: &str| c@),
            preferred_spec(config@.tasks, cs) == preferred_spec(config@.tasks, cs.skip(i as int)),
    {
        proof {
            assert(cs.skip(i as int)[0] == candidates@[i as int]@);
            assert(cs.skip(i as int).drop_first() =~= cs.skip(i + 1));
        }
        if task_exists(config, candidates[i]) {
            return Some(owned(candidates[i]));
        }
    }
    proof {
        assert(cs.skip(candidates@.len() as int) =~= Seq::<Seq<char>>::empty());
    }
    None
}

/// The hooks to generate: none outside a git repository or when the
/// configuration says `git-hooks #false`; otherwise `pre-commit` for a task
/// named `pre-commit` (or else `precommit`), then `pre-push` for a task named
/// `pre-push` (or else `prepush`). Each is a hook name and the task it runs.
pub open spec fn hooks_spec(c: ConfigV, in_git_repo: bool) -> Seq<(Seq<char>, Seq<char>)> {
    if !in_git_repo || c.git_hooks == Some(false) {
        seq![]
    } else {
        let pre_commit = match preferred_spec(c.tasks, seq!["pre-commit"@, "precommit"@]) {
            Some(t) => seq![("pre-commit"@, t)],
            None => seq![],
        };
        let pre_push = match preferred_spec(c.tasks, seq!["pre-push"@, "prepush"@]) {
            Some(t) => seq![("pre-push"@, t)],
            None => seq![],
        };
        pre_commit + pre_push
    }
}

/// The texts of a list of (hook, task) pairs.
pub open spec fn hook_pairs(v: Seq<(String, String)>) -> Seq<(Seq<char>, Seq<char>)> {
    v.map_values(|p: (String, String)| (p.0@, p.1@))
}

fn preferred_of(config: &Config, first: &str, second: &str) -> (r: Option<String>)
    ensures
        opt_text(r) == preferred_spec(config@.tasks, seq![first@, second@]),
{
    let cands: [&str; 2] = [first, second];
    let r = find_preferred_task(config, &cands);
    proof {
        assert(cands@.map_values(|c: &str| c@) =~= seq![first@, second@]);
    }
    r
}

/// The git hooks that the configuration asks for, given whether the working
/// directory is a git repository. When the list is not empty, the caller
/// writes each script that does not exist yet (`hook_script`) and points
/// `core.hooksPath` at the hooks directory.
pub fn ensure_hooks(config: &Config, in_git_repo: bool) -> (r: Vec<(String, String)>)
    ensures
        hook_pairs(r@) == hooks_spec(config@, in_git_repo),
{
    let mut r: Vec<(String, String)> = Vec::new();
    if !in_git_repo {
        proof {
            assert(hook_pairs(r@) =~= hooks_spec(config@, in_git_repo));
        }
        return r;
    }
    if let Some(false) = config.git_hooks {
        proof {
            assert(hook_pairs(r@) =~= hooks_spec(config@, in_git_repo));
        }
        return r;
    }
    let ghost pc = preferred_spec(config@.tasks, seq!["pre-commit"@, "precommit"@]);
    let ghost pp = preferred_spec(config@.tasks, seq!["pre-push"@, "prepush"@]);
    let ghost pc_part: Seq<(Seq<char>, Seq<char>)> = match pc {
        Some(t) => seq![("pre-commit"@, t)],
        None => seq![],
    };
    let ghost pp_part: Seq<(Seq<char>, Seq<char>)> = match pp {
        Some(t) => seq![("pre-push"@, t)],
        None => seq![],
    };
    if let Some(task) = preferred_of(config, "pre-commit", "precommit") {
        r.push((owned("pre-commit"), task));
    }
    proof {
        assert(hook_pairs(r@) =~= pc_part);
    }
    let ghost mid = r@;
    if let Some(task) = preferred_of(config, "pre-push", "prepush") {
        r.push((owned("pre-push"), task));
    }
    proof {
        assert(hook_pairs(r@) =~= hook_pairs(mid) + pp_part);
        assert(hook_pairs(r@) =~= hooks_spec(config@, in_git_repo));
    }
    r
}

/// The text of a hook script that runs a task.
pub open spec fn hook_script_spec(task: Seq<char>) -> Seq<char> {
    "#!/bin/sh\ndoer "@ + task + "\n"@
}

/// The hook script that runs `task`: `#!/bin/sh`, then `doer <task>`.
pub fn hook_script(task: &str) -> (r: String)
    ensures
        r@ == hook_script_spec(task@),
{
    let mut s = owned("#!/bin/sh\ndoer ");
    push_str(&mut s, task);
    push_str(&mut s, "\n");
    s
}

} // verus!
