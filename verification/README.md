# doer

A command manager: tasks are written down in a KDL configuration, rendered
through a small placeholder template language, ordered by their dependencies
and run as shell commands.

```kdl
tasks {
    test "cargo test --all"
    release {
        - "cargo build --bin {bin} --release"
        arg bin
        dep test
    }
}
```

`doer release doer` runs `cargo test --all`, then
`cargo build --bin doer --release`.

## Layout

- `src/` is the library, verified with Verus. Every function has a contract
  over a mathematical model of its data.
  - `document.rs`: the plain model of a KDL document and the calls into the
    `kdl` crate that read one.
  - `parse.rs`: reading the configuration from a document.
  - `template.rs`, `config.rs`, `placeholders.rs`: the template language and
    the substitution context of a task, with the laws of both.
  - `deps.rs`, `order.rs`: resolving a task and its dependencies into an
    ordered list of calls, and the laws of that order.
  - `runner.rs`: what the runner starts, with which stdio and priority, and
    when a failed command stops the run.
  - `cli.rs`, `git_hooks.rs`: the command line and the git hooks.
  - `text.rs`, `strmap.rs`, `error.rs`, `spec.rs`: shared pieces.
- `app/` is the program around the library: argument parsing with clap,
  reading files, writing hook scripts, starting processes with tokio.
- `tests/` holds the tests.
