use doer::cli::{any_commands, classify, load_config, split_params, task_line, Param};
use doer::config::{Config, Dep, Opt, OptOverrides, OptValue, Task};
use doer::deps::parse_spec_stdio;
use doer::document::Document;
use doer::error::{DoerError, Scope};
use doer::git_hooks::{ensure_hooks, find_preferred_task, hook_script};
use doer::runner::{background_plan, build_command, check_exit, process_nice, run_plan, running_line, stdio_for};
use doer::spec::{EnvVar, Runnable, SpecIo};
use doer::strmap::StrMap;
use doer::template::{apply_template, resolve_args_str, resolve_template_str, Resolver};

fn s(v: &str) -> String {
    v.to_string()
}

fn strs(v: &[&str]) -> Vec<String> {
    v.iter().map(|x| x.to_string()).collect()
}

fn plain_task(name: &str, commands: &[&str], args: &[&str], opts: Vec<Opt>, deps: Vec<Dep>) -> Task {
    Task {
        name: s(name),
        commands: strs(commands),
        args: strs(args),
        cwd: None,
        env_vars: vec![],
        opts,
        deps,
        user: None,
        stdin: None,
        stdout: None,
        stderr: None,
        nice: None,
    }
}

fn dep(name: &str) -> Dep {
    Dep {
        name: s(name),
        args: vec![],
        opts: vec![],
        background: false,
        stdin: None,
        stdout: None,
        stderr: None,
        nice: None,
    }
}

fn flag(name: &str, on: bool) -> Opt {
    Opt { name: s(name), value: OptValue::Bool(on) }
}

fn string_opt(name: &str, value: &str) -> Opt {
    Opt { name: s(name), value: OptValue::String(s(value)) }
}

fn ctx(pairs: &[(&str, &str)]) -> StrMap<String> {
    let mut m = StrMap::new();
    for (k, v) in pairs {
        m.insert(s(k), s(v));
    }
    m
}

fn runnable(name: &str, commands: &[&str], background: bool) -> Runnable {
    Runnable::builder().name(s(name)).commands(strs(commands)).background(background).build()
}

// ---- the template language ----

#[test]
fn plain_text_renders_to_itself_in_both_stages() {
    let c = ctx(&[("a", "x")]);
    assert_eq!(resolve_template_str("echo plain text", &c).unwrap(), "echo plain text");
    assert_eq!(resolve_args_str("echo plain text", &strs(&["1"]), "template").unwrap(), "echo plain text");
}

#[test]
fn placeholder_between_texts_is_replaced() {
    let c = ctx(&[("name", "world")]);
    assert_eq!(resolve_template_str("hello {name}!", &c).unwrap(), "hello world!");
    assert_eq!(resolve_args_str("<{1}|{0}>", &strs(&["a", "b"]), "template").unwrap(), "<b|a>");
}

#[test]
fn positional_placeholder_that_is_no_number() {
    let err = resolve_args_str("{x}", &strs(&["a"]), "cwd").unwrap_err();
    assert_eq!(err.message(), "invalid positional placeholder '{x}' in cwd");
}

#[test]
fn positional_placeholder_past_the_arguments() {
    let err = resolve_args_str("{3}", &strs(&["a", "b"]), "template").unwrap_err();
    assert_eq!(err.message(), "missing argument at position 3 (2 provided)");
}

#[test]
fn positional_placeholder_with_plus_sign() {
    assert_eq!(resolve_args_str("{+1}", &strs(&["a", "b"]), "template").unwrap(), "b");
}

#[test]
fn template_errors_name_the_template() {
    let c = ctx(&[]);
    assert_eq!(resolve_template_str("a {b", &c).unwrap_err().message(), "unclosed '{' in template: a {b");
    assert_eq!(resolve_template_str("a } b", &c).unwrap_err().message(), "unexpected '}' in template: a } b");
    assert_eq!(resolve_template_str("{}", &c).unwrap_err().message(), "empty placeholder '{}' in template");
    assert_eq!(
        resolve_template_str("{nope}", &c).unwrap_err().message(),
        "undefined variable '{nope}' in template"
    );
}

#[test]
fn apply_template_with_either_resolver() {
    let c = ctx(&[("k", "v")]);
    assert_eq!(apply_template("[{k}]", "label", &Resolver::Names(&c)).unwrap(), "[v]");
    let args = strs(&["zero"]);
    assert_eq!(apply_template("[{0}]", "label", &Resolver::Positions(&args)).unwrap(), "[zero]");
}

// ---- flags and options ----

#[test]
fn flag_renders_its_name_when_on_and_nothing_when_off() {
    let t = plain_task("build", &["cargo build {release}"], &[], vec![flag("release", false)], vec![]);
    assert_eq!(t.build_commands(&[], &StrMap::new()).unwrap(), vec!["cargo build "]);
    let mut ov: OptOverrides = StrMap::new();
    ov.insert(s("release"), OptValue::Bool(true));
    assert_eq!(t.build_commands(&[], &ov).unwrap(), vec!["cargo build release"]);
}

#[test]
fn option_carrying_a_flag_follows_the_flag() {
    let t = plain_task(
        "build",
        &["cargo build {mode}"],
        &[],
        vec![flag("release", true), string_opt("mode", "{release}")],
        vec![],
    );
    assert_eq!(t.build_commands(&[], &StrMap::new()).unwrap(), vec!["cargo build mode"]);
    let mut ov: OptOverrides = StrMap::new();
    ov.insert(s("release"), OptValue::Bool(false));
    assert_eq!(t.build_commands(&[], &ov).unwrap(), vec!["cargo build "]);
}

#[test]
fn substitution_context_maps_args_and_opts() {
    let t = plain_task("t", &["x"], &["a", "b"], vec![string_opt("o", "v")], vec![]);
    let c = t.substitution_context(&StrMap::new());
    assert_eq!(c.get("a").unwrap(), "{0}");
    assert_eq!(c.get("b").unwrap(), "{1}");
    assert_eq!(c.get("o").unwrap(), "v");
    assert_eq!(c.len(), 3);
}

// ---- dependencies ----

#[test]
fn self_dependency_is_a_cycle() {
    let cfg = Config { tasks: vec![plain_task("a", &["x"], &[], vec![], vec![dep("a")])], git_hooks: None };
    let err = cfg.build_task_with_deps("a", &[], &StrMap::new()).unwrap_err();
    assert_eq!(err.message(), "circular dependency detected: 'a'");
}

#[test]
fn indirect_cycle_is_detected() {
    let cfg = Config {
        tasks: vec![
            plain_task("a", &["x"], &[], vec![], vec![dep("b")]),
            plain_task("b", &["x"], &[], vec![], vec![dep("a")]),
        ],
        git_hooks: None,
    };
    let err = cfg.build_all("a", &[], &StrMap::new()).unwrap_err();
    assert_eq!(err.message(), "circular dependency detected: 'a'");
}

#[test]
fn unknown_task_is_refused() {
    let cfg = Config { tasks: vec![plain_task("a", &["x"], &[], vec![], vec![dep("missing")])], git_hooks: None };
    assert_eq!(cfg.build_all("a", &[], &StrMap::new()).unwrap_err().message(), "task 'missing' not found");
    assert_eq!(cfg.build_all("zzz", &[], &StrMap::new()).unwrap_err().message(), "task 'zzz' not found");
}

#[test]
fn find_task_takes_the_first_of_a_name() {
    let cfg = Config {
        tasks: vec![plain_task("a", &["first"], &[], vec![], vec![]), plain_task("a", &["second"], &[], vec![], vec![])],
        git_hooks: None,
    };
    assert_eq!(cfg.find_task("a").unwrap().commands, vec!["first"]);
    assert!(cfg.find_task("b").is_none());
}

#[test]
fn requested_task_runs_last_in_the_foreground() {
    let mut bg = dep("b");
    bg.background = true;
    let cfg = Config {
        tasks: vec![
            plain_task("a", &["run a"], &[], vec![], vec![bg, dep("c")]),
            plain_task("b", &["run b"], &[], vec![], vec![dep("c")]),
            plain_task("c", &["run c"], &[], vec![], vec![]),
        ],
        git_hooks: None,
    };
    let rs = cfg.build_all("a", &[], &StrMap::new()).unwrap();
    let names: Vec<&str> = rs.iter().map(|r| r.name.as_str()).collect();
    assert_eq!(names, vec!["c", "b", "a"]);
    assert!(!rs[0].background);
    assert!(rs[1].background);
    assert!(!rs[2].background);
}

#[test]
fn dep_nice_wins_over_task_nice() {
    let mut d = dep("b");
    d.nice = Some(5);
    let mut b = plain_task("b", &["run b"], &[], vec![], vec![]);
    b.nice = Some(-3);
    let mut a = plain_task("a", &["run a"], &[], vec![], vec![d]);
    a.nice = Some(2);
    let cfg = Config { tasks: vec![a, b], git_hooks: None };
    let rs = cfg.build_all("a", &[], &StrMap::new()).unwrap();
    assert_eq!(rs[0].nice, Some(5));
    assert_eq!(rs[1].nice, Some(2));
}

#[test]
fn dep_stdio_literal_that_is_no_setting() {
    assert_eq!(parse_spec_stdio("void", "stdin", "t").unwrap(), SpecIo::Null);
    let err = parse_spec_stdio("loud", "stdout", "t").unwrap_err();
    assert_eq!(
        err.message(),
        "task 't': invalid stdout value: 'loud', possible values: [default, inherit, null, void]: invalid stdio value: loud"
    );
}

#[test]
fn stdio_words() {
    assert_eq!(SpecIo::try_from("default").unwrap(), SpecIo::Inherit);
    assert_eq!(SpecIo::try_from("inherit").unwrap(), SpecIo::Inherit);
    assert_eq!(SpecIo::try_from("null").unwrap(), SpecIo::Null);
    assert_eq!(SpecIo::try_from("void").unwrap(), SpecIo::Null);
    assert_eq!(SpecIo::try_from("Null").unwrap_err(), "invalid stdio value: Null");
}

// ---- reading the configuration ----

#[test]
fn kdl_syntax_error() {
    assert!(Document::parse("tasks {").is_err());
    let err = Config::from_kdl_str("tasks {").unwrap_err();
    assert_eq!(err.message(), "failed to parse KDL content");
}

#[test]
fn document_parse_reads_nodes() {
    let doc = Document::parse("a 1; b \"x\" { c }").unwrap();
    assert_eq!(doc.nodes.len(), 2);
    assert_eq!(doc.nodes[0].name, "a");
    assert_eq!(doc.nodes[1].name, "b");
    assert_eq!(doc.nodes[1].children.as_ref().unwrap().nodes[0].name, "c");
    assert!(doc.get("b").is_some());
    assert!(doc.get("z").is_none());
}

#[test]
fn missing_tasks_node() {
    assert_eq!(Config::from_kdl_str("other 1").unwrap_err().message(), "missing 'tasks' node in config");
}

#[test]
fn tasks_node_without_children() {
    assert_eq!(Config::from_kdl_str("tasks").unwrap_err().message(), "'tasks' node has no children block");
}

#[test]
fn git_hooks_switch() {
    let cfg = Config::from_kdl_str("git-hooks #false\ntasks { a \"x\" }").unwrap();
    assert_eq!(cfg.git_hooks, Some(false));
    let err = Config::from_kdl_str("git-hooks 1\ntasks { a \"x\" }").unwrap_err();
    assert_eq!(err.message(), "git-hooks value is not a boolean: Integer(1)");
    let err = Config::from_kdl_str("git-hooks\ntasks { a \"x\" }").unwrap_err();
    assert_eq!(err.message(), "git-hooks: expected 1 entry, got 0");
}

#[test]
fn nice_out_of_range() {
    let err = Config::from_kdl_str("tasks { a { - \"x\"; nice 30 } }").unwrap_err();
    assert_eq!(err.message(), "task 'a': nice value 30 is out of range (valid: -20..=19)");
    let cfg = Config::from_kdl_str("tasks { a { - \"x\"; nice -20 } }").unwrap();
    assert_eq!(cfg.tasks[0].nice, Some(-20));
}

#[test]
fn nice_not_an_integer() {
    let err = Config::from_kdl_str("tasks { a { - \"x\"; nice \"high\" } }").unwrap_err();
    assert_eq!(err.message(), "task 'a': nice value is not an integer");
}

#[test]
fn dep_nice_and_stdio_are_read() {
    let cfg = Config::from_kdl_str(
        "tasks { a { dep b { nice 3; stdout \"null\"; background #true } }\n b \"echo b\" }",
    )
    .unwrap();
    let d = &cfg.tasks[0].deps[0];
    assert_eq!(d.nice, Some(3));
    assert_eq!(d.stdout, Some(s("null")));
    assert!(d.background);
}

#[test]
fn dep_background_not_a_boolean() {
    let err = Config::from_kdl_str("tasks { a { dep b { background \"yes\" } }\n b \"x\" }").unwrap_err();
    assert_eq!(err.message(), "task 'a': dep background value is not a boolean: String(\"yes\")");
}

#[test]
fn dep_background_with_two_entries() {
    let err = Config::from_kdl_str("tasks { a { dep b { background #true #false } }\n b \"x\" }").unwrap_err();
    assert_eq!(err.message(), "task 'a': dep: background node must have at most 1 entry");
}

#[test]
fn opt_values_of_each_kind() {
    let cfg = Config::from_kdl_str("tasks { a { - \"x\"; opt f=#true; opt n=3; opt s=\"v\" } }").unwrap();
    let opts = &cfg.tasks[0].opts;
    assert_eq!(opts[0].value, OptValue::Bool(true));
    assert_eq!(opts[1].value, OptValue::String(s("3")));
    assert_eq!(opts[2].value, OptValue::String(s("v")));
}

#[test]
fn env_value_may_be_a_number() {
    let cfg = Config::from_kdl_str("tasks { a { - \"x\"; env { N 42; S \"s\" } } }").unwrap();
    let env = &cfg.tasks[0].env_vars;
    assert_eq!(env[0].name, "N");
    assert_eq!(env[0].value, "42");
    assert_eq!(env[1].value, "s");
}

#[test]
fn dash_whose_entry_is_not_a_string() {
    let err = Config::from_kdl_str("tasks { a { - 1 } }").unwrap_err();
    assert_eq!(err.message(), "task 'a': '-' has no command");
}

#[test]
fn readme_example_reads() {
    let cfg = Config::from_kdl_str(
        r#"tasks {
    test "cargo test --all"
    release {
        - "cargo build --bin {bin} --release"
        arg bin
        dep test
        env {
            RUST_BACKTRACE full
        }
    }
    precommit {
        - "cargo fmt --all -- --check"
        - "cargo clippy --all-targets -- -D warnings"
    }
    prepush {
        dep precommit
        dep test
    }
}"#,
    )
    .unwrap();
    assert_eq!(cfg.tasks.len(), 4);
    let rs = cfg.build_all("release", &strs(&["doer"]), &StrMap::new()).unwrap();
    assert_eq!(rs.len(), 2);
    assert_eq!(rs[0].commands, vec!["cargo test --all"]);
    assert_eq!(rs[1].commands, vec!["cargo build --bin doer --release"]);
    assert_eq!(rs[1].env_vars[0].name, "RUST_BACKTRACE");
    assert_eq!(rs[1].env_vars[0].value, "full");
}

#[test]
fn load_config_without_a_file() {
    assert_eq!(load_config(None).unwrap_err().message(), "no 'doer.kdl' found");
    assert_eq!(load_config(Some("tasks { a \"x\" }")).unwrap().tasks.len(), 1);
}

// ---- the command line ----

#[test]
fn params_are_split_into_args_and_overrides() {
    let (args, ov) = split_params(&strs(&["pos", "--verbose", "mode=release", "k=a=b", "--", "last"]));
    assert_eq!(args, vec!["pos", "last"]);
    assert_eq!(ov.get("verbose").unwrap(), &OptValue::Bool(true));
    assert_eq!(ov.get("mode").unwrap(), &OptValue::String(s("release")));
    assert_eq!(ov.get("k").unwrap(), &OptValue::String(s("a=b")));
    assert_eq!(ov.get("").unwrap(), &OptValue::Bool(true));
    assert_eq!(ov.len(), 4);
}

#[test]
fn later_override_replaces_earlier() {
    let (args, ov) = split_params(&strs(&["m=1", "m=2"]));
    assert!(args.is_empty());
    assert_eq!(ov.get("m").unwrap(), &OptValue::String(s("2")));
}

#[test]
fn classify_each_kind() {
    assert!(matches!(classify("--x=y"), Param::Flag(k) if k == "x=y"));
    assert!(matches!(classify("=v"), Param::Assign(k, v) if k.is_empty() && v == "v"));
    assert!(matches!(classify("-x"), Param::Arg(a) if a == "-x"));
}

#[test]
fn any_commands_over_runnables() {
    assert!(!any_commands(&[runnable("a", &[], false)]));
    assert!(any_commands(&[runnable("a", &[], false), runnable("b", &["x"], false)]));
    assert!(!any_commands(&[]));
}

#[test]
fn task_line_hides_options_carrying_flags() {
    let t = plain_task(
        "release",
        &["x"],
        &["bin", "path"],
        vec![flag("verbose", false), string_opt("v", "{verbose}"), string_opt("mode", "debug")],
        vec![],
    );
    let (name, args, opts) = task_line(&t);
    assert_eq!(name, "release");
    assert_eq!(args, "<bin> <path>");
    assert_eq!(opts, "--verbose mode=debug");
}

#[test]
fn task_line_of_a_bare_task() {
    let t = plain_task("test", &["x"], &[], vec![], vec![]);
    assert_eq!(task_line(&t), (s("test"), s(""), s("")));
}

// ---- git hooks ----

#[test]
fn hooks_follow_the_task_names() {
    let cfg = Config {
        tasks: vec![
            plain_task("precommit", &["x"], &[], vec![], vec![]),
            plain_task("pre-push", &["x"], &[], vec![], vec![]),
            plain_task("prepush", &["x"], &[], vec![], vec![]),
        ],
        git_hooks: None,
    };
    assert_eq!(
        ensure_hooks(&cfg, true),
        vec![(s("pre-commit"), s("precommit")), (s("pre-push"), s("pre-push"))]
    );
    assert!(ensure_hooks(&cfg, false).is_empty());
    assert_eq!(find_preferred_task(&cfg, &["nope", "prepush"]), Some(s("prepush")));
    assert_eq!(find_preferred_task(&cfg, &["nope"]), None);
}

#[test]
fn hooks_switched_off() {
    let cfg = Config { tasks: vec![plain_task("pre-commit", &["x"], &[], vec![], vec![])], git_hooks: Some(false) };
    assert!(ensure_hooks(&cfg, true).is_empty());
    let on = Config { tasks: vec![plain_task("pre-commit", &["x"], &[], vec![], vec![])], git_hooks: Some(true) };
    assert_eq!(ensure_hooks(&on, true), vec![(s("pre-commit"), s("pre-commit"))]);
}

#[test]
fn hook_script_text() {
    assert_eq!(hook_script("check"), "#!/bin/sh\ndoer check\n");
}

// ---- the runner's decisions ----

#[test]
fn command_line_with_cwd_env_and_user_nice() {
    let r = Runnable::builder()
        .name(s("t"))
        .commands(strs(&["make"]))
        .cwd(Some(s("/tmp")))
        .env_vars(vec![EnvVar { name: s("A"), value: s("1") }])
        .user(Some(s("bob")))
        .nice(Some(-5))
        .build();
    let line = build_command(&r, "make");
    assert_eq!(line.program, "sudo");
    assert_eq!(line.args, vec!["-u", "bob", "A=1", "sh", "-cu", "nice -n -5 make"]);
    assert!(line.env.is_empty());
    assert_eq!(line.cwd, Some(s("/tmp")));
    assert_eq!(process_nice(&r), None);
}

#[test]
fn command_line_without_user_sets_env_on_process() {
    let r = Runnable::builder()
        .name(s("t"))
        .commands(strs(&["make"]))
        .env_vars(vec![EnvVar { name: s("A"), value: s("1") }])
        .nice(Some(7))
        .build();
    let line = build_command(&r, "make");
    assert_eq!(line.program, "sh");
    assert_eq!(line.args, vec!["-cu", "make"]);
    assert_eq!(line.env[0].name, "A");
    assert_eq!(line.env[0].value, "1");
    assert_eq!(line.cwd, None);
    assert_eq!(process_nice(&r), Some(7));
}

#[test]
fn stdio_of_background_commands_is_inherited() {
    let r = Runnable::builder().name(s("t")).commands(strs(&["x"])).stdout(SpecIo::Null).build();
    assert_eq!(stdio_for(&r, true), (SpecIo::Inherit, SpecIo::Inherit, SpecIo::Inherit));
    assert_eq!(stdio_for(&r, false), (SpecIo::Inherit, SpecIo::Null, SpecIo::Inherit));
}

#[test]
fn running_line_parts() {
    let r = runnable("build", &["make"], false);
    assert_eq!(running_line(&r, "make", false), (s("[build]"), s("$ make")));
    assert_eq!(running_line(&r, "make", true), (s("[build]"), s("$ & make")));
    let root = Runnable::builder().name(s("i")).commands(strs(&["x"])).user(Some(s("root"))).build();
    assert_eq!(running_line(&root, "x", false), (s("[i]"), s("# x")));
}

#[test]
fn exit_status_judgement() {
    assert!(check_exit("t", true, Some(0)).is_ok());
    assert_eq!(check_exit("t", false, Some(2)).unwrap_err().message(), "task 't' exited with status 2");
    assert_eq!(check_exit("t", false, None).unwrap_err().message(), "task 't' exited with status unknown");
}

#[test]
fn run_plan_skips_empty_and_backgrounds_last_command() {
    let rs = vec![runnable("a", &["1", "2"], true), runnable("b", &[], false), runnable("c", &["3"], false)];
    let plan = run_plan(&rs);
    let got: Vec<(usize, usize, bool)> = plan.iter().map(|p| (p.runnable, p.command, p.background)).collect();
    assert_eq!(got, vec![(0, 0, false), (0, 1, true), (2, 0, false)]);
}

#[test]
fn background_plan_needs_a_command() {
    let err = background_plan(&runnable("x", &[], true)).unwrap_err();
    assert_eq!(err.message(), "task 'x' has no commands");
    let plan = background_plan(&runnable("y", &["1", "2"], true)).unwrap();
    let got: Vec<(usize, bool)> = plan.iter().map(|p| (p.command, p.background)).collect();
    assert_eq!(got, vec![(0, false), (1, true)]);
}

// ---- errors and maps ----

#[test]
fn scoped_error_messages() {
    let e = DoerError::EmptyPlaceholder.within(Scope::Dep(s("d"))).within(Scope::Task(s("t")));
    assert_eq!(e.message(), "task 't': dep 'd': empty placeholder '{}' in template");
    let p = DoerError::NoCommandNoDeps { task: s("x") }.within(Scope::TaskPlain(s("x")));
    assert_eq!(p.message(), "task: x: task 'x' has no command and no dependencies");
}

#[test]
fn strmap_insert_then_get() {
    let mut m: StrMap<String> = StrMap::new();
    assert!(m.is_empty());
    m.insert(s("k"), s("1"));
    m.insert(s("j"), s("2"));
    m.insert(s("k"), s("3"));
    assert_eq!(m.get("k").unwrap(), "3");
    assert_eq!(m.get("j").unwrap(), "2");
    assert!(m.get("z").is_none());
    assert_eq!(m.len(), 2);
    assert!(m.contains_key("j"));
}

#[test]
fn control_characters_in_debug_text() {
    let err = doer::config::Config::from_kdl_str("git-hooks \"a\\u{1b}b\\tc\"\ntasks { a \"x\" }").unwrap_err();
    assert_eq!(err.message(), "git-hooks value is not a boolean: String(\"a\\u{1b}b\\tc\")");
}

#[test]
fn opt_value_that_is_null() {
    let err = Config::from_kdl_str("tasks { a { - \"x\"; opt k=#null } }").unwrap_err();
    assert_eq!(err.message(), "task 'a': opt value is not a string, number, or boolean");
}

#[test]
fn env_value_that_is_a_boolean() {
    let err = Config::from_kdl_str("tasks { a { - \"x\"; env { A #true } } }").unwrap_err();
    assert_eq!(err.message(), "task 'a': env var value is not a string or number");
}

#[test]
fn non_printable_characters_in_debug_text() {
    let err = doer::config::Config::from_kdl_str("git-hooks \"\u{ad}\"\ntasks { a \"x\" }").unwrap_err();
    assert_eq!(err.message(), "git-hooks value is not a boolean: String(\"\\u{ad}\")");
}

#[test]
fn commands_are_built_in_two_passes() {
    let t = plain_task("t", &["run {a} --{m}"], &["a"], vec![string_opt("m", "fast")], vec![]);
    let first = t.command_template(&StrMap::new()).unwrap();
    assert_eq!(first, vec!["run {0} --fast"]);
    let second = resolve_args_str(&first[0], &strs(&["x"]), "template").unwrap();
    assert_eq!(t.build_commands(&strs(&["x"]), &StrMap::new()).unwrap(), vec![second]);
}

#[test]
fn one_template_syntax_for_command_cwd_and_env() {
    let mut t = plain_task("t", &["dir/{a}/{m}"], &["a"], vec![string_opt("m", "out")], vec![]);
    t.cwd = Some(s("dir/{a}/{m}"));
    t.env_vars = vec![EnvVar { name: s("D"), value: s("dir/{a}/{m}") }];
    let args = strs(&["x"]);
    assert_eq!(t.build_commands(&args, &StrMap::new()).unwrap(), vec!["dir/x/out"]);
    assert_eq!(t.build_cwd(&args, &StrMap::new()).unwrap(), Some(s("dir/x/out")));
    let env = t.build_env_vars(&args, &StrMap::new()).unwrap();
    assert_eq!((env[0].name.as_str(), env[0].value.as_str()), ("D", "dir/x/out"));
    assert!(t.build_commands(&[], &StrMap::new()).is_err());
    assert!(t.build_cwd(&[], &StrMap::new()).is_err());
    assert!(t.build_env_vars(&[], &StrMap::new()).is_err());
}

#[test]
fn builder_keeps_the_first_variable_of_each_name() {
    let r = Runnable::builder()
        .name(s("t"))
        .commands(strs(&["x"]))
        .env_vars(vec![
            EnvVar { name: s("A"), value: s("1") },
            EnvVar { name: s("B"), value: s("2") },
            EnvVar { name: s("A"), value: s("3") },
        ])
        .user(Some(s("u")))
        .build();
    let got: Vec<(&str, &str)> = r.env_vars.iter().map(|e| (e.name.as_str(), e.value.as_str())).collect();
    assert_eq!(got, vec![("A", "1"), ("B", "2")]);
    assert_eq!(build_command(&r, "x").args, vec!["-u", "u", "A=1", "B=2", "sh", "-cu", "x"]);
}

#[test]
fn single_dependency_resolves_child_then_parent() {
    let mut d = dep("c");
    d.args = strs(&["{a}"]);
    d.nice = None;
    let mut child = plain_task("c", &["child {0}"], &["x"], vec![], vec![]);
    child.nice = Some(4);
    let parent = plain_task("p", &["parent {a}"], &["a"], vec![], vec![d]);
    let cfg = Config { tasks: vec![parent, child], git_hooks: None };
    let calls = cfg.build_task_with_deps("p", &strs(&["v"]), &StrMap::new()).unwrap();
    assert_eq!(calls.len(), 2);
    assert_eq!(calls[0].task.name, "c");
    assert_eq!(calls[0].args, vec!["v"]);
    assert_eq!(calls[0].nice, Some(4));
    assert!(!calls[0].background);
    assert_eq!(calls[1].task.name, "p");
    assert_eq!(calls[1].nice, None);
    assert!(!calls[1].background);
}
