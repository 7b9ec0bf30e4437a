//! The errors of the library, their mathematical view, and the text that
//! each one is reported with.
use vstd::prelude::*;

use crate::document::{Value, ValueV};
use crate::text::{push_decimal, push_signed_decimal, push_str, decimal, signed_decimal};

verus! {

/// Where an error happened; rendered in front of the inner message.
#[derive(Debug)]
pub enum Scope {
    /// `task '<name>'`
    Task(String),
    /// `task: <name>`
    TaskPlain(String),
    /// `dep '<name>'`
    Dep(String),
}

pub ghost enum ScopeV {
    Task(Seq<char>),
    TaskPlain(Seq<char>),
    Dep(Seq<char>),
}

impl View for Scope {
    type V = ScopeV;

    open spec fn view(&self) -> ScopeV {
        match self {
            Scope::Task(n) => ScopeV::Task(n@),
            Scope::TaskPlain(n) => ScopeV::TaskPlain(n@),
            Scope::Dep(n) => ScopeV::Dep(n@),
        }
    }
}

/// Every way an operation of the library can fail.
#[derive(Debug)]
pub enum DoerError {
    /// A `{` without a matching `}`.
    UnclosedBrace { label: String, template: String },
    /// A `}` outside a placeholder.
    UnexpectedBrace { label: String, template: String },
    /// A named placeholder `{}` with nothing in it.
    EmptyPlaceholder,
    /// A named placeholder that the substitution context does not define.
    UndefinedVariable { name: String },
    /// A positional placeholder that is not a `usize`.
    InvalidPositional { text: String, label: String },
    /// A positional placeholder past the end of the arguments.
    MissingArgument { index: usize, provided: usize },
    /// A stdio value other than `default`, `inherit`, `null` and `void`.
    InvalidStdio { task: String, label: String, value: String, resolved: bool },
    /// A task reached again while its own dependencies are being resolved.
    CircularDependency { name: String },
    /// A task name that the configuration does not define.
    TaskNotFound { name: String },
    /// The text is not a KDL document.
    KdlSyntax,
    /// The document has no `tasks` node.
    MissingTasksNode,
    /// The `tasks` node has no children block.
    TasksWithoutChildren,
    /// `git-hooks` with other than one entry.
    GitHooksEntryCount { actual: usize },
    /// `git-hooks` whose value is not a boolean.
    GitHooksNotBool { found: Value },
    /// A task with neither a command nor a dependency.
    NoCommandNoDeps { task: String },
    /// A node with another number of entries than expected.
    EntryCount { label: String, expected: usize, actual: usize },
    /// More than one node of a field that may appear at most once.
    TooManyNodes { owner: String, field: String, actual: usize },
    /// An entry that should be a string and is not.
    NotAString { what: String },
    /// A `-` node whose entry is not a string.
    DashWithoutCommand,
    /// An `opt` entry without a key.
    OptWithoutKey,
    /// An `opt` value that is neither string, number nor boolean.
    OptValueUnsupported,
    /// A `background` value that is not a boolean.
    BackgroundNotBool { found: Value },
    /// A `background` node with more than one entry.
    BackgroundEntryCount,
    /// An integer field whose value is not an integer.
    NotAnInteger { field: String },
    /// An integer field outside the valid nice range.
    OutOfRange { field: String, number: i128 },
    /// An environment variable whose value is neither string nor number.
    EnvValueUnsupported,
    /// A runnable without commands handed to the background runner.
    NoCommands { task: String },
    /// No configuration file where the command line says it is.
    NoConfigFile,
    /// A command that exited unsuccessfully.
    ExitFailure { task: String, code: Option<i32> },
    /// An error inside a task or dependency.
    Context { scope: Scope, inner: Box<DoerError> },
}

pub ghost enum ErrorV {
    UnclosedBrace { label: Seq<char>, template: Seq<char> },
    UnexpectedBrace { label: Seq<char>, template: Seq<char> },
    EmptyPlaceholder,
    UndefinedVariable { name: Seq<char> },
    InvalidPositional { text: Seq<char>, label: Seq<char> },
    MissingArgument { index: nat, provided: nat },
    InvalidStdio { task: Seq<char>, label: Seq<char>, value: Seq<char>, resolved: bool },
    CircularDependency { name: Seq<char> },
    TaskNotFound { name: Seq<char> },
    KdlSyntax,
    MissingTasksNode,
    TasksWithoutChildren,
    GitHooksEntryCount { actual: nat },
    GitHooksNotBool { found: ValueV },
    NoCommandNoDeps { task: Seq<char> },
    EntryCount { label: Seq<char>, expected: nat, actual: nat },
    TooManyNodes { owner: Seq<char>, field: Seq<char>, actual: nat },
    NotAString { what: Seq<char> },
    DashWithoutCommand,
    OptWithoutKey,
    OptValueUnsupported,
    BackgroundNotBool { found: ValueV },
    BackgroundEntryCount,
    NotAnInteger { field: Seq<char> },
    OutOfRange { field: Seq<char>, number: int },
    EnvValueUnsupported,
    NoCommands { task: Seq<char> },
    NoConfigFile,
    ExitFailure { task: Seq<char>, code: Option<int> },
    Context { scope: ScopeV, inner: Box<ErrorV> },
}

pub open spec fn error_view(e: DoerError) -> ErrorV
    decreases e,
{
    match e {
        DoerError::UnclosedBrace { label, template } => ErrorV::UnclosedBrace {
            label: label@,
            template: template@,
        },
        DoerError::UnexpectedBrace { label, template } => ErrorV::UnexpectedBrace {
            label: label@,
            template: template@,
        },
        DoerError::EmptyPlaceholder => ErrorV::EmptyPlaceholder,
        DoerError::UndefinedVariable { name } => ErrorV::UndefinedVariable { name: name@ },
        DoerError::InvalidPositional { text, label } => ErrorV::InvalidPositional {
            text: text@,
            label: label@,
        },
        DoerError::MissingArgument { index, provided } => ErrorV::MissingArgument {
            index: index as nat,
            provided: provided as nat,
        },
        DoerError::InvalidStdio { task, label, value, resolved } => ErrorV::InvalidStdio {
            task: task@,
            label: label@,
            value: value@,
            resolved,
        },
        DoerError::CircularDependency { name } => ErrorV::CircularDependency { name: name@ },
        DoerError::TaskNotFound { name } => ErrorV::TaskNotFound { name: name@ },
        DoerError::KdlSyntax => ErrorV::KdlSyntax,
        DoerError::MissingTasksNode => ErrorV::MissingTasksNode,
        DoerError::TasksWithoutChildren => ErrorV::TasksWithoutChildren,
        DoerError::GitHooksEntryCount { actual } => ErrorV::GitHooksEntryCount {
            actual: actual as nat,
        },
        DoerError::GitHooksNotBool { found } => ErrorV::GitHooksNotBool { found: found@ },
        DoerError::NoCommandNoDeps { task } => ErrorV::NoCommandNoDeps { task: task@ },
        DoerError::EntryCount { label, expected, actual } => ErrorV::EntryCount {
            label: label@,
            expected: expected as nat,
            actual: actual as nat,
        },
        DoerError::TooManyNodes { owner, field, actual } => ErrorV::TooManyNodes {
            owner: owner@,
            field: field@,
            actual: actual as nat,
        },
        DoerError::NotAString { what } => ErrorV::NotAString { what: what@ },
        DoerError::DashWithoutCommand => ErrorV::DashWithoutCommand,
        DoerError::OptWithoutKey => ErrorV::OptWithoutKey,
        DoerError::OptValueUnsupported => ErrorV::OptValueUnsupported,
        DoerError::BackgroundNotBool { found } => ErrorV::BackgroundNotBool { found: found@ },
        DoerError::BackgroundEntryCount => ErrorV::BackgroundEntryCount,
        DoerError::NotAnInteger { field } => ErrorV::NotAnInteger { field: field@ },
        DoerError::OutOfRange { field, number } => ErrorV::OutOfRange {
            field: field@,
            number: number as int,
        },
        DoerError::EnvValueUnsupported => ErrorV::EnvValueUnsupported,
        DoerError::NoCommands { task } => ErrorV::NoCommands { task: task@ },
        DoerError::NoConfigFile => ErrorV::NoConfigFile,
        DoerError::ExitFailure { task, code } => ErrorV::ExitFailure {
            task: task@,
            code: match code {
                Some(c) => Some(c as int),
                None => None,
            },
        },
        DoerError::Context { scope, inner } => ErrorV::Context {
            scope: scope@,
            inner: Box::new(error_view(*inner)),
        },
    }
}

impl View for DoerError {
    type V = ErrorV;

    open spec fn view(&self) -> ErrorV {
        error_view(*self)
    }
}

/// The text in front of a scoped message.
pub open spec fn scope_text(s: ScopeV) -> Seq<char> {
    match s {
        ScopeV::Task(n) => "task '"@ + n + "'"@,
        ScopeV::TaskPlain(n) => "task: "@ + n,
        ScopeV::Dep(n) => "dep '"@ + n + "'"@,
    }
}

/// The text that Rust's `Debug` writes for a string: the string in double
/// quotes, with the characters that `char::escape_debug` escapes written as
/// their escapes.
pub uninterp spec fn string_debug(s: Seq<char>) -> Seq<char>;

/// The `Debug` text of a KDL value, as written in error messages.
pub open spec fn value_debug(v: ValueV) -> Seq<char> {
    match v {
        ValueV::Str(s) => "String("@ + string_debug(s) + ")"@,
        ValueV::Int(i) => "Integer("@ + signed_decimal(i) + ")"@,
        ValueV::Float { text, debug } => "Float("@ + debug + ")"@,
        ValueV::Bool(b) => if b {
            "Bool(true)"@
        } else {
            "Bool(false)"@
        },
        ValueV::Null => "Null"@,
    }
}

/// The text an error is reported with: the scopes from the outside in, each
/// followed by `: `, then the message of the innermost error.
pub open spec fn message_of(e: ErrorV) -> Seq<char>
    decreases e,
{
    match e {
        ErrorV::UnclosedBrace { label, template } => "unclosed '{' in "@ + label + ": "@
            + template,
        ErrorV::UnexpectedBrace { label, template } => "unexpected '}' in "@ + label + ": "@
            + template,
        ErrorV::EmptyPlaceholder => "empty placeholder '{}' in template"@,
        ErrorV::UndefinedVariable { name } => "undefined variable '{"@ + name + "}' in template"@,
        ErrorV::InvalidPositional { text, label } => "invalid positional placeholder '{"@ + text
            + "}' in "@ + label,
        ErrorV::MissingArgument { index, provided } => "missing argument at position "@ + decimal(
            index,
        ) + " ("@ + decimal(provided) + " provided)"@,
        ErrorV::InvalidStdio { task, label, value, resolved } => "task '"@ + task
            + "': invalid "@ + label + (if resolved {
            " value after resolution: '"@
        } else {
            " value: '"@
        }) + value + "', possible values: [default, inherit, null, void]: invalid stdio value: "@
            + value,
        ErrorV::CircularDependency { name } => "circular dependency detected: '"@ + name + "'"@,
        ErrorV::TaskNotFound { name } => "task '"@ + name + "' not found"@,
        ErrorV::KdlSyntax => "failed to parse KDL content"@,
        ErrorV::MissingTasksNode => "missing 'tasks' node in config"@,
        ErrorV::TasksWithoutChildren => "'tasks' node has no children block"@,
        ErrorV::GitHooksEntryCount { actual } => "git-hooks: expected 1 entry, got "@ + decimal(
            actual,
        ),
        ErrorV::GitHooksNotBool { found } => "git-hooks value is not a boolean: "@ + value_debug(
            found,
        ),
        ErrorV::NoCommandNoDeps { task } => "task '"@ + task
            + "' has no command and no dependencies"@,
        ErrorV::EntryCount { label, expected, actual } => label + ": expected "@ + decimal(
            expected,
        ) + " entries, got "@ + decimal(actual),
        ErrorV::TooManyNodes { owner, field, actual } => owner + ": expected at most 1 "@ + field
            + " node, got "@ + decimal(actual),
        ErrorV::NotAString { what } => what + " is not a string"@,
        ErrorV::DashWithoutCommand => "'-' has no command"@,
        ErrorV::OptWithoutKey => "opt has no key"@,
        ErrorV::OptValueUnsupported => "opt value is not a string, number, or boolean"@,
        ErrorV::BackgroundNotBool { found } => "dep background value is not a boolean: "@
            + value_debug(found),
        ErrorV::BackgroundEntryCount => "dep: background node must have at most 1 entry"@,
        ErrorV::NotAnInteger { field } => field + " value is not an integer"@,
        ErrorV::OutOfRange { field, number } => field + " value "@ + signed_decimal(number)
            + " is out of range (valid: -20..=19)"@,
        ErrorV::EnvValueUnsupported => "env var value is not a string or number"@,
        ErrorV::NoCommands { task } => "task '"@ + task + "' has no commands"@,
        ErrorV::NoConfigFile => "no 'doer.kdl' found"@,
        ErrorV::ExitFailure { task, code } => "task '"@ + task + "' exited with status "@ + (
        match code {
            Some(c) => signed_decimal(c),
            None => "unknown"@,
        }),
        ErrorV::Context { scope, inner } => scope_text(scope) + ": "@ + message_of(*inner),
    }
}

fn push_scope(s: &mut String, scope: &Scope)
    ensures
        final(s)@ == old(s)@ + scope_text(scope@),
{
    let ghost before = s@;
    match scope {
        Scope::Task(n) => {
            push_str(s, "task '");
            push_str(s, n.as_str());
            push_str(s, "'");
            proof {
                assert(s@ =~= before + ("task '"@ + n@ + "'"@));
            }
        },
        Scope::TaskPlain(n) => {
            push_str(s, "task: ");
            push_str(s, n.as_str());
            proof {
                assert(s@ =~= before + ("task: "@ + n@));
            }
        },
        Scope::Dep(n) => {
            push_str(s, "dep '");
            push_str(s, n.as_str());
            push_str(s, "'");
            proof {
                assert(s@ =~= before + ("dep '"@ + n@ + "'"@));
            }
        },
    }
}

/// `<str as Debug>::fmt`, through `format!("{:?}")`: the string as Rust's
/// `Debug` writes it. Trusted: the text depends on the string alone (named
/// `string_debug`); which characters are escaped, and how, is std's rule and
/// is not stated here.
#[verifier::external_body]
fn debug_text(t: &str) -> (r: String)
    ensures
        r@ == string_debug(t@),
{
    format!("{:?}", t)
}

/// Appends the `Debug` text of a KDL value.
fn push_value_debug(s: &mut String, v: &Value)
    ensures
        final(s)@ == old(s)@ + value_debug(v@),
{
    let ghost before = s@;
    match v {
        Value::Str(t) => {
            push_str(s, "String(");
            let d = debug_text(t.as_str());
            push_str(s, d.as_str());
            push_str(s, ")");
            proof {
                assert(s@ =~= before + ("String("@ + string_debug(t@) + ")"@));
            }
        },
        Value::Integer(i) => {
            push_str(s, "Integer(");
            push_signed_decimal(s, *i);
            push_str(s, ")");
            proof {
                assert(s@ =~= before + ("Integer("@ + signed_decimal(*i as int) + ")"@));
            }
        },
        Value::Float { text, debug } => {
            push_str(s, "Float(");
            push_str(s, debug.as_str());
            push_str(s, ")");
            proof {
                assert(s@ =~= before + ("Float("@ + debug@ + ")"@));
            }
        },
        Value::Bool(b) => {
            if *b {
                push_str(s, "Bool(true)");
            } else {
                push_str(s, "Bool(false)");
            }
        },
        Value::Null => {
            push_str(s, "Null");
        },
    }
}

impl DoerError {
    /// Appends the text this error is reported with.
    pub fn write_message(&self, s: &mut String)
        ensures
            final(s)@ == old(s)@ + message_of(self@),
        decreases self,
    {
        let ghost before = s@;
        match self {
            DoerError::UnclosedBrace { label, template } => {
                push_str(s, "unclosed '{' in ");
                push_str(s, label.as_str());
                push_str(s, ": ");
                push_str(s, template.as_str());
                proof {
                    assert(s@ =~= before + message_of(self@));
                }
            },
            DoerError::UnexpectedBrace { label, template } => {
                push_str(s, "unexpected '}' in ");
                push_str(s, label.as_str());
                push_str(s, ": ");
                push_str(s, template.as_str());
                proof {
                    assert(s@ =~= before + message_of(self@));
                }
            },
            DoerError::EmptyPlaceholder => {
                push_str(s, "empty placeholder '{}' in template");
            },
            DoerError::UndefinedVariable { name } => {
                push_str(s, "undefined variable '{");
                push_str(s, name.as_str());
                push_str(s, "}' in template");
                proof {
                    assert(s@ =~= before + message_of(self@));
                }
            },
            DoerError::InvalidPositional { text, label } => {
                push_str(s, "invalid positional placeholder '{");
                push_str(s, text.as_str());
                push_str(s, "}' in ");
                push_str(s, label.as_str());
                proof {
                    assert(s@ =~= before + message_of(self@));
                }
            },
            DoerError::MissingArgument { index, provided } => {
                push_str(s, "missing argument at position ");
                push_decimal(s, *index as u128);
                push_str(s, " (");
                push_decimal(s, *provided as u128);
                push_str(s, " provided)");
                proof {
                    assert(s@ =~= before + message_of(self@));
                }
            },
            DoerError::InvalidStdio { task, label, value, resolved } => {
                push_str(s, "task '");
                push_str(s, task.as_str());
                push_str(s, "': invalid ");
                push_str(s, label.as_str());
                if *resolved {
                    push_str(s, " value after resolution: '");
                } else {
                    push_str(s, " value: '");
                }
                push_str(s, value.as_str());
                push_str(s, "', possible values: [default, inherit, null, void]: invalid stdio value: ");
                push_str(s, value.as_str());
                proof {
                    assert(s@ =~= before + message_of(self@));
                }
            },
            DoerError::CircularDependency { name } => {
                push_str(s, "circular dependency detected: '");
                push_str(s, name.as_str());
                push_str(s, "'");
                proof {
                    assert(s@ =~= before + message_of(self@));
                }
            },
            DoerError::TaskNotFound { name } => {
                push_str(s, "task '");
                push_str(s, name.as_str());
                push_str(s, "' not found");
                proof {
                    assert(s@ =~= before + message_of(self@));
                }
            },
            DoerError::KdlSyntax => {
                push_str(s, "failed to parse KDL content");
            },
            DoerError::MissingTasksNode => {
                push_str(s, "missing 'tasks' node in config");
            },
            DoerError::TasksWithoutChildren => {
                push_str(s, "'tasks' node has no children block");
            },
            DoerError::GitHooksEntryCount { actual } => {
                push_str(s, "git-hooks: expected 1 entry, got ");
                push_decimal(s, *actual as u128);
                proof {
                    assert(s@ =~= before + message_of(self@));
                }
            },
            DoerError::GitHooksNotBool { found } => {
                push_str(s, "git-hooks value is not a boolean: ");
                push_value_debug(s, found);
                proof {
                    assert(s@ =~= before + message_of(self@));
                }
            },
            DoerError::NoCommandNoDeps { task } => {
                push_str(s, "task '");
                push_str(s, task.as_str());
                push_str(s, "' has no command and no dependencies");
                proof {
                    assert(s@ =~= before + message_of(self@));
                }
            },
            DoerError::EntryCount { label, expected, actual } => {
                push_str(s, label.as_str());
                push_str(s, ": expected ");
                push_decimal(s, *expected as u128);
                push_str(s, " entries, got ");
                push_decimal(s, *actual as u128);
                proof {
                    assert(s@ =~= before + message_of(self@));
                }
            },
            DoerError::TooManyNodes { owner, field, actual } => {
                push_str(s, owner.as_str());
                push_str(s, ": expected at most 1 ");
                push_str(s, field.as_str());
                push_str(s, " node, got ");
                push_decimal(s, *actual as u128);
                proof {
                    assert(s@ =~= before + message_of(self@));
                }
            },
            DoerError::NotAString { what } => {
                push_str(s, what.as_str());
                push_str(s, " is not a string");
                proof {
                    assert(s@ =~= before + message_of(self@));
                }
            },
            DoerError::DashWithoutCommand => {
                push_str(s, "'-' has no command");
            },
            DoerError::OptWithoutKey => {
                push_str(s, "opt has no key");
            },
            DoerError::OptValueUnsupported => {
                push_str(s, "opt value is not a string, number, or boolean");
            },
            DoerError::BackgroundNotBool { found } => {
                push_str(s, "dep background value is not a boolean: ");
                push_value_debug(s, found);
                proof {
                    assert(s@ =~= before + message_of(self@));
                }
            },
            DoerError::BackgroundEntryCount => {
                push_str(s, "dep: background node must have at most 1 entry");
            },
            DoerError::NotAnInteger { field } => {
                push_str(s, field.as_str());
                push_str(s, " value is not an integer");
                proof {
                    assert(s@ =~= before + message_of(self@));
                }
            },
            DoerError::OutOfRange { field, number } => {
                push_str(s, field.as_str());
                push_str(s, " value ");
                push_signed_decimal(s, *number);
                push_str(s, " is out of range (valid: -20..=19)");
                proof {
                    assert(s@ =~= before + message_of(self@));
                }
            },
            DoerError::EnvValueUnsupported => {
                push_str(s, "env var value is not a string or number");
            },
            DoerError::NoCommands { task } => {
                push_str(s, "task '");
                push_str(s, task.as_str());
                push_str(s, "' has no commands");
                proof {
                    assert(s@ =~= before + message_of(self@));
                }
            },
            DoerError::NoConfigFile => {
                push_str(s, "no 'doer.kdl' found");
            },
            DoerError::ExitFailure { task, code } => {
                push_str(s, "task '");
                push_str(s, task.as_str());
                push_str(s, "' exited with status ");
                match code {
                    Some(c) => push_signed_decimal(s, *c as i128),
                    None => push_str(s, "unknown"),
                }
                proof {
                    assert(s@ =~= before + message_of(self@));
                }
            },
            DoerError::Context { scope, inner } => {
                push_scope(s, scope);
                push_str(s, ": ");
                let inner_ref: &DoerError = inner;
                inner_ref.write_message(s);
                proof {
                    assert(s@ =~= before + message_of(self@));
                }
            },
        }
    }

    /// The text this error is reported with.
    pub fn message(&self) -> (r: String)
        ensures
            r@ == message_of(self@),
    {
        let mut s = String::new();
        self.write_message(&mut s);
        proof {
            assert(s@ =~= message_of(self@));
        }
        s
    }

    /// Wraps this error in a scope.
    pub fn within(self, scope: Scope) -> (r: DoerError)
        ensures
            r@ == (ErrorV::Context { scope: scope@, inner: Box::new(self@) }),
    {
        DoerError::Context { scope, inner: Box::new(self) }
    }
}

} // verus!
