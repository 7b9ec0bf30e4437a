//! The placeholder template language shared by commands, working directories,
//! environment values and stdio settings.
//!
//! A template is text in which `{...}` is a placeholder and a `}` outside a
//! placeholder is an error. Rendering happens in two stages: named
//! placeholders (`{arg}`, `{opt}`) are looked up in a substitution context,
//! then positional placeholders (`{0}`, `{1}`, ...) take the call's arguments.
use vstd::prelude::*;

use crate::error::{DoerError, ErrorV};
use crate::spec::EnvVar;
use crate::strmap::StrMap;
use crate::text::{
    chars_of, copy_string, owned, parse_usize, parse_usize_spec, push_char, push_str,
    string_of_chars, texts,
};

verus! {

/// How the text between braces is turned into a value.
pub enum Resolver<'a> {
    /// Named placeholders, looked up in a substitution context.
    Names(&'a StrMap<String>),
    /// Positional placeholders, indices into the arguments.
    Positions(&'a [String]),
}

pub ghost enum ResolverV {
    Names(Map<Seq<char>, Seq<char>>),
    Positions(Seq<Seq<char>>),
}

impl<'a> View for Resolver<'a> {
    type V = ResolverV;

    open spec fn view(&self) -> ResolverV {
        match self {
            Resolver::Names(ctx) => ResolverV::Names(ctx@),
            Resolver::Positions(args) => ResolverV::Positions(texts(args@)),
        }
    }
}

/// The value of one placeholder. A named placeholder must be non-empty and
/// defined; a positional one must parse as a `usize` below the number of
/// arguments.
pub open spec fn resolve_spec(r: ResolverV, label: Seq<char>, name: Seq<char>) -> Result<
    Seq<char>,
    ErrorV,
> {
    match r {
        ResolverV::Names(ctx) => if name.len() == 0 {
            Err(ErrorV::EmptyPlaceholder)
        } else if ctx.contains_key(name) {
            Ok(ctx[name])
        } else {
            Err(ErrorV::UndefinedVariable { name })
        },
        ResolverV::Positions(args) => match parse_usize_spec(name) {
            None => Err(ErrorV::InvalidPositional { text: name, label }),
            Some(i) => if i < args.len() {
                Ok(args[i as int])
            } else {
                Err(ErrorV::MissingArgument { index: i, provided: args.len() })
            },
        },
    }
}

/// `out` followed by the rendered rest, or the error of the rest.
pub open spec fn prefixed(out: Seq<char>, r: Result<Seq<char>, ErrorV>) -> Result<
    Seq<char>,
    ErrorV,
> {
    match r {
        Ok(w) => Ok(out + w),
        Err(e) => Err(e),
    }
}

/// Renders the text `s`, which is the rest of the template `whole`, read
/// from left to right: ordinary characters are kept, `{` opens a
/// placeholder, and a `}` outside a placeholder is an error. The first
/// error met, of syntax or of resolution, is the result.
pub open spec fn render(s: Seq<char>, r: ResolverV, label: Seq<char>, whole: Seq<char>) -> Result<
    Seq<char>,
    ErrorV,
>
    decreases s.len(), 1int,
{
    if s.len() == 0 {
        Ok(seq![])
    } else if s[0] == '{' {
        render_placeholder(s.drop_first(), seq![], r, label, whole)
    } else if s[0] == '}' {
        Err(ErrorV::UnexpectedBrace { label, template: whole })
    } else {
        prefixed(seq![s[0]], render(s.drop_first(), r, label, whole))
    }
}

/// Renders inside a placeholder whose text so far is `name`: up to the
/// first `}`, whose placeholder is then resolved; running out of text first
/// is an unclosed brace.
pub open spec fn render_placeholder(
    s: Seq<char>,
    name: Seq<char>,
    r: ResolverV,
    label: Seq<char>,
    whole: Seq<char>,
) -> Result<Seq<char>, ErrorV>
    decreases s.len(), 0int,
{
    if s.len() == 0 {
        Err(ErrorV::UnclosedBrace { label, template: whole })
    } else if s[0] == '}' {
        match resolve_spec(r, label, name) {
            Err(e) => Err(e),
            Ok(v) => prefixed(v, render(s.drop_first(), r, label, whole)),
        }
    } else {
        render_placeholder(s.drop_first(), name.push(s[0]), r, label, whole)
    }
}

/// Renders a whole template.
pub open spec fn render_template(t: Seq<char>, r: ResolverV, label: Seq<char>) -> Result<
    Seq<char>,
    ErrorV,
> {
    render(t, r, label, t)
}

/// The result of rendering, as an exec result compared by views.
pub open spec fn matches_text(r: Result<String, DoerError>, s: Result<Seq<char>, ErrorV>) -> bool {
    match r {
        Ok(v) => s == Ok::<Seq<char>, ErrorV>(v@),
        Err(e) => s == Err::<Seq<char>, ErrorV>(e@),
    }
}

proof fn lemma_prefixed_assoc(a: Seq<char>, b: Seq<char>, r: Result<Seq<char>, ErrorV>)
    ensures
        prefixed(a, prefixed(b, r)) == prefixed(a + b, r),
{
    match r {
        Ok(w) => {
            assert(a + (b + w) =~= (a + b) + w);
        },
        Err(e) => {},
    }
}

fn resolve_name(resolver: &Resolver, label: &str, name: &Vec<char>) -> (r: Result<
    String,
    DoerError,
>)
    ensures
        matches_text(r, resolve_spec(resolver@, label@, name@)),
{
    match resolver {
        Resolver::Names(ctx) => {
            if name.len() == 0 {
                return Err(DoerError::EmptyPlaceholder);
            }
            let key = string_of_chars(name);
            match ctx.get(key.as_str()) {
                Some(v) => Ok(copy_string(v)),
                None => Err(DoerError::UndefinedVariable { name: key }),
            }
        },
        Resolver::Positions(args) => {
            match parse_usize(name) {
                None => Err(
                    DoerError::InvalidPositional { text: string_of_chars(name), label: owned(label) },
                ),
                Some(i) => {
                    if i < args.len() {
                        Ok(copy_string(&args[i]))
                    } else {
                        Err(DoerError::MissingArgument { index: i, provided: args.len() })
                    }
                },
            }
        },
    }
}

/// Renders `template`, reporting syntax errors with `label`.
pub fn apply_template(template: &str, label: &str, resolver: &Resolver) -> (r: Result<
    String,
    DoerError,
>)
    ensures
        matches_text(r, render_template(template@, resolver@, label@)),
{
    let chars = chars_of(template);
    let ghost t = template@;
    let ghost rv = resolver@;
    let ghost lv = label@;
    let mut out = String::new();
    let mut inside = false;
    let mut name: Vec<char> = Vec::new();
    let mut i: usize = 0;
    proof {
        assert(t.skip(0) =~= t);
        assert(out@ + seq![] =~= out@);
        match render(t, rv, lv, t) {
            Ok(w) => {
                assert(out@ + w =~= w);
            },
            Err(e) => {},
        }
    }
    while i < chars.len()
        invariant
            chars@ == t,
            t == template@,
            rv == resolver@,
            lv == label@,
            i <= chars.len(),
            !inside ==> render(t, rv, lv, t) == prefixed(out@, render(t.skip(i as int), rv, lv, t)),
            inside ==> render(t, rv, lv, t) == prefixed(
                out@,
                render_placeholder(t.skip(i as int), name@, rv, lv, t),
            ),
        decreases chars.len() - i,
    {
        let c = chars[i];
        let ghost rest = t.skip(i as int);
        proof {
            assert(rest[0] == c);
            assert(rest.drop_first() =~= t.skip(i + 1));
        }
        if !inside {
            if c == '{' {
                inside = true;
                name = Vec::new();
            } else if c == '}' {
                return Err(
                    DoerError::UnexpectedBrace { label: owned(label), template: owned(template) },
                );
            } else {
                let ghost before = out@;
                push_char(&mut out, c);
                proof {
                    lemma_prefixed_assoc(before, seq![c], render(t.skip(i + 1), rv, lv, t));
                    assert(before + seq![c] =~= out@);
                }
            }
        } else {
            if c == '}' {
                match resolve_name(resolver, label, &name) {
                    Err(e) => {
                        return Err(e);
                    },
                    Ok(v) => {
                        let ghost before = out@;
                        push_str(&mut out, v.as_str());
                        inside = false;
                        proof {
                            lemma_prefixed_assoc(before, v@, render(t.skip(i + 1), rv, lv, t));
                        }
                    },
                }
            } else {
                name.push(c);
            }
        }
        i = i + 1;
    }
    proof {
        assert(t.skip(i as int).len() == 0);
    }
    if inside {
        Err(DoerError::UnclosedBrace { label: owned(label), template: owned(template) })
    } else {
        proof {
            assert(out@ + seq![] =~= out@);
        }
        Ok(out)
    }
}

/// Renders the named placeholders of `template` from the substitution context.
pub fn resolve_template_str(template: &str, ctx: &StrMap<String>) -> (r: Result<String, DoerError>)
    ensures
        matches_text(r, render_template(template@, ResolverV::Names(ctx@), "template"@)),
{
    apply_template(template, "template", &Resolver::Names(ctx))
}

/// Renders the positional placeholders of `template` from the arguments.
pub fn resolve_args_str(template: &str, args: &[String], label: &str) -> (r: Result<
    String,
    DoerError,
>)
    ensures
        matches_text(r, render_template(template@, ResolverV::Positions(texts(args@)), label@)),
{
    apply_template(template, label, &Resolver::Positions(args))
}

/// Both stages: the named placeholders from the context, then the
/// positional ones from the arguments, the second labelled `template`.
pub open spec fn render_both(t: Seq<char>, ctx: Map<Seq<char>, Seq<char>>, args: Seq<Seq<char>>) -> Result<
    Seq<char>,
    ErrorV,
> {
    match render_template(t, ResolverV::Names(ctx), "template"@) {
        Err(e) => Err(e),
        Ok(t2) => render_template(t2, ResolverV::Positions(args), "template"@),
    }
}

/// Values that are rendered in the two stages of the template language.
pub trait Templatable: Sized {
    /// Replaces `{arg}` by its positional placeholder and `{opt}` by the
    /// option's value.
    fn resolve_template(&self, ctx: &StrMap<String>) -> Result<Self, DoerError>;

    /// Replaces the positional placeholders `{0}`, `{1}`, ... by the arguments.
    fn resolve_args(&self, args: &[String], label: &str) -> Result<Self, DoerError>;

    /// Applies the substitution context, then the arguments.
    fn resolve_both(&self, ctx: &StrMap<String>, args: &[String]) -> Result<Self, DoerError>;
}

impl Templatable for String {
    fn resolve_template(&self, ctx: &StrMap<String>) -> (r: Result<String, DoerError>)
        ensures
            matches_text(r, render_template(self@, ResolverV::Names(ctx@), "template"@)),
    {
        resolve_template_str(self.as_str(), ctx)
    }

    fn resolve_args(&self, args: &[String], label: &str) -> (r: Result<String, DoerError>)
        ensures
            matches_text(r, render_template(self@, ResolverV::Positions(texts(args@)), label@)),
    {
        resolve_args_str(self.as_str(), args, label)
    }

    fn resolve_both(&self, ctx: &StrMap<String>, args: &[String]) -> (r: Result<
        String,
        DoerError,
    >)
        ensures
            matches_text(r, render_both(self@, ctx@, texts(args@))),
    {
        let tpl = self.resolve_template(ctx)?;
        tpl.resolve_args(args, "template")
    }
}

/// The result of rendering the value of an environment variable, which
/// keeps its name.
pub open spec fn matches_env(
    r: Result<EnvVar, DoerError>,
    name: Seq<char>,
    s: Result<Seq<char>, ErrorV>,
) -> bool {
    match r {
        Ok(v) => v.name@ == name && s == Ok::<Seq<char>, ErrorV>(v.value@),
        Err(e) => s == Err::<Seq<char>, ErrorV>(e@),
    }
}

impl Templatable for EnvVar {
    fn resolve_template(&self, ctx: &StrMap<String>) -> (r: Result<EnvVar, DoerError>)
        ensures
            matches_env(r, self.name@, render_template(self.value@, ResolverV::Names(ctx@), "template"@)),
    {
        Ok(EnvVar { name: copy_string(&self.name), value: self.value.resolve_template(ctx)? })
    }

    fn resolve_args(&self, args: &[String], label: &str) -> (r: Result<EnvVar, DoerError>)
        ensures
            matches_env(
                r,
                self.name@,
                render_template(self.value@, ResolverV::Positions(texts(args@)), label@),
            ),
    {
        Ok(EnvVar { name: copy_string(&self.name), value: self.value.resolve_args(args, label)? })
    }

    fn resolve_both(&self, ctx: &StrMap<String>, args: &[String]) -> (r: Result<
        EnvVar,
        DoerError,
    >)
        ensures
            matches_env(r, self.name@, render_both(self.value@, ctx@, texts(args@))),
    {
        Ok(EnvVar { name: copy_string(&self.name), value: self.value.resolve_both(ctx, args)? })
    }
}

/// Whether a text holds no brace.
pub open spec fn brace_free(t: Seq<char>) -> bool {
    forall|i: int| 0 <= i < t.len() ==> t[i] != '{' && t[i] != '}'
}

proof fn lemma_render_prefix(a: Seq<char>, rest: Seq<char>, r: ResolverV, label: Seq<char>, whole: Seq<char>)
    requires
        brace_free(a),
    ensures
        render(a + rest, r, label, whole) == prefixed(a, render(rest, r, label, whole)),
    decreases a.len(),
{
    if a.len() == 0 {
        assert(a + rest =~= rest);
        match render(rest, r, label, whole) {
            Ok(w) => {
                assert(a + w =~= w);
            },
            Err(_) => {},
        }
    } else {
        let s = a + rest;
        assert(s[0] == a[0]);
        assert(s.drop_first() =~= a.drop_first() + rest);
        lemma_render_prefix(a.drop_first(), rest, r, label, whole);
        lemma_prefixed_assoc(seq![a[0]], a.drop_first(), render(rest, r, label, whole));
        assert(seq![a[0]] + a.drop_first() =~= a);
    }
}

proof fn lemma_render_placeholder(
    n: Seq<char>,
    acc: Seq<char>,
    rest: Seq<char>,
    r: ResolverV,
    label: Seq<char>,
    whole: Seq<char>,
)
    requires
        brace_free(n),
    ensures
        render_placeholder(n + seq!['}'] + rest, acc, r, label, whole) == match resolve_spec(r, label, acc + n) {
            Err(e) => Err(e),
            Ok(v) => prefixed(v, render(rest, r, label, whole)),
        },
    decreases n.len(),
{
    let s = n + seq!['}'] + rest;
    if n.len() == 0 {
        assert(acc + n =~= acc);
        assert(s[0] == '}');
        assert(s.drop_first() =~= rest);
    } else {
        assert(s[0] == n[0]);
        assert(s.drop_first() =~= n.drop_first() + seq!['}'] + rest);
        lemma_render_placeholder(n.drop_first(), acc.push(n[0]), rest, r, label, whole);
        assert(acc.push(n[0]) + n.drop_first() =~= acc + n);
    }
}

/// Text without braces renders to itself, whatever resolves the
/// placeholders: only placeholders change a template.
pub proof fn law_plain_text_unchanged(t: Seq<char>, r: ResolverV, label: Seq<char>)
    requires
        brace_free(t),
    ensures
        render_template(t, r, label) == Ok::<Seq<char>, ErrorV>(t),
{
    lemma_render_prefix(t, seq![], r, label, t);
    assert(t + Seq::<char>::empty() =~= t);
}

/// Text without braces comes through both stages unchanged.
pub proof fn law_plain_text_unchanged_both(t: Seq<char>, ctx: Map<Seq<char>, Seq<char>>, args: Seq<Seq<char>>)
    requires
        brace_free(t),
    ensures
        render_both(t, ctx, args) == Ok::<Seq<char>, ErrorV>(t),
{
    law_plain_text_unchanged(t, ResolverV::Names(ctx), "template"@);
    law_plain_text_unchanged(t, ResolverV::Positions(args), "template"@);
}

/// A placeholder between plain texts is replaced by what it resolves to, and
/// the texts around it are kept; a placeholder that does not resolve makes
/// its error the result.
pub proof fn law_placeholder_replaced(
    before: Seq<char>,
    name: Seq<char>,
    after: Seq<char>,
    r: ResolverV,
    label: Seq<char>,
)
    requires
        brace_free(before),
        brace_free(name),
        brace_free(after),
    ensures
        render_template(before + seq!['{'] + name + seq!['}'] + after, r, label) == match resolve_spec(
            r,
            label,
            name,
        ) {
            Ok(v) => Ok::<Seq<char>, ErrorV>(before + v + after),
            Err(e) => Err::<Seq<char>, ErrorV>(e),
        },
{
    let t = before + seq!['{'] + name + seq!['}'] + after;
    let rest = seq!['{'] + name + seq!['}'] + after;
    assert(t =~= before + rest);
    lemma_render_prefix(before, rest, r, label, t);
    assert(rest[0] == '{');
    assert(rest.drop_first() =~= name + seq!['}'] + after);
    lemma_render_placeholder(name, seq![], after, r, label, t);
    assert(Seq::<char>::empty() + name =~= name);
    lemma_render_prefix(after, seq![], r, label, t);
    assert(after + Seq::<char>::empty() =~= after);
    match resolve_spec(r, label, name) {
        Ok(v) => {
            lemma_prefixed_assoc(before, v, render(after, r, label, t));
            assert(before + v + after =~= before + (v + after));
        },
        Err(_) => {},
    }
}

/// The text of a successful rendering, or nothing for an error.
pub open spec fn ok_text(x: Result<Seq<char>, ErrorV>) -> Option<Seq<char>> {
    match x {
        Ok(v) => Some(v),
        Err(_) => None,
    }
}

proof fn lemma_render_labels(
    s: Seq<char>,
    r: ResolverV,
    l1: Seq<char>,
    w1: Seq<char>,
    l2: Seq<char>,
    w2: Seq<char>,
)
    ensures
        ok_text(render(s, r, l1, w1)) == ok_text(render(s, r, l2, w2)),
    decreases s.len(), 1int,
{
    if s.len() > 0 {
        if s[0] == '{' {
            lemma_placeholder_labels(s.drop_first(), seq![], r, l1, w1, l2, w2);
        } else if s[0] != '}' {
            lemma_render_labels(s.drop_first(), r, l1, w1, l2, w2);
        }
    }
}

proof fn lemma_placeholder_labels(
    s: Seq<char>,
    name: Seq<char>,
    r: ResolverV,
    l1: Seq<char>,
    w1: Seq<char>,
    l2: Seq<char>,
    w2: Seq<char>,
)
    ensures
        ok_text(render_placeholder(s, name, r, l1, w1)) == ok_text(render_placeholder(s, name, r, l2, w2)),
    decreases s.len(), 0int,
{
    if s.len() > 0 {
        if s[0] == '}' {
            lemma_render_labels(s.drop_first(), r, l1, w1, l2, w2);
        } else {
            lemma_placeholder_labels(s.drop_first(), name.push(s[0]), r, l1, w1, l2, w2);
        }
    }
}

/// The label of a template only ever shows in its error messages: whether
/// rendering succeeds, and the text it gives, are the same under any label.
pub proof fn law_label_only_in_errors(t: Seq<char>, r: ResolverV, l1: Seq<char>, l2: Seq<char>)
    ensures
        ok_text(render_template(t, r, l1)) == ok_text(render_template(t, r, l2)),
{
    lemma_render_labels(t, r, l1, t, l2, t);
}

} // verus!
