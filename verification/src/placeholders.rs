//! What a placeholder of a task's template becomes once both stages have
//! rendered it: an argument name becomes the call's argument at its
//! position, an option name becomes the option's effective value, a flag
//! becomes its own name when on and nothing when off.
use vstd::prelude::*;

use crate::config::{
    args_context, braced_name, effective, first_opt, flag_text, flags_context, has_flag,
    no_opt_named, opt_value_text, opts_context,
    positional, substitution_context_spec, OptV, OptValueV, TaskV,
};
use crate::error::ErrorV;
use crate::template::{brace_free, law_placeholder_replaced, render_both, render_template, resolve_spec, ResolverV};
use crate::text::{all_digits, decimal, digit_char, digit_value, digits_value, parse_usize_spec};

verus! {

proof fn lemma_digit_char(d: nat)
    requires
        d < 10,
    ensures
        digit_value(digit_char(d)) == Some(d),
{
}

proof fn lemma_decimal_digits(n: nat)
    ensures
        all_digits(decimal(n)),
        digits_value(decimal(n)) == n,
        decimal(n).len() > 0,
    decreases n,
{
    if n < 10 {
        lemma_digit_char(n);
        assert(decimal(n).drop_last() =~= Seq::<char>::empty());
        assert(digits_value(decimal(n).drop_last()) == 0);
        assert(decimal(n).last() == digit_char(n));
    } else {
        lemma_decimal_digits(n / 10);
        lemma_digit_char(n % 10);
        let s = decimal(n);
        assert(s.drop_last() =~= decimal(n / 10));
        assert(s.last() == digit_char(n % 10));
        assert forall|i: int| 0 <= i < s.len() implies (#[trigger] digit_value(s[i])) is Some by {
            if i < s.len() - 1 {
                assert(s[i] == decimal(n / 10)[i]);
            }
        }
        assert((n / 10) * 10 + n % 10 == n) by (nonlinear_arith);
        assert(digits_value(s) == digits_value(s.drop_last()) * 10 + digit_value(s.last()).unwrap_or(0));
        assert(digit_value(s.last()).unwrap_or(0) == n % 10);
    }
}

// Decimal notation reads back as the number it writes.
proof fn lemma_decimal_reads_back(n: nat)
    requires
        n <= usize::MAX,
    ensures
        parse_usize_spec(decimal(n)) == Some(n),
{
    lemma_decimal_digits(n);
    assert(digit_value(decimal(n)[0]) is Some);
}

proof fn lemma_decimal_brace_free(n: nat)
    ensures
        brace_free(decimal(n)),
{
    lemma_decimal_digits(n);
    assert forall|i: int| 0 <= i < decimal(n).len() implies decimal(n)[i] != '{' && decimal(n)[i] != '}' by {
        assert(digit_value(decimal(n)[i]) is Some);
    }
}

/// `i` is the last position of `name` among `args`.
pub open spec fn last_position(args: Seq<Seq<char>>, name: Seq<char>, i: int) -> bool {
    &&& 0 <= i < args.len()
    &&& args[i] == name
    &&& forall|j: int| i < j < args.len() ==> args[j] != name
}

proof fn lemma_args_context_at(args: Seq<Seq<char>>, name: Seq<char>, i: int)
    requires
        last_position(args, name, i),
    ensures
        args_context(args).contains_key(name),
        args_context(args)[name] == positional(i as nat),
    decreases args.len(),
{
    if i < args.len() - 1 {
        lemma_args_context_at(args.drop_last(), name, i);
    }
}

proof fn lemma_opts_context_other(
    base: Map<Seq<char>, Seq<char>>,
    opts: Seq<OptV>,
    ov: Map<Seq<char>, OptValueV>,
    n: Seq<char>,
)
    requires
        no_opt_named(opts, n),
    ensures
        opts_context(base, opts, ov).contains_key(n) == base.contains_key(n),
        opts_context(base, opts, ov)[n] == base[n],
    decreases opts.len(),
{
    if opts.len() > 0 {
        lemma_opts_context_other(base, opts.drop_last(), ov, n);
        assert(opts.last().name != n);
    }
}

proof fn lemma_flags_context_other(
    base: Map<Seq<char>, Seq<char>>,
    opts: Seq<OptV>,
    all: Seq<OptV>,
    ov: Map<Seq<char>, OptValueV>,
    n: Seq<char>,
)
    requires
        no_opt_named(opts, n),
    ensures
        flags_context(base, opts, all, ov).contains_key(n) == base.contains_key(n),
        flags_context(base, opts, all, ov)[n] == base[n],
    decreases opts.len(),
{
    if opts.len() > 0 {
        lemma_flags_context_other(base, opts.drop_last(), all, ov, n);
        assert(opts.last().name != n);
    }
}

/// Option `i` is the only option named `n`.
pub open spec fn only_opt(opts: Seq<OptV>, n: Seq<char>, i: int) -> bool {
    &&& 0 <= i < opts.len()
    &&& opts[i].name == n
    &&& forall|j: int| 0 <= j < opts.len() && j != i ==> opts[j].name != n
}

proof fn lemma_opts_context_only(
    base: Map<Seq<char>, Seq<char>>,
    opts: Seq<OptV>,
    ov: Map<Seq<char>, OptValueV>,
    n: Seq<char>,
    i: int,
)
    requires
        only_opt(opts, n, i),
    ensures
        opts_context(base, opts, ov).contains_key(n),
        opts_context(base, opts, ov)[n] == opt_value_text(effective(opts[i], ov)),
    decreases opts.len(),
{
    if i < opts.len() - 1 {
        let p = opts.drop_last();
        assert(only_opt(p, n, i)) by {
            assert forall|j: int| 0 <= j < p.len() && j != i implies p[j].name != n by {
                assert(p[j] == opts[j]);
            }
        }
        lemma_opts_context_only(base, p, ov, n, i);
        assert(opts.last().name != n);
    }
}

proof fn lemma_flags_context_only(
    base: Map<Seq<char>, Seq<char>>,
    opts: Seq<OptV>,
    all: Seq<OptV>,
    ov: Map<Seq<char>, OptValueV>,
    n: Seq<char>,
    i: int,
)
    requires
        only_opt(opts, n, i),
        base.contains_key(n),
    ensures
        flags_context(base, opts, all, ov).contains_key(n),
        flags_context(base, opts, all, ov)[n] == match flag_text(opts[i], all, ov) {
            Some(v) => v,
            None => base[n],
        },
    decreases opts.len(),
{
    if i < opts.len() - 1 {
        let p = opts.drop_last();
        assert(only_opt(p, n, i)) by {
            assert forall|j: int| 0 <= j < p.len() && j != i implies p[j].name != n by {
                assert(p[j] == opts[j]);
            }
        }
        lemma_flags_context_only(base, p, all, ov, n, i);
        assert(opts.last().name != n);
    } else {
        let p = opts.drop_last();
        assert(no_opt_named(p, n)) by {
            assert forall|j: int| 0 <= j < p.len() implies p[j].name != n by {
                assert(p[j] == opts[j]);
            }
        }
        lemma_flags_context_other(base, p, all, ov, n);
    }
}

proof fn lemma_both_stages(t: Seq<char>, n: Seq<char>, ctx: Map<Seq<char>, Seq<char>>, args: Seq<Seq<char>>)
    requires
        n.len() > 0,
        brace_free(n),
        ctx.contains_key(n),
    ensures
        render_template(seq!['{'] + n + seq!['}'], ResolverV::Names(ctx), "template"@) == Ok::<Seq<char>, ErrorV>(ctx[n]),
        render_both(seq!['{'] + n + seq!['}'], ctx, args) == render_template(ctx[n], ResolverV::Positions(args), "template"@),
{
    let e = Seq::<char>::empty();
    assert(brace_free(e));
    law_placeholder_replaced(e, n, e, ResolverV::Names(ctx), "template"@);
    assert(e + seq!['{'] + n + seq!['}'] + e =~= seq!['{'] + n + seq!['}']);
    assert(e + ctx[n] + e =~= ctx[n]);
}

/// A placeholder `{name}` for an argument of the task renders to the
/// argument that the call gives at the name's position (its last position
/// when the name is repeated), provided no option shares the name and the
/// call gives that many arguments.
pub proof fn law_arg_placeholder(
    t: TaskV,
    ov: Map<Seq<char>, OptValueV>,
    args: Seq<Seq<char>>,
    name: Seq<char>,
    i: int,
)
    requires
        last_position(t.args, name, i),
        name.len() > 0,
        brace_free(name),
        no_opt_named(t.opts, name),
        i < args.len() <= usize::MAX,
    ensures
        render_both(seq!['{'] + name + seq!['}'], substitution_context_spec(t, ov), args)
            == Ok::<Seq<char>, ErrorV>(args[i]),
{
    let base = args_context(t.args);
    lemma_args_context_at(t.args, name, i);
    lemma_opts_context_other(base, t.opts, ov, name);
    lemma_flags_context_other(opts_context(base, t.opts, ov), t.opts, t.opts, ov, name);
    let ctx = substitution_context_spec(t, ov);
    assert(ctx[name] == positional(i as nat));
    lemma_both_stages(seq!['{'] + name + seq!['}'], name, ctx, args);
    let e = Seq::<char>::empty();
    lemma_decimal_brace_free(i as nat);
    law_placeholder_replaced(e, decimal(i as nat), e, ResolverV::Positions(args), "template"@);
    lemma_decimal_reads_back(i as nat);
    assert(e + seq!['{'] + decimal(i as nat) + seq!['}'] + e =~= positional(i as nat));
    assert(e + args[i] + e =~= args[i]);
}

/// The value a placeholder of an option stands for: for a flag, or an option
/// that carries a flag, its name when on and nothing when off; for any other
/// option, the text of its effective value.
pub open spec fn opt_placeholder_value(o: OptV, all: Seq<OptV>, ov: Map<Seq<char>, OptValueV>) -> Seq<char> {
    match flag_text(o, all, ov) {
        Some(v) => v,
        None => opt_value_text(effective(o, ov)),
    }
}

/// A placeholder `{name}` for an option of the task renders to the option's
/// value for the call: its override if there is one, else its default; a
/// flag to its own name when on and to nothing when off. This holds for an
/// option that no other option shares the name with, and whose value holds
/// no brace (a brace would be read again by the positional stage).
pub proof fn law_opt_placeholder(t: TaskV, ov: Map<Seq<char>, OptValueV>, args: Seq<Seq<char>>, i: int)
    requires
        only_opt(t.opts, t.opts[i].name, i),
        t.opts[i].name.len() > 0,
        brace_free(t.opts[i].name),
        brace_free(opt_placeholder_value(t.opts[i], t.opts, ov)),
    ensures
        render_both(seq!['{'] + t.opts[i].name + seq!['}'], substitution_context_spec(t, ov), args)
            == Ok::<Seq<char>, ErrorV>(opt_placeholder_value(t.opts[i], t.opts, ov)),
{
    let n = t.opts[i].name;
    let base = args_context(t.args);
    lemma_opts_context_only(base, t.opts, ov, n, i);
    lemma_flags_context_only(opts_context(base, t.opts, ov), t.opts, t.opts, ov, n, i);
    let ctx = substitution_context_spec(t, ov);
    let v = opt_placeholder_value(t.opts[i], t.opts, ov);
    assert(ctx[n] == v);
    lemma_both_stages(seq!['{'] + n + seq!['}'], n, ctx, args);
    crate::template::law_plain_text_unchanged(v, ResolverV::Positions(args), "template"@);
}

proof fn lemma_first_opt_at(opts: Seq<OptV>, name: Seq<char>, j: int)
    requires
        0 <= j < opts.len(),
        opts[j].name == name,
        forall|k: int| 0 <= k < j ==> opts[k].name != name,
    ensures
        first_opt(opts, name) == Some(opts[j]),
    decreases j,
{
    if j > 0 {
        lemma_first_opt_at(opts.drop_first(), name, j - 1);
    }
}

/// The text an option's value stands for: a string as it is, a boolean as
/// `true` or `false`.
pub open spec fn value_text_of(v: OptValueV) -> Seq<char> {
    match v {
        OptValueV::Str(x) => x,
        OptValueV::Flag(b) => if b {
            "true"@
        } else {
            "false"@
        },
    }
}

/// The flag that a string option carries: `f` when its default is `{f}`
/// and the task has a flag named `f`.
pub open spec fn flag_ref(o: OptV, all: Seq<OptV>) -> Option<Seq<char>> {
    match o.value {
        OptValueV::Str(s) => match braced_name(s) {
            Some(f) => if has_flag(all, f) {
                Some(f)
            } else {
                None
            },
            None => None,
        },
        OptValueV::Flag(_) => None,
    }
}

/// What the substitution context maps an option's name to, for an option
/// that no other option shares the name with:
/// - a flag maps to its own name when its value for the call (its override,
///   else its default) is `true`, and to nothing otherwise;
/// - a string option whose default is `{f}` for a flag `f` of the task maps
///   to its own name or to nothing: with an override of its own, by that
///   override being `true`, whatever `f` is; without one, by the value for the
///   call of the first option named `f`;
/// - any other string option maps to the text of its value for the call.
pub proof fn law_option_context(t: TaskV, ov: Map<Seq<char>, OptValueV>, i: int)
    requires
        only_opt(t.opts, t.opts[i].name, i),
    ensures
        ({
            let o = t.opts[i];
            let ctx = substitution_context_spec(t, ov);
            let own = if ov.contains_key(o.name) {
                ov[o.name]
            } else {
                o.value
            };
            &&& ctx.contains_key(o.name)
            &&& o.value is Flag ==> ctx[o.name] == (if own == OptValueV::Flag(true) {
                o.name
            } else {
                seq![]
            })
            &&& flag_ref(o, t.opts) matches Some(f) ==> {
                &&& ov.contains_key(o.name) ==> ctx[o.name] == (if ov[o.name] == OptValueV::Flag(true) {
                    o.name
                } else {
                    seq![]
                })
                &&& forall|j: int|
                    0 <= j < t.opts.len() && #[trigger] t.opts[j].name == f && !ov.contains_key(o.name) && (
                    forall|k: int| 0 <= k < j ==> t.opts[k].name != f) ==> ctx[o.name] == (if (if ov.contains_key(
                        f,
                    ) {
                        ov[f]
                    } else {
                        t.opts[j].value
                    }) == OptValueV::Flag(true) {
                        o.name
                    } else {
                        seq![]
                    })
            }
            &&& (o.value is Str && flag_ref(o, t.opts) is None) ==> ctx[o.name] == value_text_of(own)
        }),
{
    let o = t.opts[i];
    let n = o.name;
    let base = args_context(t.args);
    lemma_opts_context_only(base, t.opts, ov, n, i);
    lemma_flags_context_only(opts_context(base, t.opts, ov), t.opts, t.opts, ov, n, i);
    if let OptValueV::Str(s) = o.value {
        if let Some(f) = braced_name(s) {
            if has_flag(t.opts, f) {
                assert forall|j: int|
                    0 <= j < t.opts.len() && #[trigger] t.opts[j].name == f && !ov.contains_key(o.name) && (
                    forall|k: int| 0 <= k < j ==> t.opts[k].name != f) implies substitution_context_spec(t, ov)[o.name]
                    == (if (if ov.contains_key(f) {
                    ov[f]
                } else {
                    t.opts[j].value
                }) == OptValueV::Flag(true) {
                    o.name
                } else {
                    seq![]
                }) by {
                    lemma_first_opt_at(t.opts, f, j);
                }
            }
        }
    }
}

} // verus!
