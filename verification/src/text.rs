//! Character-level helpers shared by the template engine, the configuration
//! reader and the message renderer: copying, comparing, decimal rendering and
//! decimal parsing of text.
use vstd::prelude::*;

verus! {

/// Appends one character to a string (std `String::push`).
///
/// Trusted: the only claim is std's documented behaviour, that the character
/// is added at the end and nothing else changes.
#[verifier::external_body]
pub(crate) fn push_char(s: &mut String, c: char)
    ensures
        final(s)@ == old(s)@.push(c),
{
    s.push(c);
}

/// Appends the whole of `t` to `s`.
pub fn push_str(s: &mut String, t: &str)
    ensures
        final(s)@ == old(s)@ + t@,
{
    let ghost start = s@;
    for c in it: t.chars()
        invariant
            it.seq() == t@,
            s@ == start + it.seq().take(it.index() as int),
    {
        push_char(s, c);
        proof {
            assert(it.seq().take(it.index() + 1) == it.seq().take(it.index() as int).push(c));
        }
    }
    proof {
        assert(t@.take(t@.len() as int) == t@);
    }
}

/// A fresh `String` holding the characters of `t`.
pub fn owned(t: &str) -> (r: String)
    ensures
        r@ == t@,
{
    let mut r = String::new();
    push_str(&mut r, t);
    r
}

/// The characters of `t`, one per element.
pub fn chars_of(t: &str) -> (r: Vec<char>)
    ensures
        r@ == t@,
{
    let mut r: Vec<char> = Vec::new();
    for c in it: t.chars()
        invariant
            it.seq() == t@,
            r@ == it.seq().take(it.index() as int),
    {
        r.push(c);
        proof {
            assert(it.seq().take(it.index() + 1) == it.seq().take(it.index() as int).push(c));
        }
    }
    proof {
        assert(t@.take(t@.len() as int) == t@);
    }
    r
}

/// Whether two texts hold the same characters.
pub fn same_text(a: &str, b: &str) -> (r: bool)
    ensures
        r == (a@ == b@),
{
    owned(a) == owned(b)
}

/// A copy of a string.
pub fn copy_string(s: &String) -> (r: String)
    ensures
        r@ == s@,
{
    s.clone()
}

/// The texts of a sequence of strings.
pub open spec fn texts(v: Seq<String>) -> Seq<Seq<char>> {
    v.map_values(|s: String| s@)
}

/// A string holding the given characters.
pub fn string_of_chars(v: &Vec<char>) -> (r: String)
    ensures
        r@ == v@,
{
    let mut r = String::new();
    for i in 0..v.len()
        invariant
            r@ == v@.take(i as int),
    {
        push_char(&mut r, v[i]);
        proof {
            assert(v@.take(i + 1) == v@.take(i as int).push(v@[i as int]));
        }
    }
    proof {
        assert(v@.take(v@.len() as int) == v@);
    }
    r
}

/// An element-wise copy of a list of strings.
pub fn copy_strings(v: &[String]) -> (r: Vec<String>)
    ensures
        texts(r@) == texts(v@),
{
    let mut r: Vec<String> = Vec::new();
    for i in 0..v.len()
        invariant
            r.len() == i,
            forall|j: int| 0 <= j < i ==> #[trigger] r@[j]@ == v@[j]@,
    {
        r.push(copy_string(&v[i]));
    }
    proof {
        assert(texts(r@) =~= texts(v@));
    }
    r
}

/// A copy of an optional string.
pub fn copy_opt_string(s: &Option<String>) -> (r: Option<String>)
    ensures
        opt_text(r) == opt_text(*s),
{
    match s {
        Some(x) => Some(copy_string(x)),
        None => None,
    }
}

/// The text held by an optional string.
pub open spec fn opt_text(s: Option<String>) -> Option<Seq<char>> {
    match s {
        Some(x) => Some(x@),
        None => None,
    }
}

/// The decimal digit character for `d < 10`.
pub open spec fn digit_char(d: nat) -> char {
    if d == 0 {
        '0'
    } else if d == 1 {
        '1'
    } else if d == 2 {
        '2'
    } else if d == 3 {
        '3'
    } else if d == 4 {
        '4'
    } else if d == 5 {
        '5'
    } else if d == 6 {
        '6'
    } else if d == 7 {
        '7'
    } else if d == 8 {
        '8'
    } else {
        '9'
    }
}

/// The value of a decimal digit character, if it is one.
pub open spec fn digit_value(c: char) -> Option<nat> {
    if c == '0' {
        Some(0)
    } else if c == '1' {
        Some(1)
    } else if c == '2' {
        Some(2)
    } else if c == '3' {
        Some(3)
    } else if c == '4' {
        Some(4)
    } else if c == '5' {
        Some(5)
    } else if c == '6' {
        Some(6)
    } else if c == '7' {
        Some(7)
    } else if c == '8' {
        Some(8)
    } else if c == '9' {
        Some(9)
    } else {
        None
    }
}

/// Decimal notation of a natural number, without leading zeros.
pub open spec fn decimal(n: nat) -> Seq<char>
    decreases n,
{
    if n < 10 {
        seq![digit_char(n)]
    } else {
        decimal(n / 10).push(digit_char(n % 10))
    }
}

/// Decimal notation of an integer, with a leading `-` when negative.
pub open spec fn signed_decimal(i: int) -> Seq<char> {
    if i < 0 {
        seq!['-'] + decimal((-i) as nat)
    } else {
        decimal(i as nat)
    }
}

/// Whether every character is a decimal digit.
pub open spec fn all_digits(s: Seq<char>) -> bool {
    forall|i: int| 0 <= i < s.len() ==> (#[trigger] digit_value(s[i])) is Some
}

/// The number written by a sequence of decimal digits (0 for no digits).
pub open spec fn digits_value(s: Seq<char>) -> nat
    decreases s.len(),
{
    if s.len() == 0 {
        0
    } else {
        digits_value(s.drop_last()) * 10 + digit_value(s.last()).unwrap_or(0)
    }
}

/// What `str::parse::<usize>` gives for a text: an optional `+`, then at
/// least one decimal digit and nothing else, and a value that fits in `usize`.
pub open spec fn parse_usize_spec(s: Seq<char>) -> Option<nat> {
    let digits = if s.len() > 0 && s[0] == '+' {
        s.drop_first()
    } else {
        s
    };
    if digits.len() > 0 && all_digits(digits) && digits_value(digits) <= usize::MAX {
        Some(digits_value(digits))
    } else {
        None
    }
}

fn digit_of(d: u128) -> (c: char)
    requires
        d < 10,
    ensures
        c == digit_char(d as nat),
{
    if d == 0 {
        '0'
    } else if d == 1 {
        '1'
    } else if d == 2 {
        '2'
    } else if d == 3 {
        '3'
    } else if d == 4 {
        '4'
    } else if d == 5 {
        '5'
    } else if d == 6 {
        '6'
    } else if d == 7 {
        '7'
    } else if d == 8 {
        '8'
    } else {
        '9'
    }
}

fn value_of_digit(c: char) -> (r: Option<u128>)
    ensures
        match r {
            Some(d) => digit_value(c) == Some(d as nat) && d < 10,
            None => digit_value(c) is None,
        },
{
    if c == '0' {
        Some(0)
    } else if c == '1' {
        Some(1)
    } else if c == '2' {
        Some(2)
    } else if c == '3' {
        Some(3)
    } else if c == '4' {
        Some(4)
    } else if c == '5' {
        Some(5)
    } else if c == '6' {
        Some(6)
    } else if c == '7' {
        Some(7)
    } else if c == '8' {
        Some(8)
    } else if c == '9' {
        Some(9)
    } else {
        None
    }
}

/// Appends the decimal notation of `n`.
pub fn push_decimal(s: &mut String, n: u128)
    ensures
        final(s)@ == old(s)@ + decimal(n as nat),
    decreases n,
{
    if n < 10 {
        push_char(s, digit_of(n));
        proof {
            assert(decimal(n as nat) == seq![digit_char(n as nat)]);
        }
    } else {
        let ghost before = s@;
        push_decimal(s, n / 10);
        push_char(s, digit_of(n % 10));
        proof {
            assert(decimal(n as nat) == decimal((n / 10) as nat).push(digit_char((n % 10) as nat)));
            assert(s@ =~= before + decimal(n as nat));
        }
    }
}

/// Appends the decimal notation of a signed number.
pub fn push_signed_decimal(s: &mut String, i: i128)
    ensures
        final(s)@ == old(s)@ + signed_decimal(i as int),
{
    if i < 0 {
        let ghost before = s@;
        push_char(s, '-');
        let m: u128 = ((-(i + 1)) as u128) + 1;
        push_decimal(s, m);
        proof {
            assert(m as int == -(i as int));
            assert(s@ =~= before + (seq!['-'] + decimal((-(i as int)) as nat)));
        }
    } else {
        push_decimal(s, i as u128);
    }
}

proof fn lemma_digits_value_grows(s: Seq<char>, c: char)
    ensures
        digits_value(s.push(c)) == digits_value(s) * 10 + digit_value(c).unwrap_or(0),
        digits_value(s.push(c)) >= digits_value(s),
{
    assert(s.push(c).drop_last() =~= s);
}

/// Parses a decimal `usize` as `str::parse::<usize>` does.
pub fn parse_usize(t: &Vec<char>) -> (r: Option<usize>)
    ensures
        match r {
            Some(n) => parse_usize_spec(t@) == Some(n as nat),
            None => parse_usize_spec(t@) is None,
        },
{
    let start: usize = if t.len() > 0 && t[0] == '+' {
        1
    } else {
        0
    };
    let ghost digits = if t@.len() > 0 && t@[0] == '+' {
        t@.drop_first()
    } else {
        t@
    };
    proof {
        assert(digits =~= t@.skip(start as int));
    }
    if start >= t.len() {
        return None;
    }
    let mut acc: u128 = 0;
    let mut overflow = false;
    let mut i = start;
    while i < t.len()
        invariant
            start <= i <= t.len(),
            digits == t@.skip(start as int),
            digits == (if t@.len() > 0 && t@[0] == '+' {
                t@.drop_first()
            } else {
                t@
            }),
            all_digits(t@.subrange(start as int, i as int)),
            !overflow ==> acc == digits_value(t@.subrange(start as int, i as int)),
            !overflow ==> acc <= usize::MAX,
            overflow ==> digits_value(t@.subrange(start as int, i as int)) > usize::MAX,
        decreases t.len() - i,
    {
        let ghost prefix = t@.subrange(start as int, i as int);
        proof {
            assert(t@.subrange(start as int, i + 1) =~= prefix.push(t@[i as int]));
            lemma_digits_value_grows(prefix, t@[i as int]);
        }
        match value_of_digit(t[i]) {
            None => {
                proof {
                    assert(digits[i - start] == t@[i as int]);
                    assert(digit_value(digits[i - start]) is None);
                    assert(!all_digits(digits));
                }
                return None;
            },
            Some(d) => {
                if !overflow {
                    let next = acc * 10 + d;
                    if next > usize::MAX as u128 {
                        overflow = true;
                    } else {
                        acc = next;
                    }
                }
            },
        }
        i = i + 1;
        proof {
            let p2 = t@.subrange(start as int, i as int);
            assert forall|k: int| 0 <= k < p2.len() implies (#[trigger] digit_value(p2[k])) is Some by {
                if k < prefix.len() {
                    assert(p2[k] == prefix[k]);
                }
            }
        }
    }
    proof {
        assert(t@.subrange(start as int, t@.len() as int) =~= digits);
    }
    if overflow {
        None
    } else {
        Some(acc as usize)
    }
}

} // verus!
