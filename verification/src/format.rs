//! Decimal numbers as text, padding to a width, and reading a count typed as
//! digits: the formatting that the editor's listings and counts use.

use vstd::prelude::*;
use vstd::std_specs::iter::IteratorSpec;
use crate::text::string_push;

verus! {

/// The character of decimal digit `d`.
pub open spec fn digit_char(d: int) -> char {
    (48 + d) as char
}

/// The decimal digits of `n`, most significant first, without leading zeros.
pub open spec fn decimal(n: nat) -> Seq<char>
    decreases n,
{
    if n < 10 {
        seq![digit_char(n as int)]
    } else {
        decimal(n / 10).push(digit_char((n % 10) as int))
    }
}

/// `s` preceded by spaces up to `width` characters (unchanged when not shorter).
pub open spec fn pad_left(s: Seq<char>, width: int) -> Seq<char> {
    if s.len() >= width { s } else { Seq::new((width - s.len()) as nat, |i: int| ' ') + s }
}

/// `s` followed by spaces up to `width` characters (unchanged when not shorter).
pub open spec fn pad_right(s: Seq<char>, width: int) -> Seq<char> {
    if s.len() >= width { s } else { s + Seq::new((width - s.len()) as nat, |i: int| ' ') }
}

fn digit(d: u64) -> (c: char)
    requires
        d < 10,
    ensures
        c == digit_char(d as int),
{
    match d {
        0 => '0',
        1 => '1',
        2 => '2',
        3 => '3',
        4 => '4',
        5 => '5',
        6 => '6',
        7 => '7',
        8 => '8',
        _ => '9',
    }
}

/// Appends the decimal digits of `n` to `s`.
pub fn push_decimal(s: &mut String, n: u64)
    ensures
        final(s)@ == old(s)@ + decimal(n as nat),
    decreases n,
{
    if n < 10 {
        string_push(s, digit(n));
        assert(decimal(n as nat) =~= seq![digit_char(n as int)]);
    } else {
        push_decimal(s, n / 10);
        string_push(s, digit(n % 10));
        assert(final(s)@ =~= old(s)@ + decimal(n as nat));
    }
}

/// The decimal digits of `n`.
pub fn decimal_string(n: u64) -> (s: String)
    ensures
        s@ == decimal(n as nat),
{
    let mut s = String::new();
    push_decimal(&mut s, n);
    assert(s@ =~= decimal(n as nat));
    s
}

/// Appends `n` spaces to `s`.
pub fn push_spaces(s: &mut String, n: usize)
    ensures
        final(s)@ == old(s)@ + Seq::new(n as nat, |i: int| ' '),
{
    let mut i: usize = 0;
    while i < n
        invariant
            i <= n,
            s@ == old(s)@ + Seq::new(i as nat, |j: int| ' '),
        decreases n - i,
    {
        string_push(s, ' ');
        i = i + 1;
        assert(s@ =~= old(s)@ + Seq::new(i as nat, |j: int| ' '));
    }
}

/// Appends `text` to `s`, left-aligned in a field of `width` characters.
pub fn push_padded_right(s: &mut String, text: &str, width: usize)
    ensures
        final(s)@ == old(s)@ + pad_right(text@, width as int),
{
    let n = text.unicode_len();
    s.append(text);
    if n < width {
        push_spaces(s, width - n);
    }
    assert(final(s)@ =~= old(s)@ + pad_right(text@, width as int));
}

/// Appends `text` to `s`, right-aligned in a field of `width` characters.
pub fn push_padded_left(s: &mut String, text: &str, width: usize)
    ensures
        final(s)@ == old(s)@ + pad_left(text@, width as int),
{
    let n = text.unicode_len();
    if n < width {
        push_spaces(s, width - n);
    }
    s.append(text);
    assert(final(s)@ =~= old(s)@ + pad_left(text@, width as int));
}

/// Whether `c` is a decimal digit.
pub open spec fn is_digit(c: char) -> bool {
    '0' <= c <= '9'
}

/// The number that the decimal digits `s` write.
pub open spec fn digits_value(s: Seq<char>) -> nat
    decreases s.len(),
{
    if s.len() == 0 {
        0
    } else {
        digits_value(s.drop_last()) * 10 + (s.last() as nat - 48) as nat
    }
}

/// `s` without one leading `+`.
pub open spec fn unsigned_body(s: Seq<char>) -> Seq<char> {
    if s.len() > 0 && s[0] == '+' { s.drop_first() } else { s }
}

/// Whether every character of `s` is a decimal digit.
pub open spec fn all_digits(s: Seq<char>) -> bool {
    forall|i: int| 0 <= i < s.len() ==> is_digit(#[trigger] s[i])
}

/// What `str::parse::<usize>` gives for `s`: an optional `+`, then at least one
/// decimal digit and nothing else, with a value that fits in `usize`.
pub open spec fn parsed_usize(s: Seq<char>) -> Option<nat> {
    let body = unsigned_body(s);
    if body.len() > 0 && all_digits(body) && digits_value(body) <= usize::MAX {
        Some(digits_value(body))
    } else {
        None
    }
}

proof fn lemma_digits_value_monotone(s: Seq<char>, c: char)
    requires
        is_digit(c),
    ensures
        digits_value(s.push(c)) >= digits_value(s),
        digits_value(s.push(c)) == digits_value(s) * 10 + (c as nat - 48),
{
    assert(s.push(c).drop_last() =~= s);
}

/// The characters of `s` from `start` up to `end`, none when `end <= start`.
pub open spec fn span(s: Seq<char>, start: int, end: int) -> Seq<char> {
    if end <= start { Seq::empty() } else { s.subrange(start, end) }
}

/// The number `s` writes in decimal, as `str::parse::<usize>` reads it.
pub fn parse_usize(s: &str) -> (n: Option<usize>)
    ensures
        n matches Some(v) ==> parsed_usize(s@) == Some(v as nat),
        n is None ==> parsed_usize(s@) is None,
{
    broadcast use vstd::string::group_string_axioms;

    let mut it = s.chars();
    let mut n: usize = 0;
    let mut value: usize = 0;
    let mut overflow = false;
    let mut invalid = false;
    let mut digits: usize = 0;
    let ghost body_start: int = if s@.len() > 0 && s@[0] == '+' { 1 } else { 0 };
    let total = s.as_bytes().len();
    proof {
        crate::text::lemma_utf8_len_ge(s@);
    }
    loop
        invariant
            n <= s@.len(),
            s@.len() <= total,
            it.remaining() == s@.skip(n as int),
            body_start == (if s@.len() > 0 && s@[0] == '+' { 1int } else { 0 }),
            n >= 1 ==> n >= body_start,
            n >= body_start ==> digits == n - body_start,
            n < body_start ==> digits == 0,
            !invalid ==> forall|i: int| body_start <= i < n ==> is_digit(#[trigger] s@[i]),
            invalid ==> exists|i: int| body_start <= i < n && !is_digit(#[trigger] s@[i]),
            !invalid && !overflow ==> value == digits_value(span(s@, body_start, n as int)),
            !invalid && overflow ==> digits_value(span(s@, body_start, n as int)) > usize::MAX,
        decreases s@.len() - n,
    {
        match it.next() {
            Some(c) => {
                assert(c == s@[n as int]);
                let ghost prev = span(s@, body_start, n as int);
                if n == 0 && c == '+' {
                } else if '0' <= c && c <= '9' {
                    proof {
                        assert(span(s@, body_start, n + 1) =~= prev.push(c));
                        lemma_digits_value_monotone(prev, c);
                    }
                    let d = (c as u32 - 48) as usize;
                    if !overflow {
                        if value <= (usize::MAX - d) / 10 {
                            assert(value * 10 + d <= usize::MAX) by (nonlinear_arith)
                                requires
                                    value <= (usize::MAX - d) / 10,
                                    d <= 9,
                            ;
                            value = value * 10 + d;
                        } else {
                            assert(value * 10 + d > usize::MAX) by (nonlinear_arith)
                                requires
                                    value > (usize::MAX - d) / 10,
                                    d <= 9,
                            ;
                            overflow = true;
                        }
                    }
                    digits = digits + 1;
                } else {
                    invalid = true;
                    digits = digits + 1;
                }
                n = n + 1;
                assert(s@.skip(n as int) =~= s@.skip(n - 1).drop_first());
            },
            None => {
                assert(s@.skip(n as int).len() == 0);
                let ghost body = unsigned_body(s@);
                assert(body =~= s@.subrange(body_start, s@.len() as int));
                if invalid || overflow || digits == 0 {
                    proof {
                        if invalid {
                            let i = choose|i: int| body_start <= i < n && !is_digit(#[trigger] s@[i]);
                            assert(body[i - body_start] == s@[i]);
                            assert(!is_digit(body[i - body_start]));
                            assert(!all_digits(body));
                            assert(parsed_usize(s@) is None);
                        } else if overflow {
                            assert(digits_value(body) > usize::MAX);
                            assert(parsed_usize(s@) is None);
                        } else {
                            assert(n == body_start);
                            assert(body.len() == 0);
                            assert(parsed_usize(s@) is None);
                        }
                    }
                    return None;
                }
                return Some(value);
            },
        }
    }
}

} // verus!
