//! Decimal rendering of unsigned indices, used when a numeric disambiguator
//! becomes one sub-segment of a mangled symbol.

use vstd::prelude::*;

verus! {

/// The character for a single decimal digit value.
pub open spec fn digit_char(d: nat) -> char {
    if d == 0 {
        '0'
    } else if d == 1 {
        '1'
    } else if d == 2 {
        '2'
    } else if d == 3 {
        '3'
    } else if d == 4 {
        '4'
    } else if d == 5 {
        '5'
    } else if d == 6 {
        '6'
    } else if d == 7 {
        '7'
    } else if d == 8 {
        '8'
    } else {
        '9'
    }
}

/// The usual decimal rendering of `n`: most significant digit first, no
/// leading zeros, a single `0` for zero itself.
pub open spec fn decimal_chars(n: nat) -> Seq<char>
    decreases n,
{
    if n < 10 {
        seq![digit_char(n)]
    } else {
        decimal_chars(n / 10).push(digit_char(n % 10))
    }
}

/// A decimal rendering always holds at least one character.
pub proof fn lemma_decimal_chars_nonempty(n: nat)
    ensures
        decimal_chars(n).len() > 0,
{
}

/// The one-character string for a single decimal digit value.
fn digit_str(d: usize) -> (r: &'static str)
    requires
        d < 10,
    ensures
        r@ == seq![digit_char(d as nat)],
{
    let r: &'static str = if d == 0 {
        "0"
    } else if d == 1 {
        "1"
    } else if d == 2 {
        "2"
    } else if d == 3 {
        "3"
    } else if d == 4 {
        "4"
    } else if d == 5 {
        "5"
    } else if d == 6 {
        "6"
    } else if d == 7 {
        "7"
    } else if d == 8 {
        "8"
    } else {
        "9"
    };
    proof {
        reveal_strlit("0");
        reveal_strlit("1");
        reveal_strlit("2");
        reveal_strlit("3");
        reveal_strlit("4");
        reveal_strlit("5");
        reveal_strlit("6");
        reveal_strlit("7");
        reveal_strlit("8");
        reveal_strlit("9");
        assert(r@ =~= seq![digit_char(d as nat)]);
    }
    r
}

/// Append the decimal rendering of `n` to `out`, most significant digit
/// first.
fn push_decimal(n: usize, out: &mut String)
    ensures
        final(out)@ == old(out)@ + decimal_chars(n as nat),
    decreases n,
{
    if n >= 10 {
        push_decimal(n / 10, out);
    }
    let d = digit_str(n % 10);
    out.append(d);
    proof {
        assert(out@ =~= old(out)@ + decimal_chars(n as nat));
    }
}

/// The decimal rendering of `n` as a fresh string.
pub fn decimal_string(n: usize) -> (s: String)
    ensures
        s@ == decimal_chars(n as nat),
{
    let mut s = String::new();
    push_decimal(n, &mut s);
    proof {
        assert(s@ =~= decimal_chars(n as nat));
    }
    s
}

} // verus!
