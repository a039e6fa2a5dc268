//! Decimal text of integers, as the request lines and the table cells carry it.

use vstd::prelude::*;

verus! {

/// The character that writes one decimal digit.
pub open spec fn digit_char(d: int) -> char
    recommends
        0 <= d <= 9,
{
    if d == 0 {
        '0'
    } else if d == 1 {
        '1'
    } else if d == 2 {
        '2'
    } else if d == 3 {
        '3'
    } else if d == 4 {
        '4'
    } else if d == 5 {
        '5'
    } else if d == 6 {
        '6'
    } else if d == 7 {
        '7'
    } else if d == 8 {
        '8'
    } else {
        '9'
    }
}

/// The digits of a natural number in base ten, most significant first,
/// with no leading zero (zero itself is the single digit `0`).
pub open spec fn digits(n: nat) -> Seq<char>
    decreases n,
{
    if n < 10 {
        seq![digit_char(n as int)]
    } else {
        digits(n / 10).push(digit_char((n % 10) as int))
    }
}

/// The decimal text of an integer: a minus sign if it is negative, then the
/// digits of its magnitude.
pub open spec fn decimal(n: int) -> Seq<char> {
    if n < 0 {
        seq!['-'] + digits((-n) as nat)
    } else {
        digits(n as nat)
    }
}

fn digit_str(d: u8) -> (s: &'static str)
    requires
        d <= 9,
    ensures
        s@ == seq![digit_char(d as int)],
{
    proof {
        reveal_strlit("0");
        reveal_strlit("1");
        reveal_strlit("2");
        reveal_strlit("3");
        reveal_strlit("4");
        reveal_strlit("5");
        reveal_strlit("6");
        reveal_strlit("7");
        reveal_strlit("8");
        reveal_strlit("9");
    }
    let s: &'static str = if d == 0 {
        "0"
    } else if d == 1 {
        "1"
    } else if d == 2 {
        "2"
    } else if d == 3 {
        "3"
    } else if d == 4 {
        "4"
    } else if d == 5 {
        "5"
    } else if d == 6 {
        "6"
    } else if d == 7 {
        "7"
    } else if d == 8 {
        "8"
    } else {
        "9"
    };
    assert(s@ =~= seq![digit_char(d as int)]);
    s
}

/// Appends the digits of `n` to `out`.
pub fn push_digits(out: &mut String, n: u64)
    ensures
        final(out)@ == old(out)@ + digits(n as nat),
    decreases n,
{
    if n >= 10 {
        push_digits(out, n / 10);
    }
    out.append(digit_str((n % 10) as u8));
    assert(out@ =~= old(out)@ + digits(n as nat));
}

/// Appends the decimal text of `v` to `out`.
pub fn push_decimal(out: &mut String, v: i64)
    ensures
        final(out)@ == old(out)@ + decimal(v as int),
{
    if v < 0 {
        proof {
            reveal_strlit("-");
        }
        out.append("-");
        let magnitude: u64 = (-(v as i128)) as u64;
        push_digits(out, magnitude);
        assert(out@ =~= old(out)@ + decimal(v as int));
    } else {
        push_digits(out, v as u64);
    }
}

/// The decimal text of a signed integer.
pub fn i64_to_decimal(v: i64) -> (s: String)
    ensures
        s@ == decimal(v as int),
{
    let mut s = String::new();
    push_decimal(&mut s, v);
    assert(s@ =~= decimal(v as int));
    s
}

/// The decimal text of an index.
pub fn usize_to_decimal(v: usize) -> (s: String)
    ensures
        s@ == decimal(v as int),
{
    let mut s = String::new();
    push_digits(&mut s, v as u64);
    assert(s@ =~= decimal(v as int));
    s
}

} // verus!
