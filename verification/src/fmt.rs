//! Decimal rendering of integers (as `Display` for the integer types does).
use vstd::prelude::*;

use crate::text::string_push;

verus! {

pub open spec fn digit(d: int) -> char {
    (('0' as int) + d) as char
}

/// Decimal digits of a non-negative integer, most significant first.
pub open spec fn decimal(x: int) -> Seq<char>
    decreases x,
{
    if x < 10 {
        seq![digit(x)]
    } else {
        decimal(x / 10) + seq![digit(x % 10)]
    }
}

/// Decimal rendering of a signed integer, with a leading `-` when negative.
pub open spec fn signed_decimal(x: int) -> Seq<char> {
    if x < 0 {
        seq!['-'] + decimal(-x)
    } else {
        decimal(x)
    }
}

/// Append the decimal digits of `n` to `s`.
pub fn push_u64(s: &mut String, n: u64)
    ensures
        final(s)@ == old(s)@ + decimal(n as int),
    decreases n,
{
    if n >= 10 {
        push_u64(s, n / 10);
    }
    let d: u8 = (n % 10) as u8;
    string_push(s, (48u8 + d) as char);
    assert(final(s)@ =~= old(s)@ + decimal(n as int));
}

/// Append the decimal rendering of `n` to `s`.
pub fn push_i64(s: &mut String, n: i64)
    ensures
        final(s)@ == old(s)@ + signed_decimal(n as int),
{
    if n < 0 {
        string_push(s, '-');
        let m: u64 = (0i128 - (n as i128)) as u64;
        push_u64(s, m);
        assert(final(s)@ =~= old(s)@ + signed_decimal(n as int));
    } else {
        push_u64(s, n as u64);
    }
}

} // verus!
