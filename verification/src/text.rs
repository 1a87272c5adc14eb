//! Text building: the contracts of the standard string-append operations,
//! and verified decimal and hexadecimal rendering of integers.

use vstd::prelude::*;

verus! {

/// Relies on String::push: appends exactly the given character.
pub assume_specification[ String::push ](s: &mut String, ch: char)
    ensures
        final(s)@ == old(s)@.push(ch),
;

/// Relies on String::push_str: appends exactly the given string slice.
pub assume_specification[ String::push_str ](s: &mut String, other: &str)
    ensures
        final(s)@ == old(s)@ + other@,
;

/// The character for one decimal or hexadecimal digit value.
pub open spec fn spec_digit(d: int) -> char {
    if d == 0 {
        '0'
    } else if d == 1 {
        '1'
    } else if d == 2 {
        '2'
    } else if d == 3 {
        '3'
    } else if d == 4 {
        '4'
    } else if d == 5 {
        '5'
    } else if d == 6 {
        '6'
    } else if d == 7 {
        '7'
    } else if d == 8 {
        '8'
    } else if d == 9 {
        '9'
    } else if d == 10 {
        'a'
    } else if d == 11 {
        'b'
    } else if d == 12 {
        'c'
    } else if d == 13 {
        'd'
    } else if d == 14 {
        'e'
    } else {
        'f'
    }
}

/// The decimal rendering of a non-negative integer, most significant digit
/// first, with no leading zeros (a lone `0` for zero).
pub open spec fn spec_dec(n: int) -> Seq<char>
    decreases n,
{
    if n < 10 {
        seq![spec_digit(n)]
    } else {
        spec_dec(n / 10).push(spec_digit(n % 10))
    }
}

/// The decimal rendering of a signed integer: a minus sign followed by the
/// magnitude when negative.
pub open spec fn spec_dec_signed(i: int) -> Seq<char> {
    if i < 0 {
        seq!['-'] + spec_dec(-i)
    } else {
        spec_dec(i)
    }
}

/// The hexadecimal rendering of a non-negative integer, most significant
/// digit first, lower case, with no leading zeros.
pub open spec fn spec_hex(n: int) -> Seq<char>
    decreases n,
{
    if n < 16 {
        seq![spec_digit(n)]
    } else {
        spec_hex(n / 16).push(spec_digit(n % 16))
    }
}

/// One digit value as a character.
fn digit_char(d: u64) -> (c: char)
    requires
        d < 16,
    ensures
        c == spec_digit(d as int),
{
    if d == 0 {
        '0'
    } else if d == 1 {
        '1'
    } else if d == 2 {
        '2'
    } else if d == 3 {
        '3'
    } else if d == 4 {
        '4'
    } else if d == 5 {
        '5'
    } else if d == 6 {
        '6'
    } else if d == 7 {
        '7'
    } else if d == 8 {
        '8'
    } else if d == 9 {
        '9'
    } else if d == 10 {
        'a'
    } else if d == 11 {
        'b'
    } else if d == 12 {
        'c'
    } else if d == 13 {
        'd'
    } else if d == 14 {
        'e'
    } else {
        'f'
    }
}

/// Appends the decimal rendering of `n` to `out`.
pub fn push_dec_u64(out: &mut String, n: u64)
    ensures
        final(out)@ == old(out)@ + spec_dec(n as int),
    decreases n,
{
    if n >= 10 {
        push_dec_u64(out, n / 10);
    }
    out.push(digit_char(n % 10));
    proof {
        assert(final(out)@ =~= old(out)@ + spec_dec(n as int));
    }
}

/// Appends the decimal rendering of `i`, sign included, to `out`.
pub fn push_dec_i64(out: &mut String, i: i64)
    ensures
        final(out)@ == old(out)@ + spec_dec_signed(i as int),
{
    if i < 0 {
        out.push('-');
        let magnitude: u64 = ((-(i + 1)) as u64) + 1;
        assert(magnitude == -(i as int));
        push_dec_u64(out, magnitude);
        proof {
            assert(final(out)@ =~= old(out)@ + spec_dec_signed(i as int));
        }
    } else {
        push_dec_u64(out, i as u64);
    }
}

/// Appends the hexadecimal rendering of `n` to `out`.
pub fn push_hex_u64(out: &mut String, n: u64)
    ensures
        final(out)@ == old(out)@ + spec_hex(n as int),
    decreases n,
{
    if n >= 16 {
        push_hex_u64(out, n / 16);
    }
    out.push(digit_char(n % 16));
    proof {
        assert(final(out)@ =~= old(out)@ + spec_hex(n as int));
    }
}

} // verus!
