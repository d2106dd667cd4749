//! Decimal rendering of integers, used to format a character's numeric
//! value. The spec functions give the digit string mathematically; the
//! executable functions are proved to produce exactly that string.

use vstd::prelude::*;

verus! {

/// The decimal digit character for `d` (meaningful for `d < 10`).
pub open spec fn digit_char(d: nat) -> char {
    if d == 0 {
        '0'
    } else if d == 1 {
        '1'
    } else if d == 2 {
        '2'
    } else if d == 3 {
        '3'
    } else if d == 4 {
        '4'
    } else if d == 5 {
        '5'
    } else if d == 6 {
        '6'
    } else if d == 7 {
        '7'
    } else if d == 8 {
        '8'
    } else {
        '9'
    }
}

/// The decimal digit string of `n`, most significant digit first,
/// without a sign and without leading zeros (`0` itself is `"0"`).
pub open spec fn dec_digits(n: nat) -> Seq<char>
    decreases n,
{
    if n < 10 {
        seq![digit_char(n)]
    } else {
        dec_digits(n / 10) + seq![digit_char(n % 10)]
    }
}

/// The decimal string of `n`: its digits, preceded by `'-'` when negative.
pub open spec fn int_str(n: int) -> Seq<char> {
    if n < 0 {
        seq!['-'] + dec_digits((-n) as nat)
    } else {
        dec_digits(n as nat)
    }
}

/// Appends the single decimal digit character for `d` to `out`.
fn append_digit(d: u64, out: &mut String)
    requires
        d < 10,
    ensures
        final(out)@ == old(out)@ + seq![digit_char(d as nat)],
{
    proof {
        reveal_strlit("0");
        reveal_strlit("1");
        reveal_strlit("2");
        reveal_strlit("3");
        reveal_strlit("4");
        reveal_strlit("5");
        reveal_strlit("6");
        reveal_strlit("7");
        reveal_strlit("8");
        reveal_strlit("9");
    }
    if d == 0 {
        out.append("0");
    } else if d == 1 {
        out.append("1");
    } else if d == 2 {
        out.append("2");
    } else if d == 3 {
        out.append("3");
    } else if d == 4 {
        out.append("4");
    } else if d == 5 {
        out.append("5");
    } else if d == 6 {
        out.append("6");
    } else if d == 7 {
        out.append("7");
    } else if d == 8 {
        out.append("8");
    } else {
        out.append("9");
    }
    proof {
        assert(out@ =~= old(out)@ + seq![digit_char(d as nat)]);
    }
}

/// Appends the decimal digits of `n` to `out`, most significant first.
fn append_dec(n: u64, out: &mut String)
    ensures
        final(out)@ == old(out)@ + dec_digits(n as nat),
    decreases n,
{
    if n >= 10 {
        append_dec(n / 10, out);
    }
    append_digit(n % 10, out);
    proof {
        assert(out@ =~= old(out)@ + dec_digits(n as nat));
    }
}

/// Renders `n` in decimal, with a leading `'-'` when negative.
pub fn i64_to_string(n: i64) -> (s: String)
    ensures
        s@ == int_str(n as int),
{
    let mut s = String::new();
    if n >= 0 {
        append_dec(n as u64, &mut s);
    } else {
        proof {
            reveal_strlit("-");
        }
        s.append("-");
        let wide: i128 = n as i128;
        let mag: u64 = (-wide) as u64;
        proof {
            assert(mag == -(n as int));
        }
        append_dec(mag, &mut s);
        proof {
            assert(s@ =~= int_str(n as int));
        }
    }
    s
}

} // verus!
