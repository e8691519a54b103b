//! Decimal rendering of integers, used for element literals and generated
//! kernel names. Fully specified: the rendered text is pinned down to the
//! exact character sequence.

use vstd::prelude::*;

verus! {

/// The character for one decimal digit.
pub open spec fn digit_char(d: nat) -> char {
    if d == 0 {
        '0'
    } else if d == 1 {
        '1'
    } else if d == 2 {
        '2'
    } else if d == 3 {
        '3'
    } else if d == 4 {
        '4'
    } else if d == 5 {
        '5'
    } else if d == 6 {
        '6'
    } else if d == 7 {
        '7'
    } else if d == 8 {
        '8'
    } else {
        '9'
    }
}

/// The decimal digits of `n`, most significant first, with no sign and no
/// leading zeros (except for `n == 0` itself).
pub open spec fn dec_digits(n: nat) -> Seq<char>
    decreases n,
{
    if n < 10 {
        seq![digit_char(n)]
    } else {
        dec_digits(n / 10).push(digit_char(n % 10))
    }
}

/// The decimal rendering of a possibly negative integer.
pub open spec fn int_literal(v: int) -> Seq<char> {
    if v < 0 {
        seq!['-'] + dec_digits((-v) as nat)
    } else {
        dec_digits(v as nat)
    }
}

/// One decimal digit as borrowed text.
fn digit_str(d: u64) -> (r: &'static str)
    requires
        d < 10,
    ensures
        r@ =~= seq![digit_char(d as nat)],
{
    proof {
        reveal_strlit("0");
        reveal_strlit("1");
        reveal_strlit("2");
        reveal_strlit("3");
        reveal_strlit("4");
        reveal_strlit("5");
        reveal_strlit("6");
        reveal_strlit("7");
        reveal_strlit("8");
        reveal_strlit("9");
    }
    if d == 0 {
        "0"
    } else if d == 1 {
        "1"
    } else if d == 2 {
        "2"
    } else if d == 3 {
        "3"
    } else if d == 4 {
        "4"
    } else if d == 5 {
        "5"
    } else if d == 6 {
        "6"
    } else if d == 7 {
        "7"
    } else if d == 8 {
        "8"
    } else {
        "9"
    }
}

/// Render an unsigned value in decimal.
pub fn u64_to_dec(n: u64) -> (r: String)
    ensures
        r@ =~= dec_digits(n as nat),
{
    let mut s = String::new();
    if n == 0 {
        s.append(digit_str(0));
        return s;
    }
    let mut m = n;
    while m > 0
        invariant
            if m > 0 {
                dec_digits(n as nat) =~= dec_digits(m as nat) + s@
            } else {
                dec_digits(n as nat) =~= s@
            },
        decreases m,
    {
        let d = m % 10;
        let rest = m / 10;
        let mut s2 = String::new();
        s2.append(digit_str(d));
        s2.append(s.as_str());
        proof {
            assert(s2@ =~= seq![digit_char(d as nat)] + s@);
            if rest > 0 {
                assert(dec_digits(m as nat) =~= dec_digits(rest as nat).push(
                    digit_char(d as nat),
                ));
                assert(dec_digits(m as nat) + s@ =~= dec_digits(rest as nat) + s2@);
            } else {
                assert(m < 10);
                assert(dec_digits(m as nat) =~= seq![digit_char(d as nat)]);
            }
        }
        s = s2;
        m = rest;
    }
    s
}

/// Render a usize value in decimal.
pub fn usize_to_dec(n: usize) -> (r: String)
    ensures
        r@ =~= dec_digits(n as nat),
{
    u64_to_dec(n as u64)
}

/// Render a signed value in decimal, with a leading minus sign when
/// negative.
pub fn i64_to_dec(v: i64) -> (r: String)
    ensures
        r@ =~= int_literal(v as int),
{
    if v >= 0 {
        u64_to_dec(v as u64)
    } else {
        let w: i64 = 0i64.wrapping_sub(v);
        let mag: u64 = w as u64;
        proof {
            if v == i64::MIN {
                assert(w == i64::MIN);
                assert((-9223372036854775808i64) as u64 == 9223372036854775808u64)
                    by (bit_vector);
                assert(mag as int == -(v as int));
            } else {
                assert(w as int == -(v as int));
                assert(w >= 0);
                assert(mag as int == w as int);
            }
        }
        let mut s = String::new();
        proof {
            reveal_strlit("-");
        }
        s.append("-");
        let digits = u64_to_dec(mag);
        s.append(digits.as_str());
        proof {
            assert(s@ =~= seq!['-'] + dec_digits(mag as nat));
        }
        s
    }
}

} // verus!
