//! Base-10 rendering of the decoded integer values, both unsigned and in
//! two's-complement signed reinterpretation.

use crate::chars::push_char;
use vstd::prelude::*;
use vstd::string::StringExecFns;

verus! {

/// The decimal digit character for `d`, which must lie in 0..=9.
pub open spec fn dec_digit(d: int) -> char {
    ((48 + d) as char)
}

/// The base-10 digits of `n`, most significant first, without leading
/// zeros; the empty sequence for zero.
pub open spec fn dec_rest(n: nat) -> Seq<char>
    decreases n,
{
    if n == 0 {
        Seq::empty()
    } else {
        dec_rest(n / 10) + seq![dec_digit((n % 10) as int)]
    }
}

/// The base-10 rendering of a non-negative value, as `to_string` writes it.
pub open spec fn dec_str(n: nat) -> Seq<char> {
    if n == 0 {
        seq!['0']
    } else {
        dec_rest(n)
    }
}

/// The base-10 rendering of an integer: a leading '-' when negative.
pub open spec fn int_str(n: int) -> Seq<char> {
    if n < 0 {
        seq!['-'] + dec_str((-n) as nat)
    } else {
        dec_str(n as nat)
    }
}

/// The value an unsigned number `v` stands for when its bits are read as a
/// two's-complement signed number; `m` is 2 to the bit width.
pub open spec fn signed_val(v: int, m: int) -> int {
    if 2 * v < m {
        v
    } else {
        v - m
    }
}

fn digit_char(d: u128) -> (c: char)
    requires
        d < 10,
    ensures
        c == dec_digit(d as int),
{
    proof {
        assert(d as u8 as u128 == d) by (bit_vector)
            requires
                d < 10,
        ;
    }
    let b: u8 = (d as u8) + 48;
    b as char
}

/// Renders `n` in base 10, exactly as `u128::to_string` does.
pub fn u128_dec(n: u128) -> (s: String)
    ensures
        s@ == dec_str(n as nat),
{
    let mut digits: Vec<char> = Vec::new();
    if n == 0 {
        let c = digit_char(0);
        digits.push(c);
    } else {
        let mut m: u128 = n;
        while m > 0
            invariant
                dec_rest(n as nat) =~= dec_rest(m as nat) + digits@.reverse(),
            decreases m,
        {
            let r: u128 = m % 10;
            let c = digit_char(r);
            let ghost pre = digits@;
            digits.push(c);
            proof {
                assert(digits@.reverse() =~= seq![dec_digit(r as int)] + pre.reverse());
                assert(dec_rest(m as nat) == dec_rest((m as nat) / 10) + seq![
                    dec_digit(((m as nat) % 10) as int),
                ]);
                assert(dec_rest(n as nat) =~= dec_rest((m as nat) / 10) + digits@.reverse());
                assert(m / 10 < m) by (nonlinear_arith)
                    requires
                        m > 0,
                ;
            }
            m = m / 10;
        }
    }
    proof {
        assert(digits@.reverse() =~= dec_str(n as nat));
    }
    let mut s = String::new();
    let mut i: usize = digits.len();
    while i > 0
        invariant
            i <= digits.len(),
            s@.len() == digits@.len() - i,
            forall|k: int| 0 <= k < s@.len() ==> s@[k] == digits@[digits@.len() - 1 - k],
        decreases i,
    {
        i = i - 1;
        let c = digits[i];
        push_char(&mut s, c);
    }
    proof {
        assert(s@ =~= digits@.reverse());
    }
    s
}

/// Renders the two's-complement signed reading of `v` in base 10; `half`
/// is 2 to one less than the bit width, so the width's sign threshold.
pub fn signed_dec(v: u128, half: u128) -> (s: String)
    requires
        1 <= half,
        (v as int) < 2 * (half as int),
    ensures
        s@ == int_str(signed_val(v as int, 2 * (half as int))),
{
    if v < half {
        u128_dec(v)
    } else {
        let mag: u128 = half - (v - half);
        let num = u128_dec(mag);
        let mut s = String::from_str("-");
        proof {
            reveal_strlit("-");
        }
        s.append(num.as_str());
        proof {
            assert(s@ =~= seq!['-'] + dec_str(mag as nat));
        }
        s
    }
}

} // verus!
