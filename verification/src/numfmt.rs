//! Exact decimal rendering of the engine's fixed-point numbers.
//!
//! A value counts thousandths; it prints as its integer part, and, when the
//! fractional part is not zero, a decimal separator (`.` or `,`) and the
//! fraction with trailing zeros trimmed — so 1500 prints as "1.5" and 2000
//! as "2".

use vstd::prelude::*;
use vstd::arithmetic::div_mod::{
    lemma_fundamental_div_mod_converse_div, lemma_mod_division_less_than_divisor,
};

verus! {

/// The decimal digits of v, most significant first, as ASCII bytes.
pub open spec fn dec_digits(v: nat) -> Seq<u8>
    decreases v,
{
    if v < 10 {
        seq![(48 + v) as u8]
    } else {
        dec_digits(v / 10).push((48 + v % 10) as u8)
    }
}

/// The fraction digits of fp in 1 ..= 999: three digits with trailing zeros
/// trimmed.
pub open spec fn frac_digits(fp: int) -> Seq<u8> {
    let d1 = (48 + fp / 100) as u8;
    let d2 = (48 + (fp / 10) % 10) as u8;
    let d3 = (48 + fp % 10) as u8;
    if fp % 10 != 0 {
        seq![d1, d2, d3]
    } else if (fp / 10) % 10 != 0 {
        seq![d1, d2]
    } else {
        seq![d1]
    }
}

/// The rendering of the fixed-point value v (in thousandths), with `,` as
/// the decimal separator when comma is set and `.` otherwise.
#[verifier::opaque]
pub open spec fn fmt_fixed(v: int, comma: bool) -> Seq<u8> {
    let a = if v < 0 {
        -v
    } else {
        v
    };
    let sign: Seq<u8> = if v < 0 {
        seq![45u8]
    } else {
        Seq::empty()
    };
    let point: u8 = if comma {
        44u8
    } else {
        46u8
    };
    sign + dec_digits((a / 1000) as nat) + if a % 1000 == 0 {
        Seq::<u8>::empty()
    } else {
        seq![point] + frac_digits(a % 1000)
    }
}

/// Append the decimal digits of v.
pub fn push_digits(out: &mut Vec<u8>, v: u64)
    ensures
        final(out)@ == old(out)@ + dec_digits(v as nat),
    decreases v,
{
    if v < 10 {
        out.push(48 + v as u8);
        proof {
            assert(final(out)@ =~= old(out)@ + dec_digits(v as nat));
        }
    } else {
        push_digits(out, v / 10);
        out.push(48 + (v % 10) as u8);
        proof {
            assert(final(out)@ =~= old(out)@ + dec_digits(v as nat));
        }
    }
}

/// Append the rendering of the fixed-point value v.
pub fn push_fixed(out: &mut Vec<u8>, v: i64, comma: bool)
    requires
        v > i64::MIN,
    ensures
        final(out)@ == old(out)@ + fmt_fixed(v as int, comma),
{
    proof {
        reveal(crate::numfmt::fmt_fixed);
    }
    let a: u64 = if v < 0 {
        out.push(45u8);
        (-v) as u64
    } else {
        v as u64
    };
    let point: u8 = if comma {
        44u8
    } else {
        46u8
    };
    push_digits(out, a / 1000);
    let fp: u64 = a % 1000;
    if fp != 0 {
        out.push(point);
        proof {
            lemma_mod_division_less_than_divisor(a as int, 1000);
            lemma_mod_division_less_than_divisor(fp as int / 10, 10);
            lemma_mod_division_less_than_divisor(fp as int, 10);
            vstd::arithmetic::div_mod::lemma_div_pos_is_pos(fp as int, 100);
            vstd::arithmetic::div_mod::lemma_div_pos_is_pos(fp as int, 10);
            assert(fp / 100 <= 9) by {
                vstd::arithmetic::div_mod::lemma_multiply_divide_lt(fp as int, 100, 10);
            }
        }
        let d1: u8 = 48 + (fp / 100) as u8;
        let d2: u8 = 48 + ((fp / 10) % 10) as u8;
        let d3: u8 = 48 + (fp % 10) as u8;
        if fp % 10 != 0 {
            out.push(d1);
            out.push(d2);
            out.push(d3);
        } else if (fp / 10) % 10 != 0 {
            out.push(d1);
            out.push(d2);
        } else {
            out.push(d1);
        }
    }
    proof {
        assert(final(out)@ =~= old(out)@ + fmt_fixed(v as int, comma));
    }
}

/// The normalised order parameter in thousandths, rounded down: for a tally
/// over denom sixth-faces, floor(tally * 1000 / denom).
pub open spec fn eps_milli(sum: int, denom: int) -> int {
    (sum * 1000) / denom
}

/// Compute the normalised order parameter in thousandths.
pub fn eps_milli_exec(sum: i64, denom: i64) -> (r: i64)
    requires
        1 <= denom <= 0x8000_0000,
        -denom <= sum <= denom,
    ensures
        r == eps_milli(sum as int, denom as int),
        -1000 <= r <= 1000,
{
    proof {
        vstd::arithmetic::div_mod::lemma_div_is_ordered(
            sum * 1000,
            denom * 1000,
            denom as int,
        );
        vstd::arithmetic::div_mod::lemma_div_is_ordered(
            -denom * 1000,
            sum * 1000,
            denom as int,
        );
        vstd::arithmetic::div_mod::lemma_div_multiples_vanish(1000, denom as int);
        vstd::arithmetic::div_mod::lemma_div_multiples_vanish(-1000, denom as int);
        assert(denom * 1000 == denom as int * 1000 && -denom * 1000 == denom as int * -1000)
            by (nonlinear_arith);
        assert(-0x8000_0000 * 1000 <= sum * 1000 <= 0x8000_0000 * 1000) by (nonlinear_arith)
            requires
                -0x8000_0000 <= sum <= 0x8000_0000,
        ;
    }
    let a: i64 = sum * 1000;
    if a >= 0 {
        let q: u64 = (a as u64) / (denom as u64);
        q as i64
    } else {
        let b: u64 = (-a) as u64;
        let d: u64 = denom as u64;
        let q0: u64 = b / d;
        let r0: u64 = b % d;
        proof {
            vstd::arithmetic::div_mod::lemma_fundamental_div_mod(b as int, d as int);
            lemma_mod_division_less_than_divisor(b as int, d as int);
            if r0 == 0 {
                assert(a as int == (-(q0 as int)) * (d as int) + 0) by (nonlinear_arith)
                    requires
                        a as int == -(b as int),
                        b as int == (d as int) * (q0 as int) + (r0 as int),
                        r0 == 0,
                ;
                lemma_fundamental_div_mod_converse_div(a as int, d as int, -(q0 as int), 0);
            } else {
                assert(a as int == (-(q0 as int) - 1) * (d as int) + ((d as int) - (r0 as int)))
                    by (nonlinear_arith)
                    requires
                        a as int == -(b as int),
                        b as int == (d as int) * (q0 as int) + (r0 as int),
                ;
                lemma_fundamental_div_mod_converse_div(
                    a as int,
                    d as int,
                    -(q0 as int) - 1,
                    (d as int) - (r0 as int),
                );
            }
        }
        if r0 == 0 {
            -(q0 as i64)
        } else {
            -(q0 as i64) - 1
        }
    }
}

} // verus!
