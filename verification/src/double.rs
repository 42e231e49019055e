//! Double-precision numbers as the library reads them: by their bits.
//!
//! A finite double is a whole number of the smallest double there is, so that
//! how far two of them are apart is a matter of integers.

use vstd::arithmetic::power2::{
    lemma2_to64, lemma2_to64_rest, lemma_pow2_adds, lemma_pow2_pos, lemma_pow2_strictly_increases,
    pow2,
};
use vstd::prelude::*;

verus! {

/// A double-precision number.
#[derive(Debug, PartialEq, Eq)]
pub struct Double {
    /// Its bits: the sign, eleven of the exponent and fifty-two of the mantissa.
    pub bits: u64,
    /// The number as it is shown to a programmer (`2.0` for two).
    pub text: String,
}

/// How far a number may be from the one it is compared with.
#[derive(Clone, Copy, Debug, PartialEq, Eq, Structural)]
pub enum Within {
    /// Less than the double nearest to a billionth.
    Billionth,
    /// Less than the double nearest to a millionth.
    Millionth,
    /// Less than the distance from one to the next greater double.
    Epsilon,
}

impl Within {
    /// The bits of the distance.
    pub open spec fn distance(self) -> u64 {
        match self {
            Within::Billionth => 0x3E11_2E0B_E826_D695,
            Within::Millionth => 0x3EB0_C6F7_A0B5_ED8D,
            Within::Epsilon => 0x3CB0_0000_0000_0000,
        }
    }
}

/// The exponent, as the bits hold it.
pub open spec fn exponent(bits: u64) -> int {
    bits as int / 0x10_0000_0000_0000 % 2048
}

/// The mantissa, with the leading one that the bits leave out.
pub open spec fn mantissa(bits: u64) -> int {
    bits as int % 0x10_0000_0000_0000 + if exponent(bits) == 0 {
        0int
    } else {
        0x10_0000_0000_0000
    }
}

/// The bits are those of a number, not of an infinity nor of none.
pub open spec fn is_finite(bits: u64) -> bool {
    exponent(bits) != 2047
}

/// The bits are those of zero, of either sign.
pub open spec fn is_zero(bits: u64) -> bool {
    bits == 0 || bits == 0x8000_0000_0000_0000
}

/// The number without its sign, counted in the smallest double above zero,
/// which is two to the power of minus 1074.
pub open spec fn magnitude(bits: u64) -> int {
    mantissa(bits) * pow2(
        if exponent(bits) == 0 {
            0
        } else {
            (exponent(bits) - 1) as nat
        },
    ) as int
}

/// The number, counted in the smallest double above zero.
pub open spec fn units(bits: u64) -> int {
    if bits < 0x8000_0000_0000_0000 {
        magnitude(bits)
    } else {
        -magnitude(bits)
    }
}

/// The number is closer to so many halves than the distance.
pub open spec fn near(bits: u64, halves: u64, within: Within) -> bool {
    let off = units(bits) - halves * pow2(1073);
    is_finite(bits) && -units(within.distance()) < off < units(within.distance())
}

/// Two doubles are equal as numbers: zero equals zero of the other sign.
pub open spec fn equal(a: u64, b: u64) -> bool {
    a == b || (is_zero(a) && is_zero(b))
}

/// Whether two doubles, neither of them no number, are equal.
pub fn same(a: u64, b: u64) -> (r: bool)
    ensures
        r == equal(a, b),
{
    a == b || ((a == 0 || a == 0x8000_0000_0000_0000) && (b == 0 || b == 0x8000_0000_0000_0000))
}

/// A product with a sum of powers, one power at a time.
proof fn lemma_shift(a: int, e: nat, f: nat)
    ensures
        a * pow2(e + f) == (a * pow2(e)) * pow2(f),
{
    lemma_pow2_adds(e, f);
    assert(a * (pow2(e) * pow2(f)) == (a * pow2(e)) * pow2(f)) by (nonlinear_arith);
}

/// Powers of two grow with their exponents.
proof fn lemma_grows(e: nat, f: nat)
    requires
        e <= f,
    ensures
        0 < pow2(e) <= pow2(f),
{
    lemma_pow2_pos(e);
    if e < f {
        lemma_pow2_strictly_increases(e, f);
    }
}

/// A product with a power of two is bounded where its factors are.
proof fn lemma_bound(a: int, b: int, e: nat, f: nat)
    requires
        0 <= a <= b,
        e <= f,
    ensures
        0 <= a * pow2(e) <= b * pow2(f),
{
    lemma_grows(e, f);
    assert(0 <= a * pow2(e) <= b * pow2(f)) by (nonlinear_arith)
        requires
            0 <= a <= b,
            0 < pow2(e) <= pow2(f),
    ;
}

/// Numbers compare as their products with a power of two do.
proof fn lemma_compares(a: int, b: int, e: nat)
    ensures
        a < b <==> a * pow2(e) < b * pow2(e),
{
    lemma_pow2_pos(e);
    assert(a < b <==> a * pow2(e) < b * pow2(e)) by (nonlinear_arith)
        requires
            pow2(e) > 0,
    ;
}

/// What the bits of a number bound.
proof fn lemma_parts(bits: u64)
    ensures
        0 <= exponent(bits) < 2048,
        0 <= mantissa(bits) < 0x20_0000_0000_0000,
        exponent(bits) > 0 ==> mantissa(bits) >= 0x10_0000_0000_0000,
        magnitude(bits) >= 0,
{
    let e = if exponent(bits) == 0 {
        0nat
    } else {
        (exponent(bits) - 1) as nat
    };
    lemma_bound(mantissa(bits), mantissa(bits), e, e);
}

/// The exponent and the mantissa of a distance, and a bound on it.
proof fn lemma_distance(within: Within)
    ensures
        971 <= exponent(within.distance()) <= 1003,
        0x10_0000_0000_0000 <= mantissa(within.distance()) < 0x20_0000_0000_0000,
        units(within.distance()) == mantissa(within.distance()) * pow2(
            (exponent(within.distance()) - 1) as nat,
        ),
        0 < units(within.distance()) < pow2(1072),
{
    let d = within.distance();
    lemma_parts(d);
    let e = (exponent(d) - 1) as nat;
    assert(e <= 1002);
    lemma2_to64_rest();
    lemma_bound(mantissa(d), 0x20_0000_0000_0000, e, 1002);
    lemma_pow2_adds(53, 1002);
    lemma_grows(1055, 1072);
    lemma_pow2_strictly_increases(1055, 1072);
    lemma_pow2_pos(e);
    assert(mantissa(d) * pow2(e) > 0) by (nonlinear_arith)
        requires
            mantissa(d) > 0,
            pow2(e) > 0,
    ;
}

/// `a` times two to the power of `e`.
fn shifted(a: u128, e: u64) -> (r: u128)
    requires
        a * pow2(e as nat) <= u128::MAX,
    ensures
        r == a * pow2(e as nat),
{
    let mut r: u128 = a;
    let mut i: u64 = 0;
    proof {
        lemma2_to64();
        assert(a * pow2(0) == a);
    }
    while i < e
        invariant
            i <= e,
            r == a * pow2(i as nat),
            a * pow2(e as nat) <= u128::MAX,
        decreases e - i,
    {
        proof {
            lemma_shift(a as int, i as nat, 1);
            lemma2_to64();
            lemma_bound(a as int, a as int, (i + 1) as nat, e as nat);
        }
        r = r * 2;
        i += 1;
    }
    r
}

/// Around zero, where only exponents and mantissas are compared.
fn is_near_zero(bits: u64, within: Within) -> (r: bool)
    requires
        is_finite(bits),
    ensures
        r == near(bits, 0, within),
{
    let d: u64 = distance_bits(within);
    let e: u64 = bits / 0x10_0000_0000_0000 % 2048;
    let m: u64 = bits % 0x10_0000_0000_0000;
    let e0: u64 = d / 0x10_0000_0000_0000 % 2048;
    let m0: u64 = d % 0x10_0000_0000_0000;
    proof {
        lemma_parts(bits);
        lemma_distance(within);
        lemma2_to64_rest();
        let f0 = (e0 - 1) as nat;
        assert(0 * pow2(1073) == 0);
        if e < e0 {
            let f = if e == 0 {
                0nat
            } else {
                (e - 1) as nat
            };
            let g = (f0 - 1) as nat;
            lemma_bound(mantissa(bits), 0x1F_FFFF_FFFF_FFFF, f, g);
            lemma_compares(0x1F_FFFF_FFFF_FFFF, 0x20_0000_0000_0000, g);
            lemma_shift(0x10_0000_0000_0000, 1, g);
            lemma2_to64();
            assert(0x20_0000_0000_0000 * pow2(g) == 0x10_0000_0000_0000 * pow2(f0));
            lemma_bound(0x10_0000_0000_0000, mantissa(d), f0, f0);
        } else if e == e0 {
            lemma_compares(mantissa(bits), mantissa(d), f0);
        } else {
            let f = (e - 1) as nat;
            lemma_bound(0x10_0000_0000_0000, mantissa(bits), (f0 + 1) as nat, f);
            lemma_shift(0x10_0000_0000_0000, 1, f0);
            lemma2_to64();
            lemma_compares(mantissa(d), 0x20_0000_0000_0000, f0);
            assert(0x20_0000_0000_0000 * pow2(f0) == 0x10_0000_0000_0000 * pow2((f0 + 1) as nat));
        }
    }
    e < e0 || (e == e0 && m < m0)
}

fn distance_bits(within: Within) -> (r: u64)
    ensures
        r == within.distance(),
{
    match within {
        Within::Billionth => 0x3E11_2E0B_E826_D695,
        Within::Millionth => 0x3EB0_C6F7_A0B5_ED8D,
        Within::Epsilon => 0x3CB0_0000_0000_0000,
    }
}

/// A number that is too small or too large to be near so many halves.
proof fn lemma_far(bits: u64, halves: u64, within: Within)
    requires
        is_finite(bits),
        halves > 0,
        bits >= 0x8000_0000_0000_0000 || exponent(bits) < 1021 || exponent(bits) > 1088,
    ensures
        !near(bits, halves, within),
{
    lemma_parts(bits);
    lemma_distance(within);
    lemma2_to64();
    lemma2_to64_rest();
    lemma_bound(1, halves as int, 1073, 1073);
    lemma_pow2_adds(1, 1072);
    let e = if exponent(bits) == 0 {
        0nat
    } else {
        (exponent(bits) - 1) as nat
    };
    if bits < 0x8000_0000_0000_0000 {
        if exponent(bits) < 1021 {
            lemma_bound(mantissa(bits), 0x20_0000_0000_0000, e, 1019);
            lemma_pow2_adds(53, 1019);
        } else {
            lemma_bound(0x10_0000_0000_0000, mantissa(bits), 1088, e);
            lemma_pow2_adds(52, 1088);
            lemma_bound(halves as int, 0x1_0000_0000_0000_0000, 1073, 1073);
            lemma_pow2_adds(64, 1073);
            lemma_grows(1138, 1140);
            lemma_pow2_adds(1, 1137);
            lemma_grows(1072, 1137);
        }
    }
}

/// In the range where the last place of the number is at most a half, the
/// distance is counted in that place.
proof fn lemma_close(bits: u64, halves: u64, within: Within, whole: int)
    requires
        bits < 0x8000_0000_0000_0000,
        1021 <= exponent(bits) <= 1074,
        whole == halves * pow2((1074 - exponent(bits)) as nat),
    ensures
        near(bits, halves, within) <==> {
            let off = mantissa(bits) - whole;
            let k = (exponent(bits) - exponent(within.distance())) as nat;
            &&& off * pow2(k) < mantissa(within.distance())
            &&& -off * pow2(k) < mantissa(within.distance())
        },
{
    lemma_parts(bits);
    lemma_distance(within);
    let d = within.distance();
    let e = (exponent(bits) - 1) as nat;
    let f = (exponent(d) - 1) as nat;
    let k = (exponent(bits) - exponent(d)) as nat;
    let off = mantissa(bits) - whole;
    lemma_shift(halves as int, (1074 - exponent(bits)) as nat, e);
    assert(halves * pow2(1073) == whole * pow2(e));
    assert(mantissa(bits) * pow2(e) - whole * pow2(e) == off * pow2(e)) by (nonlinear_arith)
        requires
            off == mantissa(bits) - whole,
    ;
    lemma_shift(off, k, f);
    lemma_compares(off * pow2(k), mantissa(d), f);
    lemma_shift(-off, k, f);
    assert(-(off * pow2(e)) == (-off) * pow2(e)) by (nonlinear_arith);
    lemma_compares((-off) * pow2(k), mantissa(d), f);
}

/// In the range where the last place is a whole number of halves, a number is
/// near only where it is those halves.
proof fn lemma_exact(bits: u64, halves: u64, within: Within)
    requires
        bits < 0x8000_0000_0000_0000,
        1075 <= exponent(bits) <= 1088,
    ensures
        near(bits, halves, within) <==> mantissa(bits) * pow2((exponent(bits) - 1074) as nat)
            == halves,
{
    lemma_parts(bits);
    lemma_distance(within);
    let k = (exponent(bits) - 1074) as nat;
    let off = mantissa(bits) * pow2(k) - halves;
    lemma_shift(mantissa(bits), k, 1073);
    assert(mantissa(bits) * pow2(k) * pow2(1073) - halves * pow2(1073) == off * pow2(1073))
        by (nonlinear_arith)
        requires
            off == mantissa(bits) * pow2(k) - halves,
    ;
    lemma_grows(1072, 1073);
    if off > 0 {
        lemma_bound(1, off, 1073, 1073);
    } else if off < 0 {
        lemma_bound(1, -off, 1073, 1073);
        assert((-off) * pow2(1073) == -(off * pow2(1073))) by (nonlinear_arith);
    } else {
        assert(off * pow2(1073) == 0) by (nonlinear_arith)
            requires
                off == 0,
        ;
    }
}

/// Whether the number is closer to so many halves than the distance.
pub fn is_near(bits: u64, halves: u64, within: Within) -> (r: bool)
    ensures
        r == near(bits, halves, within),
{
    let e: u64 = bits / 0x10_0000_0000_0000 % 2048;
    if e == 2047 {
        return false;
    }
    if halves == 0 {
        return is_near_zero(bits, within);
    }
    if bits >= 0x8000_0000_0000_0000 || e < 1021 || e > 1088 {
        proof {
            lemma_far(bits, halves, within);
        }
        return false;
    }
    let m: u128 = (bits % 0x10_0000_0000_0000 + 0x10_0000_0000_0000) as u128;
    proof {
        lemma_parts(bits);
        lemma_distance(within);
        lemma2_to64();
        lemma2_to64_rest();
    }
    if e > 1074 {
        proof {
            lemma_bound(m as int, 0x20_0000_0000_0000, (e - 1074) as nat, 14);
            lemma_exact(bits, halves, within);
        }
        return shifted(m, e - 1074) == halves as u128;
    }
    proof {
        lemma_bound(halves as int, 0x1_0000_0000_0000_0000, (1074 - e) as nat, 53);
    }
    let whole: u128 = shifted(halves as u128, 1074 - e);
    proof {
        lemma_close(bits, halves, within, whole as int);
    }
    let off: u128 = if m >= whole {
        m - whole
    } else {
        whole - m
    };
    let d: u64 = distance_bits(within);
    let k: u64 = e - d / 0x10_0000_0000_0000 % 2048;
    let m0: u128 = (d % 0x10_0000_0000_0000 + 0x10_0000_0000_0000) as u128;
    proof {
        let signed = m - whole;
        lemma_bound(off as int, off as int, k as nat, k as nat);
        assert((-signed) * pow2(k as nat) == -(signed * pow2(k as nat))) by (nonlinear_arith);
        assert(near(bits, halves, within) <==> off * pow2(k as nat) < m0);
    }
    if off == 0 {
        proof {
            assert(off * pow2(k as nat) == 0) by (nonlinear_arith)
                requires
                    off == 0,
            ;
        }
        return true;
    }
    if k >= 53 || off >= 0x20_0000_0000_0000 {
        proof {
            if k >= 53 {
                lemma_bound(1, off as int, 53, k as nat);
            } else {
                lemma_bound(0x20_0000_0000_0000, off as int, 0, k as nat);
            }
        }
        return false;
    }
    proof {
        lemma_bound(off as int, 0x20_0000_0000_0000, k as nat, 53);
    }
    shifted(off, k) < m0
}

} // verus!
