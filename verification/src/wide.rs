//! Products of three 128-bit values, and their quotients.
//!
//! Such a product needs up to 384 bits. It is kept in three limbs of 128 bits and
//! divided limb by limb, so that a quotient is exact whatever the size of the product.
use vstd::prelude::*;
use vstd::arithmetic::div_mod::lemma_div_denominator;
use vstd::arithmetic::div_mod::lemma_fundamental_div_mod_converse;
use vstd::arithmetic::div_mod::lemma_multiply_divide_lt;
use vstd::pervasive::unreached;
use crate::fixed_point::add_residues;
use crate::fixed_point::mul_div_rem;

verus! {

/// Two to the power of 64, the weight of the upper half of a limb.
pub const HALF: u128 = 0x1_0000_0000_0000_0000;

/// Two to the power of 128, the weight of a limb.
pub open spec fn limb() -> nat {
    (u128::MAX as nat) + 1
}

/// `a * b * c / d`, rounded down; zero where `d` is zero.
pub open spec fn mul3_div_floor(a: nat, b: nat, c: nat, d: nat) -> nat {
    if d == 0 {
        0
    } else {
        (a * b * c) / d
    }
}

/// `a * b * c / (d * e)`, rounded down; zero where the divisor is zero.
pub open spec fn mul3_div2_floor(a: nat, b: nat, c: nat, d: nat, e: nat) -> nat {
    if d * e == 0 {
        0
    } else {
        (a * b * c) / (d * e)
    }
}

/// A number of up to 384 bits in three limbs.
pub struct Wide {
    pub high: u128,
    pub mid: u128,
    pub low: u128,
}

impl Wide {
    /// The number that the limbs stand for.
    pub open spec fn value(&self) -> nat {
        self.high as nat * limb() * limb() + self.mid as nat * limb() + self.low as nat
    }
}

/// Two halves of a limb multiply to less than a limb.
proof fn lemma_half_product(x: u128, y: u128)
    requires
        x < HALF,
        y < HALF,
    ensures
        x * y <= 0xffff_ffff_ffff_fffe_0000_0000_0000_0001,
{
    assert(x * y <= (HALF - 1) * (HALF - 1)) by (nonlinear_arith)
        requires
            0 <= x <= HALF - 1,
            0 <= y <= HALF - 1,
    ;
}

/// The product of two limbs, in two limbs.
pub fn mul_wide(a: u128, b: u128) -> (res: (u128, u128))
    ensures
        res.0 as nat * limb() + res.1 as nat == a as nat * b as nat,
{
    let ah: u128 = a / HALF;
    let al: u128 = a % HALF;
    let bh: u128 = b / HALF;
    let bl: u128 = b % HALF;
    proof {
        lemma_half_product(al, bl);
        lemma_half_product(al, bh);
        lemma_half_product(ah, bl);
        lemma_half_product(ah, bh);
    }
    let ll: u128 = al * bl;
    let lh: u128 = al * bh;
    let hl: u128 = ah * bl;
    let hh: u128 = ah * bh;
    let mid1: u128 = lh + ll / HALF;
    let mid2: u128 = hl + mid1 % HALF;
    let low: u128 = (mid2 % HALF) * HALF + ll % HALF;
    proof {
        assert(a * b == hh * (HALF * HALF) + (lh + hl) * HALF + ll) by (nonlinear_arith)
            requires
                a == ah * HALF + al,
                b == bh * HALF + bl,
                ll == al * bl,
                lh == al * bh,
                hl == ah * bl,
                hh == ah * bh,
        ;
        assert(a * b <= u128::MAX * u128::MAX) by (nonlinear_arith)
            requires
                0 <= a <= u128::MAX,
                0 <= b <= u128::MAX,
        ;
        assert(HALF * HALF == limb());
        let product: int = a * b;
        let square: int = HALF * HALF;
        let (q0, r0): (int, int) = (ll as int / HALF as int, ll as int % HALF as int);
        let (q1, r1): (int, int) = (mid1 as int / HALF as int, mid1 as int % HALF as int);
        let (q2, r2): (int, int) = (mid2 as int / HALF as int, mid2 as int % HALF as int);
        assert((hh + q1 + q2) * square + low == product) by (nonlinear_arith)
            requires
                product == hh * square + (lh + hl) * HALF + ll,
                square == HALF * HALF,
                ll == q0 * HALF + r0,
                mid1 == lh + q0,
                mid1 == q1 * HALF + r1,
                mid2 == hl + r1,
                mid2 == q2 * HALF + r2,
                low == r2 * HALF + r0,
        ;
        assert(hh + q1 + q2 <= u128::MAX) by (nonlinear_arith)
            requires
                (hh + q1 + q2) * square + low == product,
                product <= u128::MAX * u128::MAX,
                square == u128::MAX + 1,
                low >= 0,
        ;
    }
    let high: u128 = hh + mid1 / HALF + mid2 / HALF;
    (high, low)
}

/// Quotient and remainder of `r * 2^64 + digit` by `d`, for a remainder `r` of a
/// division by `d` and a digit of 64 bits.
fn div_step(r: u128, digit: u128, d: u128) -> (res: (u128, u128))
    requires
        r < d,
        digit < HALF,
    ensures
        r * HALF + digit == res.0 * d + res.1,
        res.1 < d,
        res.0 < HALF,
{
    proof {
        assert(r * HALF < d * HALF) by (nonlinear_arith)
            requires
                r < d,
        ;
        lemma_multiply_divide_lt(r * HALF, d as int, HALF as int);
    }
    let (q1, r1) = match mul_div_rem(r, HALF, d) {
        Some(both) => both,
        None => unreached(),
    };
    let q2: u128 = digit / d;
    let r2: u128 = digit % d;
    let (r3, carry) = add_residues(r1, r2, d);
    proof {
        assert(digit == q2 * d + r2) by (nonlinear_arith)
            requires
                d > 0,
                q2 == digit / d,
                r2 == digit % d,
        ;
        assert(r * HALF + digit == (q1 + q2 + carry) * d + r3) by (nonlinear_arith)
            requires
                r * HALF == q1 * d + r1,
                digit == q2 * d + r2,
                r1 + r2 == carry * d + r3,
        ;
        assert(q1 + q2 + carry < HALF) by (nonlinear_arith)
            requires
                r * HALF + digit == (q1 + q2 + carry) * d + r3,
                r + 1 <= d,
                digit < HALF,
                r3 >= 0,
                d > 0,
        ;
    }
    (q1 + q2 + carry, r3)
}

/// Quotient and remainder of the two limbs `high`, `low` by `d`, for a `high` that
/// is a remainder of a division by `d`.
fn div_wide(high: u128, low: u128, d: u128) -> (res: (u128, u128))
    requires
        high < d,
    ensures
        high as nat * limb() + low as nat == res.0 as nat * d as nat + res.1 as nat,
        res.1 < d,
{
    let (qa, ra) = div_step(high, low / HALF, d);
    let (qb, rb) = div_step(ra, low % HALF, d);
    proof {
        assert(HALF * HALF == limb());
        assert(high * (HALF * HALF) + low == (qa * HALF + qb) * d + rb) by (nonlinear_arith)
            requires
                high * HALF + low / HALF == qa * d + ra,
                ra * HALF + low % HALF == qb * d + rb,
                low == (low / HALF) * HALF + low % HALF,
        ;
    }
    (qa * HALF + qb, rb)
}

impl Wide {
    /// The product of three values.
    pub fn product(a: u128, b: u128, c: u128) -> (w: Wide)
        ensures
            w.value() == a as nat * b as nat * c as nat,
    {
        let (h, l) = mul_wide(a, b);
        let (c1, low) = mul_wide(l, c);
        let (c2, t) = mul_wide(h, c);
        let (mid, carry): (u128, u128) = match t.checked_add(c1) {
            Some(sum) => (sum, 0),
            None => (t - (u128::MAX - c1) - 1, 1),
        };
        proof {
            let base = limb() as int;
            assert(a * b * c == (c2 + carry) * base * base + mid * base + low) by (nonlinear_arith)
                requires
                    h * base + l == a * b,
                    c1 * base + low == l * c,
                    c2 * base + t == h * c,
                    t + c1 == carry * base + mid,
            ;
            assert(a * b * c <= u128::MAX * u128::MAX * u128::MAX) by (nonlinear_arith)
                requires
                    0 <= a <= u128::MAX,
                    0 <= b <= u128::MAX,
                    0 <= c <= u128::MAX,
            ;
            assert(c2 + carry <= u128::MAX) by (nonlinear_arith)
                requires
                    a * b * c == (c2 + carry) * base * base + mid * base + low,
                    a * b * c <= u128::MAX * u128::MAX * u128::MAX,
                    base == u128::MAX + 1,
                    mid >= 0,
                    low >= 0,
            ;
        }
        Wide { high: c2 + carry, mid, low }
    }

    /// Quotient and remainder by `d`; `None` where `d` is zero.
    pub fn divide(&self, d: u128) -> (res: Option<(Wide, u128)>)
        ensures
            res is Some <==> d > 0,
            res matches Some(both) ==> self.value() == both.0.value() * d + both.1 && both.1 < d
                && both.0.value() == self.value() / (d as nat),
    {
        if d == 0 {
            return None;
        }
        let q2: u128 = self.high / d;
        let r2: u128 = self.high % d;
        let (q1, r1) = div_wide(r2, self.mid, d);
        let (q0, r0) = div_wide(r1, self.low, d);
        let quotient = Wide { high: q2, mid: q1, low: q0 };
        proof {
            let base = limb() as int;
            assert(self.high == q2 * d + r2) by (nonlinear_arith)
                requires
                    d > 0,
                    q2 == self.high / d,
                    r2 == self.high % d,
            ;
            assert(self.high * base * base + self.mid * base + self.low == (q2 * base * base + q1
                * base + q0) * d + r0) by (nonlinear_arith)
                requires
                    self.high == q2 * d + r2,
                    r2 * base + self.mid == q1 * d + r1,
                    r1 * base + self.low == q0 * d + r0,
            ;
            lemma_fundamental_div_mod_converse(
                self.value() as int,
                d as int,
                quotient.value() as int,
                r0 as int,
            );
        }
        Some((quotient, r0))
    }

    /// The number where it fits in one limb.
    pub fn narrow(&self) -> (res: Option<u128>)
        ensures
            res == (if self.value() <= u128::MAX {
                Some(self.value() as u128)
            } else {
                None
            }),
    {
        proof {
            let base = limb() as int;
            if self.high > 0 || self.mid > 0 {
                assert(self.high * base * base + self.mid * base >= base) by (nonlinear_arith)
                    requires
                        self.high > 0 || self.mid > 0,
                        self.high >= 0,
                        self.mid >= 0,
                        base > 0,
                ;
            }
        }
        if self.high == 0 && self.mid == 0 {
            Some(self.low)
        } else {
            None
        }
    }
}

/// Computes `a * b * c / d` rounded down, exactly.
///
/// Returns `None` where `d` is zero or the quotient does not fit in a `u128`.
pub fn mul3_div(a: u128, b: u128, c: u128, d: u128) -> (res: Option<u128>)
    ensures
        res == (if d > 0 && mul3_div_floor(a as nat, b as nat, c as nat, d as nat) <= u128::MAX {
            Some(mul3_div_floor(a as nat, b as nat, c as nat, d as nat) as u128)
        } else {
            None
        }),
{
    if d == 0 {
        return None;
    }
    let product = Wide::product(a, b, c);
    match product.divide(d) {
        Some(both) => both.0.narrow(),
        None => None,
    }
}

/// Computes `a * b * c / (d * e)` rounded down, exactly.
///
/// Returns `None` where `d` or `e` is zero or the quotient does not fit in a `u128`.
pub fn mul3_div2(a: u128, b: u128, c: u128, d: u128, e: u128) -> (res: Option<u128>)
    ensures
        res == (if d > 0 && e > 0 && mul3_div2_floor(
            a as nat,
            b as nat,
            c as nat,
            d as nat,
            e as nat,
        ) <= u128::MAX {
            Some(mul3_div2_floor(a as nat, b as nat, c as nat, d as nat, e as nat) as u128)
        } else {
            None
        }),
{
    if d == 0 || e == 0 {
        return None;
    }
    let product = Wide::product(a, b, c);
    proof {
        assert(d * e > 0) by (nonlinear_arith)
            requires
                d > 0,
                e > 0,
        ;
        lemma_div_denominator(product.value() as int, d as int, e as int);
    }
    let first: Wide = match product.divide(d) {
        Some(both) => both.0,
        None => {
            return None;
        },
    };
    match first.divide(e) {
        Some(both) => both.0.narrow(),
        None => None,
    }
}

} // verus!
