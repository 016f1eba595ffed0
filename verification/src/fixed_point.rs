//! Fixed-point arithmetic on 128-bit unsigned integers.
//!
//! The one operation that needs more than 128 bits, a product followed by a
//! division, is computed here without ever leaving `u128`.
use vstd::prelude::*;
use vstd::arithmetic::div_mod::lemma_fundamental_div_mod_converse;
use vstd::arithmetic::div_mod::lemma_div_is_ordered;
use vstd::arithmetic::div_mod::lemma_div_multiples_vanish;
use vstd::arithmetic::mul::lemma_mul_inequality;
use vstd::arithmetic::mul::lemma_mul_is_commutative;
use vstd::arithmetic::div_mod::lemma_div_by_multiple;
use vstd::pervasive::unreached;

verus! {

/// Denominator of every fixed-point fraction: a stored value `v` stands for `v / BP`.
pub const BP: u64 = 1_000_000_000;

/// Number of seconds in a year of 365 days.
pub const SECONDS_PER_YEAR: u64 = 31_536_000;

/// `BP` as a mathematical integer.
pub open spec fn bp() -> nat {
    1_000_000_000
}

/// `a * b / d`, rounded down; zero where `d` is zero.
pub open spec fn mul_div_floor(a: nat, b: nat, d: nat) -> nat {
    if d == 0 {
        0
    } else {
        (a * b) / d
    }
}

/// Sum of two residues modulo `d`, with the carry into the quotient.
pub(crate) fn add_residues(x: u128, y: u128, d: u128) -> (res: (u128, u128))
    requires
        x < d,
        y < d,
    ensures
        res.0 < d,
        res.1 <= 1,
        x + y == res.1 * d + res.0,
{
    let gap: u128 = d - y;
    if x >= gap {
        (x - gap, 1)
    } else {
        (x + y, 0)
    }
}

/// A dividend of at least `k * d` has a quotient by `d` of at least `k`.
pub proof fn lemma_quotient_at_least(x: int, k: int, d: int)
    requires
        d > 0,
        x >= k * d,
    ensures
        x / d >= k,
{
    lemma_div_is_ordered(k * d, x, d);
    lemma_div_multiples_vanish(k, d);
    lemma_mul_is_commutative(k, d);
}

/// Sum of two quotients and a carry, where it fits.
fn add_quotients(q1: u128, q2: u128, carry: u128) -> (res: Option<u128>)
    ensures
        res == (if q1 + q2 + carry <= u128::MAX {
            Some((q1 + q2 + carry) as u128)
        } else {
            None
        }),
{
    match q1.checked_add(q2) {
        Some(s) => s.checked_add(carry),
        None => None,
    }
}

/// `(a * b) % d`; zero where `d` is zero.
pub open spec fn mul_rem(a: nat, b: nat, d: nat) -> nat {
    if d == 0 {
        0
    } else {
        (a * b) % d
    }
}

/// Computes `a * b / d` rounded down, exactly, although the product may need 256 bits.
///
/// Returns `None` where `d` is zero or the quotient does not fit in a `u128`.
pub fn mul_div(a: u128, b: u128, d: u128) -> (res: Option<u128>)
    ensures
        res == (if d > 0 && mul_div_floor(a as nat, b as nat, d as nat) <= u128::MAX {
            Some(mul_div_floor(a as nat, b as nat, d as nat) as u128)
        } else {
            None
        }),
{
    match mul_div_rem(a, b, d) {
        Some(both) => Some(both.0),
        None => None,
    }
}

/// Computes quotient and remainder of `a * b` by `d`, exactly, although the
/// product may need 256 bits.
///
/// Returns `None` where `d` is zero or the quotient does not fit in a `u128`.
///
/// The product is summed bit by bit of `b`, as quotient and remainder by `d`: bit
/// `i` of `b` adds `a * 2^i`, which is kept as quotient and remainder too and
/// doubled from bit to bit. No quotient ever falls, so one that leaves 128 bits
/// shows that the result does.
pub fn mul_div_rem(a: u128, b: u128, d: u128) -> (res: Option<(u128, u128)>)
    ensures
        res is Some <==> d > 0 && mul_div_floor(a as nat, b as nat, d as nat) <= u128::MAX,
        res matches Some(both) ==> both.0 == mul_div_floor(a as nat, b as nat, d as nat) && both.1
            == mul_rem(a as nat, b as nat, d as nat) && both.1 < d && a * b == both.0 * d + both.1,
{
    if d == 0 {
        return None;
    }
    let ghost product: int = a as int * b as int;
    // (q, r): quotient and remainder of the part of the product summed so far.
    let mut q: u128 = 0;
    let mut r: u128 = 0;
    // (qa, ra): quotient and remainder of `a` times the weight of the next bit of `b`.
    let mut qa: u128 = a / d;
    let mut ra: u128 = a % d;
    // The bits of `b` that are still to come.
    let mut rest: u128 = b;
    proof {
        assert(a as int == qa * d + ra) by (nonlinear_arith)
            requires
                d > 0,
                qa == a / d,
                ra == a % d,
        ;
    }
    while rest > 0
        invariant
            d > 0,
            r < d,
            ra < d,
            product == a as int * b as int,
            product == (q * d + r) + (qa * d + ra) * rest,
        decreases rest,
    {
        let ghost term: int = qa * d + ra;
        if rest % 2 == 1 {
            let (r1, c1) = add_residues(r, ra, d);
            let sum: u128 = match add_quotients(q, qa, c1) {
                Some(s) => s,
                None => {
                    proof {
                        assert(product >= (q + qa + c1) * d) by (nonlinear_arith)
                            requires
                                product == (q * d + r) + term * rest,
                                term == qa * d + ra,
                                r + ra == c1 * d + r1,
                                rest >= 1,
                                term >= 0,
                        ;
                        lemma_quotient_at_least(product, q + qa + c1, d as int);
                    }
                    return None;
                },
            };
            proof {
                assert(product == (sum * d + r1) + term * (rest - 1)) by (nonlinear_arith)
                    requires
                        product == (q * d + r) + term * rest,
                        term == qa * d + ra,
                        r + ra == c1 * d + r1,
                        sum == q + qa + c1,
                ;
            }
            q = sum;
            r = r1;
        }
        rest = rest / 2;
        proof {
            assert(product == (q * d + r) + (2 * term) * rest) by (nonlinear_arith)
                requires
                    product == (q * d + r) + term * (2 * rest),
            ;
        }
        if rest > 0 {
            let (r2, c2) = add_residues(ra, ra, d);
            let doubled: u128 = match add_quotients(qa, qa, c2) {
                Some(s) => s,
                None => {
                    proof {
                        assert(product >= (qa + qa + c2) * d) by (nonlinear_arith)
                            requires
                                product == (q * d + r) + (2 * term) * rest,
                                term == qa * d + ra,
                                ra + ra == c2 * d + r2,
                                rest >= 1,
                                q >= 0,
                                r >= 0,
                                r2 >= 0,
                                d > 0,
                                qa >= 0,
                                c2 >= 0,
                        ;
                        lemma_quotient_at_least(product, qa + qa + c2, d as int);
                    }
                    return None;
                },
            };
            proof {
                assert(2 * term == doubled * d + r2) by (nonlinear_arith)
                    requires
                        term == qa * d + ra,
                        ra + ra == c2 * d + r2,
                        doubled == qa + qa + c2,
                ;
            }
            qa = doubled;
            ra = r2;
        }
    }
    proof {
        lemma_fundamental_div_mod_converse(product, d as int, q as int, r as int);
    }
    Some((q, r))
}

/// A value scaled by a fraction of at most one does not grow.
pub proof fn lemma_fraction_bounded(x: nat, n: nat, d: nat)
    requires
        d > 0,
        n <= d,
    ensures
        (x * n) / d <= x,
{
    lemma_mul_is_commutative(x as int, n as int);
    lemma_mul_is_commutative(x as int, d as int);
    lemma_mul_inequality(n as int, d as int, x as int);
    lemma_div_is_ordered((x * n) as int, (x * d) as int, d as int);
    lemma_div_by_multiple(x as int, d as int);
}

/// A larger numerator gives no smaller quotient of the scaled value.
pub proof fn lemma_fraction_monotone(x: nat, n1: nat, n2: nat, d: nat)
    requires
        d > 0,
        n1 <= n2,
    ensures
        (x * n1) / d <= (x * n2) / d,
{
    lemma_mul_is_commutative(x as int, n1 as int);
    lemma_mul_is_commutative(x as int, n2 as int);
    lemma_mul_inequality(n1 as int, n2 as int, x as int);
    lemma_div_is_ordered((x * n1) as int, (x * n2) as int, d as int);
}

/// `x * n / d`, rounded down, for a fraction `n / d` of at most one. The result
/// never exceeds `x`, so it always fits.
pub(crate) fn fraction_of(x: u128, n: u128, d: u128) -> (res: u128)
    requires
        0 < d,
        n <= d,
    ensures
        res == mul_div_floor(x as nat, n as nat, d as nat),
        res == (x as nat * n as nat) / (d as nat),
        res <= x,
{
    proof {
        lemma_fraction_bounded(x as nat, n as nat, d as nat);
    }
    match mul_div(x, n, d) {
        Some(v) => v,
        None => unreached(),
    }
}

} // verus!
