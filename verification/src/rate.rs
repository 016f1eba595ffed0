//! The rate model: from utilisation to the borrow rate, and on to the deposit rate.
//!
//! All three functions are pure. Fractions are scaled by `BP`; each division rounds down.
use vstd::prelude::*;
use vstd::arithmetic::div_mod::lemma_div_is_ordered;
use vstd::arithmetic::div_mod::lemma_div_by_multiple;
use vstd::arithmetic::div_mod::lemma_div_pos_is_pos;
use vstd::arithmetic::mul::lemma_mul_inequality;
use vstd::arithmetic::mul::lemma_mul_is_commutative;
use vstd::arithmetic::mul::lemma_mul_nonnegative;
use crate::error::PoolError;
use crate::fixed_point::bp;
use crate::fixed_point::fraction_of;
use crate::fixed_point::lemma_fraction_bounded;
use crate::fixed_point::lemma_fraction_monotone;
use crate::fixed_point::BP;

verus! {

/// Share of the supplied capital that is lent out, scaled by `BP`.
/// With nothing supplied the utilisation is zero.
pub open spec fn utilisation(borrowed: nat, total_supplied: nat) -> nat {
    if total_supplied == 0 {
        0
    } else {
        (borrowed * bp()) / total_supplied
    }
}

/// The borrow rate at a utilisation: a line of slope `slope1` up to the optimal
/// utilisation, and from there a line of slope `slope2` up to full utilisation.
/// Where the optimal utilisation is `BP` itself the second line has no length.
pub open spec fn borrow_rate(base: nat, slope1: nat, slope2: nat, optimal: nat, utilisation: nat) -> nat {
    if utilisation < optimal {
        base + (slope1 * utilisation) / optimal
    } else if optimal >= bp() {
        base + slope1
    } else {
        base + slope1 + (slope2 * ((utilisation - optimal) as nat)) / ((bp() - optimal) as nat)
    }
}

/// The deposit rate: the borrow rate, weighted by the utilisation, less the reserve's cut.
pub open spec fn deposit_rate(utilisation: nat, borrow_rate: nat, reserve_factor: nat) -> nat {
    (borrow_rate * (utilisation * ((bp() - reserve_factor) as nat))) / (bp() * bp())
}

/// Utilisation of the pool's capital.
///
/// Fails with `InvariantViolation` where more is borrowed than was supplied; the
/// result is otherwise at most `BP`.
pub fn compute_capital_utilisation(borrowed: u128, total_supplied: u128) -> (res: Result<u128, PoolError>)
    ensures
        borrowed > total_supplied ==> res == Err::<u128, PoolError>(PoolError::InvariantViolation),
        borrowed <= total_supplied ==> res == Ok::<u128, PoolError>(
            utilisation(borrowed as nat, total_supplied as nat) as u128,
        ),
        borrowed <= total_supplied ==> utilisation(borrowed as nat, total_supplied as nat) <= bp(),
{
    if borrowed > total_supplied {
        return Err(PoolError::InvariantViolation);
    }
    proof {
        lemma_utilisation_bounded(borrowed as nat, total_supplied as nat);
    }
    if total_supplied == 0 {
        return Ok(0);
    }
    proof {
        lemma_mul_is_commutative(borrowed as int, bp() as int);
    }
    Ok(fraction_of(BP as u128, borrowed, total_supplied))
}

/// The utilisation never exceeds `BP` while no more is borrowed than was supplied.
pub proof fn lemma_utilisation_bounded(borrowed: nat, total_supplied: nat)
    requires
        borrowed <= total_supplied,
    ensures
        utilisation(borrowed, total_supplied) <= bp(),
{
    if total_supplied > 0 {
        lemma_mul_inequality(borrowed as int, total_supplied as int, bp() as int);
        lemma_div_is_ordered(
            (borrowed * bp()) as int,
            (total_supplied * bp()) as int,
            total_supplied as int,
        );
        lemma_mul_is_commutative(total_supplied as int, bp() as int);
        lemma_div_by_multiple(bp() as int, total_supplied as int);
    }
}

/// The borrow rate under the pool's curve.
///
/// Fails with `InvalidParameter` where the optimal or the current utilisation
/// exceeds `BP`, and with `Overflow` where the rate does not fit in 128 bits.
pub fn compute_borrow_rate(
    r_base: u128,
    r_slope1: u128,
    r_slope2: u128,
    u_optimal: u128,
    u_current: u128,
) -> (res: Result<u128, PoolError>)
    ensures
        (u_optimal > BP || u_current > BP) ==> res == Err::<u128, PoolError>(
            PoolError::InvalidParameter,
        ),
        (u_optimal <= BP && u_current <= BP) ==> res == (if borrow_rate(
            r_base as nat,
            r_slope1 as nat,
            r_slope2 as nat,
            u_optimal as nat,
            u_current as nat,
        ) <= u128::MAX {
            Ok::<u128, PoolError>(
                borrow_rate(
                    r_base as nat,
                    r_slope1 as nat,
                    r_slope2 as nat,
                    u_optimal as nat,
                    u_current as nat,
                ) as u128,
            )
        } else {
            Err::<u128, PoolError>(PoolError::Overflow)
        }),
{
    let scale: u128 = BP as u128;
    if u_optimal > scale || u_current > scale {
        return Err(PoolError::InvalidParameter);
    }
    if u_current < u_optimal {
        let rise: u128 = fraction_of(r_slope1, u_current, u_optimal);
        match r_base.checked_add(rise) {
            Some(rate) => Ok(rate),
            None => Err(PoolError::Overflow),
        }
    } else if u_optimal >= scale {
        match r_base.checked_add(r_slope1) {
            Some(rate) => Ok(rate),
            None => Err(PoolError::Overflow),
        }
    } else {
        let excess: u128 = u_current - u_optimal;
        let span: u128 = scale - u_optimal;
        let rise: u128 = fraction_of(r_slope2, excess, span);
        let at_optimal: u128 = match r_base.checked_add(r_slope1) {
            Some(v) => v,
            None => {
                return Err(PoolError::Overflow);
            },
        };
        match at_optimal.checked_add(rise) {
            Some(rate) => Ok(rate),
            None => Err(PoolError::Overflow),
        }
    }
}

/// The deposit rate that a borrow rate pays for at a utilisation.
///
/// Fails with `InvalidParameter` where the utilisation or the reserve factor
/// exceeds `BP`. The result never exceeds the borrow rate.
pub fn compute_deposit_rate(u_current: u128, borrow_rate: u128, reserve_factor: u128) -> (res: Result<
    u128,
    PoolError,
>)
    ensures
        (u_current > BP || reserve_factor > BP) ==> res == Err::<u128, PoolError>(
            PoolError::InvalidParameter,
        ),
        (u_current <= BP && reserve_factor <= BP) ==> res == Ok::<u128, PoolError>(
            deposit_rate(u_current as nat, borrow_rate as nat, reserve_factor as nat) as u128,
        ),
        (u_current <= BP && reserve_factor <= BP) ==> deposit_rate(
            u_current as nat,
            borrow_rate as nat,
            reserve_factor as nat,
        ) <= borrow_rate,
{
    let scale: u128 = BP as u128;
    if u_current > scale || reserve_factor > scale {
        return Err(PoolError::InvalidParameter);
    }
    let kept: u128 = scale - reserve_factor;
    proof {
        lemma_deposit_rate_bounded(u_current as nat, borrow_rate as nat, reserve_factor as nat);
        assert(u_current * kept <= bp() * bp()) by (nonlinear_arith)
            requires
                u_current <= bp(),
                kept <= bp(),
        ;
    }
    let weight: u128 = u_current * kept;
    Ok(fraction_of(borrow_rate, weight, scale * scale))
}

/// Depositors never earn a higher rate than borrowers pay.
pub proof fn lemma_deposit_rate_bounded(utilisation: nat, borrow_rate: nat, reserve_factor: nat)
    requires
        utilisation <= bp(),
        reserve_factor <= bp(),
    ensures
        deposit_rate(utilisation, borrow_rate, reserve_factor) <= borrow_rate,
{
    let kept: nat = (bp() - reserve_factor) as nat;
    assert(utilisation * kept <= bp() * bp()) by (nonlinear_arith)
        requires
            utilisation <= bp(),
            kept <= bp(),
    ;
    lemma_fraction_bounded(borrow_rate, utilisation * kept, bp() * bp());
}

/// The borrow rate does not fall as the utilisation rises.
pub proof fn lemma_borrow_rate_monotone(
    base: nat,
    slope1: nat,
    slope2: nat,
    optimal: nat,
    lower: nat,
    higher: nat,
)
    requires
        optimal <= bp(),
        lower <= higher,
        higher <= bp(),
    ensures
        borrow_rate(base, slope1, slope2, optimal, lower) <= borrow_rate(
            base,
            slope1,
            slope2,
            optimal,
            higher,
        ),
{
    if higher < optimal {
        lemma_fraction_monotone(slope1, lower, higher, optimal);
    } else if lower < optimal {
        lemma_fraction_bounded(slope1, lower, optimal);
    } else if optimal < bp() {
        lemma_fraction_monotone(
            slope2,
            (lower - optimal) as nat,
            (higher - optimal) as nat,
            (bp() - optimal) as nat,
        );
    }
}

/// The two lines of the curve meet at the optimal utilisation: there the rate is
/// `base + slope1`, which is also what the lower line gives when continued to that point,
/// and no rate below the optimal utilisation lies above it.
pub proof fn lemma_borrow_rate_continuous(
    base: nat,
    slope1: nat,
    slope2: nat,
    optimal: nat,
    below: nat,
)
    requires
        optimal <= bp(),
        below < optimal,
    ensures
        borrow_rate(base, slope1, slope2, optimal, optimal) == base + slope1,
        base + (slope1 * optimal) / optimal == borrow_rate(base, slope1, slope2, optimal, optimal),
        borrow_rate(base, slope1, slope2, optimal, below) <= base + slope1,
        optimal == below + 1 ==> base + slope1 - borrow_rate(base, slope1, slope2, optimal, below)
            <= slope1 / optimal + 1,
{
    lemma_div_by_multiple(slope1 as int, optimal as int);
    lemma_fraction_bounded(slope1, below, optimal);
    if optimal < bp() {
        assert(slope2 * 0 == 0);
        assert((optimal - optimal) as nat == 0);
    }
    if optimal == below + 1 {
        lemma_last_step(slope1, optimal);
    }
}

/// One step of the fraction `n / d` below one costs at most `x / d`, rounded up.
proof fn lemma_last_step(x: nat, d: nat)
    requires
        d > 0,
    ensures
        x - (x * ((d - 1) as nat)) / d <= x / d + 1,
{
    let n: nat = (d - 1) as nat;
    let q: int = (x / d) as int;
    let r: int = (x % d) as int;
    vstd::arithmetic::div_mod::lemma_fundamental_div_mod(x as int, d as int);
    vstd::arithmetic::div_mod::lemma_mod_bound(x as int, d as int);
    // x * (d - 1) == (x - q - 1) * d + (d - r), and d - r > 0
    assert(x * n == (x - q - 1) * d + (d - r)) by (nonlinear_arith)
        requires
            x == d * q + r,
            n == d - 1,
    ;
    assert((x - q - 1) * d <= x * n) by (nonlinear_arith)
        requires
            x * n == (x - q - 1) * d + (d - r),
            r < d,
    ;
    if x - q - 1 >= 0 {
        lemma_div_is_ordered((x - q - 1) * d, (x * n) as int, d as int);
        lemma_div_by_multiple(x - q - 1, d as int);
    } else {
        lemma_mul_nonnegative(x as int, n as int);
        lemma_div_pos_is_pos((x * n) as int, d as int);
    }
}

} // verus!
