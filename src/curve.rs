use vstd::prelude::*;

use crate::error::GrokError;

verus! {

/// Price of the curve position `i`, that is of the unit bought when `i`
/// whole units have already been sold.
pub open spec fn unit_price(base_price: int, slope: int, i: int) -> int {
    base_price + slope * i
}

/// Sum of the prices of the `units` positions that start at `sold_before`.
pub open spec fn curve_cost(base_price: int, slope: int, sold_before: int, units: nat) -> int
    decreases units,
{
    if units == 0 {
        0
    } else {
        curve_cost(base_price, slope, sold_before, (units - 1) as nat) + unit_price(
            base_price,
            slope,
            sold_before + units - 1,
        )
    }
}

/// `0 + 1 + ... + (n - 1)`.
pub open spec fn triangle(n: nat) -> nat
    decreases n,
{
    if n == 0 {
        0
    } else {
        triangle((n - 1) as nat) + (n - 1) as nat
    }
}

/// `triangle(n)` in closed form.
pub proof fn lemma_triangle_closed_form(n: nat)
    ensures
        triangle(n) == n * (n - 1) / 2,
    decreases n,
{
    if n > 0 {
        lemma_triangle_closed_form((n - 1) as nat);
        let m = (n - 1) as nat;
        assert(m * (m - 1) / 2 + m == n * (n - 1) / 2) by (nonlinear_arith)
            requires
                n == m + 1,
        ;
    }
}

/// The sum over the curve in closed form.
pub proof fn lemma_curve_cost_closed_form(base_price: int, slope: int, sold_before: int, units: nat)
    ensures
        curve_cost(base_price, slope, sold_before, units) == base_price * units + slope * (
        sold_before * units + triangle(units)),
    decreases units,
{
    if units > 0 {
        let m = (units - 1) as nat;
        lemma_curve_cost_closed_form(base_price, slope, sold_before, m);
        assert(triangle(units) == triangle(m) + m);
        assert(curve_cost(base_price, slope, sold_before, units) == curve_cost(
            base_price,
            slope,
            sold_before,
            m,
        ) + base_price + slope * (sold_before + m));
        let tm = triangle(m);
        let tu = triangle(units);
        assert(base_price * m + slope * (sold_before * m + tm) + base_price + slope * (sold_before
            + m) == base_price * units + slope * (sold_before * units + tu)) by (nonlinear_arith)
            requires
                units == m + 1,
                tu == tm + m,
        ;
    } else {
        assert(base_price * units + slope * (sold_before * units + triangle(units)) == 0)
            by (nonlinear_arith)
            requires
                units == 0,
                triangle(units) == 0,
        ;
    }
}

/// With a positive base price, buying more units always costs strictly more.
pub proof fn lemma_cost_grows_with_units(
    base_price: u64,
    slope: u64,
    sold_before: u64,
    fewer: u64,
    more: u64,
)
    requires
        base_price > 0,
        fewer < more,
    ensures
        curve_cost(base_price as int, slope as int, sold_before as int, fewer as nat) < curve_cost(
            base_price as int,
            slope as int,
            sold_before as int,
            more as nat,
        ),
    decreases more - fewer,
{
    let m = (more - 1) as u64;
    assert(slope * (sold_before + m) >= 0) by (nonlinear_arith)
        requires
            slope >= 0,
            sold_before + m >= 0,
    ;
    if fewer < m {
        lemma_cost_grows_with_units(base_price, slope, sold_before, fewer, m);
    }
}

/// With a positive slope, the same units cost strictly more the more have
/// already been sold.
pub proof fn lemma_cost_grows_with_sold(
    base_price: u64,
    slope: u64,
    units: u64,
    earlier: u64,
    later: u64,
)
    requires
        slope > 0,
        units > 0,
        earlier < later,
    ensures
        curve_cost(base_price as int, slope as int, earlier as int, units as nat) < curve_cost(
            base_price as int,
            slope as int,
            later as int,
            units as nat,
        ),
{
    lemma_curve_cost_closed_form(base_price as int, slope as int, earlier as int, units as nat);
    lemma_curve_cost_closed_form(base_price as int, slope as int, later as int, units as nat);
    let t = triangle(units as nat);
    assert(slope * (earlier * units + t) < slope * (later * units + t)) by (nonlinear_arith)
        requires
            slope > 0,
            units > 0,
            earlier < later,
    ;
}

/// Without slope, the price of a number of units does not depend on how many
/// have already been sold.
pub proof fn lemma_cost_flat_without_slope(
    base_price: u64,
    units: u64,
    earlier: u64,
    later: u64,
)
    ensures
        curve_cost(base_price as int, 0, earlier as int, units as nat) == curve_cost(
            base_price as int,
            0,
            later as int,
            units as nat,
        ),
{
    lemma_curve_cost_closed_form(base_price as int, 0, earlier as int, units as nat);
    lemma_curve_cost_closed_form(base_price as int, 0, later as int, units as nat);
}

/// Cost of buying `units` whole units when `sold_before_units` have already
/// been sold: the exact sum of the curve's prices over those positions.
/// The sum is formed in 128 bits and fails with `Overflow` when it does not
/// fit a settlement amount; it never wraps.
pub fn linear_buy_cost(base_price: u64, slope: u64, sold_before_units: u64, units: u64) -> (r:
    Result<u64, GrokError>)
    ensures
        curve_cost(base_price as int, slope as int, sold_before_units as int, units as nat)
            <= u64::MAX ==> r == Ok::<u64, GrokError>(
            curve_cost(base_price as int, slope as int, sold_before_units as int, units as nat)
                as u64,
        ),
        curve_cost(base_price as int, slope as int, sold_before_units as int, units as nat)
            > u64::MAX ==> r == Err::<u64, GrokError>(GrokError::Overflow),
        curve_cost(base_price as int, slope as int, sold_before_units as int, units as nat) >= 0,
{
    let ghost total = curve_cost(base_price as int, slope as int, sold_before_units as int, units as nat);
    proof {
        lemma_curve_cost_closed_form(base_price as int, slope as int, sold_before_units as int, units as nat);
        lemma_triangle_closed_form(units as nat);
    }
    let u = units as u128;
    let sb = sold_before_units as u128;
    let b = base_price as u128;
    assert(b * u <= u64::MAX * u64::MAX) by (nonlinear_arith)
        requires
            b <= u64::MAX,
            u <= u64::MAX,
    ;
    assert(sb * u <= u64::MAX * u64::MAX) by (nonlinear_arith)
        requires
            sb <= u64::MAX,
            u <= u64::MAX,
    ;
    let base_part: u128 = b * u;
    let along: u128 = sb * u;
    let tri: u128 = if u == 0 {
        0
    } else {
        assert(u * (u - 1) <= u64::MAX * u64::MAX) by (nonlinear_arith)
            requires
                1 <= u <= u64::MAX,
        ;
        u * (u - 1) / 2
    };
    assert(tri == triangle(units as nat));
    assert(total == base_part + slope * (along + tri));
    assert(total >= 0) by (nonlinear_arith)
        requires
            total == base_part + slope * (along + tri),
            base_part >= 0,
            slope >= 0,
            along >= 0,
            tri >= 0,
    ;
    if slope == 0 {
        assert(total == base_part) by (nonlinear_arith)
            requires
                total == base_part + slope * (along + tri),
                slope == 0,
        ;
        if base_part > u64::MAX as u128 {
            return Err(GrokError::Overflow);
        }
        return Ok(base_part as u64);
    }
    let s = slope as u128;
    if along > u64::MAX as u128 || tri > u64::MAX as u128 {
        assert(total >= along + tri) by (nonlinear_arith)
            requires
                total == base_part + s * (along + tri),
                s >= 1,
                base_part >= 0,
                along >= 0,
                tri >= 0,
        ;
        return Err(GrokError::Overflow);
    }
    let spread: u128 = along + tri;
    if spread > u64::MAX as u128 {
        assert(total >= spread) by (nonlinear_arith)
            requires
                total == base_part + s * spread,
                s >= 1,
                base_part >= 0,
                spread >= 0,
        ;
        return Err(GrokError::Overflow);
    }
    assert(s * spread <= u64::MAX * u64::MAX) by (nonlinear_arith)
        requires
            s <= u64::MAX,
            spread <= u64::MAX,
    ;
    let slope_part: u128 = s * spread;
    if slope_part > u64::MAX as u128 || base_part > u64::MAX as u128 {
        return Err(GrokError::Overflow);
    }
    let sum: u128 = slope_part + base_part;
    if sum > u64::MAX as u128 {
        return Err(GrokError::Overflow);
    }
    Ok(sum as u64)
}

} // verus!
