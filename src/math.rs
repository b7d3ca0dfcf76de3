//! Constant-product pricing formulas and fixed-point odds.
use vstd::prelude::*;

verus! {

/// Denominator of basis-point quantities: 10000 bps make 100%.
pub const BPS_DENOMINATOR: u128 = 10000;

/// Largest sum of a pool's two reserves: odds computed in basis points
/// (`reserve * 10000`) must fit in 128 bits.
pub const MAX_POOL_TOTAL: u128 = 34028236692093846346337460743176821;

/// `floor(amount * bps / 10000)`: the fee charged on `amount`.
pub open spec fn fee_spec(amount: int, bps: int) -> int {
    amount * bps / 10000
}

/// Shares handed out when `amount` is paid against reserves `reserve_in`
/// (the side paid into) and `reserve_out` (the side drawn from):
/// `floor(amount * reserve_out / (reserve_in + amount))`.
pub open spec fn buy_out_spec(reserve_in: int, reserve_out: int, amount: int) -> int {
    amount * reserve_out / (reserve_in + amount)
}

/// What leaves `reserve_out` when `amount_in` is added to `reserve_in` and the
/// product is kept: `reserve_out - floor(reserve_in * reserve_out / (reserve_in + amount_in))`.
pub open spec fn cpmm_out_spec(reserve_in: int, reserve_out: int, amount_in: int) -> int {
    reserve_out - (reserve_in * reserve_out) / (reserve_in + amount_in)
}

/// Odds in basis points implied by a reserve pair, as (YES, NO).
///
/// An outcome is priced by the opposite reserve: YES gets
/// `floor(no * 10000 / total)`, NO gets `floor(yes * 10000 / total)`; the unit
/// lost to rounding goes to the larger side, YES on a tie. Empty pools are
/// even, and a pool with one side empty gives everything to the other side.
pub open spec fn odds_spec(yes: int, no: int) -> (int, int) {
    if yes == 0 && no == 0 {
        (5000, 5000)
    } else if yes == 0 {
        (0, 10000)
    } else if no == 0 {
        (10000, 0)
    } else {
        let y = no * 10000 / (yes + no);
        let n = yes * 10000 / (yes + no);
        if y + n == 10000 {
            (y, n)
        } else if y >= n {
            (10000 - n, n)
        } else {
            (y, 10000 - y)
        }
    }
}

/// `x <= d * y` with `d > 0` bounds `x / d` by `y`.
pub proof fn lemma_div_bounded(x: int, d: int, y: int)
    requires
        0 <= x,
        0 < d,
        x <= d * y,
    ensures
        x / d <= y,
        0 <= x / d,
{
    assert(x / d <= y) by (nonlinear_arith)
        requires
            0 <= x,
            0 < d,
            x <= d * y,
    ;
    assert(0 <= x / d) by (nonlinear_arith)
        requires
            0 <= x,
            0 < d,
    ;
}

/// The product taken out by `cpmm_out_spec` never exceeds `reserve_out`.
pub proof fn lemma_cpmm_out_bounds(reserve_in: int, reserve_out: int, amount_in: int)
    requires
        0 <= reserve_in,
        0 <= reserve_out,
        0 <= amount_in,
        0 < reserve_in + amount_in,
    ensures
        0 <= cpmm_out_spec(reserve_in, reserve_out, amount_in) <= reserve_out,
{
    assert(reserve_in * reserve_out <= (reserve_in + amount_in) * reserve_out) by (nonlinear_arith)
        requires
            0 <= reserve_in,
            0 <= reserve_out,
            0 <= amount_in,
    ;
    assert(0 <= reserve_in * reserve_out) by (nonlinear_arith)
        requires
            0 <= reserve_in,
            0 <= reserve_out,
    ;
    lemma_div_bounded(reserve_in * reserve_out, reserve_in + amount_in, reserve_out);
}

/// Shares of a purchase never exceed the reserve they are drawn from, and
/// the reserves' product does not shrink.
pub proof fn lemma_buy_keeps_product(reserve_in: int, reserve_out: int, amount: int)
    requires
        0 <= reserve_in,
        0 <= reserve_out,
        0 <= amount,
        0 < reserve_in + amount,
    ensures
        0 <= buy_out_spec(reserve_in, reserve_out, amount) <= reserve_out,
        (reserve_in + amount) * (reserve_out - buy_out_spec(reserve_in, reserve_out, amount))
            >= reserve_in * reserve_out,
{
    let d = reserve_in + amount;
    let s = buy_out_spec(reserve_in, reserve_out, amount);
    assert(amount * reserve_out <= d * reserve_out) by (nonlinear_arith)
        requires
            0 <= reserve_out,
            amount <= d,
    ;
    assert(0 <= amount * reserve_out) by (nonlinear_arith)
        requires
            0 <= reserve_out,
            0 <= amount,
    ;
    lemma_div_bounded(amount * reserve_out, d, reserve_out);
    assert(s * d <= amount * reserve_out) by (nonlinear_arith)
        requires
            s == amount * reserve_out / d,
            0 < d,
    ;
    assert(d * (reserve_out - s) >= reserve_in * reserve_out) by (nonlinear_arith)
        requires
            s * d <= amount * reserve_out,
            d == reserve_in + amount,
    ;
}

/// Shares a purchase of `amount_in` (after fees) receives: the amount joins
/// the opposite reserve and the shares leave the outcome's own reserve
/// (outcome 1 is YES, anything else NO), as
/// `floor(amount_in * reserve_out / (reserve_in + amount_in))`.
/// The product of the reserves does not shrink.
pub fn calculate_shares_out(yes_reserve: u128, no_reserve: u128, outcome: u32, amount_in: u128) -> (r: u128)
    requires
        outcome == 1 ==> 0 < no_reserve + amount_in <= u128::MAX && amount_in * yes_reserve
            <= u128::MAX,
        outcome != 1 ==> 0 < yes_reserve + amount_in <= u128::MAX && amount_in * no_reserve
            <= u128::MAX,
    ensures
        outcome == 1 ==> r == buy_out_spec(no_reserve as int, yes_reserve as int, amount_in as int),
        outcome != 1 ==> r == buy_out_spec(yes_reserve as int, no_reserve as int, amount_in as int),
        outcome == 1 ==> (no_reserve + amount_in) * (yes_reserve - r) >= no_reserve * yes_reserve,
        outcome != 1 ==> (yes_reserve + amount_in) * (no_reserve - r) >= yes_reserve * no_reserve,
        r <= (if outcome == 1 { yes_reserve } else { no_reserve }),
{
    let (reserve_in, reserve_out) = if outcome == 1 {
        (no_reserve, yes_reserve)
    } else {
        (yes_reserve, no_reserve)
    };
    proof {
        lemma_buy_keeps_product(reserve_in as int, reserve_out as int, amount_in as int);
    }
    amount_in * reserve_out / (reserve_in + amount_in)
}

/// Payout for selling `shares_in` of an outcome back to the pool, where the
/// shares join that outcome's reserve and the payout leaves the other one
/// (outcome 1 is YES, anything else NO).
pub fn calculate_payout(yes_reserve: u128, no_reserve: u128, outcome: u32, shares_in: u128) -> (r: u128)
    requires
        yes_reserve * no_reserve <= u128::MAX,
        outcome == 1 ==> 0 < yes_reserve + shares_in <= u128::MAX,
        outcome != 1 ==> 0 < no_reserve + shares_in <= u128::MAX,
    ensures
        outcome == 1 ==> r == cpmm_out_spec(yes_reserve as int, no_reserve as int, shares_in as int),
        outcome != 1 ==> r == cpmm_out_spec(no_reserve as int, yes_reserve as int, shares_in as int),
{
    let k = yes_reserve * no_reserve;
    if outcome == 1 {
        proof {
            lemma_cpmm_out_bounds(yes_reserve as int, no_reserve as int, shares_in as int);
        }
        let new_yes_reserve = yes_reserve + shares_in;
        let new_no_reserve = k / new_yes_reserve;
        no_reserve - new_no_reserve
    } else {
        proof {
            lemma_cpmm_out_bounds(no_reserve as int, yes_reserve as int, shares_in as int);
            assert(no_reserve * yes_reserve == yes_reserve * no_reserve) by (nonlinear_arith);
        }
        let new_no_reserve = no_reserve + shares_in;
        let new_yes_reserve = k / new_no_reserve;
        yes_reserve - new_yes_reserve
    }
}

/// The two floors of `odds_spec` add up to 9999 or 10000.
proof fn lemma_odds_floors(yes: int, no: int)
    requires
        0 < yes,
        0 < no,
    ensures
        9999 <= no * 10000 / (yes + no) + yes * 10000 / (yes + no) <= 10000,
        0 <= no * 10000 / (yes + no) <= 10000,
        0 <= yes * 10000 / (yes + no) <= 10000,
{
    let t = yes + no;
    let y = no * 10000 / t;
    let n = yes * 10000 / t;
    assert(y * t <= no * 10000 < y * t + t) by (nonlinear_arith)
        requires
            y == no * 10000 / t,
            0 < t,
    ;
    assert(n * t <= yes * 10000 < n * t + t) by (nonlinear_arith)
        requires
            n == yes * 10000 / t,
            0 < t,
    ;
    assert(9999 <= y + n <= 10000) by (nonlinear_arith)
        requires
            y * t <= no * 10000 < y * t + t,
            n * t <= yes * 10000 < n * t + t,
            t == yes + no,
            0 < t,
    ;
    assert(0 <= y && 0 <= n) by (nonlinear_arith)
        requires
            y * t <= no * 10000 < y * t + t,
            n * t <= yes * 10000 < n * t + t,
            0 < yes,
            0 < no,
            0 < t,
    ;
}

/// Odds in basis points of a reserve pair; see `odds_spec`.
pub fn odds_from_reserves(yes_reserve: u128, no_reserve: u128) -> (r: (u32, u32))
    requires
        yes_reserve + no_reserve <= MAX_POOL_TOTAL,
    ensures
        r.0 as int == odds_spec(yes_reserve as int, no_reserve as int).0,
        r.1 as int == odds_spec(yes_reserve as int, no_reserve as int).1,
        r.0 + r.1 == 10000,
{
    if yes_reserve == 0 && no_reserve == 0 {
        return (5000, 5000);
    }
    if yes_reserve == 0 {
        return (0, 10000);
    }
    if no_reserve == 0 {
        return (10000, 0);
    }
    let total = yes_reserve + no_reserve;
    proof {
        lemma_odds_floors(yes_reserve as int, no_reserve as int);
    }
    let yes_odds = (no_reserve * 10000 / total) as u32;
    let no_odds = (yes_reserve * 10000 / total) as u32;
    let total_odds = yes_odds + no_odds;
    if total_odds != 10000 {
        let adjustment = 10000 - total_odds;
        if yes_odds >= no_odds {
            return (yes_odds + adjustment, no_odds);
        } else {
            return (yes_odds, no_odds + adjustment);
        }
    }
    (yes_odds, no_odds)
}

} // verus!
