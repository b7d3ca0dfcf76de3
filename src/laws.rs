//! Properties that relate several operations.
use vstd::prelude::*;

use crate::amm::{
    add_liquidity_spec, buy_spec, other_reserve, own_reserve, product, remove_liquidity_spec,
    sell_spec, with_sides, Pool,
};
use crate::market::{claim_spec, MarketError, MarketState, UserPrediction};
use crate::math::{
    buy_out_spec, cpmm_out_spec, fee_spec, lemma_buy_keeps_product, lemma_cpmm_out_bounds,
    lemma_div_bounded,
};

verus! {

/// A sale keeps the product of the reserves whenever the seller's side,
/// after the shares join it, divides the product exactly. (Otherwise the
/// payout is rounded up and the product may drop by less than that side.)
pub proof fn lemma_sell_keeps_product(
    fee_bps: int,
    p: Pool,
    held: int,
    outcome: u32,
    shares: int,
    min_payout: int,
)
    requires
        0 <= fee_bps <= 10000,
        0 <= held,
        0 <= shares,
        sell_spec(fee_bps, Some(p), held, outcome, shares, min_payout) is Ok,
        (own_reserve(p, outcome) * other_reserve(p, outcome)) % (own_reserve(p, outcome) + shares)
            == 0,
    ensures
        product(sell_spec(fee_bps, Some(p), held, outcome, shares, min_payout)->Ok_0.1) >= product(
            p,
        ),
{
    let rin = own_reserve(p, outcome);
    let rout = other_reserve(p, outcome);
    let d = rin + shares;
    let k = rin * rout;
    let gross = cpmm_out_spec(rin, rout, shares);
    let q = k / d;
    lemma_cpmm_out_bounds(rin, rout, shares);
    assert(q * d == k) by (nonlinear_arith)
        requires
            k % d == 0,
            q == k / d,
            d > 0,
    ;
    let np = with_sides(p, outcome, rin + shares, rout - gross);
    assert(rout - gross == q);
    assert(sell_spec(fee_bps, Some(p), held, outcome, shares, min_payout)->Ok_0.1 == np);
    assert(product(np) == d * q) by (nonlinear_arith)
        requires
            outcome == 1 ==> np.yes_reserve == d && np.no_reserve == q,
            outcome != 1 ==> np.yes_reserve == q && np.no_reserve == d,
            product(np) == (np.yes_reserve as int) * (np.no_reserve as int),
    ;
    assert(product(p) == k) by (nonlinear_arith)
        requires
            outcome == 1 ==> p.yes_reserve == rin && p.no_reserve == rout,
            outcome != 1 ==> p.yes_reserve == rout && p.no_reserve == rin,
            product(p) == (p.yes_reserve as int) * (p.no_reserve as int),
            k == rin * rout,
    ;
    assert(d * q == q * d) by (nonlinear_arith);
}

/// Depositing into a pool whose liquidity shares are at par with its
/// reserves (one share per unit held, as in a pool created with an even
/// amount and not traded since) and at once redeeming the shares minted
/// gives back the deposit, short by at most one unit of rounding.
pub proof fn lemma_add_then_remove_returns_deposit(cap: int, p: Pool, held: int, amount: int)
    requires
        0 <= held,
        0 <= amount,
        p.total_liquidity == p.yes_reserve + p.no_reserve,
        add_liquidity_spec(cap, Some(p), held, amount) is Ok,
        ({
            let (minted, p2) = add_liquidity_spec(cap, Some(p), held, amount)->Ok_0;
            remove_liquidity_spec(Some(p2), held + minted, minted) is Ok
        }),
    ensures
        ({
            let (minted, p2) = add_liquidity_spec(cap, Some(p), held, amount)->Ok_0;
            let (yes_out, no_out, _) = remove_liquidity_spec(Some(p2), held + minted, minted)->Ok_0;
            amount - 1 <= yes_out + no_out <= amount
        }),
{
    let (minted, p2) = add_liquidity_spec(cap, Some(p), held, amount)->Ok_0;
    let (yes_out, no_out, _) = remove_liquidity_spec(Some(p2), held + minted, minted)->Ok_0;
    let t = p.yes_reserve + p.no_reserve;
    assert(minted == amount) by (nonlinear_arith)
        requires
            minted == amount * p.total_liquidity / t,
            p.total_liquidity == t,
            t > 0,
    ;
    let ya = amount * p.yes_reserve / t;
    assert(0 <= amount * p.yes_reserve <= t * amount) by (nonlinear_arith)
        requires
            p.yes_reserve <= t,
            0 <= amount,
            0 <= p.yes_reserve,
    ;
    lemma_div_bounded(amount * p.yes_reserve, t, amount);
    let s2 = p2.total_liquidity as int;
    let y2 = p2.yes_reserve as int;
    let n2 = p2.no_reserve as int;
    assert(s2 == y2 + n2);
    assert(yes_out * s2 <= amount * y2 < yes_out * s2 + s2) by (nonlinear_arith)
        requires
            yes_out == minted * y2 / s2,
            minted == amount,
            s2 > 0,
    ;
    assert(no_out * s2 <= amount * n2 < no_out * s2 + s2) by (nonlinear_arith)
        requires
            no_out == minted * n2 / s2,
            minted == amount,
            s2 > 0,
    ;
    assert(amount - 1 <= yes_out + no_out <= amount) by (nonlinear_arith)
        requires
            yes_out * s2 <= amount * y2 < yes_out * s2 + s2,
            no_out * s2 <= amount * n2 < no_out * s2 + s2,
            s2 == y2 + n2,
            s2 > 0,
    ;
}

/// Buying with `amount` and at once selling back every share bought never
/// pays out more than `amount`; when the purchase is charged a fee it pays
/// out strictly less.
pub proof fn lemma_buy_then_sell_loses(
    fee_bps: int,
    p: Pool,
    held: int,
    outcome: u32,
    amount: int,
    min_shares: int,
    min_payout: int,
)
    requires
        0 <= fee_bps <= 10000,
        0 <= held,
        0 <= amount,
        buy_spec(fee_bps, Some(p), held, outcome, amount, min_shares) is Ok,
        ({
            let (s, p2) = buy_spec(fee_bps, Some(p), held, outcome, amount, min_shares)->Ok_0;
            sell_spec(fee_bps, Some(p2), held + s, outcome, s, min_payout) is Ok
        }),
    ensures
        ({
            let (s, p2) = buy_spec(fee_bps, Some(p), held, outcome, amount, min_shares)->Ok_0;
            let (net, _) = sell_spec(fee_bps, Some(p2), held + s, outcome, s, min_payout)->Ok_0;
            &&& net <= amount
            &&& fee_spec(amount, fee_bps) > 0 ==> net < amount
        }),
{
    let (s, p2) = buy_spec(fee_bps, Some(p), held, outcome, amount, min_shares)->Ok_0;
    let (net, _) = sell_spec(fee_bps, Some(p2), held + s, outcome, s, min_payout)->Ok_0;
    let rin = other_reserve(p, outcome);
    let rout = own_reserve(p, outcome);
    let fee = fee_spec(amount, fee_bps);
    assert(0 <= fee <= amount) by (nonlinear_arith)
        requires
            fee == amount * fee_bps / 10000,
            0 <= fee_bps <= 10000,
            amount > 0,
    ;
    let a = amount - fee;
    lemma_buy_keeps_product(rin, rout, a);
    assert(s == buy_out_spec(rin, rout, a));
    assert(s * (rin + a) <= a * rout) by (nonlinear_arith)
        requires
            s == a * rout / (rin + a),
            rin + a > 0,
    ;
    let own2 = own_reserve(p2, outcome);
    let other2 = other_reserve(p2, outcome);
    assert(own2 == rout - s);
    assert(other2 == rin + a);
    let gross = cpmm_out_spec(own2, other2, s);
    lemma_cpmm_out_bounds(own2, other2, s);
    // The seller's side returns to `rout`, so the remaining opposite reserve is
    // `floor((rout - s) * (rin + a) / rout)`, which is at least `rin`.
    assert(own2 + s == rout);
    assert(own2 * other2 >= rout * rin) by (nonlinear_arith)
        requires
            own2 == rout - s,
            other2 == rin + a,
            s * (rin + a) <= a * rout,
    ;
    assert(own2 * other2 / rout >= rin) by (nonlinear_arith)
        requires
            own2 * other2 >= rout * rin,
            rout > 0,
    ;
    assert(gross <= a);
    assert(0 <= fee_spec(gross, fee_bps)) by (nonlinear_arith)
        requires
            0 <= fee_bps,
            0 <= gross,
            fee_spec(gross, fee_bps) == gross * fee_bps / 10000,
    ;
}

/// A claim that pays marks the prediction claimed, and a claim on a
/// claimed prediction is refused with `AlreadyClaimed`: each winning
/// prediction is paid once.
pub proof fn lemma_claim_pays_once(
    state: MarketState,
    winning_outcome: Option<u32>,
    winner_total: int,
    loser_total: int,
    p: UserPrediction,
)
    requires
        claim_spec(state, winning_outcome, winner_total, loser_total, Some(p)) is Ok,
    ensures
        claim_spec(
            state,
            winning_outcome,
            winner_total,
            loser_total,
            Some(UserPrediction { claimed: true, ..p }),
        ) == Err::<int, MarketError>(MarketError::AlreadyClaimed),
{
}

} // verus!
