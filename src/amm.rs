//! Liquidity pools, trading against them, and liquidity provision.
use vstd::prelude::*;

use crate::ids::{AccountId, LpKey, MarketId, PositionKey};
use crate::math::{
    buy_out_spec, calculate_payout, cpmm_out_spec, fee_spec, lemma_buy_keeps_product,
    lemma_cpmm_out_bounds, lemma_div_bounded, odds_from_reserves, odds_spec, BPS_DENOMINATOR,
    MAX_POOL_TOTAL,
};
use crate::store::Store;

verus! {

/// Trading fee charged by a new AMM, in basis points (0.2%).
pub const DEFAULT_TRADING_FEE_BPS: u128 = 20;

/// Slippage tolerance recorded by a new AMM, in basis points (2%).
pub const DEFAULT_SLIPPAGE_PROTECTION_BPS: u32 = 200;

/// Why an AMM operation was refused. Nothing changes when one is returned.
#[derive(Clone, Copy, Debug, PartialEq, Eq, Structural)]
pub enum AmmError {
    /// A pool already exists for the market.
    PoolAlreadyExists,
    /// The amount is zero.
    InvalidAmount,
    /// The outcome is neither 0 (NO) nor 1 (YES).
    InvalidOutcome,
    /// No pool exists for the market.
    PoolNotFound,
    /// One of the pool's reserves is empty.
    InsufficientLiquidity,
    /// The trade would give less than the caller's minimum.
    SlippageExceeded,
    /// The caller holds fewer shares than it tries to sell or redeem.
    InsufficientShares,
    /// The operation would empty one of the pool's reserves.
    CannotDrainPool,
    /// A withdrawal would pay nothing on one side.
    AmountTooSmall,
    /// The deposit would take the pool past the liquidity cap.
    ExceedsLiquidityCap,
    /// An intermediate value does not fit in 128 bits.
    Overflow,
}

/// Reserves of one market's pool and the liquidity shares issued on it.
#[derive(Clone, Copy, Debug, PartialEq, Eq, Structural)]
pub struct Pool {
    pub yes_reserve: u128,
    pub no_reserve: u128,
    /// Liquidity shares issued in total.
    pub total_liquidity: u128,
    pub created_at: u64,
}

/// The reserve of `outcome` itself (outcome 1 is YES, 0 is NO).
pub open spec fn own_reserve(p: Pool, outcome: u32) -> int {
    if outcome == 1 {
        p.yes_reserve as int
    } else {
        p.no_reserve as int
    }
}

/// The reserve of the outcome opposite to `outcome`.
pub open spec fn other_reserve(p: Pool, outcome: u32) -> int {
    if outcome == 1 {
        p.no_reserve as int
    } else {
        p.yes_reserve as int
    }
}

/// `p` with the reserve of `outcome` set to `own` and the other to `other`.
pub open spec fn with_sides(p: Pool, outcome: u32, own: int, other: int) -> Pool {
    if outcome == 1 {
        Pool {
            yes_reserve: own as u128,
            no_reserve: other as u128,
            total_liquidity: p.total_liquidity,
            created_at: p.created_at,
        }
    } else {
        Pool {
            yes_reserve: other as u128,
            no_reserve: own as u128,
            total_liquidity: p.total_liquidity,
            created_at: p.created_at,
        }
    }
}

/// Product of a pool's reserves.
pub open spec fn product(p: Pool) -> int {
    (p.yes_reserve as int) * (p.no_reserve as int)
}

/// Outcome of a purchase of `amount` of `outcome` by a caller holding `held`
/// shares of it: the shares bought and the new pool, or the error.
///
/// The fee stays with the pool: only `amount - fee` joins the opposite
/// reserve, and the shares leave the outcome's own reserve.
pub open spec fn buy_spec(
    fee_bps: int,
    pool: Option<Pool>,
    held: int,
    outcome: u32,
    amount: int,
    min_shares: int,
) -> Result<(int, Pool), AmmError> {
    if outcome > 1 {
        Err(AmmError::InvalidOutcome)
    } else if amount == 0 {
        Err(AmmError::InvalidAmount)
    } else {
        match pool {
            None => Err(AmmError::PoolNotFound),
            Some(p) => {
                let rin = other_reserve(p, outcome);
                let rout = own_reserve(p, outcome);
                if p.yes_reserve == 0 || p.no_reserve == 0 {
                    Err(AmmError::InsufficientLiquidity)
                } else if amount * fee_bps > u128::MAX {
                    Err(AmmError::Overflow)
                } else {
                    let a = amount - fee_spec(amount, fee_bps);
                    if a * rout > u128::MAX || rin + a > u128::MAX {
                        Err(AmmError::Overflow)
                    } else {
                        let s = buy_out_spec(rin, rout, a);
                        if s < min_shares {
                            Err(AmmError::SlippageExceeded)
                        } else if rin + a + (rout - s) > MAX_POOL_TOTAL || held + s > u128::MAX {
                            Err(AmmError::Overflow)
                        } else {
                            Ok((s, with_sides(p, outcome, rout - s, rin + a)))
                        }
                    }
                }
            },
        }
    }
}

/// Outcome of a sale of `shares` of `outcome` by a caller holding `held`:
/// the net payout and the new pool, or the error.
///
/// The shares join the outcome's own reserve and the gross payout
/// `cpmm_out_spec` leaves the opposite one; the fee is kept back from the
/// seller, so the pool loses the gross amount.
pub open spec fn sell_spec(
    fee_bps: int,
    pool: Option<Pool>,
    held: int,
    outcome: u32,
    shares: int,
    min_payout: int,
) -> Result<(int, Pool), AmmError> {
    if outcome > 1 {
        Err(AmmError::InvalidOutcome)
    } else if shares == 0 {
        Err(AmmError::InvalidAmount)
    } else {
        match pool {
            None => Err(AmmError::PoolNotFound),
            Some(p) => {
                let rin = own_reserve(p, outcome);
                let rout = other_reserve(p, outcome);
                if held < shares {
                    Err(AmmError::InsufficientShares)
                } else if rin * rout > u128::MAX || rin + shares > u128::MAX {
                    Err(AmmError::Overflow)
                } else {
                    let gross = cpmm_out_spec(rin, rout, shares);
                    let net = gross - fee_spec(gross, fee_bps);
                    if net < min_payout {
                        Err(AmmError::SlippageExceeded)
                    } else if rout - gross == 0 {
                        Err(AmmError::CannotDrainPool)
                    } else if rin + shares + (rout - gross) > MAX_POOL_TOTAL {
                        Err(AmmError::Overflow)
                    } else {
                        Ok((net, with_sides(p, outcome, rin + shares, rout - gross)))
                    }
                }
            },
        }
    }
}

/// Outcome of a deposit of `amount` by a provider holding `held` liquidity
/// shares: the shares minted and the new pool, or the error.
///
/// `amount * issued / (yes + no)` shares are minted; the deposit is split
/// in the ratio of the reserves, the YES part rounded down.
pub open spec fn add_liquidity_spec(cap: int, pool: Option<Pool>, held: int, amount: int) -> Result<
    (int, Pool),
    AmmError,
> {
    if amount == 0 {
        Err(AmmError::InvalidAmount)
    } else {
        match pool {
            None => Err(AmmError::PoolNotFound),
            Some(p) => {
                let total = p.yes_reserve + p.no_reserve;
                if p.yes_reserve == 0 || p.no_reserve == 0 {
                    Err(AmmError::InsufficientLiquidity)
                } else if total + amount > cap {
                    Err(AmmError::ExceedsLiquidityCap)
                } else if total + amount > MAX_POOL_TOTAL {
                    Err(AmmError::Overflow)
                } else if amount * p.total_liquidity > u128::MAX || amount * p.yes_reserve
                    > u128::MAX {
                    Err(AmmError::Overflow)
                } else {
                    let minted = amount * p.total_liquidity / total;
                    let yes_add = amount * p.yes_reserve / total;
                    if p.total_liquidity + minted > u128::MAX || held + minted > u128::MAX {
                        Err(AmmError::Overflow)
                    } else {
                        Ok(
                            (
                                minted,
                                Pool {
                                    yes_reserve: (p.yes_reserve + yes_add) as u128,
                                    no_reserve: (p.no_reserve + amount - yes_add) as u128,
                                    total_liquidity: (p.total_liquidity + minted) as u128,
                                    created_at: p.created_at,
                                },
                            ),
                        )
                    }
                }
            },
        }
    }
}

/// Outcome of redeeming `tokens` liquidity shares by a provider holding
/// `held`: the YES and NO amounts paid out and the new pool, or the error.
pub open spec fn remove_liquidity_spec(pool: Option<Pool>, held: int, tokens: int) -> Result<
    (int, int, Pool),
    AmmError,
> {
    if tokens == 0 {
        Err(AmmError::InvalidAmount)
    } else {
        match pool {
            None => Err(AmmError::PoolNotFound),
            Some(p) => {
                if held < tokens || p.total_liquidity < tokens {
                    Err(AmmError::InsufficientShares)
                } else if tokens * p.yes_reserve > u128::MAX || tokens * p.no_reserve > u128::MAX {
                    Err(AmmError::Overflow)
                } else {
                    let yes_out = tokens * p.yes_reserve / (p.total_liquidity as int);
                    let no_out = tokens * p.no_reserve / (p.total_liquidity as int);
                    if yes_out == 0 || no_out == 0 {
                        Err(AmmError::AmountTooSmall)
                    } else if p.yes_reserve - yes_out == 0 || p.no_reserve - no_out == 0 {
                        Err(AmmError::CannotDrainPool)
                    } else {
                        Ok(
                            (
                                yes_out,
                                no_out,
                                Pool {
                                    yes_reserve: (p.yes_reserve - yes_out) as u128,
                                    no_reserve: (p.no_reserve - no_out) as u128,
                                    total_liquidity: (p.total_liquidity - tokens) as u128,
                                    created_at: p.created_at,
                                },
                            ),
                        )
                    }
                }
            },
        }
    }
}

/// The automated market maker: one constant-product pool per market, the
/// traders' outcome shares and the providers' liquidity shares.
pub struct AMM {
    pub admin: AccountId,
    pub factory: AccountId,
    pub usdc_token: AccountId,
    /// Largest `yes_reserve + no_reserve` a deposit may lead to.
    pub max_liquidity_cap: u128,
    pub slippage_protection_bps: u32,
    pub trading_fee_bps: u128,
    pub pools: Store<MarketId, Pool>,
    pub shares: Store<PositionKey, u128>,
    pub lp_balances: Store<LpKey, u128>,
}

impl AMM {
    /// Stores are consistent, the fee is at most 100%, and every pool's
    /// reserves add up to at most `MAX_POOL_TOTAL`.
    pub open spec fn wf(&self) -> bool {
        &&& self.pools.wf()
        &&& self.shares.wf()
        &&& self.lp_balances.wf()
        &&& self.trading_fee_bps <= 10000
        &&& forall|m: MarketId| #[trigger]
            self.pools@.contains_key(m) ==> self.pools@[m].yes_reserve + self.pools@[m].no_reserve
                <= MAX_POOL_TOTAL
    }

    /// The pool of `m`, if one exists.
    pub open spec fn pool_opt(&self, m: MarketId) -> Option<Pool> {
        if self.pools@.contains_key(m) {
            Some(self.pools@[m])
        } else {
            None
        }
    }

    /// Outcome shares held under `k`; zero when nothing was recorded.
    pub open spec fn shares_of(&self, k: PositionKey) -> int {
        if self.shares@.contains_key(k) {
            self.shares@[k] as int
        } else {
            0
        }
    }

    /// Liquidity shares held under `k`; zero when nothing was recorded.
    pub open spec fn lp_of(&self, k: LpKey) -> int {
        if self.lp_balances@.contains_key(k) {
            self.lp_balances@[k] as int
        } else {
            0
        }
    }

    /// Same parameters as `o`.
    pub open spec fn same_config(&self, o: &AMM) -> bool {
        &&& self.admin == o.admin
        &&& self.factory == o.factory
        &&& self.usdc_token == o.usdc_token
        &&& self.max_liquidity_cap == o.max_liquidity_cap
        &&& self.slippage_protection_bps == o.slippage_protection_bps
        &&& self.trading_fee_bps == o.trading_fee_bps
    }

    /// A new AMM with no pools, charging the default fee.
    pub fn initialize(
        admin: AccountId,
        factory: AccountId,
        usdc_token: AccountId,
        max_liquidity_cap: u128,
    ) -> (r: AMM)
        ensures
            r.wf(),
            r.admin == admin,
            r.factory == factory,
            r.usdc_token == usdc_token,
            r.max_liquidity_cap == max_liquidity_cap,
            r.slippage_protection_bps == DEFAULT_SLIPPAGE_PROTECTION_BPS,
            r.trading_fee_bps == DEFAULT_TRADING_FEE_BPS,
            r.pools@ == Map::<MarketId, Pool>::empty(),
            r.shares@ == Map::<PositionKey, u128>::empty(),
            r.lp_balances@ == Map::<LpKey, u128>::empty(),
    {
        AMM {
            admin,
            factory,
            usdc_token,
            max_liquidity_cap,
            slippage_protection_bps: DEFAULT_SLIPPAGE_PROTECTION_BPS,
            trading_fee_bps: DEFAULT_TRADING_FEE_BPS,
            pools: Store::new(),
            shares: Store::new(),
            lp_balances: Store::new(),
        }
    }
}

impl AMM {
    /// Opens a pool for `market_id` holding `initial_liquidity` split evenly
    /// between YES and NO (an odd unit is dropped). The creator receives
    /// `initial_liquidity` liquidity shares, the whole issue.
    pub fn create_pool(
        &mut self,
        creator: AccountId,
        market_id: MarketId,
        initial_liquidity: u128,
        now: u64,
    ) -> (r: Result<(), AmmError>)
        requires
            old(self).wf(),
        ensures
            final(self).wf(),
            old(self).pools@.contains_key(market_id) ==> r == Err::<(), AmmError>(
                AmmError::PoolAlreadyExists,
            ),
            !old(self).pools@.contains_key(market_id) && initial_liquidity == 0 ==> r == Err::<
                (),
                AmmError,
            >(AmmError::InvalidAmount),
            !old(self).pools@.contains_key(market_id) && initial_liquidity > 0 && 2 * (
            initial_liquidity / 2) > MAX_POOL_TOTAL ==> r == Err::<(), AmmError>(
                AmmError::Overflow,
            ),
            r is Ok <==> !old(self).pools@.contains_key(market_id) && initial_liquidity > 0 && 2 * (
            initial_liquidity / 2) <= MAX_POOL_TOTAL,
            r is Err ==> *final(self) == *old(self),
            r is Ok ==> {
                &&& final(self).pools@ == old(self).pools@.insert(
                    market_id,
                    (Pool {
                        yes_reserve: initial_liquidity / 2,
                        no_reserve: initial_liquidity / 2,
                        total_liquidity: initial_liquidity,
                        created_at: now,
                    }),
                )
                &&& final(self).lp_balances@ == old(self).lp_balances@.insert(
                    (LpKey { market: market_id, provider: creator }),
                    initial_liquidity,
                )
                &&& final(self).shares@ == old(self).shares@
                &&& final(self).same_config(old(self))
            },
    {
        if self.pools.contains(&market_id) {
            return Err(AmmError::PoolAlreadyExists);
        }
        if initial_liquidity == 0 {
            return Err(AmmError::InvalidAmount);
        }
        let half = initial_liquidity / 2;
        if half > MAX_POOL_TOTAL / 2 {
            return Err(AmmError::Overflow);
        }
        let pool = Pool {
            yes_reserve: half,
            no_reserve: half,
            total_liquidity: initial_liquidity,
            created_at: now,
        };
        self.pools.insert(market_id, pool);
        self.lp_balances.insert(LpKey { market: market_id, provider: creator }, initial_liquidity);
        Ok(())
    }

    /// Buys outcome shares with `amount`; returns the shares credited to
    /// `buyer`. The caller collects `amount` from the buyer.
    pub fn buy_shares(
        &mut self,
        buyer: AccountId,
        market_id: MarketId,
        outcome: u32,
        amount: u128,
        min_shares: u128,
    ) -> (r: Result<u128, AmmError>)
        requires
            old(self).wf(),
        ensures
            final(self).wf(),
            ({
                let key = PositionKey { user: buyer, market: market_id, outcome };
                match buy_spec(
                    old(self).trading_fee_bps as int,
                    old(self).pool_opt(market_id),
                    old(self).shares_of(key),
                    outcome,
                    amount as int,
                    min_shares as int,
                ) {
                    Ok((s, p)) => {
                        &&& r == Ok::<u128, AmmError>(s as u128)
                        &&& final(self).pools@ == old(self).pools@.insert(market_id, p)
                        &&& final(self).shares@ == old(self).shares@.insert(
                            key,
                            (old(self).shares_of(key) + s) as u128,
                        )
                        &&& final(self).lp_balances@ == old(self).lp_balances@
                        &&& final(self).same_config(old(self))
                    },
                    Err(e) => r == Err::<u128, AmmError>(e) && *final(self) == *old(self),
                }
            }),
            r is Ok ==> product(final(self).pools@[market_id]) >= product(
                old(self).pools@[market_id],
            ),
    {
        if outcome > 1 {
            return Err(AmmError::InvalidOutcome);
        }
        if amount == 0 {
            return Err(AmmError::InvalidAmount);
        }
        let pool = match self.pools.get(&market_id) {
            Some(p) => p,
            None => {
                return Err(AmmError::PoolNotFound);
            },
        };
        if pool.yes_reserve == 0 || pool.no_reserve == 0 {
            return Err(AmmError::InsufficientLiquidity);
        }
        let fee_numerator = match amount.checked_mul(self.trading_fee_bps) {
            Some(x) => x,
            None => {
                return Err(AmmError::Overflow);
            },
        };
        let fee = fee_numerator / BPS_DENOMINATOR;
        proof {
            assert(amount * self.trading_fee_bps <= 10000 * amount) by (nonlinear_arith)
                requires
                    self.trading_fee_bps <= 10000,
            ;
            lemma_div_bounded(amount * self.trading_fee_bps, 10000, amount as int);
        }
        let amount_after_fee = amount - fee;
        let (reserve_in, reserve_out) = if outcome == 1 {
            (pool.no_reserve, pool.yes_reserve)
        } else {
            (pool.yes_reserve, pool.no_reserve)
        };
        let numerator = match amount_after_fee.checked_mul(reserve_out) {
            Some(x) => x,
            None => {
                return Err(AmmError::Overflow);
            },
        };
        let new_reserve_in = match reserve_in.checked_add(amount_after_fee) {
            Some(x) => x,
            None => {
                return Err(AmmError::Overflow);
            },
        };
        let shares_out = numerator / new_reserve_in;
        if shares_out < min_shares {
            return Err(AmmError::SlippageExceeded);
        }
        proof {
            lemma_buy_keeps_product(reserve_in as int, reserve_out as int, amount_after_fee as int);
        }
        let new_reserve_out = reserve_out - shares_out;
        if new_reserve_in > MAX_POOL_TOTAL - new_reserve_out {
            return Err(AmmError::Overflow);
        }
        let key = PositionKey { user: buyer, market: market_id, outcome };
        let held = match self.shares.get(&key) {
            Some(v) => v,
            None => 0,
        };
        let new_held = match held.checked_add(shares_out) {
            Some(x) => x,
            None => {
                return Err(AmmError::Overflow);
            },
        };
        let new_pool = if outcome == 1 {
            Pool {
                yes_reserve: new_reserve_out,
                no_reserve: new_reserve_in,
                total_liquidity: pool.total_liquidity,
                created_at: pool.created_at,
            }
        } else {
            Pool {
                yes_reserve: new_reserve_in,
                no_reserve: new_reserve_out,
                total_liquidity: pool.total_liquidity,
                created_at: pool.created_at,
            }
        };
        proof {
            assert(product(new_pool) >= product(pool)) by (nonlinear_arith)
                requires
                    (new_reserve_in as int) * (new_reserve_out as int) >= (reserve_in as int) * (
                    reserve_out as int),
                    outcome == 1 ==> new_pool.yes_reserve == new_reserve_out
                        && new_pool.no_reserve == new_reserve_in && pool.yes_reserve
                        == reserve_out && pool.no_reserve == reserve_in,
                    outcome != 1 ==> new_pool.yes_reserve == new_reserve_in
                        && new_pool.no_reserve == new_reserve_out && pool.yes_reserve
                        == reserve_in && pool.no_reserve == reserve_out,
            ;
        }
        self.pools.insert(market_id, new_pool);
        self.shares.insert(key, new_held);
        Ok(shares_out)
    }

    /// Sells `shares` of `outcome` back to the pool; returns the net payout
    /// the caller sends to `seller`.
    pub fn sell_shares(
        &mut self,
        seller: AccountId,
        market_id: MarketId,
        outcome: u32,
        shares: u128,
        min_payout: u128,
    ) -> (r: Result<u128, AmmError>)
        requires
            old(self).wf(),
        ensures
            final(self).wf(),
            ({
                let key = PositionKey { user: seller, market: market_id, outcome };
                match sell_spec(
                    old(self).trading_fee_bps as int,
                    old(self).pool_opt(market_id),
                    old(self).shares_of(key),
                    outcome,
                    shares as int,
                    min_payout as int,
                ) {
                    Ok((net, p)) => {
                        &&& r == Ok::<u128, AmmError>(net as u128)
                        &&& final(self).pools@ == old(self).pools@.insert(market_id, p)
                        &&& final(self).shares@ == old(self).shares@.insert(
                            key,
                            (old(self).shares_of(key) - shares) as u128,
                        )
                        &&& final(self).lp_balances@ == old(self).lp_balances@
                        &&& final(self).same_config(old(self))
                    },
                    Err(e) => r == Err::<u128, AmmError>(e) && *final(self) == *old(self),
                }
            }),
    {
        if outcome > 1 {
            return Err(AmmError::InvalidOutcome);
        }
        if shares == 0 {
            return Err(AmmError::InvalidAmount);
        }
        let pool = match self.pools.get(&market_id) {
            Some(p) => p,
            None => {
                return Err(AmmError::PoolNotFound);
            },
        };
        let key = PositionKey { user: seller, market: market_id, outcome };
        let held = match self.shares.get(&key) {
            Some(v) => v,
            None => 0,
        };
        if held < shares {
            return Err(AmmError::InsufficientShares);
        }
        let yes_reserve = pool.yes_reserve;
        let no_reserve = pool.no_reserve;
        proof {
            assert((no_reserve as int) * (yes_reserve as int) == (yes_reserve as int) * (
            no_reserve as int)) by (nonlinear_arith);
        }
        if yes_reserve.checked_mul(no_reserve).is_none() {
            return Err(AmmError::Overflow);
        }
        let (reserve_in, reserve_out) = if outcome == 1 {
            (yes_reserve, no_reserve)
        } else {
            (no_reserve, yes_reserve)
        };
        let new_reserve_in = match reserve_in.checked_add(shares) {
            Some(x) => x,
            None => {
                return Err(AmmError::Overflow);
            },
        };
        let payout = calculate_payout(yes_reserve, no_reserve, outcome, shares);
        proof {
            lemma_cpmm_out_bounds(reserve_in as int, reserve_out as int, shares as int);
            assert(payout * self.trading_fee_bps <= 10000 * payout) by (nonlinear_arith)
                requires
                    self.trading_fee_bps <= 10000,
            ;
            assert(10000 * payout <= 10000 * MAX_POOL_TOTAL) by (nonlinear_arith)
                requires
                    payout <= MAX_POOL_TOTAL,
            ;
            assert(payout * self.trading_fee_bps >= 0) by (nonlinear_arith);
            lemma_div_bounded(payout * self.trading_fee_bps, 10000, payout as int);
        }
        let fee = payout * self.trading_fee_bps / BPS_DENOMINATOR;
        let net_payout = payout - fee;
        if net_payout < min_payout {
            return Err(AmmError::SlippageExceeded);
        }
        let new_reserve_out = reserve_out - payout;
        if new_reserve_out == 0 {
            return Err(AmmError::CannotDrainPool);
        }
        if new_reserve_in > MAX_POOL_TOTAL - new_reserve_out {
            return Err(AmmError::Overflow);
        }
        let new_pool = if outcome == 1 {
            Pool {
                yes_reserve: new_reserve_in,
                no_reserve: new_reserve_out,
                total_liquidity: pool.total_liquidity,
                created_at: pool.created_at,
            }
        } else {
            Pool {
                yes_reserve: new_reserve_out,
                no_reserve: new_reserve_in,
                total_liquidity: pool.total_liquidity,
                created_at: pool.created_at,
            }
        };
        self.pools.insert(market_id, new_pool);
        self.shares.insert(key, held - shares);
        Ok(net_payout)
    }

    /// Odds of (YES, NO) in basis points; an even (5000, 5000) where no
    /// pool exists. See `odds_spec`.
    pub fn get_odds(&self, market_id: MarketId) -> (r: (u32, u32))
        requires
            self.wf(),
        ensures
            r.0 + r.1 == 10000,
            !self.pools@.contains_key(market_id) ==> r == (5000u32, 5000u32),
            self.pools@.contains_key(market_id) ==> {
                let p = self.pools@[market_id];
                &&& r.0 as int == odds_spec(p.yes_reserve as int, p.no_reserve as int).0
                &&& r.1 as int == odds_spec(p.yes_reserve as int, p.no_reserve as int).1
            },
    {
        match self.pools.get(&market_id) {
            None => (5000, 5000),
            Some(p) => odds_from_reserves(p.yes_reserve, p.no_reserve),
        }
    }

    /// `(yes_reserve, no_reserve, yes_reserve + no_reserve, yes_odds, no_odds)`;
    /// zero reserves and even odds where no pool exists.
    pub fn get_pool_state(&self, market_id: MarketId) -> (r: (u128, u128, u128, u32, u32))
        requires
            self.wf(),
        ensures
            !self.pools@.contains_key(market_id) ==> r == (0u128, 0u128, 0u128, 5000u32, 5000u32),
            self.pools@.contains_key(market_id) ==> {
                let p = self.pools@[market_id];
                &&& r.0 == p.yes_reserve
                &&& r.1 == p.no_reserve
                &&& r.2 == p.yes_reserve + p.no_reserve
                &&& r.3 as int == odds_spec(p.yes_reserve as int, p.no_reserve as int).0
                &&& r.4 as int == odds_spec(p.yes_reserve as int, p.no_reserve as int).1
            },
            r.3 + r.4 == 10000,
    {
        match self.pools.get(&market_id) {
            None => (0, 0, 0, 5000, 5000),
            Some(p) => {
                let (yes_odds, no_odds) = odds_from_reserves(p.yes_reserve, p.no_reserve);
                (p.yes_reserve, p.no_reserve, p.yes_reserve + p.no_reserve, yes_odds, no_odds)
            },
        }
    }

    /// Deposits `amount` into an existing pool; returns the liquidity shares
    /// minted to `provider`. The caller collects `amount` from the provider.
    pub fn add_liquidity(&mut self, provider: AccountId, market_id: MarketId, amount: u128) -> (r:
        Result<u128, AmmError>)
        requires
            old(self).wf(),
        ensures
            final(self).wf(),
            ({
                let key = LpKey { market: market_id, provider };
                match add_liquidity_spec(
                    old(self).max_liquidity_cap as int,
                    old(self).pool_opt(market_id),
                    old(self).lp_of(key),
                    amount as int,
                ) {
                    Ok((minted, p)) => {
                        &&& r == Ok::<u128, AmmError>(minted as u128)
                        &&& final(self).pools@ == old(self).pools@.insert(market_id, p)
                        &&& final(self).lp_balances@ == old(self).lp_balances@.insert(
                            key,
                            (old(self).lp_of(key) + minted) as u128,
                        )
                        &&& final(self).shares@ == old(self).shares@
                        &&& final(self).same_config(old(self))
                    },
                    Err(e) => r == Err::<u128, AmmError>(e) && *final(self) == *old(self),
                }
            }),
    {
        if amount == 0 {
            return Err(AmmError::InvalidAmount);
        }
        let pool = match self.pools.get(&market_id) {
            Some(p) => p,
            None => {
                return Err(AmmError::PoolNotFound);
            },
        };
        if pool.yes_reserve == 0 || pool.no_reserve == 0 {
            return Err(AmmError::InsufficientLiquidity);
        }
        let total = pool.yes_reserve + pool.no_reserve;
        let new_total = match total.checked_add(amount) {
            Some(x) => x,
            None => {
                return Err(AmmError::ExceedsLiquidityCap);
            },
        };
        if new_total > self.max_liquidity_cap {
            return Err(AmmError::ExceedsLiquidityCap);
        }
        if new_total > MAX_POOL_TOTAL {
            return Err(AmmError::Overflow);
        }
        let minted_numerator = match amount.checked_mul(pool.total_liquidity) {
            Some(x) => x,
            None => {
                return Err(AmmError::Overflow);
            },
        };
        let yes_numerator = match amount.checked_mul(pool.yes_reserve) {
            Some(x) => x,
            None => {
                return Err(AmmError::Overflow);
            },
        };
        let minted = minted_numerator / total;
        let yes_add = yes_numerator / total;
        proof {
            assert(amount * pool.yes_reserve <= total * amount) by (nonlinear_arith)
                requires
                    pool.yes_reserve <= total,
            ;
            assert(amount * pool.yes_reserve >= 0) by (nonlinear_arith);
            lemma_div_bounded(amount * pool.yes_reserve, total as int, amount as int);
        }
        let new_supply = match pool.total_liquidity.checked_add(minted) {
            Some(x) => x,
            None => {
                return Err(AmmError::Overflow);
            },
        };
        let key = LpKey { market: market_id, provider };
        let held = match self.lp_balances.get(&key) {
            Some(v) => v,
            None => 0,
        };
        let new_held = match held.checked_add(minted) {
            Some(x) => x,
            None => {
                return Err(AmmError::Overflow);
            },
        };
        let new_pool = Pool {
            yes_reserve: pool.yes_reserve + yes_add,
            no_reserve: pool.no_reserve + (amount - yes_add),
            total_liquidity: new_supply,
            created_at: pool.created_at,
        };
        self.pools.insert(market_id, new_pool);
        self.lp_balances.insert(key, new_held);
        Ok(minted)
    }

    /// Redeems `lp_tokens` liquidity shares of `provider`; returns the YES
    /// and NO amounts taken from the reserves, whose sum the caller pays out.
    /// A balance that reaches zero is deleted.
    pub fn remove_liquidity(&mut self, provider: AccountId, market_id: MarketId, lp_tokens: u128) -> (r:
        Result<(u128, u128), AmmError>)
        requires
            old(self).wf(),
        ensures
            final(self).wf(),
            ({
                let key = LpKey { market: market_id, provider };
                match remove_liquidity_spec(
                    old(self).pool_opt(market_id),
                    old(self).lp_of(key),
                    lp_tokens as int,
                ) {
                    Ok((yes_out, no_out, p)) => {
                        &&& r == Ok::<(u128, u128), AmmError>((yes_out as u128, no_out as u128))
                        &&& final(self).pools@ == old(self).pools@.insert(market_id, p)
                        &&& old(self).lp_of(key) == lp_tokens ==> final(self).lp_balances@ == old(
                            self,
                        ).lp_balances@.remove(key)
                        &&& old(self).lp_of(key) != lp_tokens ==> final(self).lp_balances@ == old(
                            self,
                        ).lp_balances@.insert(key, (old(self).lp_of(key) - lp_tokens) as u128)
                        &&& final(self).shares@ == old(self).shares@
                        &&& final(self).same_config(old(self))
                    },
                    Err(e) => r == Err::<(u128, u128), AmmError>(e) && *final(self) == *old(self),
                }
            }),
    {
        if lp_tokens == 0 {
            return Err(AmmError::InvalidAmount);
        }
        let pool = match self.pools.get(&market_id) {
            Some(p) => p,
            None => {
                return Err(AmmError::PoolNotFound);
            },
        };
        let key = LpKey { market: market_id, provider };
        let held = match self.lp_balances.get(&key) {
            Some(v) => v,
            None => 0,
        };
        if held < lp_tokens || pool.total_liquidity < lp_tokens {
            return Err(AmmError::InsufficientShares);
        }
        let yes_numerator = match lp_tokens.checked_mul(pool.yes_reserve) {
            Some(x) => x,
            None => {
                return Err(AmmError::Overflow);
            },
        };
        let no_numerator = match lp_tokens.checked_mul(pool.no_reserve) {
            Some(x) => x,
            None => {
                return Err(AmmError::Overflow);
            },
        };
        let yes_out = yes_numerator / pool.total_liquidity;
        let no_out = no_numerator / pool.total_liquidity;
        proof {
            assert(lp_tokens * pool.yes_reserve <= pool.total_liquidity * pool.yes_reserve)
                by (nonlinear_arith)
                requires
                    lp_tokens <= pool.total_liquidity,
            ;
            assert(lp_tokens * pool.no_reserve <= pool.total_liquidity * pool.no_reserve)
                by (nonlinear_arith)
                requires
                    lp_tokens <= pool.total_liquidity,
            ;
            assert(lp_tokens * pool.yes_reserve >= 0) by (nonlinear_arith);
            assert(lp_tokens * pool.no_reserve >= 0) by (nonlinear_arith);
            lemma_div_bounded(
                lp_tokens * pool.yes_reserve,
                pool.total_liquidity as int,
                pool.yes_reserve as int,
            );
            lemma_div_bounded(
                lp_tokens * pool.no_reserve,
                pool.total_liquidity as int,
                pool.no_reserve as int,
            );
        }
        if yes_out == 0 || no_out == 0 {
            return Err(AmmError::AmountTooSmall);
        }
        let new_yes = pool.yes_reserve - yes_out;
        let new_no = pool.no_reserve - no_out;
        if new_yes == 0 || new_no == 0 {
            return Err(AmmError::CannotDrainPool);
        }
        let new_pool = Pool {
            yes_reserve: new_yes,
            no_reserve: new_no,
            total_liquidity: pool.total_liquidity - lp_tokens,
            created_at: pool.created_at,
        };
        self.pools.insert(market_id, new_pool);
        let new_held = held - lp_tokens;
        if new_held == 0 {
            self.lp_balances.remove(&key);
        } else {
            self.lp_balances.insert(key, new_held);
        }
        Ok((yes_out, no_out))
    }

    /// Whether a pool exists for `market_id`.
    pub fn pool_exists(&self, market_id: MarketId) -> (r: bool)
        requires
            self.wf(),
        ensures
            r == self.pools@.contains_key(market_id),
    {
        self.pools.contains(&market_id)
    }

    /// The (YES, NO) reserves of `market_id`; (0, 0) where no pool exists.
    pub fn get_pool_reserves(&self, market_id: MarketId) -> (r: (u128, u128))
        requires
            self.wf(),
        ensures
            self.pools@.contains_key(market_id) ==> r == (
            self.pools@[market_id].yes_reserve,
            self.pools@[market_id].no_reserve,
            ),
            !self.pools@.contains_key(market_id) ==> r == (0u128, 0u128),
    {
        match self.pools.get(&market_id) {
            Some(p) => (p.yes_reserve, p.no_reserve),
            None => (0, 0),
        }
    }

    /// Overwrites the reserves of `market_id`; where no pool exists, one is
    /// opened with no liquidity shares issued.
    pub fn set_pool_reserves(&mut self, market_id: MarketId, yes_reserve: u128, no_reserve: u128)
        requires
            old(self).wf(),
            yes_reserve + no_reserve <= MAX_POOL_TOTAL,
        ensures
            final(self).wf(),
            final(self).pools@ == old(self).pools@.insert(
                market_id,
                (match old(self).pool_opt(market_id) {
                    Some(p) => Pool { yes_reserve, no_reserve, ..p },
                    None => Pool { yes_reserve, no_reserve, total_liquidity: 0, created_at: 0 },
                }),
            ),
            final(self).shares@ == old(self).shares@,
            final(self).lp_balances@ == old(self).lp_balances@,
            final(self).same_config(old(self)),
    {
        let pool = match self.pools.get(&market_id) {
            Some(p) => Pool { yes_reserve, no_reserve, ..p },
            None => Pool { yes_reserve, no_reserve, total_liquidity: 0, created_at: 0 },
        };
        self.pools.insert(market_id, pool);
    }

    /// Shares of `outcome` that `user` holds in `market_id`.
    pub fn get_user_shares(&self, user: AccountId, market_id: MarketId, outcome: u32) -> (r: u128)
        requires
            self.wf(),
        ensures
            r == self.shares_of(PositionKey { user, market: market_id, outcome }),
    {
        match self.shares.get(&PositionKey { user, market: market_id, outcome }) {
            Some(v) => v,
            None => 0,
        }
    }

    /// Records that `user` holds `shares` of `outcome` in `market_id`.
    pub fn set_user_shares(
        &mut self,
        user: AccountId,
        market_id: MarketId,
        outcome: u32,
        shares: u128,
    )
        requires
            old(self).wf(),
        ensures
            final(self).wf(),
            final(self).shares@ == old(self).shares@.insert(
                PositionKey { user, market: market_id, outcome },
                shares,
            ),
            final(self).pools@ == old(self).pools@,
            final(self).lp_balances@ == old(self).lp_balances@,
            final(self).same_config(old(self)),
    {
        self.shares.insert(PositionKey { user, market: market_id, outcome }, shares);
    }

    /// Liquidity shares that `provider` holds in `market_id`.
    pub fn get_lp_balance(&self, provider: AccountId, market_id: MarketId) -> (r: u128)
        requires
            self.wf(),
        ensures
            r == self.lp_of(LpKey { market: market_id, provider }),
    {
        match self.lp_balances.get(&LpKey { market: market_id, provider }) {
            Some(v) => v,
            None => 0,
        }
    }
}

} // verus!
