//! Lifecycle of one prediction market: commitments while open, closing,
//! resolution from the oracles' decision, and one claim per winner.
use vstd::prelude::*;

use crate::ids::{AccountId, MarketId};
use crate::store::Store;

verus! {

/// Share of a gross payout kept as protocol fee: one tenth.
pub const PROTOCOL_FEE_DIVISOR: u128 = 10;

/// Why a market operation was refused. Nothing changes when one is returned.
#[derive(Clone, Copy, Debug, PartialEq, Eq, Structural)]
pub enum MarketError {
    /// The market is not in the state the operation needs.
    InvalidMarketState,
    /// The closing time has passed.
    MarketClosed,
    /// The amount is not positive.
    InvalidAmount,
    /// The user has committed already.
    DuplicateCommit,
    /// A token transfer failed.
    TransferFailed,
    /// The market has not been set up.
    NotInitialized,
    /// The user holds no prediction.
    NoPrediction,
    /// The user has claimed already.
    AlreadyClaimed,
    /// The user's prediction lost.
    NotWinner,
    /// The market is not resolved yet.
    MarketNotResolved,
    /// The closing time has not come yet.
    BeforeClosingTime,
    /// The resolution time has not come yet.
    BeforeResolutionTime,
    /// The market is still open.
    MarketStillOpen,
    /// The market is resolved already.
    AlreadyResolved,
    /// The oracles have not reached a decision.
    ConsensusNotReached,
    /// The outcome is neither 0 (NO) nor 1 (YES).
    InvalidOutcome,
    /// Nobody backed the winning outcome.
    NoWinners,
    /// The payout rounds down to nothing.
    ZeroPayout,
    /// An intermediate value does not fit in 128 bits.
    Overflow,
}

/// Phase of a market; it only moves forward.
#[derive(Clone, Copy, Debug, PartialEq, Eq, Structural)]
pub enum MarketState {
    Open,
    Closed,
    Resolved,
}

/// A hidden prediction: the hash of what will be revealed, and the escrowed amount.
#[derive(Clone, Copy, Debug)]
pub struct Commitment {
    pub user: AccountId,
    pub commit_hash: [u8; 32],
    pub amount: i128,
    pub timestamp: u64,
}

/// A user's position on the market's outcome.
#[derive(Clone, Copy, Debug)]
pub struct UserPrediction {
    pub user: AccountId,
    pub outcome: u32,
    pub amount: u128,
    pub claimed: bool,
    pub timestamp: u64,
}

/// Number code of a market state: 0 open, 1 closed, 2 resolved.
pub open spec fn state_code(s: MarketState) -> u32 {
    match s {
        MarketState::Open => 0,
        MarketState::Closed => 1,
        MarketState::Resolved => 2,
    }
}

/// Outcome of a claim, from the market's phase, its winning outcome and
/// payout totals, and the claimant's prediction: the net payout or the error.
///
/// The gross payout is `amount * (winner_total + loser_total) / winner_total`,
/// rounded down; a tenth of it, rounded down, is kept as fee.
pub open spec fn claim_spec(
    state: MarketState,
    winning_outcome: Option<u32>,
    winner_total: int,
    loser_total: int,
    prediction: Option<UserPrediction>,
) -> Result<int, MarketError> {
    if state != MarketState::Resolved {
        Err(MarketError::MarketNotResolved)
    } else {
        match prediction {
            None => Err(MarketError::NoPrediction),
            Some(p) => {
                if p.claimed {
                    Err(MarketError::AlreadyClaimed)
                } else if winning_outcome != Some(p.outcome) {
                    Err(MarketError::NotWinner)
                } else if winner_total + loser_total > u128::MAX {
                    Err(MarketError::Overflow)
                } else if winner_total == 0 {
                    Err(MarketError::NoWinners)
                } else if p.amount * (winner_total + loser_total) > u128::MAX {
                    Err(MarketError::Overflow)
                } else {
                    let gross = p.amount * (winner_total + loser_total) / winner_total;
                    let net = gross - gross / 10;
                    if net == 0 {
                        Err(MarketError::ZeroPayout)
                    } else {
                        Ok(net)
                    }
                }
            },
        }
    }
}

/// One market: its parameters, phase, positions and, once resolved, the
/// winning outcome and the totals that payouts are computed from.
pub struct PredictionMarket {
    pub market_id: MarketId,
    pub creator: AccountId,
    pub factory: AccountId,
    pub usdc_token: AccountId,
    pub oracle: AccountId,
    pub closing_time: u64,
    pub resolution_time: u64,
    pub state: MarketState,
    /// Total staked on YES.
    pub yes_pool: u128,
    /// Total staked on NO.
    pub no_pool: u128,
    pub total_volume: u128,
    /// Commitments not yet revealed.
    pub pending_count: u32,
    pub commitments: Store<AccountId, Commitment>,
    pub predictions: Store<AccountId, UserPrediction>,
    /// Set exactly when the market is resolved.
    pub winning_outcome: Option<u32>,
    /// Total behind the winning outcome, fixed at resolution.
    pub winner_shares: u128,
    /// Total behind the losing outcome, fixed at resolution.
    pub loser_shares: u128,
}

impl PredictionMarket {
    pub open spec fn wf(&self) -> bool {
        &&& self.commitments.wf()
        &&& self.predictions.wf()
        &&& (self.state == MarketState::Resolved <==> self.winning_outcome is Some)
    }

    /// The prediction of `user`, if any.
    pub open spec fn prediction_of(&self, user: AccountId) -> Option<UserPrediction> {
        if self.predictions@.contains_key(user) {
            Some(self.predictions@[user])
        } else {
            None
        }
    }

    /// Everything but the positions and the phase is as in `o`.
    pub open spec fn same_setup(&self, o: &PredictionMarket) -> bool {
        &&& self.market_id == o.market_id
        &&& self.creator == o.creator
        &&& self.factory == o.factory
        &&& self.usdc_token == o.usdc_token
        &&& self.oracle == o.oracle
        &&& self.closing_time == o.closing_time
        &&& self.resolution_time == o.resolution_time
        &&& self.yes_pool == o.yes_pool
        &&& self.no_pool == o.no_pool
        &&& self.total_volume == o.total_volume
    }

    /// A new open market with nothing staked.
    pub fn initialize(
        market_id: MarketId,
        creator: AccountId,
        factory: AccountId,
        usdc_token: AccountId,
        oracle: AccountId,
        closing_time: u64,
        resolution_time: u64,
    ) -> (r: PredictionMarket)
        ensures
            r.wf(),
            r.market_id == market_id,
            r.creator == creator,
            r.factory == factory,
            r.usdc_token == usdc_token,
            r.oracle == oracle,
            r.closing_time == closing_time,
            r.resolution_time == resolution_time,
            r.state == MarketState::Open,
            r.yes_pool == 0 && r.no_pool == 0 && r.total_volume == 0,
            r.pending_count == 0,
            r.commitments@ == Map::<AccountId, Commitment>::empty(),
            r.predictions@ == Map::<AccountId, UserPrediction>::empty(),
            r.winning_outcome is None,
            r.winner_shares == 0 && r.loser_shares == 0,
    {
        PredictionMarket {
            market_id,
            creator,
            factory,
            usdc_token,
            oracle,
            closing_time,
            resolution_time,
            state: MarketState::Open,
            yes_pool: 0,
            no_pool: 0,
            total_volume: 0,
            pending_count: 0,
            commitments: Store::new(),
            predictions: Store::new(),
            winning_outcome: None,
            winner_shares: 0,
            loser_shares: 0,
        }
    }

    /// Records a commitment of `amount` by `user` at time `now`; the caller
    /// escrows `amount` from the user.
    pub fn commit_prediction(
        &mut self,
        user: AccountId,
        commit_hash: [u8; 32],
        amount: i128,
        now: u64,
    ) -> (r: Result<(), MarketError>)
        requires
            old(self).wf(),
        ensures
            final(self).wf(),
            r == (if old(self).state != MarketState::Open {
                Err(MarketError::InvalidMarketState)
            } else if now >= old(self).closing_time {
                Err(MarketError::MarketClosed)
            } else if amount <= 0 {
                Err(MarketError::InvalidAmount)
            } else if old(self).commitments@.contains_key(user) {
                Err(MarketError::DuplicateCommit)
            } else if old(self).pending_count == u32::MAX {
                Err(MarketError::Overflow)
            } else {
                Ok(())
            }),
            r is Err ==> *final(self) == *old(self),
            r is Ok ==> {
                &&& final(self).commitments@ == old(self).commitments@.insert(
                    user,
                    (Commitment { user, commit_hash, amount, timestamp: now }),
                )
                &&& final(self).pending_count == old(self).pending_count + 1
                &&& final(self).predictions@ == old(self).predictions@
                &&& final(self).state == old(self).state
                &&& final(self).winning_outcome == old(self).winning_outcome
                &&& final(self).winner_shares == old(self).winner_shares
                &&& final(self).loser_shares == old(self).loser_shares
                &&& final(self).same_setup(old(self))
            },
    {
        if self.state != MarketState::Open {
            return Err(MarketError::InvalidMarketState);
        }
        if now >= self.closing_time {
            return Err(MarketError::MarketClosed);
        }
        if amount <= 0 {
            return Err(MarketError::InvalidAmount);
        }
        if self.commitments.contains(&user) {
            return Err(MarketError::DuplicateCommit);
        }
        if self.pending_count == u32::MAX {
            return Err(MarketError::Overflow);
        }
        self.commitments.insert(user, Commitment { user, commit_hash, amount, timestamp: now });
        self.pending_count = self.pending_count + 1;
        Ok(())
    }

    /// The commitment of `user`, if any.
    pub fn get_commitment(&self, user: AccountId) -> (r: Option<Commitment>)
        requires
            self.wf(),
        ensures
            r == (if self.commitments@.contains_key(user) {
                Some(self.commitments@[user])
            } else {
                None
            }),
    {
        self.commitments.get(&user)
    }

    /// Number of commitments not yet revealed.
    pub fn get_pending_count(&self) -> (r: u32)
        ensures
            r == self.pending_count,
    {
        self.pending_count
    }

    /// Number code of the phase: 0 open, 1 closed, 2 resolved.
    pub fn get_market_state_value(&self) -> (r: Option<u32>)
        ensures
            r == Some(state_code(self.state)),
    {
        match self.state {
            MarketState::Open => Some(0),
            MarketState::Closed => Some(1),
            MarketState::Resolved => Some(2),
        }
    }

    /// Stops new predictions once `now` has reached the closing time.
    pub fn close_market(&mut self, now: u64) -> (r: Result<(), MarketError>)
        requires
            old(self).wf(),
        ensures
            final(self).wf(),
            r == (if now < old(self).closing_time {
                Err(MarketError::BeforeClosingTime)
            } else if old(self).state != MarketState::Open {
                Err(MarketError::InvalidMarketState)
            } else {
                Ok(())
            }),
            r is Err ==> *final(self) == *old(self),
            r is Ok ==> {
                &&& final(self).state == MarketState::Closed
                &&& final(self).commitments@ == old(self).commitments@
                &&& final(self).predictions@ == old(self).predictions@
                &&& final(self).pending_count == old(self).pending_count
                &&& final(self).winning_outcome == old(self).winning_outcome
                &&& final(self).winner_shares == old(self).winner_shares
                &&& final(self).loser_shares == old(self).loser_shares
                &&& final(self).same_setup(old(self))
            },
    {
        if now < self.closing_time {
            return Err(MarketError::BeforeClosingTime);
        }
        if self.state != MarketState::Open {
            return Err(MarketError::InvalidMarketState);
        }
        self.state = MarketState::Closed;
        Ok(())
    }

    /// Resolves a closed market with the oracles' decision
    /// `(consensus_reached, final_outcome)`, fixing the winner and loser
    /// totals from the amounts staked on each side.
    pub fn resolve_market(&mut self, now: u64, consensus_reached: bool, final_outcome: u32) -> (r:
        Result<(), MarketError>)
        requires
            old(self).wf(),
        ensures
            final(self).wf(),
            r == (if now < old(self).resolution_time {
                Err(MarketError::BeforeResolutionTime)
            } else if old(self).state == MarketState::Open {
                Err(MarketError::MarketStillOpen)
            } else if old(self).state == MarketState::Resolved {
                Err(MarketError::AlreadyResolved)
            } else if !consensus_reached {
                Err(MarketError::ConsensusNotReached)
            } else if final_outcome > 1 {
                Err(MarketError::InvalidOutcome)
            } else {
                Ok(())
            }),
            r is Err ==> *final(self) == *old(self),
            r is Ok ==> {
                &&& final(self).state == MarketState::Resolved
                &&& final(self).winning_outcome == Some(final_outcome)
                &&& final_outcome == 1 ==> final(self).winner_shares == old(self).yes_pool
                    && final(self).loser_shares == old(self).no_pool
                &&& final_outcome == 0 ==> final(self).winner_shares == old(self).no_pool
                    && final(self).loser_shares == old(self).yes_pool
                &&& final(self).commitments@ == old(self).commitments@
                &&& final(self).predictions@ == old(self).predictions@
                &&& final(self).pending_count == old(self).pending_count
                &&& final(self).same_setup(old(self))
            },
    {
        if now < self.resolution_time {
            return Err(MarketError::BeforeResolutionTime);
        }
        if self.state == MarketState::Open {
            return Err(MarketError::MarketStillOpen);
        }
        if self.state == MarketState::Resolved {
            return Err(MarketError::AlreadyResolved);
        }
        if !consensus_reached {
            return Err(MarketError::ConsensusNotReached);
        }
        if final_outcome > 1 {
            return Err(MarketError::InvalidOutcome);
        }
        self.winning_outcome = Some(final_outcome);
        if final_outcome == 1 {
            self.winner_shares = self.yes_pool;
            self.loser_shares = self.no_pool;
        } else {
            self.winner_shares = self.no_pool;
            self.loser_shares = self.yes_pool;
        }
        self.state = MarketState::Resolved;
        Ok(())
    }

    /// Pays out a winning prediction once; returns the net payout that the
    /// caller transfers from escrow to `user`. See `claim_spec`.
    pub fn claim_winnings(&mut self, user: AccountId) -> (r: Result<u128, MarketError>)
        requires
            old(self).wf(),
        ensures
            final(self).wf(),
            match claim_spec(
                old(self).state,
                old(self).winning_outcome,
                old(self).winner_shares as int,
                old(self).loser_shares as int,
                old(self).prediction_of(user),
            ) {
                Ok(net) => {
                    &&& r == Ok::<u128, MarketError>(net as u128)
                    &&& final(self).predictions@ == old(self).predictions@.insert(
                        user,
                        (UserPrediction { claimed: true, ..old(self).predictions@[user] }),
                    )
                    &&& final(self).commitments@ == old(self).commitments@
                    &&& final(self).state == old(self).state
                    &&& final(self).winning_outcome == old(self).winning_outcome
                    &&& final(self).winner_shares == old(self).winner_shares
                    &&& final(self).loser_shares == old(self).loser_shares
                    &&& final(self).pending_count == old(self).pending_count
                    &&& final(self).same_setup(old(self))
                },
                Err(e) => r == Err::<u128, MarketError>(e) && *final(self) == *old(self),
            },
    {
        if self.state != MarketState::Resolved {
            return Err(MarketError::MarketNotResolved);
        }
        let prediction = match self.predictions.get(&user) {
            Some(p) => p,
            None => {
                return Err(MarketError::NoPrediction);
            },
        };
        if prediction.claimed {
            return Err(MarketError::AlreadyClaimed);
        }
        let winning_outcome = match self.winning_outcome {
            Some(o) => o,
            None => {
                return Err(MarketError::NotWinner);
            },
        };
        if prediction.outcome != winning_outcome {
            return Err(MarketError::NotWinner);
        }
        let total_pool = match self.winner_shares.checked_add(self.loser_shares) {
            Some(x) => x,
            None => {
                return Err(MarketError::Overflow);
            },
        };
        if self.winner_shares == 0 {
            return Err(MarketError::NoWinners);
        }
        let numerator = match prediction.amount.checked_mul(total_pool) {
            Some(x) => x,
            None => {
                return Err(MarketError::Overflow);
            },
        };
        let gross_payout = numerator / self.winner_shares;
        let fee = gross_payout / PROTOCOL_FEE_DIVISOR;
        let net_payout = gross_payout - fee;
        if net_payout == 0 {
            return Err(MarketError::ZeroPayout);
        }
        self.predictions.insert(user, UserPrediction { claimed: true, ..prediction });
        Ok(net_payout)
    }

    /// Records a position of `amount` on `outcome` for `user`, unclaimed,
    /// replacing any earlier one.
    pub fn test_set_prediction(&mut self, user: AccountId, outcome: u32, amount: u128, now: u64)
        requires
            old(self).wf(),
        ensures
            final(self).wf(),
            final(self).predictions@ == old(self).predictions@.insert(
                user,
                (UserPrediction { user, outcome, amount, claimed: false, timestamp: now }),
            ),
            final(self).commitments@ == old(self).commitments@,
            final(self).state == old(self).state,
            final(self).winning_outcome == old(self).winning_outcome,
            final(self).winner_shares == old(self).winner_shares,
            final(self).loser_shares == old(self).loser_shares,
            final(self).pending_count == old(self).pending_count,
            final(self).same_setup(old(self)),
    {
        self.predictions.insert(
            user,
            UserPrediction { user, outcome, amount, claimed: false, timestamp: now },
        );
    }

    /// Puts the market straight into the resolved phase with the given
    /// winning outcome and payout totals.
    pub fn test_setup_resolution(
        &mut self,
        _market_id: MarketId,
        outcome: u32,
        winner_shares: u128,
        loser_shares: u128,
    )
        requires
            old(self).wf(),
        ensures
            final(self).wf(),
            final(self).state == MarketState::Resolved,
            final(self).winning_outcome == Some(outcome),
            final(self).winner_shares == winner_shares,
            final(self).loser_shares == loser_shares,
            final(self).commitments@ == old(self).commitments@,
            final(self).predictions@ == old(self).predictions@,
            final(self).pending_count == old(self).pending_count,
            final(self).same_setup(old(self)),
    {
        self.state = MarketState::Resolved;
        self.winning_outcome = Some(outcome);
        self.winner_shares = winner_shares;
        self.loser_shares = loser_shares;
    }

    /// The prediction of `user`, if any.
    pub fn test_get_prediction(&self, user: AccountId) -> (r: Option<UserPrediction>)
        requires
            self.wf(),
        ensures
            r == self.prediction_of(user),
    {
        self.predictions.get(&user)
    }

    /// The winning outcome, once resolved.
    pub fn test_get_winning_outcome(&self) -> (r: Option<u32>)
        ensures
            r == self.winning_outcome,
    {
        self.winning_outcome
    }
}

} // verus!
