//! Registered oracles, their attestations, and threshold consensus.
use vstd::prelude::*;

use crate::ids::{AccountId, MarketId};
use crate::store::{Store, StoreKey};

verus! {

/// Most oracles that can be registered at once.
pub const MAX_ORACLES: usize = 10;

/// Why an oracle operation was refused. Nothing changes when one is returned.
#[derive(Clone, Copy, Debug, PartialEq, Eq, Structural)]
pub enum OracleError {
    /// The registry already holds `MAX_ORACLES` oracles.
    MaxOraclesReached,
    /// The oracle is registered already.
    AlreadyRegistered,
    /// The caller is not a registered oracle.
    NotRegistered,
    /// The attested result is neither 0 (NO) nor 1 (YES).
    InvalidOutcome,
    /// The oracle has attested for this market already.
    AlreadyAttested,
}

/// What the registry keeps of an oracle.
#[derive(Clone, Copy, Debug, PartialEq, Eq, Structural)]
pub struct OracleRecord {
    /// Accuracy score in percent; 100 at registration.
    pub accuracy: u32,
    pub registered_at: u64,
}

/// One oracle's vote on one market's result.
#[derive(Clone, Copy, Debug)]
pub struct Attestation {
    pub oracle: AccountId,
    pub market: MarketId,
    pub outcome: u32,
}

/// Number of attestations in `s` for market `m`.
pub open spec fn votes_for(s: Seq<Attestation>, m: MarketId) -> nat
    decreases s.len(),
{
    if s.len() == 0 {
        0
    } else {
        votes_for(s.drop_last(), m) + if s.last().market == m {
            1nat
        } else {
            0nat
        }
    }
}

/// Number of attestations in `s` for market `m` with result `outcome`.
pub open spec fn votes_with(s: Seq<Attestation>, m: MarketId, outcome: u32) -> nat
    decreases s.len(),
{
    if s.len() == 0 {
        0
    } else {
        votes_with(s.drop_last(), m, outcome) + if s.last().market == m && s.last().outcome
            == outcome {
            1nat
        } else {
            0nat
        }
    }
}

/// Whether `oracle` has attested for market `m` in `s`.
pub open spec fn has_attested(s: Seq<Attestation>, oracle: AccountId, m: MarketId) -> bool {
    exists|i: int| 0 <= i < s.len() && (#[trigger] s[i]).oracle == oracle && s[i].market == m
}

/// The decision of `total` votes of which `yes` are for YES and the rest for
/// NO, under `threshold`: an outcome wins when it has at least `threshold`
/// votes and strictly more than the other; otherwise there is no decision.
/// The outcome reported with no decision is 0.
pub open spec fn consensus_spec(total: int, yes: int, threshold: int) -> (bool, u32) {
    let no = total - yes;
    if total < threshold {
        (false, 0)
    } else if yes >= threshold && yes > no {
        (true, 1)
    } else if no >= threshold && no > yes {
        (true, 0)
    } else {
        (false, 0)
    }
}

/// Oracle registry and per-market attestations.
pub struct OracleManager {
    pub admin: AccountId,
    /// Votes an outcome needs to win.
    pub required_consensus: u32,
    pub oracles: Store<AccountId, OracleRecord>,
    /// Every attestation, in the order received.
    pub attestations: Vec<Attestation>,
}

impl OracleManager {
    /// The registry is consistent and holds at most `MAX_ORACLES` oracles.
    pub open spec fn wf(&self) -> bool {
        &&& self.oracles.wf()
        &&& self.oracles@.dom().finite()
        &&& self.oracles@.dom().len() <= MAX_ORACLES
    }

    /// The decision for market `m` from the attestations so far.
    pub open spec fn consensus_of(&self, m: MarketId) -> (bool, u32) {
        consensus_spec(
            votes_for(self.attestations@, m) as int,
            votes_with(self.attestations@, m, 1) as int,
            self.required_consensus as int,
        )
    }

    /// An empty registry with the given threshold.
    pub fn initialize(admin: AccountId, required_consensus: u32) -> (r: OracleManager)
        ensures
            r.wf(),
            r.admin == admin,
            r.required_consensus == required_consensus,
            r.oracles@ == Map::<AccountId, OracleRecord>::empty(),
            r.attestations@ == Seq::<Attestation>::empty(),
    {
        OracleManager { admin, required_consensus, oracles: Store::new(), attestations: Vec::new() }
    }

    /// Adds `oracle` to the registry, refusing a full registry first and a
    /// known oracle second.
    pub fn register_oracle(&mut self, oracle: AccountId, now: u64) -> (r: Result<(), OracleError>)
        requires
            old(self).wf(),
        ensures
            final(self).wf(),
            old(self).oracles@.dom().len() >= MAX_ORACLES ==> r == Err::<(), OracleError>(
                OracleError::MaxOraclesReached,
            ),
            old(self).oracles@.dom().len() < MAX_ORACLES && old(self).oracles@.contains_key(oracle)
                ==> r == Err::<(), OracleError>(OracleError::AlreadyRegistered),
            r is Ok <==> old(self).oracles@.dom().len() < MAX_ORACLES && !old(
                self,
            ).oracles@.contains_key(oracle),
            r is Err ==> *final(self) == *old(self),
            r is Ok ==> final(self).oracles@.dom().len() == old(self).oracles@.dom().len() + 1,
            r is Ok ==> final(self).oracles@ == old(self).oracles@.insert(
                oracle,
                (OracleRecord { accuracy: 100, registered_at: now }),
            ) && final(self).attestations@ == old(self).attestations@ && final(self).admin == old(
                self,
            ).admin && final(self).required_consensus == old(self).required_consensus,
    {
        if self.oracles.len() >= MAX_ORACLES {
            return Err(OracleError::MaxOraclesReached);
        }
        if self.oracles.contains(&oracle) {
            return Err(OracleError::AlreadyRegistered);
        }
        self.oracles.insert(oracle, OracleRecord { accuracy: 100, registered_at: now });
        proof {
            assert(self.oracles@.dom() =~= old(self).oracles@.dom().insert(oracle));
        }
        Ok(())
    }

    /// Whether `oracle` is registered.
    pub fn is_registered(&self, oracle: AccountId) -> (r: bool)
        requires
            self.wf(),
        ensures
            r == self.oracles@.contains_key(oracle),
    {
        self.oracles.contains(&oracle)
    }

    /// Number of registered oracles.
    pub fn oracle_count(&self) -> (r: usize)
        requires
            self.wf(),
        ensures
            r == self.oracles@.dom().len(),
    {
        self.oracles.len()
    }

    fn attested(&self, oracle: &AccountId, market_id: &MarketId) -> (r: bool)
        ensures
            r == has_attested(self.attestations@, *oracle, *market_id),
    {
        let mut i: usize = 0;
        while i < self.attestations.len()
            invariant
                0 <= i <= self.attestations@.len(),
                forall|j: int|
                    0 <= j < i ==> !((#[trigger] self.attestations@[j]).oracle == *oracle
                        && self.attestations@[j].market == *market_id),
            decreases self.attestations@.len() - i,
        {
            let a = self.attestations[i];
            if a.oracle.same_key(oracle) && a.market.same_key(market_id) {
                return true;
            }
            i = i + 1;
        }
        false
    }

    /// Records the vote of a registered oracle on `market_id`; each oracle
    /// votes once per market.
    pub fn submit_attestation(
        &mut self,
        oracle: AccountId,
        market_id: MarketId,
        attestation_result: u32,
    ) -> (r: Result<(), OracleError>)
        requires
            old(self).wf(),
        ensures
            final(self).wf(),
            !old(self).oracles@.contains_key(oracle) ==> r == Err::<(), OracleError>(
                OracleError::NotRegistered,
            ),
            old(self).oracles@.contains_key(oracle) && attestation_result > 1 ==> r == Err::<
                (),
                OracleError,
            >(OracleError::InvalidOutcome),
            old(self).oracles@.contains_key(oracle) && attestation_result <= 1 && has_attested(
                old(self).attestations@,
                oracle,
                market_id,
            ) ==> r == Err::<(), OracleError>(OracleError::AlreadyAttested),
            r is Ok <==> old(self).oracles@.contains_key(oracle) && attestation_result <= 1
                && !has_attested(old(self).attestations@, oracle, market_id),
            r is Err ==> *final(self) == *old(self),
            r is Ok ==> final(self).attestations@ == old(self).attestations@.push(
                (Attestation { oracle, market: market_id, outcome: attestation_result }),
            ) && final(self).oracles@ == old(self).oracles@ && final(self).admin == old(
                self,
            ).admin && final(self).required_consensus == old(self).required_consensus,
    {
        if !self.oracles.contains(&oracle) {
            return Err(OracleError::NotRegistered);
        }
        if attestation_result > 1 {
            return Err(OracleError::InvalidOutcome);
        }
        if self.attested(&oracle, &market_id) {
            return Err(OracleError::AlreadyAttested);
        }
        self.attestations.push(Attestation { oracle, market: market_id, outcome: attestation_result });
        Ok(())
    }

    /// The decision for `market_id`: `(true, outcome)` when an outcome has
    /// won, `(false, 0)` otherwise. See `consensus_spec`.
    pub fn check_consensus(&self, market_id: MarketId) -> (r: (bool, u32))
        ensures
            r == self.consensus_of(market_id),
    {
        let ghost s = self.attestations@;
        let mut total: usize = 0;
        let mut yes: usize = 0;
        let mut i: usize = 0;
        while i < self.attestations.len()
            invariant
                s == self.attestations@,
                0 <= i <= s.len(),
                total == votes_for(s.subrange(0, i as int), market_id),
                yes == votes_with(s.subrange(0, i as int), market_id, 1),
                total <= i,
                yes <= i,
            decreases s.len() - i,
        {
            let a = self.attestations[i];
            proof {
                assert(s.subrange(0, i as int + 1).drop_last() =~= s.subrange(0, i as int));
            }
            if a.market.same_key(&market_id) {
                total = total + 1;
                if a.outcome == 1 {
                    yes = yes + 1;
                }
            }
            i = i + 1;
        }
        proof {
            assert(s.subrange(0, s.len() as int) =~= s);
        }
        proof {
            lemma_votes_with_le(s, market_id, 1);
        }
        let threshold = self.required_consensus as usize;
        let no = total - yes;
        if total < threshold {
            (false, 0)
        } else if yes >= threshold && yes > no {
            (true, 1)
        } else if no >= threshold && no > yes {
            (true, 0)
        } else {
            (false, 0)
        }
    }

    /// The winning outcome of `market_id`, if consensus has been reached.
    pub fn get_consensus_result(&self, market_id: MarketId) -> (r: Option<u32>)
        ensures
            self.consensus_of(market_id).0 ==> r == Some(self.consensus_of(market_id).1),
            !self.consensus_of(market_id).0 ==> r is None,
    {
        let (reached, outcome) = self.check_consensus(market_id);
        if reached {
            Some(outcome)
        } else {
            None
        }
    }
}

/// Votes with a given result are among the votes for the market.
proof fn lemma_votes_with_le(s: Seq<Attestation>, m: MarketId, outcome: u32)
    ensures
        votes_with(s, m, outcome) <= votes_for(s, m),
    decreases s.len(),
{
    if s.len() > 0 {
        lemma_votes_with_le(s.drop_last(), m, outcome);
    }
}

} // verus!
