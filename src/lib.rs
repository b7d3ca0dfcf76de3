//! Settlement core of a binary-outcome prediction market: constant-product
//! pricing of YES/NO shares, proportional liquidity provision, threshold
//! consensus among registered oracles, and one-shot payouts after resolution.
//!
//! Every operation works on an in-memory state value and either applies all
//! of its changes or returns an error and leaves the state untouched. Moving
//! tokens, checking signatures and reading the clock happen outside the
//! library; operations return the amounts to move and take the time as an
//! argument.

pub mod amm;
mod ids;
pub mod laws;
pub mod market;
pub mod math;
pub mod oracle;
mod store;

pub use amm::{AmmError, Pool, AMM};
pub use ids::{AccountId, LpKey, MarketId, PositionKey};
pub use market::{Commitment, MarketError, MarketState, PredictionMarket, UserPrediction};
pub use math::{calculate_payout, calculate_shares_out, odds_from_reserves};
pub use oracle::{Attestation, OracleError, OracleManager, OracleRecord};
pub use store::{Store, StoreKey};
