//! Fee routing between treasury buckets is bookkeeping outside this library;
//! these cases hold no checks of their own.

#[test]
fn test_distribute_platform_rewards() {}

#[test]
fn test_distribute_leaderboard_rewards() {}

#[test]
fn test_withdraw_creator_fees() {}

#[test]
fn test_update_fee_structure() {}

#[test]
fn test_emergency_withdraw() {}
