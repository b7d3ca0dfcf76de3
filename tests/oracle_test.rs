use boxmeout::{AccountId, MarketId, OracleError, OracleManager};

fn account(b: u8) -> AccountId {
    AccountId { bytes: [b; 56] }
}

fn market(b: u8) -> MarketId {
    MarketId { bytes: [b; 32] }
}

fn manager_with_oracles(threshold: u32, n: u8) -> OracleManager {
    let mut manager = OracleManager::initialize(account(1), threshold);
    for i in 0..n {
        manager.register_oracle(account(100 + i), 0).unwrap();
    }
    manager
}

#[test]
fn test_register_oracle() {
    let mut manager = OracleManager::initialize(account(1), 2);
    assert_eq!(manager.register_oracle(account(100), 5), Ok(()));
    assert!(manager.is_registered(account(100)));
    assert!(!manager.is_registered(account(101)));
    assert_eq!(manager.oracle_count(), 1);
}

#[test]
fn test_register_duplicate_oracle_fails() {
    let mut manager = manager_with_oracles(2, 1);
    assert_eq!(manager.register_oracle(account(100), 0), Err(OracleError::AlreadyRegistered));
    assert_eq!(manager.oracle_count(), 1);
}

#[test]
fn test_register_beyond_capacity_fails() {
    let mut manager = manager_with_oracles(2, 10);
    assert_eq!(manager.oracle_count(), 10);
    assert_eq!(manager.register_oracle(account(200), 0), Err(OracleError::MaxOraclesReached));
    // A full registry refuses even an oracle it knows.
    assert_eq!(manager.register_oracle(account(100), 0), Err(OracleError::MaxOraclesReached));
}

#[test]
fn test_submit_attestation_errors() {
    let mut manager = manager_with_oracles(2, 1);
    let m = market(1);
    assert_eq!(manager.submit_attestation(account(50), m, 1), Err(OracleError::NotRegistered));
    assert_eq!(manager.submit_attestation(account(100), m, 2), Err(OracleError::InvalidOutcome));
    assert_eq!(manager.submit_attestation(account(100), m, 1), Ok(()));
    assert_eq!(manager.submit_attestation(account(100), m, 0), Err(OracleError::AlreadyAttested));
    // The same oracle may vote on another market.
    assert_eq!(manager.submit_attestation(account(100), market(2), 0), Ok(()));
    assert_eq!(manager.attestations.len(), 2);
}

#[test]
fn test_consensus_two_of_three() {
    let mut manager = manager_with_oracles(2, 3);
    let m = market(1);
    manager.submit_attestation(account(100), m, 1).unwrap();
    assert_eq!(manager.check_consensus(m).0, false);
    manager.submit_attestation(account(101), m, 1).unwrap();
    assert_eq!(manager.check_consensus(m), (true, 1));
    assert_eq!(manager.get_consensus_result(m), Some(1));
}

#[test]
fn test_consensus_single_vote_not_enough() {
    let mut manager = manager_with_oracles(2, 3);
    let m = market(1);
    manager.submit_attestation(account(100), m, 1).unwrap();
    assert_eq!(manager.check_consensus(m), (false, 0));
    assert_eq!(manager.get_consensus_result(m), None);
}

#[test]
fn test_consensus_tie_is_no_decision() {
    let mut manager = manager_with_oracles(2, 4);
    let m = market(1);
    manager.submit_attestation(account(100), m, 1).unwrap();
    manager.submit_attestation(account(101), m, 1).unwrap();
    manager.submit_attestation(account(102), m, 0).unwrap();
    manager.submit_attestation(account(103), m, 0).unwrap();
    assert_eq!(manager.check_consensus(m).0, false);
}

#[test]
fn test_consensus_for_no() {
    let mut manager = manager_with_oracles(2, 3);
    let m = market(1);
    manager.submit_attestation(account(100), m, 0).unwrap();
    manager.submit_attestation(account(101), m, 1).unwrap();
    manager.submit_attestation(account(102), m, 0).unwrap();
    assert_eq!(manager.check_consensus(m), (true, 0));
    // Votes on other markets do not count.
    assert_eq!(manager.check_consensus(market(2)), (false, 0));
}
