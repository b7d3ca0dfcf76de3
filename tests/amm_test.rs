use boxmeout::{AccountId, AmmError, MarketId, AMM};

fn account(b: u8) -> AccountId {
    AccountId { bytes: [b; 56] }
}

fn market(b: u8) -> MarketId {
    MarketId { bytes: [b; 32] }
}

fn new_amm() -> AMM {
    AMM::initialize(account(1), account(2), account(3), 100_000_000_000u128)
}

/// An AMM with a pool of the given reserves on `market(1)`, set directly.
fn amm_with_pool(yes: u128, no: u128) -> AMM {
    let mut amm = new_amm();
    amm.set_pool_reserves(market(1), yes, no);
    amm
}

#[test]
fn test_amm_initialize() {
    let amm = new_amm();
    assert_eq!(amm.max_liquidity_cap, 100_000_000_000u128);
    assert_eq!(amm.slippage_protection_bps, 200);
    assert_eq!(amm.trading_fee_bps, 20);
    assert_eq!(amm.admin.bytes, account(1).bytes);
    assert!(!amm.pool_exists(market(1)));
}

#[test]
fn test_create_pool() {
    let mut amm = new_amm();
    let market_id = market(1);
    assert_eq!(amm.create_pool(account(9), market_id, 10_000_000_000u128, 7), Ok(()));
    let (yes_odds, no_odds) = amm.get_odds(market_id);
    assert_eq!(yes_odds, 5000);
    assert_eq!(no_odds, 5000);
    assert_eq!(amm.get_pool_reserves(market_id), (5_000_000_000, 5_000_000_000));
    assert_eq!(amm.get_lp_balance(account(9), market_id), 10_000_000_000);
}

#[test]
fn test_create_pool_twice_fails() {
    let mut amm = new_amm();
    let market_id = market(1);
    assert_eq!(amm.create_pool(account(9), market_id, 10_000_000_000u128, 0), Ok(()));
    assert_eq!(
        amm.create_pool(account(9), market_id, 10_000_000_000u128, 0),
        Err(AmmError::PoolAlreadyExists)
    );
}

#[test]
fn test_create_pool_zero_liquidity_fails() {
    let mut amm = new_amm();
    assert_eq!(amm.create_pool(account(9), market(1), 0, 0), Err(AmmError::InvalidAmount));
    assert!(!amm.pool_exists(market(1)));
}

#[test]
fn amm_test_test_buy_shares_no() {
    // Buying NO draws from the NO reserve and pays into YES.
    let mut amm = amm_with_pool(1000, 1000);
    let buyer = account(5);
    let shares = amm.buy_shares(buyer, market(1), 0, 100, 1).unwrap();
    assert!(shares > 0, "Should receive shares");
    let (yes_reserve, no_reserve) = amm.get_pool_reserves(market(1));
    assert!(no_reserve < 1000, "NO reserve should decrease after buying NO");
    assert!(yes_reserve > 1000, "YES reserve should increase after buying NO");
    assert_eq!(amm.get_user_shares(buyer, market(1), 0), shares, "User NO shares should match");

    // Only the amount after the fee joins the reserve.
    let mut amm = amm_with_pool(10000, 10000);
    amm.buy_shares(buyer, market(1), 1, 1000, 1).unwrap();
    let (_, no_reserve) = amm.get_pool_reserves(market(1));
    assert_eq!(
        no_reserve,
        10000 + 998,
        "NO reserve should increase by amount_after_fee (998), not full amount (1000)"
    );
}

#[test]
fn test_buy_shares_yes() {
    let mut amm = amm_with_pool(1000, 1000);
    let (initial_yes, initial_no) = amm.get_pool_reserves(market(1));
    let initial_yes_odds = initial_yes * 100 / (initial_yes + initial_no);
    assert_eq!(initial_yes_odds, 50, "Initial YES odds should be 50%");

    amm.buy_shares(account(5), market(1), 1, 200, 1).unwrap();
    let (new_yes, new_no) = amm.get_pool_reserves(market(1));
    assert!(new_yes < initial_yes, "YES reserve should decrease");
    assert!(new_no > initial_no, "NO reserve should increase");

    let yes_price_before = initial_no * 1000 / initial_yes;
    let yes_price_after = new_no * 1000 / new_yes;
    assert!(yes_price_after > yes_price_before, "YES should become more expensive after buying YES");
}

#[test]
fn test_buy_shares_price_impact() {
    let mut amm = new_amm();
    let market_id = market(1);
    amm.create_pool(account(9), market_id, 10_000_000_000u128, 0).unwrap();
    let amount = 1_000_000_000u128;
    let min_shares = 400_000_000u128;
    let shares = amm.buy_shares(account(5), market_id, 1, amount, min_shares).unwrap();
    assert!(shares > 0);
    assert!(shares < amount);
    assert!(shares >= min_shares);
    // YES is priced by the NO reserve, which grew.
    let (yes_odds, no_odds) = amm.get_odds(market_id);
    assert!(yes_odds > 5000);
    assert!(no_odds < 5000);
    assert_eq!(yes_odds + no_odds, 10000);
}

#[test]
fn test_buy_shares_reserves_and_k_updated() {
    let mut amm = amm_with_pool(1000, 1000);
    let (yes, no) = amm.get_pool_reserves(market(1));
    assert_eq!(yes * no, 1_000_000, "Initial k should be 1,000,000");
    let shares = amm.buy_shares(account(5), market(1), 1, 100, 1).unwrap();
    assert_eq!(shares, 90);
    let (yes_reserve, no_reserve) = amm.get_pool_reserves(market(1));
    assert_eq!((yes_reserve, no_reserve), (910, 1100));
    assert!(yes_reserve * no_reserve >= 1_000_000);
    let (yes_odds, no_odds) = amm.get_odds(market(1));
    assert!(yes_odds > 5000);
    assert!(no_odds < 5000);
}

#[test]
fn test_buy_shares_slippage_protection() {
    let mut amm = new_amm();
    let market_id = market(3);
    amm.create_pool(account(9), market_id, 10_000_000_000u128, 0).unwrap();
    assert_eq!(
        amm.buy_shares(account(5), market_id, 1, 1_000_000_000u128, 1_500_000_000u128),
        Err(AmmError::SlippageExceeded)
    );
    assert_eq!(amm.get_pool_reserves(market_id), (5_000_000_000, 5_000_000_000));
}

#[test]
fn amm_test_test_sell_shares() {
    // Buy, then sell the shares back: the loss covers fees and price impact.
    let mut amm = new_amm();
    let market_id = market(4);
    amm.create_pool(account(9), market_id, 10_000_000_000u128, 0).unwrap();
    let trader = account(5);
    let buy_amount = 1_000_000_000u128;
    let shares_bought = amm.buy_shares(trader, market_id, 1, buy_amount, 400_000_000u128).unwrap();
    let min_payout = 500_000_000u128;
    let payout = amm.sell_shares(trader, market_id, 1, shares_bought, min_payout).unwrap();
    assert!(payout > 0);
    assert!(payout >= min_payout);
    assert!(payout < buy_amount);

    // Exact arithmetic on a (1000, 1000) pool.
    let mut amm = amm_with_pool(1000, 1000);
    let buyer = account(6);
    amm.set_user_shares(buyer, market(1), 1, 100);
    let payout = amm.sell_shares(buyer, market(1), 1, 50, 1).unwrap();
    assert_eq!(payout, 48, "Payout should be 48 USDC");
    let (yes_reserve, no_reserve) = amm.get_pool_reserves(market(1));
    assert_eq!(yes_reserve, 1050, "YES reserve should increase by 50");
    assert_eq!(no_reserve, 952, "NO reserve should decrease by 48");
    assert_eq!(amm.get_user_shares(buyer, market(1), 1), 50, "User should have 50 shares left");
}

#[test]
fn test_get_pool_state() {
    let mut amm = new_amm();
    let market_id = market(5);
    let initial_liquidity = 10_000_000u128;
    amm.create_pool(account(9), market_id, initial_liquidity, 0).unwrap();
    let (yes_reserve, no_reserve, total_liquidity, yes_odds, no_odds) = amm.get_pool_state(market_id);
    assert_eq!(yes_reserve, initial_liquidity / 2);
    assert_eq!(no_reserve, initial_liquidity / 2);
    assert_eq!(total_liquidity, initial_liquidity);
    assert_eq!(yes_odds, 5000);
    assert_eq!(no_odds, 5000);

    let buyer = account(5);
    amm.buy_shares(buyer, market_id, 1, 500, 1).unwrap();
    amm.buy_shares(buyer, market_id, 0, 300, 1).unwrap();
    amm.buy_shares(buyer, market_id, 1, 200, 1).unwrap();
    let (yes_reserve, no_reserve, total_liquidity, yes_odds, no_odds) = amm.get_pool_state(market_id);
    assert_eq!(total_liquidity, yes_reserve + no_reserve);
    assert_eq!(yes_odds + no_odds, 10000);
    assert!(yes_reserve * no_reserve >= (initial_liquidity / 2) * (initial_liquidity / 2));

    assert_eq!(amm.get_pool_state(market(6)), (0, 0, 0, 5000, 5000));
}

#[test]
fn test_sell_shares_slippage() {
    let mut amm = amm_with_pool(1000, 1000);
    let seller = account(5);
    amm.set_user_shares(seller, market(1), 1, 100);
    assert_eq!(amm.sell_shares(seller, market(1), 1, 50, 50), Err(AmmError::SlippageExceeded));
    assert_eq!(amm.get_user_shares(seller, market(1), 1), 100);
}

#[test]
fn test_sell_more_shares_than_owned() {
    let mut amm = amm_with_pool(1000, 1000);
    let seller = account(5);
    amm.set_user_shares(seller, market(1), 1, 10);
    assert_eq!(amm.sell_shares(seller, market(1), 1, 20, 1), Err(AmmError::InsufficientShares));
}

#[test]
fn amm_test_test_get_odds() {
    let mut amm = new_amm();
    let market_id = market(1);
    assert_eq!(amm.get_odds(market_id), (5000, 5000));
    amm.create_pool(account(9), market_id, 10_000_000_000u128, 0).unwrap();
    assert_eq!(amm.get_odds(market_id), (5000, 5000));

    // Selling shares that were never bought fails.
    assert_eq!(
        amm.sell_shares(account(5), market_id, 1, 1_000_000_000u128, 500_000_000u128),
        Err(AmmError::InsufficientShares)
    );
}

#[test]
fn test_get_odds_skewed_pools() {
    let mut amm = new_amm();
    let market_id = market(1);
    amm.create_pool(account(9), market_id, 10_000_000_000u128, 0).unwrap();
    let lp2 = account(7);
    for _ in 0..3 {
        amm.add_liquidity(lp2, market_id, 1_000_000_000u128).unwrap();
    }
    // Deposits keep the 50/50 ratio.
    assert_eq!(amm.get_odds(market_id), (5000, 5000));
    assert_eq!(amm.get_pool_reserves(market_id), (6_500_000_000, 6_500_000_000));

    // A skewed pool: YES priced by the NO reserve.
    let amm = amm_with_pool(8000, 2000);
    assert_eq!(amm.get_odds(market(1)), (2000, 8000));
}

#[test]
fn test_get_odds_zero_liquidity() {
    let amm = new_amm();
    assert_eq!(amm.get_odds(market(3)), (5000, 5000));
    let amm = amm_with_pool(0, 0);
    assert_eq!(amm.get_odds(market(1)), (5000, 5000));
    let amm = amm_with_pool(0, 10);
    assert_eq!(amm.get_odds(market(1)), (0, 10000));
    let amm = amm_with_pool(10, 0);
    assert_eq!(amm.get_odds(market(1)), (10000, 0));
}

#[test]
fn test_get_odds_read_only() {
    let mut amm = new_amm();
    let market_id = market(4);
    amm.create_pool(account(9), market_id, 10_000_000_000u128, 0).unwrap();
    let (yes_odds_1, no_odds_1) = amm.get_odds(market_id);
    let (yes_odds_2, no_odds_2) = amm.get_odds(market_id);
    let (yes_odds_3, no_odds_3) = amm.get_odds(market_id);
    assert_eq!(yes_odds_1, yes_odds_2);
    assert_eq!(yes_odds_1, yes_odds_3);
    assert_eq!(no_odds_1, no_odds_2);
    assert_eq!(no_odds_1, no_odds_3);
    assert_eq!(yes_odds_1 + no_odds_1, 10000);
}

#[test]
fn test_odds_calculation_scenarios() {
    let mut amm = new_amm();
    amm.create_pool(account(9), market(10), 10_000_000_000u128, 0).unwrap();
    let (yes_odds, no_odds) = amm.get_odds(market(10));
    assert_eq!(yes_odds, 5000);
    assert_eq!(no_odds, 5000);
    assert_eq!(yes_odds + no_odds, 10000);

    amm.create_pool(account(9), market(20), 1_000_000_000u128, 0).unwrap();
    assert_eq!(amm.get_odds(market(20)), (5000, 5000));

    amm.create_pool(account(9), market(30), 2u128, 0).unwrap();
    let (yes_odds_3, no_odds_3) = amm.get_odds(market(30));
    assert_eq!(yes_odds_3, 5000);
    assert_eq!(no_odds_3, 5000);
    assert_eq!(yes_odds_3 + no_odds_3, 10000);
}

#[test]
fn test_amm_pricing_logic() {
    let (yes_odds, no_odds) = boxmeout::odds_from_reserves(8000, 2000);
    assert_eq!(yes_odds, 2000);
    assert_eq!(no_odds, 8000);
    assert_eq!(yes_odds + no_odds, 10000);

    let mut amm = new_amm();
    let market_id = market(1);
    amm.create_pool(account(9), market_id, 10_000_000_000u128, 0).unwrap();
    let minted = amm.add_liquidity(account(7), market_id, 5_000_000_000u128).unwrap();
    assert_eq!(minted, 5_000_000_000);
    assert_eq!(amm.get_lp_balance(account(7), market_id), 5_000_000_000);
}

#[test]
fn test_remove_liquidity() {
    let mut amm = new_amm();
    let market_id = market(1);
    amm.create_pool(account(9), market_id, 10_000_000_000u128, 0).unwrap();
    let lp2 = account(7);
    let lp_tokens = amm.add_liquidity(lp2, market_id, 10_000_000_000u128).unwrap();
    let tokens_to_remove = lp_tokens / 2;
    let (yes_amount, no_amount) = amm.remove_liquidity(lp2, market_id, tokens_to_remove).unwrap();
    assert!(yes_amount > 0);
    assert!(no_amount > 0);
    assert_eq!(yes_amount + no_amount, tokens_to_remove);
}

#[test]
fn test_remove_liquidity_more_than_owned() {
    let mut amm = new_amm();
    let market_id = market(1);
    amm.create_pool(account(9), market_id, 10_000_000_000u128, 0).unwrap();
    assert_eq!(
        amm.remove_liquidity(account(7), market_id, 5_000_000_000u128),
        Err(AmmError::InsufficientShares)
    );
}

#[test]
fn test_remove_liquidity_proportional_calculation() {
    let mut amm = new_amm();
    let market_id = market(1);
    let initial_liquidity = 10_000_000_000u128;
    let creator = account(9);
    amm.create_pool(creator, market_id, initial_liquidity, 0).unwrap();
    let tokens_to_remove = initial_liquidity - 1000;
    let (yes_amount, no_amount) = amm.remove_liquidity(creator, market_id, tokens_to_remove).unwrap();
    assert_eq!(yes_amount + no_amount, tokens_to_remove);
    let diff = if yes_amount > no_amount { yes_amount - no_amount } else { no_amount - yes_amount };
    assert!(diff <= 1);
}

#[test]
fn test_remove_liquidity_event_emitted() {
    let mut amm = new_amm();
    let market_id = market(1);
    amm.create_pool(account(9), market_id, 10_000_000_000u128, 0).unwrap();
    let lp2 = account(7);
    let lp_tokens = amm.add_liquidity(lp2, market_id, 5_000_000_000u128).unwrap();
    let (yes_amount, no_amount) = amm.remove_liquidity(lp2, market_id, lp_tokens).unwrap();
    assert_eq!((yes_amount, no_amount), (2_500_000_000, 2_500_000_000));
    assert_eq!(amm.get_lp_balance(lp2, market_id), 0);
    assert_eq!(amm.get_pool_reserves(market_id), (5_000_000_000, 5_000_000_000));
}

#[test]
fn test_remove_liquidity_zero_amount() {
    let mut amm = new_amm();
    let market_id = market(1);
    amm.create_pool(account(9), market_id, 10_000_000_000u128, 0).unwrap();
    assert_eq!(amm.remove_liquidity(account(9), market_id, 0), Err(AmmError::InvalidAmount));
}

#[test]
fn test_full_trading_cycle() {
    let mut amm = new_amm();
    let market_id = market(100);
    let initial_liquidity = 10_000_000_000u128;
    amm.create_pool(account(9), market_id, initial_liquidity, 0).unwrap();
    let (yes_odds_initial, no_odds_initial) = amm.get_odds(market_id);
    assert_eq!(yes_odds_initial, 5000);
    assert_eq!(no_odds_initial, 5000);

    let trader1 = account(11);
    let shares_1 = amm.buy_shares(trader1, market_id, 1, 2_000_000_000u128, 1_000_000_000u128).unwrap();
    assert_eq!(shares_1, 1_426_529_445);
    let (yes_odds_after_1, no_odds_after_1) = amm.get_odds(market_id);
    assert!(yes_odds_after_1 > yes_odds_initial);
    assert!(no_odds_after_1 < no_odds_initial);
    assert_eq!(yes_odds_after_1 + no_odds_after_1, 10000);

    let trader2 = account(12);
    let shares_2 = amm.buy_shares(trader2, market_id, 0, 1_000_000_000u128, 500_000_000u128).unwrap();
    assert!(shares_2 > 0);
    let (yes_odds_after_2, no_odds_after_2) = amm.get_odds(market_id);
    assert!(yes_odds_after_2 < yes_odds_after_1);
    assert!(no_odds_after_2 > no_odds_after_1);

    let payout_1 = amm.sell_shares(trader1, market_id, 1, shares_1 / 2, 500_000_000u128).unwrap();
    assert!(payout_1 > 0);

    let (final_yes_reserve, final_no_reserve, final_liquidity, final_yes_odds, final_no_odds) =
        amm.get_pool_state(market_id);
    assert!(final_yes_reserve > 0);
    assert!(final_no_reserve > 0);
    assert!(final_liquidity > initial_liquidity);
    assert_eq!(final_yes_odds + final_no_odds, 10000);
    let final_k = final_yes_reserve * final_no_reserve;
    let initial_k = (initial_liquidity / 2) * (initial_liquidity / 2);
    assert!(final_k >= initial_k);
}

#[test]
fn test_large_trade_price_impact() {
    let mut amm = new_amm();
    let market_id = market(200);
    amm.create_pool(account(9), market_id, 1_000_000_000u128, 0).unwrap();
    let large_amount = 500_000_000u128;
    let shares = amm.buy_shares(account(13), market_id, 1, large_amount, 100_000_000u128).unwrap();
    let (yes_odds, no_odds) = amm.get_odds(market_id);
    assert!(yes_odds > 7000);
    assert!(no_odds < 3000);
    assert!(shares < large_amount / 2);
}

#[test]
fn test_cpmm_invariant() {
    let mut amm = new_amm();
    let market_id = market(44);
    amm.create_pool(account(9), market_id, 10_000_000_000u128, 0).unwrap();
    let (initial_yes, initial_no, _, _, _) = amm.get_pool_state(market_id);
    let initial_k = initial_yes * initial_no;
    let trader = account(14);
    amm.buy_shares(trader, market_id, 1, 1_000_000_000u128, 500_000_000u128).unwrap();
    amm.buy_shares(trader, market_id, 0, 800_000_000u128, 400_000_000u128).unwrap();
    let (final_yes, final_no, _, _, _) = amm.get_pool_state(market_id);
    let final_k = final_yes * final_no;
    assert!(final_k >= initial_k);
    let k_increase_ratio = final_k as f64 / initial_k as f64;
    assert!(k_increase_ratio < 1.1);
}
