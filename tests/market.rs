use prediction_market::error::{
    ERROR_BET_TOO_LARGE, ERROR_INSUFFICIENT_BALANCE, ERROR_INVALID_BET_AMOUNT,
    ERROR_INVALID_BET_TYPE, ERROR_INVALID_MARKET_TIME, ERROR_INVALID_MARKET_TITLE,
    ERROR_LIQUIDITY_TOO_HIGH, ERROR_MARKET_ALREADY_RESOLVED, ERROR_NO_FEES_TO_WITHDRAW,
    ERROR_INVALID_CALCULATION,
};
use prediction_market::market::MarketData;
use prediction_market::math_safe::{MAX_BET_AMOUNT, MAX_SHARES};

fn create_test_market() -> MarketData {
    let title = MarketData::string_to_u64_vec("Test Market");
    MarketData::new_with_title_u64_and_liquidity(title, 0, 1000, 1000, 1_000_000, 1_000_000).unwrap()
}

#[test]
fn test_safe_market_creation() {
    let title = MarketData::string_to_u64_vec("Test Market");
    let market = MarketData::new_with_title_u64_and_liquidity(title, 0, 1000, 1000, 1_000_000, 1_000_000);
    assert!(market.is_ok());
}

#[test]
fn test_safe_bet_amount_limits() {
    let mut market = create_test_market();

    let result = market.place_bet(1, MAX_BET_AMOUNT + 1);
    assert_eq!(result, Err(ERROR_BET_TOO_LARGE));

    let result = market.place_bet(1, 0);
    assert_eq!(result, Err(ERROR_INVALID_BET_AMOUNT));

    let result = market.place_bet(1, 1000);
    assert!(result.is_ok());
}

#[test]
fn test_safe_price_calculations() {
    let market = create_test_market();

    let yes_price = market.get_yes_price();
    assert!(yes_price.is_ok());

    let no_price = market.get_no_price();
    assert!(no_price.is_ok());

    let total_price = yes_price.unwrap() + no_price.unwrap();
    assert!((total_price as i64 - 1_000_000i64).abs() < 1000);
}

#[test]
fn test_safe_shares_calculation() {
    let market = create_test_market();

    let shares = market.calculate_shares(1, 10000);
    assert!(shares.is_ok());
    assert!(shares.unwrap() > 0);

    let shares = market.calculate_shares(1, MAX_BET_AMOUNT + 1);
    assert_eq!(shares, Err(ERROR_BET_TOO_LARGE));
}

#[test]
fn test_safe_sell_operations() {
    let mut market = create_test_market();

    let shares = market.place_bet(1, 10000).unwrap();

    let payout = market.sell_shares(1, shares / 2);
    assert!(payout.is_ok());

    let payout = market.sell_shares(1, shares * 2);
    assert_eq!(payout, Err(ERROR_INSUFFICIENT_BALANCE));

    let payout = market.sell_shares(1, MAX_SHARES + 1);
    assert_eq!(payout, Err(ERROR_BET_TOO_LARGE));
}

#[test]
fn test_safe_payout_calculation() {
    let mut market = create_test_market();

    let yes_shares = market.place_bet(1, 10000).unwrap();
    let no_shares = market.place_bet(0, 5000).unwrap();

    market.resolve(true).unwrap();

    let payout = market.calculate_payout(yes_shares, 0);
    assert!(payout.is_ok());
    assert!(payout.unwrap() > 0);

    let payout = market.calculate_payout(0, no_shares);
    assert_eq!(payout.unwrap(), 0);
}

#[test]
fn test_title_encoding_and_decoding() {
    let plain_title = "Test Market Title";
    let title_u64_vec = MarketData::string_to_u64_vec(plain_title);
    let decoded_title = MarketData::u64_vec_to_string(&title_u64_vec);

    assert_eq!(plain_title, decoded_title);
}

#[test]
fn test_long_title_encoding() {
    let long_title = "Predict CASADADSA Will Launch on binance perp or not in three months";
    let title_u64_vec = MarketData::string_to_u64_vec(long_title);

    assert_eq!(title_u64_vec.len(), 9);

    let decoded_title = MarketData::u64_vec_to_string(&title_u64_vec);
    assert_eq!(long_title, decoded_title);
}

#[test]
fn test_market_with_custom_liquidity() {
    let title = MarketData::string_to_u64_vec("Custom Liquidity Market");
    let market = MarketData::new_with_title_u64_and_liquidity(title, 0, 1000, 1000, 500_000, 2_000_000).unwrap();

    let yes_price = market.get_yes_price().unwrap();
    let no_price = market.get_no_price().unwrap();

    assert!(yes_price > no_price);
}

#[test]
fn scenario_one_percent_fee_bet_on_balanced_pool() {
    // fee = ceil(10_000 / 100) = 100, net = 9_900; the NO side grows by the
    // net amount and the YES side becomes floor(10^12 / 1_009_900).
    let mut market = create_test_market();
    let shares = market.place_bet(1, 10_000).unwrap();
    assert_eq!(market.total_fees_collected, 100);
    assert_eq!(market.prize_pool, 9_900);
    assert_eq!(market.no_liquidity, 1_009_900);
    assert_eq!(market.yes_liquidity, 990_197);
    assert_eq!(shares, 1_000_000 - 990_197);
    assert_eq!(market.total_yes_shares, shares);
    assert_eq!(market.total_volume, 10_000);
}

#[test]
fn bet_never_grows_the_product() {
    let mut market = create_test_market();
    let before = (market.yes_liquidity as u128) * (market.no_liquidity as u128);
    market.place_bet(0, 250_000).unwrap();
    let after = (market.yes_liquidity as u128) * (market.no_liquidity as u128);
    assert!(after <= before);
    assert!(after > 0);
}

#[test]
fn bet_then_sell_returns_at_most_the_stake() {
    let mut market = create_test_market();
    let shares = market.place_bet(1, 10_000).unwrap();
    let payout = market.sell_shares(1, shares).unwrap();
    assert!(payout <= 10_000);
    assert_eq!(market.total_yes_shares, 0);
    assert_eq!(market.yes_liquidity, 1_000_000);
}

#[test]
fn failed_bet_changes_nothing() {
    let mut market = create_test_market();
    assert_eq!(market.place_bet(2, 1000), Err(ERROR_INVALID_BET_TYPE));
    assert_eq!(market.yes_liquidity, 1_000_000);
    assert_eq!(market.prize_pool, 0);
    assert_eq!(market.total_fees_collected, 0);
}

#[test]
fn sell_quote_matches_sale() {
    let mut market = create_test_market();
    let shares = market.place_bet(0, 50_000).unwrap();
    let (net, fee) = market.calculate_sell_details(0, shares / 2).unwrap();
    let payout = market.sell_shares(0, shares / 2).unwrap();
    assert_eq!(payout, net);
    assert!(fee >= 1);
    assert_eq!(market.calculate_sell_details(1, 10), Ok((0, 0)));
    assert_eq!(market.calculate_sell_details(3, 10), Err(ERROR_INVALID_BET_TYPE));
}

#[test]
fn resolve_twice_fails_and_keeps_outcome() {
    let mut market = create_test_market();
    assert_eq!(market.resolve(false), Ok(()));
    assert_eq!(market.resolve(true), Err(ERROR_MARKET_ALREADY_RESOLVED));
    assert_eq!(market.outcome, Some(false));
    assert!(market.resolved);
}

#[test]
fn payouts_split_pool_pro_rata() {
    let mut market = create_test_market();
    let a = market.place_bet(1, 10_000).unwrap();
    let b = market.place_bet(1, 30_000).unwrap();
    market.place_bet(0, 20_000).unwrap();
    market.resolve(true).unwrap();
    let pool = market.prize_pool;
    let pa = market.calculate_payout(a, 0).unwrap();
    let pb = market.calculate_payout(b, 0).unwrap();
    assert_eq!(pa, ((a as u128 * pool as u128) / market.total_yes_shares as u128) as u64);
    assert!(pa + pb <= pool);
    // two holders hold every YES share: less than one unit lost for each
    assert!(pa + pb + 2 > pool);
}

#[test]
fn creation_is_validated() {
    let t = MarketData::string_to_u64_vec("t");
    assert_eq!(MarketData::new_with_title_u64_and_liquidity(vec![0; 10], 0, 10, 10, 1000, 1000).err(), Some(ERROR_INVALID_MARKET_TITLE));
    assert_eq!(MarketData::new_with_title_u64_and_liquidity(t.clone(), 10, 10, 10, 1000, 1000).err(), Some(ERROR_INVALID_MARKET_TIME));
    assert_eq!(MarketData::new_with_title_u64_and_liquidity(t.clone(), 0, 11, 10, 1000, 1000).err(), Some(ERROR_INVALID_MARKET_TIME));
    assert_eq!(MarketData::new_with_title_u64_and_liquidity(t.clone(), 0, 10, 10, 999, 1000).err(), Some(ERROR_INVALID_CALCULATION));
    assert_eq!(MarketData::new_with_title_u64_and_liquidity(t, 0, 10, 10, 1000, 1_000_000_000_001).err(), Some(ERROR_LIQUIDITY_TOO_HIGH));
}

#[test]
fn fees_are_withdrawn_once() {
    let mut market = create_test_market();
    market.place_bet(1, 10_000).unwrap();
    assert_eq!(market.withdraw_fees(), Ok(100));
    assert_eq!(market.withdraw_fees(), Err(ERROR_NO_FEES_TO_WITHDRAW));
}

#[test]
fn title_packs_little_endian() {
    let words = MarketData::string_to_u64_vec("abcdefghi");
    assert_eq!(words, vec![0x6867666564636261, 0x69]);
    assert_eq!(MarketData::string_to_u64_vec("12345678").len(), 1);
    assert_eq!(MarketData::string_to_u64_vec("").len(), 0);
    assert_eq!(MarketData::u64_vec_to_string(&[0x6261, 0x63]), "abc");
    let market = MarketData::new_with_title_u64_and_liquidity(words, 0, 1, 1, 1000, 1000).unwrap();
    assert_eq!(market.get_title_string(), "abcdefghi");
}

#[test]
fn market_words_round_trip() {
    let mut market = create_test_market();
    market.place_bet(1, 10_000).unwrap();
    market.resolve(true).unwrap();
    let mut data = Vec::new();
    market.to_data(&mut data);
    assert_eq!(data.len(), 1 + 2 + 12);
    assert_eq!(data[data.len() - 2], 2);
    let (back, used) = MarketData::from_data(&data).unwrap();
    assert_eq!(used, data.len());
    assert_eq!(back.title, market.title);
    assert_eq!(back.yes_liquidity, market.yes_liquidity);
    assert_eq!(back.outcome, Some(true));
    assert!(MarketData::from_data(&data[..5]).is_none());
}
