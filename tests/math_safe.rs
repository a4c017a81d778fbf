use prediction_market::error::{
    ERROR_BET_TOO_LARGE, ERROR_DIVISION_BY_ZERO, ERROR_INVALID_BET_AMOUNT,
    ERROR_INVALID_CALCULATION, ERROR_LIQUIDITY_TOO_HIGH, ERROR_OVERFLOW, ERROR_UNDERFLOW,
};
use prediction_market::math_safe::{
    calculate_effective_price_safe, calculate_fee_safe, calculate_k_safe,
    calculate_net_amount_safe, calculate_new_liquidity_safe, calculate_price_safe, safe_add,
    safe_div, safe_div_high_precision, safe_mul, safe_mul_high_precision, safe_sub,
    validate_bet_amount, validate_liquidity, validate_shares, MAX_BET_AMOUNT, MAX_LIQUIDITY,
    MAX_SHARES, MIN_LIQUIDITY,
};

#[test]
fn test_safe_mul_overflow() {
    let result = safe_mul(u64::MAX, 2);
    assert_eq!(result, Err(ERROR_OVERFLOW));
}

#[test]
fn test_safe_div_zero() {
    let result = safe_div(100, 0);
    assert_eq!(result, Err(ERROR_DIVISION_BY_ZERO));
}

#[test]
fn test_safe_sub_underflow() {
    let result = safe_sub(5, 10);
    assert_eq!(result, Err(ERROR_UNDERFLOW));
}

#[test]
fn test_calculate_k_safe_normal() {
    let result = calculate_k_safe(1000000, 1000000);
    assert!(result.is_ok());
    assert_eq!(result.unwrap(), 1000000000000u128);
}

#[test]
fn test_calculate_k_safe_overflow() {
    let result = calculate_k_safe(MAX_LIQUIDITY + 1, MAX_LIQUIDITY);
    assert_eq!(result, Err(ERROR_LIQUIDITY_TOO_HIGH));
}

#[test]
fn test_validate_bet_amount() {
    assert!(validate_bet_amount(1000).is_ok());
    assert_eq!(validate_bet_amount(0), Err(ERROR_INVALID_BET_AMOUNT));
    assert_eq!(validate_bet_amount(MAX_BET_AMOUNT + 1), Err(ERROR_BET_TOO_LARGE));
}

#[test]
fn test_overflow_protection() {
    let result = safe_mul(u64::MAX, 2);
    assert_eq!(result, Err(ERROR_OVERFLOW));

    let result = safe_mul(u64::MAX / 2, 3);
    assert_eq!(result, Err(ERROR_OVERFLOW));

    let result = safe_mul(1000, 2000);
    assert_eq!(result, Ok(2_000_000));
}

#[test]
fn test_division_by_zero_protection() {
    let result = safe_div(1000, 0);
    assert_eq!(result, Err(ERROR_DIVISION_BY_ZERO));

    let result = safe_div(1000, 10);
    assert_eq!(result, Ok(100));
}

#[test]
fn test_underflow_protection() {
    let result = safe_sub(5, 10);
    assert_eq!(result, Err(ERROR_UNDERFLOW));

    let result = safe_sub(0, 1);
    assert_eq!(result, Err(ERROR_UNDERFLOW));

    let result = safe_sub(100, 50);
    assert_eq!(result, Ok(50));
}

#[test]
fn test_k_calculation_safety() {
    let result = calculate_k_safe(1_000_000, 1_000_000);
    assert!(result.is_ok());
    assert_eq!(result.unwrap(), 1_000_000_000_000u128);

    let result = calculate_k_safe(MAX_LIQUIDITY + 1, 1_000_000);
    assert_eq!(result, Err(ERROR_LIQUIDITY_TOO_HIGH));

    let result = calculate_k_safe(MIN_LIQUIDITY - 1, 1_000_000);
    assert_eq!(result, Err(ERROR_INVALID_CALCULATION));

    let result = calculate_k_safe(MAX_LIQUIDITY, MAX_LIQUIDITY);
    assert!(result.is_ok());
}

#[test]
fn test_new_liquidity_calculation_safety() {
    let k = 1_000_000_000_000u128;

    let result = calculate_new_liquidity_safe(k, 0);
    assert_eq!(result, Err(ERROR_DIVISION_BY_ZERO));

    let result = calculate_new_liquidity_safe(k, 1_000_000);
    assert_eq!(result, Ok(1_000_000));

    let huge_k = (MAX_LIQUIDITY as u128) * (MAX_LIQUIDITY as u128);
    let result = calculate_new_liquidity_safe(huge_k, 1);
    assert_eq!(result, Err(ERROR_OVERFLOW));
}

#[test]
fn test_bet_amount_validation() {
    assert_eq!(validate_bet_amount(0), Err(ERROR_INVALID_BET_AMOUNT));
    assert_eq!(validate_bet_amount(MAX_BET_AMOUNT + 1), Err(ERROR_BET_TOO_LARGE));
    assert!(validate_bet_amount(1000).is_ok());
    assert!(validate_bet_amount(MAX_BET_AMOUNT).is_ok());
}

#[test]
fn test_shares_validation() {
    assert_eq!(validate_shares(0), Err(ERROR_INVALID_BET_AMOUNT));
    assert_eq!(validate_shares(MAX_SHARES + 1), Err(ERROR_BET_TOO_LARGE));
    assert!(validate_shares(1000).is_ok());
    assert!(validate_shares(MAX_SHARES).is_ok());
}

#[test]
fn test_liquidity_validation() {
    assert_eq!(validate_liquidity(MIN_LIQUIDITY - 1), Err(ERROR_INVALID_CALCULATION));
    assert_eq!(validate_liquidity(MAX_LIQUIDITY + 1), Err(ERROR_LIQUIDITY_TOO_HIGH));
    assert!(validate_liquidity(MIN_LIQUIDITY).is_ok());
    assert!(validate_liquidity(MAX_LIQUIDITY).is_ok());
    assert!(validate_liquidity(1_000_000).is_ok());
}

#[test]
fn test_fee_calculation_safety() {
    let result = calculate_fee_safe(10000);
    assert!(result.is_ok());
    let fee = result.unwrap();
    assert_eq!(fee, 100);

    let result = calculate_fee_safe(1960);
    assert!(result.is_ok());
    let fee = result.unwrap();
    assert_eq!(fee, 20);

    let result = calculate_fee_safe(99);
    assert!(result.is_ok());
    let fee = result.unwrap();
    assert_eq!(fee, 1);

    let result = calculate_fee_safe(50);
    assert!(result.is_ok());
    let fee = result.unwrap();
    assert_eq!(fee, 1);

    let result = calculate_fee_safe(10);
    assert!(result.is_ok());
    let fee = result.unwrap();
    assert_eq!(fee, 1);

    let result = calculate_fee_safe(1);
    assert!(result.is_ok());
    let fee = result.unwrap();
    assert_eq!(fee, 1);

    let result = calculate_fee_safe(MAX_BET_AMOUNT + 1);
    assert_eq!(result, Err(ERROR_BET_TOO_LARGE));
}

#[test]
fn test_net_amount_calculation_safety() {
    let result = calculate_net_amount_safe(10000);
    assert!(result.is_ok());
    let net = result.unwrap();
    assert_eq!(net, 9900);

    let result = calculate_net_amount_safe(1960);
    assert!(result.is_ok());
    let net = result.unwrap();
    assert_eq!(net, 1940);

    let result = calculate_net_amount_safe(MAX_BET_AMOUNT + 1);
    assert_eq!(result, Err(ERROR_BET_TOO_LARGE));
}

#[test]
fn test_high_precision_calculations() {
    let result = safe_mul_high_precision(1000, 1000000);
    assert_eq!(result, Ok(1_000_000_000));

    let result = safe_div_high_precision(1000, 1000000, 1000);
    assert_eq!(result, Ok(1_000_000));

    let result = safe_mul_high_precision(u64::MAX, u64::MAX);
    assert_eq!(result, Err(ERROR_OVERFLOW));

    let result = safe_div_high_precision(1000, 1000000, 0);
    assert_eq!(result, Err(ERROR_DIVISION_BY_ZERO));
}

#[test]
fn test_price_calculation_safety() {
    let result = calculate_price_safe(600000, 1000000);
    assert!(result.is_ok());

    let result = calculate_price_safe(600000, 0);
    assert_eq!(result, Ok(500000));
}

#[test]
fn test_effective_price_calculation_safety() {
    let result = calculate_effective_price_safe(1000, 500);
    assert!(result.is_ok());

    let result = calculate_effective_price_safe(1000, 0);
    assert_eq!(result, Ok(0));
}

#[test]
fn test_edge_cases() {
    let result = safe_add(u64::MAX - 1, 1);
    assert_eq!(result, Ok(u64::MAX));

    let result = safe_add(u64::MAX, 1);
    assert_eq!(result, Err(ERROR_OVERFLOW));

    let result = safe_sub(1, 1);
    assert_eq!(result, Ok(0));

    let result = safe_sub(0, 1);
    assert_eq!(result, Err(ERROR_UNDERFLOW));
}

#[test]
fn test_realistic_amm_scenarios() {
    let initial_yes = 1_000_000u64;
    let initial_no = 1_000_000u64;

    let k = calculate_k_safe(initial_yes, initial_no).unwrap();
    assert_eq!(k, 1_000_000_000_000u128);

    let bet_amount = 100_000u64;
    let net_amount = calculate_net_amount_safe(bet_amount).unwrap();

    let new_no_liquidity = safe_add(initial_no, net_amount).unwrap();
    let new_yes_liquidity = calculate_new_liquidity_safe(k, new_no_liquidity).unwrap();

    let new_k = calculate_k_safe(new_yes_liquidity, new_no_liquidity).unwrap();

    assert!(new_k <= k);
    assert!(new_k > 0);

    let shares = safe_sub(initial_yes, new_yes_liquidity).unwrap();
    assert!(shares > 0);

    assert!(new_yes_liquidity < initial_yes);
    assert!(new_no_liquidity > initial_no);
}

#[test]
fn scenario_checked_primitives_fail_distinctly() {
    assert_eq!(validate_bet_amount(0), Err(ERROR_INVALID_BET_AMOUNT));
    assert_eq!(validate_bet_amount(MAX_BET_AMOUNT + 1), Err(ERROR_BET_TOO_LARGE));
    assert_eq!(safe_sub(5, 10), Err(ERROR_UNDERFLOW));
    assert_eq!(safe_mul(u64::MAX, 2), Err(ERROR_OVERFLOW));
}

#[test]
fn ratio_uses_wide_intermediate() {
    // a * b exceeds 64 bits, the quotient does not.
    assert_eq!(safe_div_high_precision(u64::MAX, 4, 8), Ok(u64::MAX / 2));
    assert_eq!(safe_div_high_precision(u64::MAX, 3, 1), Err(ERROR_OVERFLOW));
    assert_eq!(safe_div_high_precision(7, 3, 2), Ok(10));
    assert_eq!(safe_div(7, 2), Ok(3));
}

#[test]
fn fee_rounds_up_on_every_nonzero_amount() {
    assert_eq!(calculate_fee_safe(0), Ok(0));
    assert_eq!(calculate_fee_safe(101), Ok(2));
    assert_eq!(calculate_fee_safe(MAX_BET_AMOUNT), Ok(1_000_000));
    assert_eq!(calculate_net_amount_safe(1), Ok(0));
}

#[test]
fn price_is_scaled_ratio() {
    assert_eq!(calculate_price_safe(600000, 1000000), Ok(600000));
    assert_eq!(calculate_effective_price_safe(1000, 500), Ok(2_000_000));
    assert_eq!(calculate_new_liquidity_safe(1_000_000_000_000u128, 1_009_900), Ok(990_197));
    assert_eq!(calculate_new_liquidity_safe(1_000_000_000_000u128, 1_000_000_001), Err(ERROR_INVALID_CALCULATION));
}
