//! Checked arithmetic: every operation returns the exact result or a distinct
//! error, and never wraps, saturates or truncates silently.
use vstd::prelude::*;
use crate::config::{PRICE_PRECISION, FEE_BASIS_POINTS, PLATFORM_FEE_RATE};
use crate::error::{
    ERROR_OVERFLOW, ERROR_UNDERFLOW, ERROR_DIVISION_BY_ZERO, ERROR_BET_TOO_LARGE,
    ERROR_LIQUIDITY_TOO_HIGH, ERROR_INVALID_CALCULATION, ERROR_INVALID_BET_AMOUNT,
};

verus! {

/// Upper bound of each side's virtual liquidity.
pub const MAX_LIQUIDITY: u64 = 1_000_000_000_000;

/// Largest single bet.
pub const MAX_BET_AMOUNT: u64 = 100_000_000;

/// Lower bound of each side's virtual liquidity.
pub const MIN_LIQUIDITY: u64 = 1000;

/// Largest number of shares minted or sold at once.
pub const MAX_SHARES: u64 = 1_000_000_000;

/// `floor(a * b / c)`, or the error that the widened computation meets.
pub open spec fn spec_mul_div(a: u64, b: u64, c: u64) -> Result<u64, u32> {
    if b == 0 || c == 0 {
        Err(ERROR_DIVISION_BY_ZERO)
    } else if (a * b) / (c as int) > u64::MAX {
        Err(ERROR_OVERFLOW)
    } else {
        Ok(((a * b) / (c as int)) as u64)
    }
}

/// The platform fee on `amount`: one percent, rounded up.
pub open spec fn fee_of(amount: int) -> int {
    (amount * PLATFORM_FEE_RATE + FEE_BASIS_POINTS - 1) / (FEE_BASIS_POINTS as int)
}

/// What `calculate_fee_safe` returns.
pub open spec fn spec_fee(amount: u64) -> Result<u64, u32> {
    if amount > MAX_BET_AMOUNT {
        Err(ERROR_BET_TOO_LARGE)
    } else {
        Ok(fee_of(amount as int) as u64)
    }
}

/// What `calculate_k_safe` returns.
pub open spec fn spec_k(yes_liquidity: u64, no_liquidity: u64) -> Result<u128, u32> {
    if yes_liquidity > MAX_LIQUIDITY || no_liquidity > MAX_LIQUIDITY {
        Err(ERROR_LIQUIDITY_TOO_HIGH)
    } else if yes_liquidity < MIN_LIQUIDITY || no_liquidity < MIN_LIQUIDITY {
        Err(ERROR_INVALID_CALCULATION)
    } else {
        Ok((yes_liquidity * no_liquidity) as u128)
    }
}

/// What `calculate_new_liquidity_safe` returns.
pub open spec fn spec_new_liquidity(k: u128, other_liquidity: u64) -> Result<u64, u32> {
    if other_liquidity == 0 {
        Err(ERROR_DIVISION_BY_ZERO)
    } else if (k as int) / (other_liquidity as int) > u64::MAX {
        Err(ERROR_OVERFLOW)
    } else if (k as int) / (other_liquidity as int) < MIN_LIQUIDITY || (k as int) / (other_liquidity as int)
        > MAX_LIQUIDITY {
        Err(ERROR_INVALID_CALCULATION)
    } else {
        Ok(((k as int) / (other_liquidity as int)) as u64)
    }
}

/// What `validate_shares` returns.
pub open spec fn spec_validate_shares(shares: u64) -> Result<(), u32> {
    if shares == 0 {
        Err(ERROR_INVALID_BET_AMOUNT)
    } else if shares > MAX_SHARES {
        Err(ERROR_BET_TOO_LARGE)
    } else {
        Ok(())
    }
}

/// What `validate_liquidity` returns.
pub open spec fn spec_validate_liquidity(liquidity: u64) -> Result<(), u32> {
    if liquidity < MIN_LIQUIDITY {
        Err(ERROR_INVALID_CALCULATION)
    } else if liquidity > MAX_LIQUIDITY {
        Err(ERROR_LIQUIDITY_TOO_HIGH)
    } else {
        Ok(())
    }
}

/// What `validate_bet_amount` returns.
pub open spec fn spec_validate_bet_amount(amount: u64) -> Result<(), u32> {
    if amount == 0 {
        Err(ERROR_INVALID_BET_AMOUNT)
    } else if amount > MAX_BET_AMOUNT {
        Err(ERROR_BET_TOO_LARGE)
    } else {
        Ok(())
    }
}

pub proof fn lemma_mul_u64_fits_u128(a: u64, b: u64)
    ensures
        0 <= a * b <= u128::MAX,
        0 <= (a as int) * (b as int),
{
    assert(0 <= (a as int) * (b as int) <= (u64::MAX as int) * (u64::MAX as int))
        by (nonlinear_arith);
}

pub fn safe_mul(a: u64, b: u64) -> (r: Result<u64, u32>)
    ensures
        r == (if a * b <= u64::MAX { Ok::<u64, u32>((a * b) as u64) } else { Err(ERROR_OVERFLOW) }),
{
    match a.checked_mul(b) {
        Some(v) => Ok(v),
        None => Err(ERROR_OVERFLOW),
    }
}

pub fn safe_div(a: u64, b: u64) -> (r: Result<u64, u32>)
    ensures
        r == (if b == 0 { Err::<u64, u32>(ERROR_DIVISION_BY_ZERO) } else { Ok((a / b) as u64) }),
{
    if b == 0 {
        return Err(ERROR_DIVISION_BY_ZERO);
    }
    Ok(a / b)
}

pub fn safe_sub(a: u64, b: u64) -> (r: Result<u64, u32>)
    ensures
        r == (if a >= b { Ok::<u64, u32>((a - b) as u64) } else { Err(ERROR_UNDERFLOW) }),
{
    match a.checked_sub(b) {
        Some(v) => Ok(v),
        None => Err(ERROR_UNDERFLOW),
    }
}

pub fn safe_add(a: u64, b: u64) -> (r: Result<u64, u32>)
    ensures
        r == (if a + b <= u64::MAX { Ok::<u64, u32>((a + b) as u64) } else { Err(ERROR_OVERFLOW) }),
{
    match a.checked_add(b) {
        Some(v) => Ok(v),
        None => Err(ERROR_OVERFLOW),
    }
}

/// `a * b` computed in 128 bits, then brought back to 64 bits if it fits.
pub fn safe_mul_high_precision(a: u64, b: u64) -> (r: Result<u64, u32>)
    ensures
        r == (if a * b <= u64::MAX { Ok::<u64, u32>((a * b) as u64) } else { Err(ERROR_OVERFLOW) }),
{
    proof {
        lemma_mul_u64_fits_u128(a, b);
    }
    let result = (a as u128) * (b as u128);
    if result > u64::MAX as u128 {
        return Err(ERROR_OVERFLOW);
    }
    Ok(result as u64)
}

/// `floor(a * b / c)` with the product held in 128 bits.
pub fn safe_div_high_precision(a: u64, b: u64, c: u64) -> (r: Result<u64, u32>)
    ensures
        r == spec_mul_div(a, b, c),
{
    if b == 0 || c == 0 {
        return Err(ERROR_DIVISION_BY_ZERO);
    }
    proof {
        lemma_mul_u64_fits_u128(a, b);
    }
    let numerator = (a as u128) * (b as u128);
    let result = numerator / (c as u128);
    if result > u64::MAX as u128 {
        return Err(ERROR_OVERFLOW);
    }
    Ok(result as u64)
}

/// The constant product `k = yes_liquidity * no_liquidity`, for liquidities in
/// `[MIN_LIQUIDITY, MAX_LIQUIDITY]`.
pub fn calculate_k_safe(yes_liquidity: u64, no_liquidity: u64) -> (r: Result<u128, u32>)
    ensures
        r == spec_k(yes_liquidity, no_liquidity),
        r matches Ok(k) ==> k == yes_liquidity * no_liquidity,
{
    if yes_liquidity > MAX_LIQUIDITY || no_liquidity > MAX_LIQUIDITY {
        return Err(ERROR_LIQUIDITY_TOO_HIGH);
    }
    if yes_liquidity < MIN_LIQUIDITY || no_liquidity < MIN_LIQUIDITY {
        return Err(ERROR_INVALID_CALCULATION);
    }
    proof {
        lemma_mul_u64_fits_u128(yes_liquidity, no_liquidity);
    }
    Ok((yes_liquidity as u128) * (no_liquidity as u128))
}

/// The liquidity `k / other_liquidity` of one side once the other side holds
/// `other_liquidity`; it must stay in `[MIN_LIQUIDITY, MAX_LIQUIDITY]`.
pub fn calculate_new_liquidity_safe(k: u128, other_liquidity: u64) -> (r: Result<u64, u32>)
    ensures
        r == spec_new_liquidity(k, other_liquidity),
{
    if other_liquidity == 0 {
        return Err(ERROR_DIVISION_BY_ZERO);
    }
    let new_liquidity = k / (other_liquidity as u128);
    if new_liquidity > u64::MAX as u128 {
        return Err(ERROR_OVERFLOW);
    }
    let result = new_liquidity as u64;
    if result < MIN_LIQUIDITY || result > MAX_LIQUIDITY {
        return Err(ERROR_INVALID_CALCULATION);
    }
    Ok(result)
}

/// The platform fee on `amount`, rounded up, so that any nonzero amount pays
/// at least one unit.
pub fn calculate_fee_safe(amount: u64) -> (r: Result<u64, u32>)
    ensures
        r == spec_fee(amount),
        r is Ok ==> (amount > 0 ==> r->Ok_0 >= 1) && r->Ok_0 <= amount,
{
    if amount > MAX_BET_AMOUNT {
        return Err(ERROR_BET_TOO_LARGE);
    }
    assert(amount * PLATFORM_FEE_RATE <= MAX_BET_AMOUNT * PLATFORM_FEE_RATE) by (nonlinear_arith)
        requires amount <= MAX_BET_AMOUNT;
    let numerator = (amount as u128) * (PLATFORM_FEE_RATE as u128) + (FEE_BASIS_POINTS as u128 - 1);
    let fee = numerator / (FEE_BASIS_POINTS as u128);
    assert(fee <= amount) by {
        assert(amount * 100 + 9999 <= (amount + 1) * 10000 - 1) by (nonlinear_arith)
            requires amount >= 0;
    }
    Ok(fee as u64)
}

/// `amount` less its platform fee.
pub fn calculate_net_amount_safe(bet_amount: u64) -> (r: Result<u64, u32>)
    ensures
        r == (match spec_fee(bet_amount) {
            Ok(fee) => Ok::<u64, u32>((bet_amount - fee) as u64),
            Err(e) => Err(e),
        }),
{
    let fee = calculate_fee_safe(bet_amount)?;
    safe_sub(bet_amount, fee)
}

/// `numerator / denominator` as a fixed-point price; one half when the
/// denominator is zero.
pub fn calculate_price_safe(numerator: u64, denominator: u64) -> (r: Result<u64, u32>)
    ensures
        r == (if denominator == 0 {
            Ok::<u64, u32>((PRICE_PRECISION / 2) as u64)
        } else {
            spec_mul_div(numerator, PRICE_PRECISION, denominator)
        }),
{
    if denominator == 0 {
        return Ok(PRICE_PRECISION / 2);
    }
    safe_div_high_precision(numerator, PRICE_PRECISION, denominator)
}

/// The fixed-point price paid per share; zero when no share was bought.
pub fn calculate_effective_price_safe(bet_amount: u64, shares: u64) -> (r: Result<u64, u32>)
    ensures
        r == (if shares == 0 {
            Ok::<u64, u32>(0)
        } else {
            spec_mul_div(bet_amount, PRICE_PRECISION, shares)
        }),
{
    if shares == 0 {
        return Ok(0);
    }
    safe_div_high_precision(bet_amount, PRICE_PRECISION, shares)
}

/// A bet must be nonzero and at most `MAX_BET_AMOUNT`.
pub fn validate_bet_amount(bet_amount: u64) -> (r: Result<(), u32>)
    ensures
        r == spec_validate_bet_amount(bet_amount),
{
    if bet_amount == 0 {
        return Err(ERROR_INVALID_BET_AMOUNT);
    }
    if bet_amount > MAX_BET_AMOUNT {
        return Err(ERROR_BET_TOO_LARGE);
    }
    Ok(())
}

/// A share count must be nonzero and at most `MAX_SHARES`.
pub fn validate_shares(shares: u64) -> (r: Result<(), u32>)
    ensures
        r == spec_validate_shares(shares),
{
    if shares == 0 {
        return Err(ERROR_INVALID_BET_AMOUNT);
    }
    if shares > MAX_SHARES {
        return Err(ERROR_BET_TOO_LARGE);
    }
    Ok(())
}

/// A liquidity must lie in `[MIN_LIQUIDITY, MAX_LIQUIDITY]`.
pub fn validate_liquidity(liquidity: u64) -> (r: Result<(), u32>)
    ensures
        r == spec_validate_liquidity(liquidity),
{
    if liquidity < MIN_LIQUIDITY {
        return Err(ERROR_INVALID_CALCULATION);
    }
    if liquidity > MAX_LIQUIDITY {
        return Err(ERROR_LIQUIDITY_TOO_HIGH);
    }
    Ok(())
}

} // verus!
