//! One market's automated market maker: virtual liquidity for pricing, the
//! real prize pool, share totals and the resolution outcome.
use vstd::prelude::*;
use crate::config::PRICE_PRECISION;
use crate::error::{
    ERROR_INVALID_MARKET_TITLE, ERROR_INVALID_MARKET_TIME, ERROR_INVALID_BET_TYPE,
    ERROR_INVALID_BET_AMOUNT, ERROR_INSUFFICIENT_BALANCE, ERROR_MARKET_ALREADY_RESOLVED,
    ERROR_OVERFLOW, ERROR_INVALID_CALCULATION, ERROR_BET_TOO_LARGE, ERROR_NO_FEES_TO_WITHDRAW,
    };
use crate::math_safe::{
    MAX_LIQUIDITY, MIN_LIQUIDITY, MAX_BET_AMOUNT, MAX_SHARES, spec_mul_div, spec_k, fee_of,
    spec_validate_shares, spec_validate_liquidity, safe_add, safe_sub,
    safe_div_high_precision, calculate_k_safe, calculate_new_liquidity_safe, calculate_fee_safe,
    calculate_net_amount_safe, calculate_price_safe, validate_bet_amount, validate_shares,
    validate_liquidity,
};

verus! {

/// Longest title, in packed words of eight bytes.
pub const MAX_TITLE_WORDS: usize = 9;

#[derive(Clone, Debug)]
pub struct MarketData {
    /// UTF-8 title, eight bytes to a word, little-endian, zero-padded.
    pub title: Vec<u64>,
    pub start_time: u64,
    pub end_time: u64,
    pub resolution_time: u64,
    /// Virtual liquidity of the YES side, used for pricing only.
    pub yes_liquidity: u64,
    /// Virtual liquidity of the NO side, used for pricing only.
    pub no_liquidity: u64,
    /// Net bet inflow, which pays sellers and winners.
    pub prize_pool: u64,
    pub total_volume: u64,
    pub total_yes_shares: u64,
    pub total_no_shares: u64,
    pub resolved: bool,
    /// `Some(true)` when YES won, `Some(false)` when NO won.
    pub outcome: Option<bool>,
    pub total_fees_collected: u64,
}

/// Both liquidities lie in `[MIN_LIQUIDITY, MAX_LIQUIDITY]`.
pub open spec fn liquidity_in_range(yes_liquidity: u64, no_liquidity: u64) -> bool {
    MIN_LIQUIDITY <= yes_liquidity <= MAX_LIQUIDITY && MIN_LIQUIDITY <= no_liquidity
        <= MAX_LIQUIDITY
}

/// A constant-product swap: `input` enters the pool of one side (`in_side`),
/// and the other side (`out_side`) is recomputed from the product that the
/// two held before. The result is the new pair `(out_side, in_side)`; the
/// recomputed side must stay within the liquidity bounds.
pub open spec fn spec_swap(out_side: u64, in_side: u64, input: int) -> Result<(u64, u64), u32> {
    let new_in = in_side + input;
    let new_out = (out_side * in_side) / new_in;
    if new_out < MIN_LIQUIDITY || new_out > MAX_LIQUIDITY {
        Err(ERROR_INVALID_CALCULATION)
    } else {
        Ok((new_out as u64, new_in as u64))
    }
}

/// The quote for a bet of `amount` on side `bet_type` (1 = YES, 0 = NO) against
/// liquidities `(yes, no)`: the shares minted and the new `(yes, no)`.
pub open spec fn spec_bet_quote(yes: u64, no: u64, bet_type: u64, amount: u64) -> Result<
    (u64, u64, u64),
    u32,
> {
    if amount == 0 {
        Err(ERROR_INVALID_BET_AMOUNT)
    } else if amount > MAX_BET_AMOUNT {
        Err(ERROR_BET_TOO_LARGE)
    } else if bet_type > 1 {
        Err(ERROR_INVALID_BET_TYPE)
    } else if !liquidity_in_range(yes, no) {
        Err(spec_k(yes, no)->Err_0)
    } else {
        let net = amount - fee_of(amount as int);
        let (same, other) = if bet_type == 1 { (yes, no) } else { (no, yes) };
        match spec_swap(same, other, net) {
            Err(e) => Err(e),
            Ok((new_same, new_other)) => {
                let shares = (same - new_same) as u64;
                match spec_validate_shares(shares) {
                    Err(e) => Err(e),
                    Ok(_) => if bet_type == 1 {
                        Ok((shares, new_same, new_other))
                    } else {
                        Ok((shares, new_other, new_same))
                    },
                }
            },
        }
    }
}

/// The market after a bet, with the shares minted; or the error.
pub open spec fn spec_place_bet(m: MarketData, bet_type: u64, amount: u64) -> Result<
    (MarketData, u64),
    u32,
> {
    match spec_bet_quote(m.yes_liquidity, m.no_liquidity, bet_type, amount) {
        Err(e) => Err(e),
        Ok((shares, new_yes, new_no)) => {
            let fee = fee_of(amount as int);
            let net = amount - fee;
            let side_total = if bet_type == 1 {
                m.total_yes_shares
            } else {
                m.total_no_shares
            };
            if side_total + shares > u64::MAX || m.prize_pool + net > u64::MAX || m.total_volume
                + amount > u64::MAX || m.total_fees_collected + fee > u64::MAX {
                Err(ERROR_OVERFLOW)
            } else {
                Ok(
                    (
                        MarketData {
                            yes_liquidity: new_yes,
                            no_liquidity: new_no,
                            prize_pool: (m.prize_pool + net) as u64,
                            total_volume: (m.total_volume + amount) as u64,
                            total_yes_shares: if bet_type == 1 {
                                (m.total_yes_shares + shares) as u64
                            } else {
                                m.total_yes_shares
                            },
                            total_no_shares: if bet_type == 1 {
                                m.total_no_shares
                            } else {
                                (m.total_no_shares + shares) as u64
                            },
                            total_fees_collected: (m.total_fees_collected + fee) as u64,
                            ..m
                        },
                        shares,
                    ),
                )
            }
        },
    }
}

/// Net payout and fee for selling `shares` of side `sell_type`; `(0, 0)` when
/// no share of that side is outstanding.
pub open spec fn spec_sell_details(m: MarketData, sell_type: u64, shares: u64) -> Result<
    (u64, u64),
    u32,
> {
    if spec_validate_shares(shares) is Err {
        Err(spec_validate_shares(shares)->Err_0)
    } else if sell_type > 1 {
        Err(ERROR_INVALID_BET_TYPE)
    } else if (if sell_type == 1 { m.total_yes_shares } else { m.total_no_shares }) == 0 {
        Ok((0, 0))
    } else if !liquidity_in_range(m.yes_liquidity, m.no_liquidity) {
        Err(spec_k(m.yes_liquidity, m.no_liquidity)->Err_0)
    } else {
        let (same, other) = if sell_type == 1 {
            (m.yes_liquidity, m.no_liquidity)
        } else {
            (m.no_liquidity, m.yes_liquidity)
        };
        match spec_swap(other, same, shares as int) {
            Err(e) => Err(e),
            Ok((new_other, _)) => {
                let gross = other - new_other;
                if gross > MAX_BET_AMOUNT {
                    Err(ERROR_BET_TOO_LARGE)
                } else {
                    Ok(((gross - fee_of(gross)) as u64, fee_of(gross) as u64))
                }
            },
        }
    }
}

/// The market after selling `shares` of side `sell_type`, with the net payout;
/// or the error.
pub open spec fn spec_sell_shares(m: MarketData, sell_type: u64, shares: u64) -> Result<
    (MarketData, u64),
    u32,
> {
    let total = if sell_type == 1 {
        m.total_yes_shares
    } else {
        m.total_no_shares
    };
    if spec_validate_shares(shares) is Err {
        Err(spec_validate_shares(shares)->Err_0)
    } else if shares > total {
        Err(ERROR_INSUFFICIENT_BALANCE)
    } else {
        match spec_sell_details(m, sell_type, shares) {
            Err(e) => Err(e),
            Ok((payout, fee)) => {
                if payout == 0 {
                    Err(ERROR_INVALID_BET_AMOUNT)
                } else if payout > m.prize_pool {
                    Err(ERROR_INSUFFICIENT_BALANCE)
                } else if m.total_fees_collected + fee > u64::MAX || m.total_volume + payout + fee
                    > u64::MAX {
                    Err(ERROR_OVERFLOW)
                } else {
                    let (same, other) = if sell_type == 1 {
                        (m.yes_liquidity, m.no_liquidity)
                    } else {
                        (m.no_liquidity, m.yes_liquidity)
                    };
                    let (new_other, new_same) = spec_swap(other, same, shares as int)->Ok_0;
                    Ok(
                        (
                            MarketData {
                                yes_liquidity: if sell_type == 1 {
                                    new_same
                                } else {
                                    new_other
                                },
                                no_liquidity: if sell_type == 1 {
                                    new_other
                                } else {
                                    new_same
                                },
                                total_yes_shares: if sell_type == 1 {
                                    (m.total_yes_shares - shares) as u64
                                } else {
                                    m.total_yes_shares
                                },
                                total_no_shares: if sell_type == 1 {
                                    m.total_no_shares
                                } else {
                                    (m.total_no_shares - shares) as u64
                                },
                                prize_pool: (m.prize_pool - payout) as u64,
                                total_fees_collected: (m.total_fees_collected + fee) as u64,
                                total_volume: (m.total_volume + payout + fee) as u64,
                                ..m
                            },
                            payout,
                        ),
                    )
                }
            },
        }
    }
}

/// The market after resolving it on `outcome`; resolving twice is an error.
pub open spec fn spec_resolve_market(m: MarketData, outcome: bool) -> Result<MarketData, u32> {
    if m.resolved {
        Err(ERROR_MARKET_ALREADY_RESOLVED)
    } else {
        Ok(MarketData { resolved: true, outcome: Some(outcome), ..m })
    }
}

/// What a position of `yes_shares` and `no_shares` redeems for.
pub open spec fn spec_payout(m: MarketData, yes_shares: u64, no_shares: u64) -> Result<u64, u32> {
    if !m.resolved || m.prize_pool == 0 {
        Ok(0)
    } else {
        match m.outcome {
            Some(true) => if m.total_yes_shares == 0 {
                Ok(0)
            } else {
                spec_mul_div(yes_shares, m.prize_pool, m.total_yes_shares)
            },
            Some(false) => if m.total_no_shares == 0 {
                Ok(0)
            } else {
                spec_mul_div(no_shares, m.prize_pool, m.total_no_shares)
            },
            None => Ok(0),
        }
    }
}

/// The recomputed side never grows when the other side grows.
proof fn lemma_swap_shrinks(out_side: u64, in_side: u64, input: int)
    requires
        in_side > 0,
        input >= 0,
    ensures
        (out_side * in_side) / (in_side + input) <= out_side,
        (out_side * in_side) / (in_side + input) >= 0,
{
    let x = out_side * in_side;
    let d = in_side + input;
    assert(x <= out_side * d) by (nonlinear_arith)
        requires x == out_side * in_side, d == in_side + input, input >= 0, out_side >= 0;
    assert(x / d <= out_side) by (nonlinear_arith)
        requires x <= out_side * d, d > 0, x >= 0;
    assert(x / d >= 0) by (nonlinear_arith)
        requires d > 0, x >= 0;
}

/// Performs the swap of `spec_swap` on executable values.
fn swap_liquidity(k: u128, out_side: u64, in_side: u64, input: u64) -> (r: Result<(u64, u64), u32>)
    requires
        k == out_side * in_side || k == in_side * out_side,
        MIN_LIQUIDITY <= out_side <= MAX_LIQUIDITY,
        MIN_LIQUIDITY <= in_side <= MAX_LIQUIDITY,
        input <= MAX_SHARES,
    ensures
        r == spec_swap(out_side, in_side, input as int),
        r is Ok ==> r->Ok_0.0 <= out_side,
{
    let new_in = match safe_add(in_side, input) {
        Ok(v) => v,
        Err(e) => return Err(e),
    };
    proof {
        lemma_swap_shrinks(out_side, in_side, input as int);
        assert(in_side * out_side == out_side * in_side) by (nonlinear_arith);
    }
    let new_out = match calculate_new_liquidity_safe(k, new_in) {
        Ok(v) => v,
        Err(e) => return Err(e),
    };
    Ok((new_out, new_in))
}

impl MarketData {
    /// `m` is a market with this window and liquidity and nothing traded yet.
    pub open spec fn spec_fresh(
        m: MarketData,
        start_time: u64,
        end_time: u64,
        resolution_time: u64,
        initial_yes_liquidity: u64,
        initial_no_liquidity: u64,
    ) -> bool {
        &&& m.start_time == start_time
        &&& m.end_time == end_time
        &&& m.resolution_time == resolution_time
        &&& m.yes_liquidity == initial_yes_liquidity
        &&& m.no_liquidity == initial_no_liquidity
        &&& m.prize_pool == 0
        &&& m.total_volume == 0
        &&& m.total_yes_shares == 0
        &&& m.total_no_shares == 0
        &&& !m.resolved
        &&& m.outcome is None
        &&& m.total_fees_collected == 0
    }

    /// The error that creating a market meets, if any.
    pub open spec fn spec_new(
        title: Seq<u64>,
        start_time: u64,
        end_time: u64,
        resolution_time: u64,
        initial_yes_liquidity: u64,
        initial_no_liquidity: u64,
    ) -> Result<(), u32> {
        if title.len() > MAX_TITLE_WORDS {
            Err(ERROR_INVALID_MARKET_TITLE)
        } else if start_time >= end_time || end_time > resolution_time {
            Err(ERROR_INVALID_MARKET_TIME)
        } else if spec_validate_liquidity(initial_yes_liquidity) is Err {
            Err(spec_validate_liquidity(initial_yes_liquidity)->Err_0)
        } else if spec_validate_liquidity(initial_no_liquidity) is Err {
            Err(spec_validate_liquidity(initial_no_liquidity)->Err_0)
        } else {
            Ok(())
        }
    }

    /// A market with the given title, time window and initial liquidity, and
    /// nothing traded yet.
    pub fn new_with_title_u64_and_liquidity(
        title: Vec<u64>,
        start_time: u64,
        end_time: u64,
        resolution_time: u64,
        initial_yes_liquidity: u64,
        initial_no_liquidity: u64,
    ) -> (r: Result<Self, u32>)
        ensures
            match Self::spec_new(
                title@,
                start_time,
                end_time,
                resolution_time,
                initial_yes_liquidity,
                initial_no_liquidity,
            ) {
                Err(e) => r == Err::<Self, u32>(e),
                Ok(_) => r matches Ok(m) && m.title == title && Self::spec_fresh(
                    m,
                    start_time,
                    end_time,
                    resolution_time,
                    initial_yes_liquidity,
                    initial_no_liquidity,
                ),
            },
    {
        if title.len() > MAX_TITLE_WORDS {
            return Err(ERROR_INVALID_MARKET_TITLE);
        }
        if start_time >= end_time {
            return Err(ERROR_INVALID_MARKET_TIME);
        }
        if end_time > resolution_time {
            return Err(ERROR_INVALID_MARKET_TIME);
        }
        validate_liquidity(initial_yes_liquidity)?;
        validate_liquidity(initial_no_liquidity)?;
        Ok(
            MarketData {
                title,
                start_time,
                end_time,
                resolution_time,
                yes_liquidity: initial_yes_liquidity,
                no_liquidity: initial_no_liquidity,
                prize_pool: 0,
                total_volume: 0,
                total_yes_shares: 0,
                total_no_shares: 0,
                resolved: false,
                outcome: None,
                total_fees_collected: 0,
            },
        )
    }

    /// Trading is open: the window has started, not ended, and the market is
    /// unresolved.
    pub fn is_active(&self, current_time: u64) -> (r: bool)
        ensures
            r == (self.start_time <= current_time < self.end_time && !self.resolved),
    {
        current_time >= self.start_time && current_time < self.end_time && !self.resolved
    }

    /// The resolution time has come and the market is unresolved.
    pub fn can_resolve(&self, current_time: u64) -> (r: bool)
        ensures
            r == (current_time >= self.resolution_time && !self.resolved),
    {
        current_time >= self.resolution_time && !self.resolved
    }

    /// YES price: `no / (yes + no)` in units of `PRICE_PRECISION`.
    pub fn get_yes_price(&self) -> (r: Result<u64, u32>)
        ensures
            r == (if self.yes_liquidity + self.no_liquidity > u64::MAX {
                Err::<u64, u32>(ERROR_OVERFLOW)
            } else if self.yes_liquidity + self.no_liquidity == 0 {
                Ok((PRICE_PRECISION / 2) as u64)
            } else {
                spec_mul_div(
                    self.no_liquidity,
                    PRICE_PRECISION,
                    (self.yes_liquidity + self.no_liquidity) as u64,
                )
            }),
    {
        let total_liquidity = safe_add(self.yes_liquidity, self.no_liquidity)?;
        if total_liquidity == 0 {
            return Ok(PRICE_PRECISION / 2);
        }
        calculate_price_safe(self.no_liquidity, total_liquidity)
    }

    /// NO price: `yes / (yes + no)` in units of `PRICE_PRECISION`.
    pub fn get_no_price(&self) -> (r: Result<u64, u32>)
        ensures
            r == (if self.yes_liquidity + self.no_liquidity > u64::MAX {
                Err::<u64, u32>(ERROR_OVERFLOW)
            } else if self.yes_liquidity + self.no_liquidity == 0 {
                Ok((PRICE_PRECISION / 2) as u64)
            } else {
                spec_mul_div(
                    self.yes_liquidity,
                    PRICE_PRECISION,
                    (self.yes_liquidity + self.no_liquidity) as u64,
                )
            }),
    {
        let total_liquidity = safe_add(self.yes_liquidity, self.no_liquidity)?;
        if total_liquidity == 0 {
            return Ok(PRICE_PRECISION / 2);
        }
        calculate_price_safe(self.yes_liquidity, total_liquidity)
    }

    /// Reads a side flag: 1 is YES, 0 is NO.
    fn validate_bet_type(bet_type: u64) -> (r: Result<bool, u32>)
        ensures
            r == (if bet_type == 0 {
                Ok::<bool, u32>(false)
            } else if bet_type == 1 {
                Ok(true)
            } else {
                Err(ERROR_INVALID_BET_TYPE)
            }),
    {
        match bet_type {
            0 => Ok(false),
            1 => Ok(true),
            _ => Err(ERROR_INVALID_BET_TYPE),
        }
    }

    /// Shares that a bet of `bet_amount` on side `bet_type` would mint, and the
    /// liquidities after it; nothing is changed.
    fn quote_bet(&self, bet_type: u64, bet_amount: u64) -> (r: Result<(u64, u64, u64), u32>)
        ensures
            r == spec_bet_quote(self.yes_liquidity, self.no_liquidity, bet_type, bet_amount),
    {
        validate_bet_amount(bet_amount)?;
        let is_yes_bet = Self::validate_bet_type(bet_type)?;
        let net_amount = calculate_net_amount_safe(bet_amount)?;
        let k = calculate_k_safe(self.yes_liquidity, self.no_liquidity)?;
        let (same, other) = if is_yes_bet {
            (self.yes_liquidity, self.no_liquidity)
        } else {
            (self.no_liquidity, self.yes_liquidity)
        };
        let (new_same, new_other) = swap_liquidity(k, same, other, net_amount)?;
        let shares = safe_sub(same, new_same)?;
        validate_shares(shares)?;
        if is_yes_bet {
            Ok((shares, new_same, new_other))
        } else {
            Ok((shares, new_other, new_same))
        }
    }

    /// Shares that a bet of `bet_amount` on side `bet_type` (1 = YES, 0 = NO)
    /// would mint at the current liquidity.
    pub fn calculate_shares(&self, bet_type: u64, bet_amount: u64) -> (r: Result<u64, u32>)
        ensures
            r == (match spec_bet_quote(self.yes_liquidity, self.no_liquidity, bet_type, bet_amount) {
                Ok(q) => Ok::<u64, u32>(q.0),
                Err(e) => Err(e),
            }),
    {
        let (shares, _, _) = self.quote_bet(bet_type, bet_amount)?;
        Ok(shares)
    }

    /// Net payout and fee for selling `shares_to_sell` shares of side
    /// `sell_type`; nothing is changed.
    pub fn calculate_sell_details(&self, sell_type: u64, shares_to_sell: u64) -> (r: Result<
        (u64, u64),
        u32,
    >)
        ensures
            r == spec_sell_details(*self, sell_type, shares_to_sell),
    {
        validate_shares(shares_to_sell)?;
        let is_yes_sell = Self::validate_bet_type(sell_type)?;
        let total_shares = if is_yes_sell {
            self.total_yes_shares
        } else {
            self.total_no_shares
        };
        if total_shares == 0 {
            return Ok((0, 0));
        }
        let k = calculate_k_safe(self.yes_liquidity, self.no_liquidity)?;
        let (same, other) = if is_yes_sell {
            (self.yes_liquidity, self.no_liquidity)
        } else {
            (self.no_liquidity, self.yes_liquidity)
        };
        let (new_other, _) = swap_liquidity(k, other, same, shares_to_sell)?;
        let gross_amount = safe_sub(other, new_other)?;
        let fee = calculate_fee_safe(gross_amount)?;
        let net_payout = safe_sub(gross_amount, fee)?;
        Ok((net_payout, fee))
    }

    /// Buys shares of side `bet_type` for `bet_amount`. On success the
    /// liquidities move along the constant product, the net amount joins the
    /// prize pool and the fee is collected; on error nothing changes.
    pub fn place_bet(&mut self, bet_type: u64, bet_amount: u64) -> (r: Result<u64, u32>)
        ensures
            match r {
                Ok(shares) => spec_place_bet(*old(self), bet_type, bet_amount) == Ok::<
                    (MarketData, u64),
                    u32,
                >((*final(self), shares)),
                Err(e) => spec_place_bet(*old(self), bet_type, bet_amount) == Err::<
                    (MarketData, u64),
                    u32,
                >(e) && *final(self) == *old(self),
            },
            r is Ok ==> final(self).yes_liquidity * final(self).no_liquidity <= old(self).yes_liquidity * old(self).no_liquidity,
            r is Ok ==> final(self).yes_liquidity * final(self).no_liquidity > 0,
    {
        let (shares, new_yes, new_no) = self.quote_bet(bet_type, bet_amount)?;
        let fee = calculate_fee_safe(bet_amount)?;
        let net_amount = safe_sub(bet_amount, fee)?;
        let (new_yes_total, new_no_total) = if bet_type == 1 {
            (safe_add(self.total_yes_shares, shares)?, self.total_no_shares)
        } else {
            (self.total_yes_shares, safe_add(self.total_no_shares, shares)?)
        };
        let new_pool = safe_add(self.prize_pool, net_amount)?;
        let new_volume = safe_add(self.total_volume, bet_amount)?;
        let new_fees = safe_add(self.total_fees_collected, fee)?;
        proof {
            lemma_bet_keeps_product(*self, bet_type, bet_amount);
        }
        self.yes_liquidity = new_yes;
        self.no_liquidity = new_no;
        self.total_yes_shares = new_yes_total;
        self.total_no_shares = new_no_total;
        self.prize_pool = new_pool;
        self.total_volume = new_volume;
        self.total_fees_collected = new_fees;
        Ok(shares)
    }

    /// The net payout of selling `shares_to_sell` shares of side `sell_type`,
    /// with the fee and the liquidities after the sale; nothing is changed.
    pub fn quote_sell(&self, sell_type: u64, shares_to_sell: u64) -> (r: Result<
        (u64, u64, u64, u64),
        u32,
    >)
        ensures
            match spec_sell_shares(*self, sell_type, shares_to_sell) {
                Ok((m, payout)) => r matches Ok((p, fee, new_yes, new_no)) && p == payout
                    && new_yes == m.yes_liquidity && new_no == m.no_liquidity
                    && m.total_fees_collected == self.total_fees_collected + fee
                    && m.total_volume == self.total_volume + payout + fee,
                Err(e) => r == Err::<(u64, u64, u64, u64), u32>(e),
            },
    {
        validate_shares(shares_to_sell)?;
        let (total_shares, is_yes_sell) = if sell_type == 1 {
            (self.total_yes_shares, true)
        } else {
            (self.total_no_shares, false)
        };
        if shares_to_sell > total_shares {
            return Err(ERROR_INSUFFICIENT_BALANCE);
        }
        let (payout, fee) = self.calculate_sell_details(sell_type, shares_to_sell)?;
        if payout == 0 {
            return Err(ERROR_INVALID_BET_AMOUNT);
        }
        if payout > self.prize_pool {
            return Err(ERROR_INSUFFICIENT_BALANCE);
        }
        let _ = safe_add(self.total_fees_collected, fee)?;
        let total_transaction_value = safe_add(payout, fee)?;
        let _ = safe_add(self.total_volume, total_transaction_value)?;
        let k = calculate_k_safe(self.yes_liquidity, self.no_liquidity)?;
        let (same, other) = if is_yes_sell {
            (self.yes_liquidity, self.no_liquidity)
        } else {
            (self.no_liquidity, self.yes_liquidity)
        };
        let (new_other, new_same) = swap_liquidity(k, other, same, shares_to_sell)?;
        if is_yes_sell {
            Ok((payout, fee, new_same, new_other))
        } else {
            Ok((payout, fee, new_other, new_same))
        }
    }

    /// Sells `shares_to_sell` shares of side `sell_type` back to the pool for
    /// the net payout, which leaves the prize pool; on error nothing changes.
    pub fn sell_shares(&mut self, sell_type: u64, shares_to_sell: u64) -> (r: Result<u64, u32>)
        ensures
            match r {
                Ok(payout) => spec_sell_shares(*old(self), sell_type, shares_to_sell) == Ok::<
                    (MarketData, u64),
                    u32,
                >((*final(self), payout)),
                Err(e) => spec_sell_shares(*old(self), sell_type, shares_to_sell) == Err::<
                    (MarketData, u64),
                    u32,
                >(e) && *final(self) == *old(self),
            },
            r is Ok ==> final(self).yes_liquidity * final(self).no_liquidity <= old(self).yes_liquidity
                * old(self).no_liquidity,
            r is Ok ==> final(self).yes_liquidity * final(self).no_liquidity > 0,
    {
        let (payout, fee, new_yes, new_no) = self.quote_sell(sell_type, shares_to_sell)?;
        proof {
            lemma_sell_keeps_product(*self, sell_type, shares_to_sell);
        }
        self.yes_liquidity = new_yes;
        self.no_liquidity = new_no;
        if sell_type == 1 {
            self.total_yes_shares = self.total_yes_shares - shares_to_sell;
        } else {
            self.total_no_shares = self.total_no_shares - shares_to_sell;
        }
        self.prize_pool = self.prize_pool - payout;
        self.total_fees_collected = self.total_fees_collected + fee;
        self.total_volume = self.total_volume + payout + fee;
        Ok(payout)
    }

    /// Settles the market on `outcome`, once.
    pub fn resolve(&mut self, outcome: bool) -> (r: Result<(), u32>)
        ensures
            match spec_resolve_market(*old(self), outcome) {
                Ok(m) => r is Ok && *final(self) == m,
                Err(e) => r == Err::<(), u32>(e) && *final(self) == *old(self),
            },
    {
        if self.resolved {
            return Err(ERROR_MARKET_ALREADY_RESOLVED);
        }
        self.resolved = true;
        self.outcome = Some(outcome);
        Ok(())
    }

    /// What a position redeems for: winning shares take their pro-rata part of
    /// the prize pool, rounded down; losing shares take nothing.
    pub fn calculate_payout(&self, yes_shares: u64, no_shares: u64) -> (r: Result<u64, u32>)
        ensures
            r == spec_payout(*self, yes_shares, no_shares),
    {
        if !self.resolved || self.prize_pool == 0 {
            return Ok(0);
        }
        match self.outcome {
            Some(true) => {
                if self.total_yes_shares == 0 {
                    return Ok(0);
                }
                safe_div_high_precision(yes_shares, self.prize_pool, self.total_yes_shares)
            },
            Some(false) => {
                if self.total_no_shares == 0 {
                    return Ok(0);
                }
                safe_div_high_precision(no_shares, self.prize_pool, self.total_no_shares)
            },
            None => Ok(0),
        }
    }

    /// Empties the collected fees and returns their amount.
    pub fn withdraw_fees(&mut self) -> (r: Result<u64, u32>)
        ensures
            old(self).total_fees_collected == 0 ==> r == Err::<u64, u32>(ERROR_NO_FEES_TO_WITHDRAW)
                && *final(self) == *old(self),
            old(self).total_fees_collected > 0 ==> r == Ok::<u64, u32>(
                old(self).total_fees_collected,
            ) && *final(self) == (MarketData { total_fees_collected: 0, ..*old(self) }),
    {
        let fees_collected = self.total_fees_collected;
        if fees_collected == 0 {
            return Err(ERROR_NO_FEES_TO_WITHDRAW);
        }
        self.total_fees_collected = 0;
        Ok(fees_collected)
    }
}

/// A successful bet leaves the product of the liquidities positive and no
/// larger than before: rounding and fees may shrink it, never grow it.
pub proof fn lemma_bet_keeps_product(m: MarketData, bet_type: u64, amount: u64)
    requires
        spec_bet_quote(m.yes_liquidity, m.no_liquidity, bet_type, amount) is Ok,
    ensures
        ({
            let q = spec_bet_quote(m.yes_liquidity, m.no_liquidity, bet_type, amount)->Ok_0;
            &&& q.1 * q.2 <= m.yes_liquidity * m.no_liquidity
            &&& q.1 * q.2 > 0
            &&& liquidity_in_range(m.yes_liquidity, m.no_liquidity)
            &&& q.1 >= MIN_LIQUIDITY && q.2 >= MIN_LIQUIDITY
        }),
{
    let yes = m.yes_liquidity;
    let no = m.no_liquidity;
    let net = amount - fee_of(amount as int);
    let (same, other) = if bet_type == 1 { (yes, no) } else { (no, yes) };
    let new_other = other + net;
    let x = same * other;
    let new_same = x / new_other;
    assert(net >= 0) by {
        assert(amount * 100 + 9999 <= (amount + 1) * 10000 - 1) by (nonlinear_arith)
            requires amount >= 0;
    }
    assert(new_same * new_other <= x) by (nonlinear_arith)
        requires new_same == x / new_other, new_other > 0, x >= 0;
    assert(x == yes * no) by (nonlinear_arith)
        requires x == same * other, (bet_type == 1 && same == yes && other == no) || (bet_type != 1 && same == no
            && other == yes);
    assert(new_same * new_other > 0) by (nonlinear_arith)
        requires new_same >= MIN_LIQUIDITY, new_other >= MIN_LIQUIDITY;
    assert(new_other * new_same == new_same * new_other) by (nonlinear_arith);
}

/// A successful sale also leaves the product of the liquidities positive and
/// no larger than before.
pub proof fn lemma_sell_keeps_product(m: MarketData, sell_type: u64, shares: u64)
    requires
        spec_sell_shares(m, sell_type, shares) is Ok,
    ensures
        ({
            let m2 = spec_sell_shares(m, sell_type, shares)->Ok_0.0;
            &&& m2.yes_liquidity * m2.no_liquidity <= m.yes_liquidity * m.no_liquidity
            &&& m2.yes_liquidity * m2.no_liquidity > 0
        }),
{
    let (same, other) = if sell_type == 1 {
        (m.yes_liquidity, m.no_liquidity)
    } else {
        (m.no_liquidity, m.yes_liquidity)
    };
    let new_same = same + shares;
    let x = other * same;
    let new_other = x / new_same;
    assert(liquidity_in_range(m.yes_liquidity, m.no_liquidity));
    assert(new_other * new_same <= x) by (nonlinear_arith)
        requires new_other == x / new_same, new_same > 0, x >= 0;
    assert(x == m.yes_liquidity * m.no_liquidity) by (nonlinear_arith)
        requires x == other * same, (sell_type == 1 && same == m.yes_liquidity && other
            == m.no_liquidity) || (sell_type != 1 && same == m.no_liquidity && other
            == m.yes_liquidity);
    assert(new_other >= MIN_LIQUIDITY);
    assert(new_other * new_same > 0) by (nonlinear_arith)
        requires new_other >= MIN_LIQUIDITY, new_same >= MIN_LIQUIDITY;
    assert(new_same * new_other == new_other * new_same) by (nonlinear_arith);
}

} // verus!
