use vstd::prelude::*;

verus! {

/// Platform fee rate, in units of `FEE_BASIS_POINTS` (1%).
pub const PLATFORM_FEE_RATE: u64 = 100;

/// Balance given to a newly installed player.
pub const NEW_PLAYER_INITIAL_BALANCE: u64 = 10_000_000;

/// 10,000 basis points make 100%.
pub const BASIS_POINTS_PRECISION: u64 = 10000;

/// Fixed-point scale of prices: 1,000,000 stands for 1.0.
pub const PRICE_PRECISION: u64 = 1000000;

/// 100 stands for 100%.
pub const PERCENTAGE_PRECISION: u64 = 100;

pub const BASIS_POINTS_TO_PRICE: u64 = PRICE_PRECISION / BASIS_POINTS_PRECISION;

pub const PERCENTAGE_TO_PRICE: u64 = PRICE_PRECISION / PERCENTAGE_PRECISION;

/// Denominator of `PLATFORM_FEE_RATE`.
pub const FEE_BASIS_POINTS: u64 = 10000;

/// Event kinds of the per-market broadcast.
pub const EVENT_MARKET_UPDATE: u64 = 1;
pub const EVENT_BET_UPDATE: u64 = 2;
pub const EVENT_PLAYER_UPDATE: u64 = 3;

/// One logical tick lasts five seconds.
pub const SECONDS_PER_TICK: u64 = 5;
pub const TICKS_PER_MINUTE: u64 = 12;
pub const TICKS_PER_HOUR: u64 = 720;
pub const TICKS_PER_DAY: u64 = 17280;
/// 120 days of ticks.
pub const TICKS_PER_4_MONTHS: u64 = 2073600;

/// What the host is told about this application.
pub struct Config {
    pub actions: [&'static str; 3],
    pub name: [&'static str; 1],
}

impl Config {
    /// The application's description: its actions and its name.
    pub fn prediction_market() -> (r: Config)
        ensures
            r.actions@.len() == 3,
            r.actions[0]@ == "bet"@,
            r.actions[1]@ == "resolve"@,
            r.actions[2]@ == "claim"@,
            r.name[0]@ == "prediction_market"@,
    {
        Config { actions: ["bet", "resolve", "claim"], name: ["prediction_market"] }
    }

    /// The host drives the clock with a timer tick.
    pub fn autotick() -> (r: bool)
        ensures
            r,
    {
        true
    }
}

/// The parameters of the market that a fresh deployment offers.
pub struct DefaultMarketConfig {
    pub title: &'static str,
    pub start_time: u64,
    pub end_time: u64,
    pub resolution_time: u64,
    pub initial_yes_liquidity: u64,
    pub initial_no_liquidity: u64,
}

impl DefaultMarketConfig {
    /// A market that opens at once, runs four months and starts with 100,000
    /// units of liquidity on each side.
    pub fn standard() -> (r: DefaultMarketConfig)
        ensures
            r.title@ == "Bitcoin $100K by 2024"@,
            r.start_time == 0,
            r.end_time == TICKS_PER_4_MONTHS,
            r.resolution_time == TICKS_PER_4_MONTHS,
            r.initial_yes_liquidity == 100000,
            r.initial_no_liquidity == 100000,
    {
        DefaultMarketConfig {
            title: "Bitcoin $100K by 2024",
            start_time: 0,
            end_time: TICKS_PER_4_MONTHS,
            resolution_time: TICKS_PER_4_MONTHS,
            initial_yes_liquidity: 100000,
            initial_no_liquidity: 100000,
        }
    }

    /// Whole ticks in `seconds`, rounded down.
    pub fn seconds_to_ticks(seconds: u64) -> (r: u64)
        ensures
            r == seconds / SECONDS_PER_TICK,
    {
        seconds / SECONDS_PER_TICK
    }

    /// Seconds in `ticks`.
    pub fn ticks_to_seconds(ticks: u64) -> (r: u64)
        requires
            ticks * SECONDS_PER_TICK <= u64::MAX,
        ensures
            r == ticks * SECONDS_PER_TICK,
    {
        ticks * SECONDS_PER_TICK
    }

    /// Length of the trading window in ticks.
    pub fn duration_ticks(&self) -> (r: u64)
        requires
            self.start_time <= self.end_time,
        ensures
            r == self.end_time - self.start_time,
    {
        self.end_time - self.start_time
    }

    /// Length of the trading window in seconds.
    pub fn duration_seconds(&self) -> (r: u64)
        requires
            self.start_time <= self.end_time,
            (self.end_time - self.start_time) * SECONDS_PER_TICK <= u64::MAX,
        ensures
            r == (self.end_time - self.start_time) * SECONDS_PER_TICK,
    {
        Self::ticks_to_seconds(self.duration_ticks())
    }
}

} // verus!
