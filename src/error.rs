use vstd::prelude::*;

verus! {

/// Result codes of the engine. Zero is success; every failure has its own code.
pub const ERROR_PLAYER_NOT_EXIST: u32 = 1;
pub const ERROR_PLAYER_ALREADY_EXISTS: u32 = 2;
pub const ERROR_UNAUTHORIZED: u32 = 3;
pub const ERROR_INVALID_BET_AMOUNT: u32 = 4;
pub const ERROR_MARKET_NOT_ACTIVE: u32 = 5;
pub const ERROR_MARKET_NOT_RESOLVED: u32 = 6;
pub const ERROR_NO_WINNING_POSITION: u32 = 7;
pub const ERROR_ALREADY_CLAIMED: u32 = 8;
pub const ERROR_INSUFFICIENT_BALANCE: u32 = 9;
pub const ERROR_MARKET_ALREADY_RESOLVED: u32 = 10;
pub const ERROR_INVALID_MARKET_TIME: u32 = 11;
pub const ERROR_INVALID_BET_TYPE: u32 = 12;
pub const ERROR_NO_FEES_TO_WITHDRAW: u32 = 13;
pub const ERROR_OVERFLOW: u32 = 14;
pub const ERROR_UNDERFLOW: u32 = 15;
pub const ERROR_DIVISION_BY_ZERO: u32 = 16;
pub const ERROR_BET_TOO_LARGE: u32 = 17;
pub const ERROR_LIQUIDITY_TOO_HIGH: u32 = 18;
pub const ERROR_INVALID_CALCULATION: u32 = 19;
pub const ERROR_INVALID_MARKET_TITLE: u32 = 20;
pub const ERROR_INVALID_NONCE: u32 = 21;
pub const ERROR_INVALID_COMMAND: u32 = 22;

} // verus!
