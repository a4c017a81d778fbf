//! A binary prediction market: a constant-product market maker prices YES and
//! NO positions, markets are resolved to an outcome, and winners split the
//! prize pool pro rata.

pub mod error;
pub mod config;
pub mod math_safe;
pub mod market;
pub mod player;
pub mod codec;
pub mod event;
pub mod title;
pub mod state;
pub mod world;
pub mod command;
pub mod laws;
