//! A bonding-curve market maker: one pool per asset that prices and settles
//! buy and sell trades against a value reserve along a linear price curve.
//!
//! Every executable function here is verified against the contract it
//! carries; the pricing laws are stated as public proof functions.

pub mod checked;
pub mod curve;
pub mod error;
pub mod init;
pub mod state;
pub mod trade;

pub use error::CustomError;
pub use init::{initialize, Initialize};
pub use state::State;
pub use trade::{buy, sell, Trade};
