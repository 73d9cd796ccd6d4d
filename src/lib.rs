//! Primary issuance of a fixed-supply asset along a linear bonding curve:
//! curve pricing, the buy/sell engine with its fee split, fee withdrawal and
//! the one-way graduation of a launch.

pub mod error;
pub mod curve;
pub mod fees;
pub mod account;
pub mod launch;
pub mod admin;
pub mod laws;
