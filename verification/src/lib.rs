//! Arithmetic core of a two-asset constant-product exchange pool.
//!
//! The crate computes pricing quotes, fee and tax extraction, proportional
//! liquidity issuance and redemption, single-asset deposits via rebalancing,
//! and multi-hop routing, all over exact 64/128-bit integer arithmetic with
//! fixed-point ratios scaled by 10^18. Custody of tokens, rent funding and
//! account plumbing are left to the surrounding runtime; every operation here
//! either returns a fully computed next state or fails before any mutation.

pub mod error;
pub mod instruction;
pub mod key;
pub mod laws;
pub mod layout;
pub mod math;
pub mod oracle;
pub mod pool;
pub mod processor;
