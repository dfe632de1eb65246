//! A non-custodial two-party swap: a seller locks one asset in a vault
//! controlled by a key-less derived authority, and a buyer releases it by
//! paying the asset the seller asked for, or the seller reclaims it.

pub mod key;
pub mod authority;
pub mod holding;
pub mod escrow;
pub mod laws;
pub mod voting;
