//! A two-sided energy trading market settled on a ledger.
//!
//! Participants either push (sell) or request (buy) energy while the market
//! is open; at closure, funds are distributed proportionally based on the
//! imbalance between total pushed and total requested volume.

pub mod codec;
pub mod errors;
pub mod ledger;
pub mod lifecycle;
pub mod market;
pub mod numparse;
pub mod settlement;
pub mod timeparse;
pub mod trade;
