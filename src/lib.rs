//! Per-user investment bookkeeping with reward points, over a keyed store of
//! fixed-layout records.

pub mod account;
pub mod address;
pub mod instructions;
pub mod ledger;
pub mod laws;
