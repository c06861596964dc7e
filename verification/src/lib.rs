//! Compact per-transaction records of a span batch: their byte codec and the
//! reconstruction of fully signed fee-market transactions from them.

pub mod access_list;
pub mod driver;
pub mod eip1559;
pub mod primitives;
pub mod rlp;
pub mod transaction;
