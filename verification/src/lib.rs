//! Ledgers for fungible tokens and escrowed native currency, with a factory
//! that registers token ledgers by name.
//!
//! Every ledger is a state machine over a [`kvstore::KVStore`]; the rules of
//! each operation are also available as functions on plain values, for hosts
//! that keep the tables themselves.

pub mod cspr_holder;
pub mod factory;
pub mod identity;
pub mod kvstore;
pub mod sums;
pub mod uint;
