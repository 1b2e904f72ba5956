//! Transaction-execution core of a blockchain virtual machine mock.
//!
//! The crate models one transaction's effects on account state: an account
//! ledger of native-currency balances and multi-asset token holdings, a
//! layered copy-on-write transaction cache with nested scopes, a builtin
//! function registry with deterministic handlers, a structured result and
//! log model, and an execution driver that commits or discards the produced
//! diff atomically.

pub mod accounts;
pub mod builtin;
pub mod bytes;
pub mod cache;
pub mod call;
pub mod codec;
pub mod driver;
pub mod ledger;
pub mod payment;
pub mod result;
pub mod token;
pub mod transfer;
