//! One cycle of bringing an oracle's figures to a ledger: fetch a line of text
//! within a deadline, read it as a record, have it signed by a local identity,
//! and hand the signed record to the transaction pool.
//!
//! The library holds the decisions of that cycle. The network, the clock, the
//! keys and the pool stay with the caller, who performs what the cycle asks for
//! and reports what happened.

pub mod cycle;
pub mod decimal;
pub mod error;
pub mod fetch;
pub mod order;
pub mod payload;
pub mod record;
