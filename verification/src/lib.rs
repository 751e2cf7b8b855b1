//! Fractional ownership of a real-world asset as tradable share units, with
//! pull-based distribution of yield income to current holders.
//!
//! The core is a fixed-point yield accumulator: each income deposit raises a
//! single global per-share counter, and any holder can later claim their
//! proportional share in constant time from the gap between the counter and
//! the snapshot they last observed. The balance ledger that actually moves
//! share and payment units is an external collaborator; the functions here
//! take balances as plain values and report the amounts to transfer.

pub mod errors;
pub mod holder;
pub mod property;
pub mod purchase;
pub mod registry;
pub mod distribution;
