//! A revenue-distribution ledger.
//!
//! Deposited revenue accumulates in a shared pool; a fixed number of
//! equally-weighted "passes" may each withdraw their pro-rata share over
//! time.  The per-pass entitlement is re-derived from the live collected
//! total on every claim, so a pass's payout grows automatically as more
//! revenue arrives, and repeated claims pay only the delta since that
//! pass's last claim.  Administrative operations can pause the pool and
//! drain its balance in an emergency without touching the accounting
//! counters.

pub mod state;
pub mod lemmas;
pub mod ops;
pub mod laws;
