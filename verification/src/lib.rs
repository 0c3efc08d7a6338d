//! Time-weighted average market maker (TWAMM) settlement engine.
//!
//! Deposits stream into time-bucketed liquidity pools that execute linearly
//! over a fixed horizon.  The engine continuously matches opposing streams at
//! a reference exchange rate, absorbing a bounded amount of externally
//! supplied liquidity when one side remains unmatched, and rotates pools
//! through their admission, locking and expiry lifecycle.

pub mod decay;
pub mod engine;
pub mod error;
pub mod ledger;
pub mod math;
pub mod oracle;
pub mod order;
pub mod pool;
pub mod token_pair;
