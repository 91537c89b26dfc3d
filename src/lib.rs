//! Pool dispatch layer of a token exchange: one tagged pool type over
//! several market-maker curves, a shares ledger, fee splitting, swap volume
//! accounting and a two-step exchange-rate refresh.
use vstd::prelude::*;

pub mod curve;
pub mod error;
pub mod fees;
pub mod laws;
pub mod ledger;
pub mod oracle;
pub mod pool;
pub mod record;
pub mod reserves;
pub mod vecops;

verus! {

} // verus!
