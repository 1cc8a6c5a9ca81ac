//! The transaction-processing core of a layer-2 rollup simulator.
//!
//! Transactions enter a mempool, are admitted against the account ledger,
//! executed in order by a sequencer and assembled into hash-chained blocks.
//! Every function carries a contract over a mathematical view of the state
//! it touches.

pub mod block;
pub mod clock;
pub mod digest;
pub mod finality;
pub mod ledger;
pub mod mempool;
pub mod prover;
pub mod sequencer;
pub mod text;
pub mod transaction;
