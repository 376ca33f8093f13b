//! Simulation of randomized validator-to-shard assignment for a sharded
//! blockchain.
//!
//! Validator stake is converted into discrete seats (and optional partial
//! seats), the seats are shuffled and partitioned into shards once per
//! simulated block, and each shard is checked against a malicious-stake
//! threshold. The simulation estimates, over many blocks, how often a shard
//! ends up corrupted.

pub mod config;
pub mod error;
pub mod mocks;
pub mod partial_seat;
pub mod protocol;
pub mod rational;
pub mod run;
pub mod seat;
pub mod shard;
mod shuffle;
pub mod stats;
pub mod validator;
