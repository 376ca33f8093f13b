//! Fatal error conditions of the simulation.
//!
//! Every error aborts the run that produced it: there is no partial-failure
//! mode within a simulation run.

use vstd::prelude::*;

verus! {

/// The reasons a simulation, a parse, or a shard construction can fail.
#[derive(Clone, Copy, Debug, PartialEq, Eq, Structural)]
pub enum SimError {
    /// The configured stake price of one seat is zero, so no seat count can
    /// be derived from stake.
    ZeroStakePerSeat,
    /// The summed stake of the validator population is zero, so stake shares
    /// are undefined.
    ZeroPopulationStake,
    /// A shard index at or above the configured number of shards was
    /// requested.
    InvalidShardIndex { shard_idx: u64, num_shards: u16 },
    /// The seat pool holds fewer seats than the configured topology needs.
    InsufficientSeats { available: u64, required: u64 },
    /// A shard was handed a number of full seats different from the
    /// configured seats per shard.
    WrongShardSeatCount { expected: u64, actual: u64 },
    /// A stake or seat total exceeded the width of its integer type.
    StakeOverflow,
    /// A textual stake value is empty, holds a non-digit, or does not fit an
    /// unsigned 128-bit integer.
    MalformedStake,
}

} // verus!
