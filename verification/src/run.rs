//! The simulation driver: simulates `num_blocks` blocks, re-shuffling and
//! re-partitioning all seats into `num_shards` shards every block, and
//! counts how many shard evaluations find a corrupted shard.

use std::io::Write;

use vstd::prelude::*;

use crate::config::Config;
use crate::error::SimError;
use crate::partial_seat::{
    lemma_permutation_preserves_weight_bounds, lemma_weight_sum_bounded_by, PartialSeat,
    ShuffledPartialSeats,
};
use crate::seat::{Seat, ShuffledSeats};
use crate::shard::{shard_malicious_stake, shard_stake, Shard};
use crate::validator::{
    lemma_ordered_partial_seats_props, lemma_ordered_seats_len, lemma_sum_num_seats_prefix_le,
    new_ordered_partial_seats, new_ordered_seats, ordered_partial_seats, ordered_seats,
    sum_num_seats, Validator,
};

verus! {

/// How many blocks lie between two progress signals.
pub const HEARTBEAT_INTERVAL: u64 = 100000;

/// The terminal report of one simulation run.
#[derive(Clone, Copy, Debug, PartialEq, Eq, Structural)]
pub struct SimulationSummary {
    /// How many blocks were simulated.
    pub num_blocks: u64,
    /// How many shards each block was partitioned into.
    pub num_shards: u16,
    /// How many shard evaluations found a corrupted shard.
    pub num_corrupted_shards: u64,
    /// How many shards were evaluated in total: `num_blocks * num_shards`.
    pub num_simulated_shards: u64,
}

/// Relies on `std::io::Stdout::write_fmt` (through `writeln!`) to print a
/// progress line; a monitoring aid, not a correctness requirement.
#[verifier::external_body]
fn log_heartbeat(block_height: u64, num_simulated_shards: u64, num_corrupted_shards: u64) {
    let _ = writeln!(
        std::io::stdout(),
        "heartbeat(block_height: {block_height}): {num_corrupted_shards} / {num_simulated_shards} shards corrupted",
    );
}

/// Whether shard `shard_idx` of a block whose shuffled pools are `seats` and
/// `partial_seats` is corrupted: the shard's seat slice and partial-seat
/// slots carry strictly more malicious stake than the threshold fraction of
/// their total stake (a shard with zero stake is not corrupted).
pub open spec fn shard_corrupted_at(
    config: Config,
    seats: Seq<Seat>,
    partial_seats: Seq<PartialSeat>,
    shard_idx: int,
) -> bool {
    let shard_seats = config.shard_seats_spec(shard_idx, seats);
    let shard_partial_seats = config.shard_partial_seats_spec(shard_idx, partial_seats);
    let stake = shard_stake(shard_seats, shard_partial_seats, config.stake_per_seat);
    let malicious_stake = shard_malicious_stake(
        shard_seats,
        shard_partial_seats,
        config.stake_per_seat,
    );
    stake > 0 && malicious_stake * config.max_malicious_stake_per_shard.denom
        > config.max_malicious_stake_per_shard.numer * stake
}

/// How many of the first `k` shards of a block with the given shuffled pools
/// are corrupted.
pub open spec fn corrupted_shards_in_block_prefix(
    config: Config,
    seats: Seq<Seat>,
    partial_seats: Seq<PartialSeat>,
    k: int,
) -> int
    decreases k,
{
    if k <= 0 {
        0
    } else {
        corrupted_shards_in_block_prefix(config, seats, partial_seats, k - 1) + if shard_corrupted_at(
            config,
            seats,
            partial_seats,
            k - 1,
        ) {
            1int
        } else {
            0int
        }
    }
}

/// How many of a block's `num_shards` shards are corrupted, given the
/// block's shuffled pools.
pub open spec fn corrupted_shards_in_block(
    config: Config,
    seats: Seq<Seat>,
    partial_seats: Seq<PartialSeat>,
) -> int {
    corrupted_shards_in_block_prefix(config, seats, partial_seats, config.num_shards as int)
}

/// One block's shuffle outcome is admissible when its full-seat pool is a
/// permutation of the ordered pool rebuilt from the validator list, and its
/// partial-seat pool a permutation of the rebuilt partial-seat pool when
/// partial seats are included — and empty when they are not.
pub open spec fn block_outcome_admissible(
    config: Config,
    validators: Seq<Validator>,
    outcome: (Seq<Seat>, Seq<PartialSeat>),
) -> bool {
    &&& outcome.0.to_multiset() == ordered_seats(validators).to_multiset()
    &&& if config.include_partial_seats {
        outcome.1.to_multiset() == ordered_partial_seats(
            validators,
            config.stake_per_seat,
        ).to_multiset()
    } else {
        outcome.1 == Seq::<PartialSeat>::empty()
    }
}

/// The corrupted-shard count of a run: the per-block counts summed over the
/// blocks' shuffle outcomes.
pub open spec fn corrupted_shards_in_run(
    config: Config,
    outcomes: Seq<(Seq<Seat>, Seq<PartialSeat>)>,
) -> int
    decreases outcomes.len(),
{
    if outcomes.len() == 0 {
        0
    } else {
        corrupted_shards_in_run(config, outcomes.drop_last()) + corrupted_shards_in_block(
            config,
            outcomes.last().0,
            outcomes.last().1,
        )
    }
}

/// Whether `count` is the corrupted-shard count of some admissible run: a
/// sequence of `num_blocks` per-block shuffle outcomes, each a permutation
/// of the pools rebuilt fresh from the validator list, whose per-block
/// corrupted-shard counts sum to `count`. Which outcome sequence a run draws
/// depends on the random shuffles alone; its count is always witnessed here.
pub open spec fn witnessed_corrupted_count(
    config: Config,
    validators: Seq<Validator>,
    count: int,
) -> bool {
    exists|outcomes: Seq<(Seq<Seat>, Seq<PartialSeat>)>|
        {
            &&& #[trigger] outcomes.len() == config.num_blocks
            &&& (forall|b: int|
                0 <= b < outcomes.len() ==> block_outcome_admissible(
                    config,
                    validators,
                    #[trigger] outcomes[b],
                ))
            &&& count == corrupted_shards_in_run(config, outcomes)
        }
}

/// The summed seat count of the validator population.
fn total_population_seats(validators: &Vec<Validator>) -> (r: u64)
    requires
        sum_num_seats(validators@) <= u64::MAX,
    ensures
        r == sum_num_seats(validators@),
{
    let mut total: u64 = 0;
    let mut i: usize = 0;
    while i < validators.len()
        invariant
            i <= validators@.len(),
            sum_num_seats(validators@) <= u64::MAX,
            total == sum_num_seats(validators@.take(i as int)),
        decreases validators@.len() - i,
    {
        proof {
            assert(validators@.take(i as int + 1).drop_last() =~= validators@.take(i as int));
            assert(validators@.take(i as int + 1).last() == validators@[i as int]);
            lemma_ordered_seats_len(validators@.take(i as int));
            lemma_ordered_seats_len(validators@.take(i as int + 1));
            lemma_sum_num_seats_prefix_le(validators@, i as int + 1);
        }
        total = total + validators[i].num_seats;
        i += 1;
    }
    proof {
        assert(validators@.take(validators@.len() as int) =~= validators@);
    }
    total
}

/// Runs the simulation: for each of `num_blocks` blocks, rebuilds the seat
/// pool fresh from the validator list, shuffles it, optionally rebuilds and
/// shuffles the partial-seat pool, slices the pools into `num_shards`
/// shards, and counts every corrupted shard found.
///
/// Fails fast, before any block is simulated, when the seat price is zero or
/// when the population holds fewer seats than the configured topology needs
/// (no block could ever succeed).
///
/// The width preconditions hold for any configuration whose stake-denominated
/// values are wide enough for the population, as the configuration contract
/// demands.
pub fn simulate(config: &Config, validators: &Vec<Validator>) -> (r: Result<
    SimulationSummary,
    SimError,
>)
    requires
        config.max_malicious_stake_per_shard.wf(),
        config.num_shards * config.seats_per_shard <= u64::MAX,
        config.num_shards * config.seats_per_shard <= usize::MAX,
        config.num_blocks * config.num_shards <= u64::MAX,
        sum_num_seats(validators@) <= usize::MAX,
        validators@.len() + config.num_shards <= usize::MAX,
        config.stake_per_seat * (config.seats_per_shard + validators@.len()) <= u128::MAX,
    ensures
        r is Ok <==> (config.stake_per_seat > 0 && sum_num_seats(validators@) >= config.num_shards
            * config.seats_per_shard),
        config.stake_per_seat == 0 ==> r == Err::<SimulationSummary, SimError>(
            SimError::ZeroStakePerSeat,
        ),
        config.stake_per_seat > 0 && sum_num_seats(validators@) < config.num_shards
            * config.seats_per_shard ==> r == Err::<SimulationSummary, SimError>(
            SimError::InsufficientSeats {
                available: sum_num_seats(validators@) as u64,
                required: (config.num_shards * config.seats_per_shard) as u64,
            },
        ),
        r matches Ok(summary) ==> {
            &&& summary.num_blocks == config.num_blocks
            &&& summary.num_shards == config.num_shards
            &&& summary.num_simulated_shards == config.num_blocks * config.num_shards
            &&& summary.num_corrupted_shards <= summary.num_simulated_shards
            &&& witnessed_corrupted_count(
                *config,
                validators@,
                summary.num_corrupted_shards as int,
            )
        },
{
    if config.stake_per_seat == 0 {
        return Err(SimError::ZeroStakePerSeat);
    }
    proof {
        lemma_ordered_seats_len(validators@);
    }
    let available = total_population_seats(validators);
    let required = config.total_seats();
    if available < required {
        return Err(
            SimError::InsufficientSeats { available, required },
        );
    }
    let mut num_corrupted_shards: u64 = 0;
    let mut block_height: u64 = 0;
    let ghost mut outcomes: Seq<(Seq<Seat>, Seq<PartialSeat>)> = Seq::empty();
    while block_height < config.num_blocks
        invariant
            config.max_malicious_stake_per_shard.wf(),
            config.num_shards * config.seats_per_shard <= u64::MAX,
            config.num_shards * config.seats_per_shard <= usize::MAX,
            config.num_blocks * config.num_shards <= u64::MAX,
            sum_num_seats(validators@) <= usize::MAX,
            validators@.len() + config.num_shards <= usize::MAX,
            config.stake_per_seat * (config.seats_per_shard + validators@.len()) <= u128::MAX,
            config.stake_per_seat > 0,
            sum_num_seats(validators@) >= config.num_shards * config.seats_per_shard,
            block_height <= config.num_blocks,
            num_corrupted_shards <= block_height * config.num_shards,
            outcomes.len() == block_height,
            forall|b: int|
                0 <= b < outcomes.len() ==> block_outcome_admissible(
                    *config,
                    validators@,
                    #[trigger] outcomes[b],
                ),
            num_corrupted_shards == corrupted_shards_in_run(*config, outcomes),
        decreases config.num_blocks - block_height,
    {
        let seat_pool = new_ordered_seats(validators);
        let shuffled_seats = ShuffledSeats::new(seat_pool);
        let partial_pool: Vec<PartialSeat> = if config.include_partial_seats {
            new_ordered_partial_seats(validators, config.stake_per_seat)
        } else {
            Vec::new()
        };
        proof {
            if config.include_partial_seats {
                lemma_ordered_partial_seats_props(validators@, config.stake_per_seat);
            }
        }
        let ghost pool_before_shuffle = partial_pool@;
        let shuffled_partial_seats = ShuffledPartialSeats::new(partial_pool);
        proof {
            lemma_permutation_preserves_weight_bounds(
                pool_before_shuffle,
                shuffled_partial_seats.partial_seats@,
                config.stake_per_seat,
            );
        }
        let num_shards = config.num_shards as usize;
        let mut shard_idx: usize = 0;
        while shard_idx < num_shards
            invariant
                config.max_malicious_stake_per_shard.wf(),
                config.num_shards * config.seats_per_shard <= u64::MAX,
                config.num_shards * config.seats_per_shard <= usize::MAX,
                config.num_blocks * config.num_shards <= u64::MAX,
                validators@.len() + config.num_shards <= usize::MAX,
                config.stake_per_seat * (config.seats_per_shard + validators@.len())
                    <= u128::MAX,
                config.stake_per_seat > 0,
                num_shards == config.num_shards,
                shard_idx <= num_shards,
                block_height < config.num_blocks,
                shuffled_seats.seats@.len() == sum_num_seats(validators@),
                sum_num_seats(validators@) >= config.num_shards * config.seats_per_shard,
                shuffled_partial_seats.partial_seats@.len() <= validators@.len(),
                forall|i: int|
                    0 <= i < shuffled_partial_seats.partial_seats@.len() ==> 0
                        < #[trigger] shuffled_partial_seats.partial_seats@[i].weight
                        < config.stake_per_seat,
                num_corrupted_shards <= block_height * config.num_shards + shard_idx,
                num_corrupted_shards == corrupted_shards_in_run(*config, outcomes)
                    + corrupted_shards_in_block_prefix(
                    *config,
                    shuffled_seats.seats@,
                    shuffled_partial_seats.partial_seats@,
                    shard_idx as int,
                ),
            decreases num_shards - shard_idx,
        {
            let shard_seats = match config.collect_seats_for_shard(
                shard_idx,
                shuffled_seats.get_seats(),
            ) {
                Ok(s) => s,
                Err(e) => {
                    // Unreachable: the shard index is in range and the upfront
                    // seat check guarantees a large enough pool.
                    proof {
                        assert(false);
                    }
                    return Err(e);
                },
            };
            let shard_partial_seats = match config.collect_partial_seats_for_shard(
                shard_idx,
                shuffled_partial_seats.get_partial_seats(),
            ) {
                Ok(s) => s,
                Err(e) => {
                    // Unreachable: the shard index is in range.
                    proof {
                        assert(false);
                    }
                    return Err(e);
                },
            };
            proof {
                let si = shard_idx as int;
                let sps = config.stake_per_seat as int;
                let spsh = config.seats_per_shard as int;
                let nval = validators@.len() as int;
                assert(0 <= si * spsh && (si + 1) * spsh == si * spsh + spsh && (si + 1) * spsh
                    <= config.num_shards * spsh) by (nonlinear_arith)
                    requires
                        0 <= si < config.num_shards,
                        spsh >= 0,
                ;
                assert(shard_seats@.len() == config.seats_per_shard);
                let pool = shuffled_partial_seats.partial_seats@;
                config.lemma_shard_partial_seats_in_pool(si, pool);
                let sub = config.shard_partial_seats_spec(si, pool);
                assert forall|j: int| 0 <= j < sub.len() implies 0 < #[trigger] sub[j].weight
                    < config.stake_per_seat by {
                    assert(sub[j] == pool[si + j * config.num_shards]);
                }
                lemma_weight_sum_bounded_by(sub, sps);
                vstd::arithmetic::mul::lemma_mul_inequality(sub.len() as int, nval, sps);
                assert(spsh * sps + nval * sps == sps * (spsh + nval)) by (nonlinear_arith);
            }
            let shard = match Shard::new(config, shard_seats, shard_partial_seats) {
                Ok(s) => s,
                Err(e) => {
                    // Unreachable: the collected slice holds exactly the
                    // configured seats per shard.
                    proof {
                        assert(false);
                    }
                    return Err(e);
                },
            };
            let corrupted = shard.is_corrupted(config);
            proof {
                let si = shard_idx as int;
                let seats_view = shuffled_seats.seats@;
                let partial_seats_view = shuffled_partial_seats.partial_seats@;
                assert(corrupted == shard_corrupted_at(*config, seats_view, partial_seats_view, si));
                assert(corrupted_shards_in_block_prefix(
                    *config,
                    seats_view,
                    partial_seats_view,
                    si + 1,
                ) == corrupted_shards_in_block_prefix(*config, seats_view, partial_seats_view, si)
                    + if corrupted {
                    1int
                } else {
                    0int
                });
            }
            if corrupted {
                proof {
                    assert((block_height + 1) * config.num_shards == block_height
                        * config.num_shards + config.num_shards) by (nonlinear_arith);
                    vstd::arithmetic::mul::lemma_mul_inequality(
                        block_height as int + 1,
                        config.num_blocks as int,
                        config.num_shards as int,
                    );
                }
                num_corrupted_shards = num_corrupted_shards + 1;
            }
            shard_idx += 1;
        }
        proof {
            assert((block_height + 1) * config.num_shards == block_height * config.num_shards
                + config.num_shards) by (nonlinear_arith);
            vstd::arithmetic::mul::lemma_mul_inequality(
                block_height as int + 1,
                config.num_blocks as int,
                config.num_shards as int,
            );
            let outcome = (shuffled_seats.seats@, shuffled_partial_seats.partial_seats@);
            if !config.include_partial_seats {
                assert(outcome.1.len() == 0);
                assert(outcome.1 =~= Seq::<PartialSeat>::empty());
            }
            assert(block_outcome_admissible(*config, validators@, outcome));
            let prev_outcomes = outcomes;
            outcomes = outcomes.push(outcome);
            assert(outcomes.drop_last() =~= prev_outcomes);
            assert(outcomes.last() == outcome);
            assert(corrupted_shards_in_run(*config, outcomes) == corrupted_shards_in_run(
                *config,
                prev_outcomes,
            ) + corrupted_shards_in_block(*config, outcome.0, outcome.1));
        }
        if block_height % HEARTBEAT_INTERVAL == 0 {
            log_heartbeat(
                block_height,
                block_height * (config.num_shards as u64),
                num_corrupted_shards,
            );
        }
        block_height += 1;
    }
    proof {
        vstd::arithmetic::mul::lemma_mul_inequality(
            config.num_blocks as int,
            config.num_blocks as int,
            config.num_shards as int,
        );
        assert(outcomes.len() == config.num_blocks);
        assert(witnessed_corrupted_count(*config, validators@, num_corrupted_shards as int));
    }
    Ok(
        SimulationSummary {
            num_blocks: config.num_blocks,
            num_shards: config.num_shards,
            num_corrupted_shards,
            num_simulated_shards: config.num_blocks * (config.num_shards as u64),
        },
    )
}


} // verus!
