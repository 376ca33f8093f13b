//! The shard evaluator: per-shard stake aggregation and corruption
//! detection.

use vstd::prelude::*;

use crate::config::Config;
use crate::error::SimError;
use crate::partial_seat::{
    lemma_weight_sum_bounds, lemma_weight_sum_prefix_le, malicious_weight_sum, weight_sum,
    PartialSeat,
};
use crate::rational::{fraction_gt, ratio_gt, Fraction};
use crate::seat::{lemma_malicious_seat_count_bounds, malicious_seat_count, Seat};

verus! {

/// One shard of one simulated block: its assigned full seats and partial
/// seats, with their aggregated stake and malicious stake.
pub struct Shard {
    pub seats: Vec<Seat>,
    pub partial_seats: Vec<PartialSeat>,
    pub stake: u128,
    pub malicious_stake: u128,
}

/// The total stake of a shard: one seat price per full seat plus the partial
/// seat weights.
pub open spec fn shard_stake(
    seats: Seq<Seat>,
    partial_seats: Seq<PartialSeat>,
    stake_per_seat: u128,
) -> int {
    seats.len() * stake_per_seat + weight_sum(partial_seats)
}

/// The malicious stake of a shard: the same sum restricted to seats and
/// partial seats whose backing validator is malicious.
pub open spec fn shard_malicious_stake(
    seats: Seq<Seat>,
    partial_seats: Seq<PartialSeat>,
    stake_per_seat: u128,
) -> int {
    malicious_seat_count(seats) * stake_per_seat + malicious_weight_sum(partial_seats)
}

/// Whether a shard with the given malicious stake and total stake exceeds
/// the threshold fraction: strictly more malicious stake than
/// `threshold * stake`. A shard with zero total stake is never corrupted.
pub open spec fn corrupted_spec(malicious_stake: u128, stake: u128, threshold: Fraction) -> bool {
    stake > 0 && fraction_gt(malicious_stake, stake, threshold.numer, threshold.denom)
}

impl Shard {
    /// Builds a shard from its assigned seats, accumulating one seat price of
    /// stake per full seat and the weight of every partial seat, with the
    /// malicious subtotal restricted to malicious contributors.
    ///
    /// Fails if the number of full seats differs from the configured seats
    /// per shard. Only _full_ seats count towards that requirement, since it
    /// is not clear how a _partial_ seat should be weighted for that concern;
    /// partial seats have no minimum or maximum count.
    pub fn new(config: &Config, seats: Vec<Seat>, partial_seats: Vec<PartialSeat>) -> (r: Result<
        Shard,
        SimError,
    >)
        requires
            seats@.len() == config.seats_per_shard ==> shard_stake(
                seats@,
                partial_seats@,
                config.stake_per_seat,
            ) <= u128::MAX,
        ensures
            r is Ok <==> seats@.len() == config.seats_per_shard,
            seats@.len() != config.seats_per_shard ==> r == Err::<Shard, SimError>(
                SimError::WrongShardSeatCount {
                    expected: config.seats_per_shard,
                    actual: seats@.len() as u64,
                },
            ),
            r matches Ok(shard) ==> {
                &&& shard.seats@ == seats@
                &&& shard.partial_seats@ == partial_seats@
                &&& shard.stake == shard_stake(seats@, partial_seats@, config.stake_per_seat)
                &&& shard.malicious_stake == shard_malicious_stake(
                    seats@,
                    partial_seats@,
                    config.stake_per_seat,
                )
            },
    {
        let seats_len = seats.len();
        if seats_len as u64 != config.seats_per_shard {
            return Err(
                SimError::WrongShardSeatCount {
                    expected: config.seats_per_shard,
                    actual: seats_len as u64,
                },
            );
        }
        proof {
            lemma_weight_sum_bounds(partial_seats@);
            lemma_malicious_seat_count_bounds(seats@);
            assert(malicious_seat_count(seats@) * config.stake_per_seat <= seats@.len()
                * config.stake_per_seat) by (nonlinear_arith)
                requires
                    0 <= malicious_seat_count(seats@) <= seats@.len(),
                    config.stake_per_seat >= 0,
            ;
        }
        let mut stake: u128 = 0;
        let mut malicious_stake: u128 = 0;
        let mut k: usize = 0;
        while k < seats_len
            invariant
                k <= seats_len,
                seats_len == seats@.len(),
                stake == seats@.take(k as int).len() * config.stake_per_seat,
                malicious_stake == malicious_seat_count(seats@.take(k as int))
                    * config.stake_per_seat,
                0 <= malicious_stake <= stake,
                seats@.len() * config.stake_per_seat <= u128::MAX,
            decreases seats_len - k,
        {
            proof {
                assert(seats@.take(k as int + 1).drop_last() =~= seats@.take(k as int));
                assert(seats@.take(k as int + 1).last() == seats@[k as int]);
                lemma_malicious_seat_count_bounds(seats@.take(k as int));
                lemma_malicious_seat_count_bounds(seats@.take(k as int + 1));
                assert((k + 1) * config.stake_per_seat == k * config.stake_per_seat
                    + config.stake_per_seat && (k + 1) * config.stake_per_seat <= seats@.len()
                    * config.stake_per_seat && malicious_seat_count(seats@.take(k as int + 1))
                    * config.stake_per_seat <= (k + 1) * config.stake_per_seat
                    && malicious_seat_count(seats@.take(k as int)) * config.stake_per_seat
                    + config.stake_per_seat == (malicious_seat_count(seats@.take(k as int)) + 1)
                    * config.stake_per_seat) by (nonlinear_arith)
                    requires
                        0 <= k + 1 <= seats@.len(),
                        config.stake_per_seat >= 0,
                        0 <= malicious_seat_count(seats@.take(k as int + 1)) <= k + 1,
                ;
            }
            stake = stake + config.stake_per_seat;
            if seats[k].get_is_malicious() {
                malicious_stake = malicious_stake + config.stake_per_seat;
            }
            k += 1;
        }
        proof {
            assert(seats@.take(seats_len as int) =~= seats@);
        }
        let partial_len = partial_seats.len();
        let mut k: usize = 0;
        while k < partial_len
            invariant
                k <= partial_len,
                partial_len == partial_seats@.len(),
                seats_len == seats@.len(),
                stake == seats@.len() * config.stake_per_seat + weight_sum(
                    partial_seats@.take(k as int),
                ),
                malicious_stake == malicious_seat_count(seats@) * config.stake_per_seat
                    + malicious_weight_sum(partial_seats@.take(k as int)),
                0 <= malicious_stake <= stake,
                shard_stake(seats@, partial_seats@, config.stake_per_seat) <= u128::MAX,
            decreases partial_len - k,
        {
            proof {
                assert(partial_seats@.take(k as int + 1).drop_last() =~= partial_seats@.take(
                    k as int,
                ));
                assert(partial_seats@.take(k as int + 1).last() == partial_seats@[k as int]);
                lemma_weight_sum_bounds(partial_seats@.take(k as int));
                lemma_weight_sum_bounds(partial_seats@.take(k as int + 1));
                lemma_weight_sum_prefix_le(partial_seats@, k as int + 1);
            }
            let weight = partial_seats[k].get_weight();
            stake = stake + weight;
            if partial_seats[k].get_is_malicious() {
                malicious_stake = malicious_stake + weight;
            }
            k += 1;
        }
        proof {
            assert(partial_seats@.take(partial_len as int) =~= partial_seats@);
        }
        Ok(Shard { seats, partial_seats, stake, malicious_stake })
    }

    /// Whether the shard is corrupted: its malicious stake, as a fraction of
    /// its total stake, strictly exceeds the configured threshold. The
    /// comparison is between exact rationals. A shard with zero total stake
    /// has no malicious-stake fraction and is treated as not corrupted.
    pub fn is_corrupted(&self, config: &Config) -> (r: bool)
        requires
            config.max_malicious_stake_per_shard.wf(),
        ensures
            r == corrupted_spec(
                self.malicious_stake,
                self.stake,
                config.max_malicious_stake_per_shard,
            ),
    {
        if self.stake == 0 {
            false
        } else {
            ratio_gt(
                self.malicious_stake,
                self.stake,
                config.max_malicious_stake_per_shard.numer,
                config.max_malicious_stake_per_shard.denom,
            )
        }
    }
}

/// The corruption comparison is strict: a shard whose malicious-stake
/// fraction equals the threshold exactly is not corrupted, while any excess
/// above the threshold, however small, makes it corrupted.
pub proof fn lemma_threshold_is_strict(malicious_stake: u128, stake: u128, threshold: Fraction)
    requires
        threshold.wf(),
        stake > 0,
    ensures
        malicious_stake * threshold.denom == threshold.numer * stake ==> !corrupted_spec(
            malicious_stake,
            stake,
            threshold,
        ),
        malicious_stake * threshold.denom > threshold.numer * stake ==> corrupted_spec(
            malicious_stake,
            stake,
            threshold,
        ),
{
}

} // verus!
