//! Partial-seat statistics of a validator population, for reporting.

use vstd::prelude::*;

use crate::partial_seat::{
    lemma_weight_sum_bounded_by, lemma_weight_sum_bounds, lemma_weight_sum_prefix_le,
    malicious_partial_count, malicious_weight_sum, weight_sum, PartialSeat,
};
use crate::validator::{
    lemma_ordered_partial_seats_props, new_ordered_partial_seats, ordered_partial_seats,
    seats_for_stake, Validator,
};

verus! {

/// Aggregate statistics over the partial seats of a population: how many
/// there are, how much stake they carry, and how many full seats that stake
/// would be worth.
#[derive(Clone, Copy, Debug, PartialEq, Eq, Structural)]
pub struct PartialSeatStats {
    /// How many validators hold a partial seat.
    pub num_partial_seats: u64,
    /// How many of the partial seats belong to malicious validators.
    pub num_malicious_partial_seats: u64,
    /// The summed weight of all partial seats.
    pub sum_weights: u128,
    /// The summed weight of the malicious partial seats.
    pub sum_malicious_weights: u128,
    /// How many full seats the summed weight would pay for.
    pub equivalent_num_seats: u64,
    /// How many full seats the summed malicious weight would pay for.
    pub equivalent_num_malicious_seats: u64,
}

/// Sums the weights of the given partial seats.
pub fn sum_partial_seat_weights(partial_seats: &Vec<PartialSeat>) -> (r: u128)
    requires
        weight_sum(partial_seats@) <= u128::MAX,
    ensures
        r == weight_sum(partial_seats@),
{
    let mut sum: u128 = 0;
    let mut i: usize = 0;
    while i < partial_seats.len()
        invariant
            i <= partial_seats@.len(),
            weight_sum(partial_seats@) <= u128::MAX,
            sum == weight_sum(partial_seats@.take(i as int)),
        decreases partial_seats@.len() - i,
    {
        proof {
            assert(partial_seats@.take(i as int + 1).drop_last() =~= partial_seats@.take(
                i as int,
            ));
            assert(partial_seats@.take(i as int + 1).last() == partial_seats@[i as int]);
            lemma_weight_sum_bounds(partial_seats@.take(i as int));
            lemma_weight_sum_prefix_le(partial_seats@, i as int + 1);
        }
        sum = sum + partial_seats[i].get_weight();
        i += 1;
    }
    proof {
        assert(partial_seats@.take(partial_seats@.len() as int) =~= partial_seats@);
    }
    sum
}

/// Computes the partial-seat statistics of the population at the given seat
/// price: the counts and summed weights of all (and of the malicious)
/// partial seats, and the number of full seats each sum would pay for.
///
/// The width precondition holds for any seat price wide enough for the
/// population, as the configuration contract demands.
pub fn partial_seat_stats(validators: &Vec<Validator>, stake_per_seat: u128) -> (r:
    PartialSeatStats)
    requires
        stake_per_seat > 0,
        validators@.len() * stake_per_seat <= u128::MAX,
    ensures
        ({
            let pool = ordered_partial_seats(validators@, stake_per_seat);
            &&& r.num_partial_seats == pool.len()
            &&& r.num_malicious_partial_seats == malicious_partial_count(pool)
            &&& r.sum_weights == weight_sum(pool)
            &&& r.sum_malicious_weights == malicious_weight_sum(pool)
            &&& r.equivalent_num_seats == seats_for_stake(r.sum_weights, stake_per_seat)
            &&& r.equivalent_num_malicious_seats == seats_for_stake(
                r.sum_malicious_weights,
                stake_per_seat,
            )
        }),
{
    let num_validators = validators.len();
    let partial_seats = new_ordered_partial_seats(validators, stake_per_seat);
    proof {
        assert(num_validators <= usize::MAX && num_validators <= u64::MAX);
        lemma_ordered_partial_seats_props(validators@, stake_per_seat);
        lemma_weight_sum_bounded_by(partial_seats@, stake_per_seat as int);
        vstd::arithmetic::mul::lemma_mul_inequality(
            partial_seats@.len() as int,
            validators@.len() as int,
            stake_per_seat as int,
        );
        lemma_weight_sum_bounds(partial_seats@);
    }
    let num_partial_seats = partial_seats.len() as u64;
    let sum_weights = sum_partial_seat_weights(&partial_seats);
    let mut num_malicious: u64 = 0;
    let mut sum_malicious_weights: u128 = 0;
    let mut i: usize = 0;
    while i < partial_seats.len()
        invariant
            i <= partial_seats@.len(),
            weight_sum(partial_seats@) <= u128::MAX,
            num_malicious == malicious_partial_count(partial_seats@.take(i as int)),
            sum_malicious_weights == malicious_weight_sum(partial_seats@.take(i as int)),
        decreases partial_seats@.len() - i,
    {
        proof {
            assert(partial_seats@.take(i as int + 1).drop_last() =~= partial_seats@.take(
                i as int,
            ));
            assert(partial_seats@.take(i as int + 1).last() == partial_seats@[i as int]);
            lemma_weight_sum_bounds(partial_seats@.take(i as int));
            lemma_weight_sum_bounds(partial_seats@.take(i as int + 1));
            lemma_weight_sum_prefix_le(partial_seats@, i as int + 1);
        }
        if partial_seats[i].get_is_malicious() {
            num_malicious = num_malicious + 1;
            sum_malicious_weights = sum_malicious_weights + partial_seats[i].get_weight();
        }
        i += 1;
    }
    proof {
        assert(partial_seats@.take(partial_seats@.len() as int) =~= partial_seats@);
        vstd::arithmetic::div_mod::lemma_div_is_ordered(
            sum_malicious_weights as int,
            sum_weights as int,
            stake_per_seat as int,
        );
        vstd::arithmetic::div_mod::lemma_div_is_ordered(
            sum_weights as int,
            validators@.len() * stake_per_seat,
            stake_per_seat as int,
        );
        vstd::arithmetic::div_mod::lemma_div_multiples_vanish(
            validators@.len() as int,
            stake_per_seat as int,
        );
        vstd::arithmetic::div_mod::lemma_div_pos_is_pos(
            sum_malicious_weights as int,
            stake_per_seat as int,
        );
        assert(validators@.len() * stake_per_seat == stake_per_seat * validators@.len())
            by (nonlinear_arith);
    }
    let equivalent_num_seats = crate::config::seats_per_stake(sum_weights, stake_per_seat);
    let equivalent_num_malicious_seats = crate::config::seats_per_stake(
        sum_malicious_weights,
        stake_per_seat,
    );
    PartialSeatStats {
        num_partial_seats,
        num_malicious_partial_seats: num_malicious,
        sum_weights,
        sum_malicious_weights,
        equivalent_num_seats,
        equivalent_num_malicious_seats,
    }
}

} // verus!
