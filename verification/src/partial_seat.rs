//! Partial seats: leftover stake below one seat's price.

use vstd::prelude::*;

use crate::shuffle::shuffle_in_place;
use crate::validator::Validator;

verus! {

/// Represents a partial seat filled by a particular validator: the remainder
/// of the validator's stake after all full seats are paid for. The validator
/// is identified by its position in the validator list of the run.
///
/// A materialized partial seat satisfies `0 < weight < stake_per_seat`; a
/// remainder of zero is never materialized.
#[derive(Clone, Copy, Debug, PartialEq, Eq, Structural)]
pub struct PartialSeat {
    /// Position of the backing validator in the validator list.
    pub validator_idx: usize,
    /// Whether the backing validator is malicious.
    pub is_malicious: bool,
    /// The stake attributed to the partial seat.
    ///
    /// For example, let a validator have a stake of 12 and let
    /// `stake_per_seat = 5`. Then it holds 2 full seats and a partial seat
    /// with `weight = 2`.
    pub weight: u128,
}

impl PartialSeat {
    /// The partial seat of `validator` carrying `weight` stake.
    pub fn new(validator: &Validator, weight: u128) -> (r: PartialSeat)
        ensures
            r.validator_idx == validator.index,
            r.is_malicious == validator.is_malicious,
            r.weight == weight,
    {
        PartialSeat {
            validator_idx: validator.index,
            is_malicious: validator.is_malicious,
            weight,
        }
    }

    pub fn get_is_malicious(&self) -> (r: bool)
        ensures
            r == self.is_malicious,
    {
        self.is_malicious
    }

    pub fn get_weight(&self) -> (r: u128)
        ensures
            r == self.weight,
    {
        self.weight
    }
}

/// The summed weight of the partial seats.
pub open spec fn weight_sum(partial_seats: Seq<PartialSeat>) -> int
    decreases partial_seats.len(),
{
    if partial_seats.len() == 0 {
        0
    } else {
        weight_sum(partial_seats.drop_last()) + partial_seats.last().weight
    }
}

/// The summed weight of the malicious partial seats.
pub open spec fn malicious_weight_sum(partial_seats: Seq<PartialSeat>) -> int
    decreases partial_seats.len(),
{
    if partial_seats.len() == 0 {
        0
    } else {
        malicious_weight_sum(partial_seats.drop_last())
            + if partial_seats.last().is_malicious {
            partial_seats.last().weight as int
        } else {
            0int
        }
    }
}

/// How many of the partial seats are backed by malicious validators.
pub open spec fn malicious_partial_count(partial_seats: Seq<PartialSeat>) -> int
    decreases partial_seats.len(),
{
    if partial_seats.len() == 0 {
        0
    } else {
        malicious_partial_count(partial_seats.drop_last())
            + if partial_seats.last().is_malicious {
            1int
        } else {
            0int
        }
    }
}

/// The malicious weight sum lies between 0 and the full weight sum, and the
/// malicious count between 0 and the number of partial seats.
pub proof fn lemma_weight_sum_bounds(partial_seats: Seq<PartialSeat>)
    ensures
        0 <= malicious_weight_sum(partial_seats) <= weight_sum(partial_seats),
        0 <= malicious_partial_count(partial_seats) <= partial_seats.len(),
    decreases partial_seats.len(),
{
    if partial_seats.len() > 0 {
        lemma_weight_sum_bounds(partial_seats.drop_last());
    }
}

/// If every partial seat weighs less than `bound`, the weight sum is at most
/// the number of partial seats times `bound`.
pub proof fn lemma_weight_sum_bounded_by(partial_seats: Seq<PartialSeat>, bound: int)
    requires
        forall|i: int| 0 <= i < partial_seats.len() ==> partial_seats[i].weight < bound,
    ensures
        weight_sum(partial_seats) <= partial_seats.len() * bound,
    decreases partial_seats.len(),
{
    if partial_seats.len() > 0 {
        lemma_weight_sum_bounded_by(partial_seats.drop_last(), bound);
        assert((partial_seats.len() - 1) * bound + bound == partial_seats.len() * bound)
            by (nonlinear_arith);
    }
}

/// Every prefix weight sum is bounded by the weight sum over all partial
/// seats.
pub proof fn lemma_weight_sum_prefix_le(partial_seats: Seq<PartialSeat>, i: int)
    requires
        0 <= i <= partial_seats.len(),
    ensures
        weight_sum(partial_seats.take(i)) <= weight_sum(partial_seats),
    decreases partial_seats.len() - i,
{
    if i == partial_seats.len() {
        assert(partial_seats.take(i) =~= partial_seats);
    } else {
        assert(partial_seats.take(i + 1).drop_last() =~= partial_seats.take(i));
        lemma_weight_sum_prefix_le(partial_seats, i + 1);
    }
}

/// A permutation of a pool whose weights all lie strictly between zero and
/// `bound` again has all weights strictly between zero and `bound`.
pub proof fn lemma_permutation_preserves_weight_bounds(
    a: Seq<PartialSeat>,
    b: Seq<PartialSeat>,
    bound: u128,
)
    requires
        a.to_multiset() == b.to_multiset(),
        forall|i: int| 0 <= i < a.len() ==> 0 < #[trigger] a[i].weight < bound,
    ensures
        forall|i: int| 0 <= i < b.len() ==> 0 < #[trigger] b[i].weight < bound,
{
    broadcast use vstd::seq_lib::group_to_multiset_ensures;

    assert forall|i: int| 0 <= i < b.len() implies 0 < #[trigger] b[i].weight < bound by {
        let x = b[i];
        assert(b.contains(x));
        assert(b.to_multiset().count(x) > 0);
        assert(a.to_multiset().count(x) > 0);
        assert(a.contains(x));
        let j = choose|j: int| 0 <= j < a.len() && a[j] == x;
        assert(0 < a[j].weight < bound);
    }
}

/// A pool of partial seats in randomized order.
pub struct ShuffledPartialSeats {
    pub partial_seats: Vec<PartialSeat>,
}

impl ShuffledPartialSeats {
    /// Shuffles the input `partial_seats`. The result is a permutation of the
    /// input: the multiset of partial seats is exactly the multiset that went
    /// in.
    pub fn new(partial_seats: Vec<PartialSeat>) -> (r: ShuffledPartialSeats)
        ensures
            r.partial_seats@.to_multiset() == partial_seats@.to_multiset(),
            r.partial_seats@.len() == partial_seats@.len(),
    {
        let mut pool = partial_seats;
        shuffle_in_place(&mut pool);
        ShuffledPartialSeats { partial_seats: pool }
    }

    pub fn get_partial_seats(&self) -> (r: &Vec<PartialSeat>)
        ensures
            r == &self.partial_seats,
    {
        &self.partial_seats
    }
}

} // verus!
