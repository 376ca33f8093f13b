//! Full seats: discrete units of voting power priced at the configured stake
//! per seat.

use vstd::prelude::*;

use crate::shuffle::shuffle_in_place;
use crate::validator::Validator;

verus! {

/// Represents a seat filled by a particular validator. The validator is
/// identified by its position in the validator list of the run, so a seat
/// must not be used with a different validator list than the one it was
/// derived from.
///
/// The stake corresponding to a seat is set by global configuration and is
/// equal for every seat, so the seat carries no stake of its own.
#[derive(Clone, Copy, Debug, PartialEq, Eq, Structural)]
pub struct Seat {
    /// Position of the backing validator in the validator list.
    pub validator_idx: usize,
    /// Whether the backing validator is malicious.
    pub is_malicious: bool,
}

impl Seat {
    /// A seat backed by `validator`.
    pub fn new(validator: &Validator) -> (r: Seat)
        ensures
            r.validator_idx == validator.index,
            r.is_malicious == validator.is_malicious,
    {
        Seat { validator_idx: validator.index, is_malicious: validator.is_malicious }
    }

    pub fn get_is_malicious(&self) -> (r: bool)
        ensures
            r == self.is_malicious,
    {
        self.is_malicious
    }
}

/// How many of the seats are backed by malicious validators.
pub open spec fn malicious_seat_count(seats: Seq<Seat>) -> int
    decreases seats.len(),
{
    if seats.len() == 0 {
        0
    } else {
        malicious_seat_count(seats.drop_last()) + if seats.last().is_malicious {
            1int
        } else {
            0int
        }
    }
}

/// The count of malicious seats lies between 0 and the number of seats.
pub proof fn lemma_malicious_seat_count_bounds(seats: Seq<Seat>)
    ensures
        0 <= malicious_seat_count(seats) <= seats.len(),
    decreases seats.len(),
{
    if seats.len() > 0 {
        lemma_malicious_seat_count_bounds(seats.drop_last());
    }
}

/// A pool of seats in randomized order.
pub struct ShuffledSeats {
    pub seats: Vec<Seat>,
}

impl ShuffledSeats {
    /// Shuffles the input `seats`. The result is a permutation of the input:
    /// the multiset of seats is exactly the multiset that went in.
    pub fn new(seats: Vec<Seat>) -> (r: ShuffledSeats)
        ensures
            r.seats@.to_multiset() == seats@.to_multiset(),
            r.seats@.len() == seats@.len(),
    {
        let mut pool = seats;
        shuffle_in_place(&mut pool);
        ShuffledSeats { seats: pool }
    }

    pub fn get_seats(&self) -> (r: &Vec<Seat>)
        ensures
            r == &self.seats,
    {
        &self.seats
    }
}

} // verus!
