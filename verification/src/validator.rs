//! The validator model: raw input records, typed validators with derived
//! seat counts, and population-wide statistics.

use vstd::prelude::*;

use crate::config::Config;
use crate::error::SimError;
use crate::partial_seat::PartialSeat;
use crate::protocol::ValidatorData;
use crate::rational::Fraction;
use crate::seat::Seat;

verus! {

/// One input record: an account, its stake, and whether the validator is
/// treated as malicious for the run.
#[derive(Debug)]
pub struct RawValidatorData {
    pub account_id: String,
    pub stake: u128,
    pub is_malicious: bool,
}

/// Holds data describing a set of validators.
#[derive(Clone, Copy, Debug, PartialEq, Eq, Structural)]
pub struct PopulationStats {
    /// Sum of validator stakes.
    pub stake: u128,
    /// Sum of stake of malicious validators.
    pub malicious_stake: u128,
    /// Total number of seats of all validators. Note that some stake might
    /// not participate in validation if it is not assigned to a seat. For
    /// example, if a validator has a stake of 17 and seat price is 5, then
    /// the validator holds 3 seats (worth 15 stake) and 2 stake remain
    /// unassigned.
    pub seats: u64,
    /// The number of seats held by malicious validators.
    pub malicious_seats: u64,
}

/// A validator of the population snapshot of one run, carrying its derived
/// seat count and its share of the population stake.
#[derive(Debug, PartialEq)]
pub struct Validator {
    /// Position of this validator in the validator list of the run. Seats
    /// and partial seats refer back to their validator through this handle.
    pub index: usize,
    pub account_id: String,
    pub stake: u128,
    pub is_malicious: bool,
    /// Derived: `stake / stake_per_seat`, floor division.
    pub num_seats: u64,
    /// Derived: `stake / total population stake`, as an exact rational.
    pub total_stake_share: Fraction,
}

/// The number of full seats that `stake` claims at seat price
/// `stake_per_seat`: the floor of the quotient.
pub open spec fn seats_for_stake(stake: u128, stake_per_seat: u128) -> int
    recommends
        stake_per_seat > 0,
{
    stake as int / stake_per_seat as int
}

/// Sum of the stakes of the records.
pub open spec fn sum_stake(records: Seq<RawValidatorData>) -> int
    decreases records.len(),
{
    if records.len() == 0 {
        0
    } else {
        sum_stake(records.drop_last()) + records.last().stake
    }
}

/// Sum of the stakes of the malicious records.
pub open spec fn sum_malicious_stake(records: Seq<RawValidatorData>) -> int
    decreases records.len(),
{
    if records.len() == 0 {
        0
    } else {
        sum_malicious_stake(records.drop_last()) + if records.last().is_malicious {
            records.last().stake as int
        } else {
            0int
        }
    }
}

/// Sum of the full-seat counts of the records at seat price `stake_per_seat`.
pub open spec fn sum_seats(records: Seq<RawValidatorData>, stake_per_seat: u128) -> int
    decreases records.len(),
{
    if records.len() == 0 {
        0
    } else {
        sum_seats(records.drop_last(), stake_per_seat) + seats_for_stake(
            records.last().stake,
            stake_per_seat,
        )
    }
}

/// Sum of the full-seat counts of the malicious records.
pub open spec fn sum_malicious_seats(records: Seq<RawValidatorData>, stake_per_seat: u128) -> int
    decreases records.len(),
{
    if records.len() == 0 {
        0
    } else {
        sum_malicious_seats(records.drop_last(), stake_per_seat) + if records.last().is_malicious {
            seats_for_stake(records.last().stake, stake_per_seat)
        } else {
            0int
        }
    }
}

/// All four population sums are non-negative, and each malicious sum is
/// bounded by its unrestricted counterpart.
pub proof fn lemma_sum_bounds(records: Seq<RawValidatorData>, stake_per_seat: u128)
    requires
        stake_per_seat > 0,
    ensures
        0 <= sum_malicious_stake(records) <= sum_stake(records),
        0 <= sum_malicious_seats(records, stake_per_seat) <= sum_seats(records, stake_per_seat),
    decreases records.len(),
{
    if records.len() > 0 {
        lemma_sum_bounds(records.drop_last(), stake_per_seat);
    }
}

/// Extending a prefix of the records by one record extends each sum by that
/// record's contribution.
pub proof fn lemma_sum_step(records: Seq<RawValidatorData>, stake_per_seat: u128, i: int)
    requires
        0 <= i < records.len(),
    ensures
        sum_stake(records.take(i + 1)) == sum_stake(records.take(i)) + records[i].stake,
        sum_malicious_stake(records.take(i + 1)) == sum_malicious_stake(records.take(i)) + if records[i].is_malicious {
            records[i].stake as int
        } else {
            0int
        },
        sum_seats(records.take(i + 1), stake_per_seat) == sum_seats(records.take(i), stake_per_seat)
            + seats_for_stake(records[i].stake, stake_per_seat),
        sum_malicious_seats(records.take(i + 1), stake_per_seat) == sum_malicious_seats(
            records.take(i),
            stake_per_seat,
        ) + if records[i].is_malicious {
            seats_for_stake(records[i].stake, stake_per_seat)
        } else {
            0int
        },
{
    assert(records.take(i + 1).drop_last() =~= records.take(i));
    assert(records.take(i + 1).last() == records[i]);
}

/// Every prefix sum is bounded by the sum over all records.
pub proof fn lemma_sum_prefix_le(records: Seq<RawValidatorData>, stake_per_seat: u128, i: int)
    requires
        0 <= i <= records.len(),
        stake_per_seat > 0,
    ensures
        sum_stake(records.take(i)) <= sum_stake(records),
        sum_seats(records.take(i), stake_per_seat) <= sum_seats(records, stake_per_seat),
    decreases records.len() - i,
{
    if i == records.len() {
        assert(records.take(i) =~= records);
    } else {
        lemma_sum_step(records, stake_per_seat, i);
        lemma_sum_prefix_le(records, stake_per_seat, i + 1);
    }
}

/// Removing one record removes exactly its contribution from each of the
/// four population sums.
proof fn lemma_sums_remove(records: Seq<RawValidatorData>, stake_per_seat: u128, i: int)
    requires
        0 <= i < records.len(),
    ensures
        sum_stake(records.remove(i)) == sum_stake(records) - records[i].stake,
        sum_malicious_stake(records.remove(i)) == sum_malicious_stake(records) - if records[i].is_malicious {
            records[i].stake as int
        } else {
            0int
        },
        sum_seats(records.remove(i), stake_per_seat) == sum_seats(records, stake_per_seat)
            - seats_for_stake(records[i].stake, stake_per_seat),
        sum_malicious_seats(records.remove(i), stake_per_seat) == sum_malicious_seats(
            records,
            stake_per_seat,
        ) - if records[i].is_malicious {
            seats_for_stake(records[i].stake, stake_per_seat)
        } else {
            0int
        },
    decreases records.len(),
{
    if i == records.len() - 1 {
        assert(records.remove(i) =~= records.drop_last());
    } else {
        assert(records.remove(i).drop_last() =~= records.drop_last().remove(i));
        assert(records.remove(i).last() == records.last());
        lemma_sums_remove(records.drop_last(), stake_per_seat, i);
    }
}

/// The population statistics are independent of the order of the input
/// records: any two inputs holding the same multiset of records have the
/// same summed stake, malicious stake, seat count, and malicious seat count.
pub proof fn lemma_population_sums_order_invariant(
    a: Seq<RawValidatorData>,
    b: Seq<RawValidatorData>,
    stake_per_seat: u128,
)
    requires
        a.to_multiset() == b.to_multiset(),
    ensures
        sum_stake(a) == sum_stake(b),
        sum_malicious_stake(a) == sum_malicious_stake(b),
        sum_seats(a, stake_per_seat) == sum_seats(b, stake_per_seat),
        sum_malicious_seats(a, stake_per_seat) == sum_malicious_seats(b, stake_per_seat),
    decreases a.len(),
{
    broadcast use vstd::seq_lib::group_to_multiset_ensures;

    if a.len() == 0 {
        assert(a.to_multiset().len() == a.len());
        assert(b.to_multiset().len() == b.len());
        assert(b.len() == 0);
    } else {
        let x = a.last();
        assert(a.contains(x));
        assert(a.to_multiset().count(x) > 0);
        assert(b.to_multiset().count(x) > 0);
        assert(b.contains(x));
        let j = choose|j: int| 0 <= j < b.len() && b[j] == x;
        assert(a.drop_last() =~= a.remove(a.len() - 1));
        assert(a.drop_last().to_multiset() == a.to_multiset().remove(x));
        assert(b.remove(j).to_multiset() == b.to_multiset().remove(x));
        lemma_sums_remove(b, stake_per_seat, j);
        lemma_population_sums_order_invariant(a.drop_last(), b.remove(j), stake_per_seat);
    }
}

impl From<ValidatorData> for RawValidatorData {
    /// The returned validator is malicious if `data.is_malicious ==
    /// Some(true)`, otherwise it is not malicious.
    fn from(data: ValidatorData) -> (r: Self) {
        let is_malicious = match data.is_malicious {
            Some(flag) => flag,
            None => false,
        };
        RawValidatorData { account_id: data.account_id, stake: data.stake, is_malicious }
    }
}

impl vstd::std_specs::convert::FromSpecImpl<ValidatorData> for RawValidatorData {
    open spec fn obeys_from_spec() -> bool {
        true
    }

    open spec fn from_spec(data: ValidatorData) -> RawValidatorData {
        RawValidatorData {
            account_id: data.account_id,
            stake: data.stake,
            is_malicious: data.is_malicious == Some(true),
        }
    }
}

/// How a validator is derived from its input record: the fields are carried
/// over, the seat count is the floor of `stake / stake_per_seat`, and the
/// stake share is the exact rational `stake / population_stake`, in lowest
/// terms.
pub open spec fn derived_validator(
    v: Validator,
    raw: RawValidatorData,
    index: int,
    stake_per_seat: u128,
    population_stake: u128,
) -> bool {
    &&& v.index == index
    &&& v.account_id@ == raw.account_id@
    &&& v.stake == raw.stake
    &&& v.is_malicious == raw.is_malicious
    &&& v.num_seats == seats_for_stake(raw.stake, stake_per_seat)
    &&& v.total_stake_share.wf()
    &&& crate::rational::reduced_fraction_of(v.total_stake_share, raw.stake, population_stake)
}

/// Parsing is deterministic: two validators derived from the same record,
/// position, seat price and population stake agree in every observable
/// field. Together with the population sums that
/// `parse_raw_validator_data`'s contract pins, two parses of equal input
/// return equal statistics and equal validator lists.
pub proof fn lemma_derived_validator_unique(
    v: Validator,
    w: Validator,
    raw: RawValidatorData,
    index: int,
    stake_per_seat: u128,
    population_stake: u128,
)
    requires
        population_stake > 0,
        derived_validator(v, raw, index, stake_per_seat, population_stake),
        derived_validator(w, raw, index, stake_per_seat, population_stake),
    ensures
        v.index == w.index,
        v.account_id@ == w.account_id@,
        v.stake == w.stake,
        v.is_malicious == w.is_malicious,
        v.num_seats == w.num_seats,
        v.total_stake_share == w.total_stake_share,
{
    crate::rational::lemma_reduced_fraction_unique(
        raw.stake,
        population_stake,
        v.total_stake_share,
        w.total_stake_share,
    );
}

/// Converts raw validator records into typed validators and population-wide
/// statistics.
///
/// The population totals are pure sums over the records, so they do not
/// depend on the input order. Each validator's seat count is the floor of
/// `stake / stake_per_seat`, and its stake share is the exact rational
/// `stake / population stake`.
///
/// Fails when the configured seat price is zero, when the summed population
/// stake is zero (stake shares would be undefined), or when a stake or seat
/// total exceeds its integer type.
pub fn parse_raw_validator_data(config: &Config, input: &Vec<RawValidatorData>) -> (r: Result<
    (PopulationStats, Vec<Validator>),
    SimError,
>)
    ensures
        r is Ok <==> (config.stake_per_seat > 0 && 0 < sum_stake(input@) <= u128::MAX && sum_seats(
            input@,
            config.stake_per_seat,
        ) <= u64::MAX),
        config.stake_per_seat == 0 ==> r == Err::<(PopulationStats, Vec<Validator>), SimError>(
            SimError::ZeroStakePerSeat,
        ),
        config.stake_per_seat > 0 && (sum_stake(input@) > u128::MAX || sum_seats(
            input@,
            config.stake_per_seat,
        ) > u64::MAX) ==> r == Err::<(PopulationStats, Vec<Validator>), SimError>(
            SimError::StakeOverflow,
        ),
        config.stake_per_seat > 0 && sum_stake(input@) == 0 ==> r == Err::<
            (PopulationStats, Vec<Validator>),
            SimError,
        >(SimError::ZeroPopulationStake),
        r matches Ok((stats, validators)) ==> {
            &&& stats.stake == sum_stake(input@)
            &&& stats.malicious_stake == sum_malicious_stake(input@)
            &&& stats.seats == sum_seats(input@, config.stake_per_seat)
            &&& stats.malicious_seats == sum_malicious_seats(input@, config.stake_per_seat)
            &&& validators@.len() == input@.len()
            &&& forall|i: int|
                0 <= i < input@.len() ==> derived_validator(
                    #[trigger] validators@[i],
                    input@[i],
                    i,
                    config.stake_per_seat,
                    sum_stake(input@) as u128,
                )
        },
{
    if config.stake_per_seat == 0 {
        return Err(SimError::ZeroStakePerSeat);
    }
    let n = input.len();
    let mut stake_total: u128 = 0;
    let mut malicious_stake_total: u128 = 0;
    let mut seats_total: u64 = 0;
    let mut malicious_seats_total: u64 = 0;
    let mut i: usize = 0;
    while i < n
        invariant
            config.stake_per_seat > 0,
            n == input@.len(),
            i <= n,
            stake_total == sum_stake(input@.take(i as int)),
            malicious_stake_total == sum_malicious_stake(input@.take(i as int)),
            seats_total == sum_seats(input@.take(i as int), config.stake_per_seat),
            malicious_seats_total == sum_malicious_seats(input@.take(i as int), config.stake_per_seat),
        decreases n - i,
    {
        proof {
            lemma_sum_step(input@, config.stake_per_seat, i as int);
            lemma_sum_bounds(input@.take(i as int), config.stake_per_seat);
            lemma_sum_bounds(input@.take(i as int + 1), config.stake_per_seat);
        }
        let record_stake = input[i].stake;
        if record_stake > u128::MAX - stake_total {
            proof {
                lemma_sum_prefix_le(input@, config.stake_per_seat, i as int + 1);
            }
            return Err(SimError::StakeOverflow);
        }
        let num_seats_wide = record_stake / config.stake_per_seat;
        if num_seats_wide > u64::MAX as u128 || (num_seats_wide as u64) > u64::MAX - seats_total {
            proof {
                lemma_sum_prefix_le(input@, config.stake_per_seat, i as int + 1);
            }
            return Err(SimError::StakeOverflow);
        }
        let num_seats = num_seats_wide as u64;
        stake_total = stake_total + record_stake;
        seats_total = seats_total + num_seats;
        if input[i].is_malicious {
            malicious_stake_total = malicious_stake_total + record_stake;
            malicious_seats_total = malicious_seats_total + num_seats;
        }
        i += 1;
    }
    proof {
        assert(input@.take(n as int) =~= input@);
    }
    if stake_total == 0 {
        return Err(SimError::ZeroPopulationStake);
    }
    let mut validators: Vec<Validator> = Vec::new();
    let mut i: usize = 0;
    while i < n
        invariant
            config.stake_per_seat > 0,
            n == input@.len(),
            i <= n,
            stake_total == sum_stake(input@),
            stake_total > 0,
            seats_total == sum_seats(input@, config.stake_per_seat),
            validators@.len() == i,
            forall|j: int|
                0 <= j < i ==> derived_validator(
                    #[trigger] validators@[j],
                    input@[j],
                    j,
                    config.stake_per_seat,
                    sum_stake(input@) as u128,
                ),
        decreases n - i,
    {
        proof {
            lemma_sum_step(input@, config.stake_per_seat, i as int);
            lemma_sum_bounds(input@.take(i as int), config.stake_per_seat);
            lemma_sum_prefix_le(input@, config.stake_per_seat, i as int + 1);
        }
        let record_stake = input[i].stake;
        let num_seats = (record_stake / config.stake_per_seat) as u64;
        let total_stake_share = Fraction::new_reduced(record_stake, stake_total);
        let account_id = input[i].account_id.clone();
        validators.push(
            Validator {
                index: i,
                account_id,
                stake: record_stake,
                is_malicious: input[i].is_malicious,
                num_seats,
                total_stake_share,
            },
        );
        i += 1;
    }
    Ok(
        (
            PopulationStats {
                stake: stake_total,
                malicious_stake: malicious_stake_total,
                seats: seats_total,
                malicious_seats: malicious_seats_total,
            },
            validators,
        ),
    )
}

/// The full seats of a validator: `num_seats` seats, all referring back to
/// the validator.
pub open spec fn seats_of(v: Validator) -> Seq<Seat> {
    Seq::new(
        v.num_seats as nat,
        |j: int| Seat { validator_idx: v.index, is_malicious: v.is_malicious },
    )
}

/// The partial seat of a validator at seat price `stake_per_seat`: the stake
/// remainder when it is strictly positive, and nothing otherwise.
pub open spec fn partial_seat_of(v: Validator, stake_per_seat: u128) -> Option<PartialSeat>
    recommends
        stake_per_seat > 0,
{
    if v.stake % stake_per_seat == 0 {
        None
    } else {
        Some(
            PartialSeat {
                validator_idx: v.index,
                is_malicious: v.is_malicious,
                weight: (v.stake as int % stake_per_seat as int) as u128,
            },
        )
    }
}

/// The weight of the validator's partial seat, or zero when none is
/// materialized.
pub open spec fn partial_weight_of(v: Validator, stake_per_seat: u128) -> int
    recommends
        stake_per_seat > 0,
{
    match partial_seat_of(v, stake_per_seat) {
        Some(p) => p.weight as int,
        None => 0,
    }
}

impl Validator {
    /// Returns the validator's seats. The number of seats a validator claims
    /// is determined by the stake required per seat and the validator's
    /// stake.
    pub fn seats(&self) -> (r: Vec<Seat>)
        requires
            self.num_seats <= usize::MAX,
        ensures
            r@ == seats_of(*self),
    {
        let n = self.num_seats_as_usize();
        let seat = Seat::new(self);
        let mut r: Vec<Seat> = Vec::new();
        let mut j: usize = 0;
        while j < n
            invariant
                n == self.num_seats,
                j <= n,
                r@.len() == j,
                forall|k: int| 0 <= k < j ==> r@[k] == seats_of(*self)[k],
                seat.validator_idx == self.index,
                seat.is_malicious == self.is_malicious,
            decreases n - j,
        {
            r.push(seat);
            j += 1;
        }
        proof {
            assert(r@ =~= seats_of(*self));
        }
        r
    }

    /// Returns `num_seats` as usize.
    ///
    /// Field `num_seats` is an unsigned integer in the struct to facilitate
    /// calculations.
    pub fn num_seats_as_usize(&self) -> (r: usize)
        requires
            self.num_seats <= usize::MAX,
        ensures
            r == self.num_seats,
    {
        self.num_seats as usize
    }

    /// Returns the validator's partial seat, or nothing when the stake
    /// divides into full seats without remainder. A returned partial seat
    /// always has a weight strictly between zero and `stake_per_seat`.
    pub fn partial_seat(&self, stake_per_seat: u128) -> (r: Option<PartialSeat>)
        requires
            stake_per_seat > 0,
        ensures
            r == partial_seat_of(*self, stake_per_seat),
            r matches Some(p) ==> 0 < p.weight < stake_per_seat,
    {
        let weight = self.stake % stake_per_seat;
        if weight == 0 {
            None
        } else {
            Some(PartialSeat::new(self, weight))
        }
    }

    pub fn get_is_malicious(&self) -> (r: bool)
        ensures
            r == self.is_malicious,
    {
        self.is_malicious
    }
}

/// Sum of the derived seat counts of the validators.
pub open spec fn sum_num_seats(validators: Seq<Validator>) -> int
    decreases validators.len(),
{
    if validators.len() == 0 {
        0
    } else {
        sum_num_seats(validators.drop_last()) + validators.last().num_seats
    }
}

/// The seats of the validators in list order: the seats of `validators[0]`,
/// then those of `validators[1]`, and so on.
pub open spec fn ordered_seats(validators: Seq<Validator>) -> Seq<Seat>
    decreases validators.len(),
{
    if validators.len() == 0 {
        Seq::empty()
    } else {
        ordered_seats(validators.drop_last()) + seats_of(validators.last())
    }
}

/// The ordered seat pool holds exactly the summed seat count, and that sum
/// is non-negative.
pub proof fn lemma_ordered_seats_len(validators: Seq<Validator>)
    ensures
        ordered_seats(validators).len() == sum_num_seats(validators),
        0 <= sum_num_seats(validators),
    decreases validators.len(),
{
    if validators.len() > 0 {
        lemma_ordered_seats_len(validators.drop_last());
    }
}

/// Every prefix of the validators claims at most the full summed seat count.
pub proof fn lemma_sum_num_seats_prefix_le(validators: Seq<Validator>, i: int)
    requires
        0 <= i <= validators.len(),
    ensures
        sum_num_seats(validators.take(i)) <= sum_num_seats(validators),
    decreases validators.len() - i,
{
    if i == validators.len() {
        assert(validators.take(i) =~= validators);
    } else {
        assert(validators.take(i + 1).drop_last() =~= validators.take(i));
        lemma_ordered_seats_len(validators.take(i + 1));
        lemma_sum_num_seats_prefix_le(validators, i + 1);
    }
}

/// Constructs the ordered full-seat pool for the provided `validators`,
/// preserving validator order as the pre-shuffle baseline order.
pub fn new_ordered_seats(validators: &Vec<Validator>) -> (r: Vec<Seat>)
    requires
        sum_num_seats(validators@) <= usize::MAX,
    ensures
        r@ == ordered_seats(validators@),
        r@.len() == sum_num_seats(validators@),
{
    let mut r: Vec<Seat> = Vec::new();
    let mut i: usize = 0;
    while i < validators.len()
        invariant
            i <= validators@.len(),
            sum_num_seats(validators@) <= usize::MAX,
            r@ == ordered_seats(validators@.take(i as int)),
            r@.len() == sum_num_seats(validators@.take(i as int)),
        decreases validators@.len() - i,
    {
        proof {
            assert(validators@.take(i as int + 1).drop_last() =~= validators@.take(i as int));
            assert(validators@.take(i as int + 1).last() == validators@[i as int]);
            lemma_ordered_seats_len(validators@.take(i as int));
            lemma_ordered_seats_len(validators@.take(i as int + 1));
            lemma_sum_num_seats_prefix_le(validators@, i as int + 1);
        }
        let mut seats = validators[i].seats();
        r.append(&mut seats);
        i += 1;
    }
    proof {
        assert(validators@.take(validators@.len() as int) =~= validators@);
        lemma_ordered_seats_len(validators@);
    }
    r
}

/// The partial seats of the validators in list order, keeping only the
/// validators whose stake leaves a positive remainder.
pub open spec fn ordered_partial_seats(validators: Seq<Validator>, stake_per_seat: u128) -> Seq<
    PartialSeat,
>
    recommends
        stake_per_seat > 0,
    decreases validators.len(),
{
    if validators.len() == 0 {
        Seq::empty()
    } else {
        ordered_partial_seats(validators.drop_last(), stake_per_seat) + match partial_seat_of(
            validators.last(),
            stake_per_seat,
        ) {
            Some(p) => seq![p],
            None => Seq::empty(),
        }
    }
}

/// The ordered partial-seat pool holds at most one partial seat per
/// validator, and every partial seat in it weighs strictly between zero and
/// `stake_per_seat`.
pub proof fn lemma_ordered_partial_seats_props(validators: Seq<Validator>, stake_per_seat: u128)
    requires
        stake_per_seat > 0,
    ensures
        ordered_partial_seats(validators, stake_per_seat).len() <= validators.len(),
        forall|i: int|
            0 <= i < ordered_partial_seats(validators, stake_per_seat).len() ==> 0 < #[trigger] ordered_partial_seats(
                validators,
                stake_per_seat,
            )[i].weight < stake_per_seat,
    decreases validators.len(),
{
    if validators.len() > 0 {
        lemma_ordered_partial_seats_props(validators.drop_last(), stake_per_seat);
    }
}

/// Constructs the ordered partial-seat pool for the provided `validators`. A
/// validator whose stake leaves no remainder is not represented in the
/// returned vector.
pub fn new_ordered_partial_seats(validators: &Vec<Validator>, stake_per_seat: u128) -> (r: Vec<
    PartialSeat,
>)
    requires
        stake_per_seat > 0,
    ensures
        r@ == ordered_partial_seats(validators@, stake_per_seat),
{
    let mut r: Vec<PartialSeat> = Vec::new();
    let mut i: usize = 0;
    while i < validators.len()
        invariant
            i <= validators@.len(),
            stake_per_seat > 0,
            r@ == ordered_partial_seats(validators@.take(i as int), stake_per_seat),
        decreases validators@.len() - i,
    {
        proof {
            assert(validators@.take(i as int + 1).drop_last() =~= validators@.take(i as int));
            assert(validators@.take(i as int + 1).last() == validators@[i as int]);
        }
        match validators[i].partial_seat(stake_per_seat) {
            Some(p) => {
                r.push(p);
                proof {
                    assert(r@ =~= ordered_partial_seats(
                        validators@.take(i as int + 1),
                        stake_per_seat,
                    ));
                }
            },
            None => {
                proof {
                    assert(r@ =~= ordered_partial_seats(
                        validators@.take(i as int + 1),
                        stake_per_seat,
                    ));
                }
            },
        }
        i += 1;
    }
    proof {
        assert(validators@.take(validators@.len() as int) =~= validators@);
    }
    r
}

/// For every validator whose seat count was derived by floor division, the
/// stake decomposes exactly into full seats plus the partial-seat remainder,
/// and a materialized partial seat weighs strictly between zero and one
/// seat's price.
pub proof fn lemma_stake_decomposition(v: Validator, stake_per_seat: u128)
    requires
        stake_per_seat > 0,
        v.num_seats == seats_for_stake(v.stake, stake_per_seat),
    ensures
        match partial_seat_of(v, stake_per_seat) {
            Some(p) => 0 < p.weight < stake_per_seat && v.stake == v.num_seats * stake_per_seat
                + p.weight,
            None => v.stake == v.num_seats * stake_per_seat,
        },
{
    vstd::arithmetic::div_mod::lemma_fundamental_div_mod(v.stake as int, stake_per_seat as int);
    vstd::arithmetic::div_mod::lemma_mod_bound(v.stake as int, stake_per_seat as int);
}

/// Summing one seat price over all full seats of a validator, plus the
/// validator's partial-seat weight, reconstructs the validator's stake
/// exactly.
pub proof fn lemma_validator_stake_reconstruction(v: Validator, stake_per_seat: u128)
    requires
        stake_per_seat > 0,
        v.num_seats == seats_for_stake(v.stake, stake_per_seat),
    ensures
        seats_of(v).len() * stake_per_seat + partial_weight_of(v, stake_per_seat) == v.stake,
{
    lemma_stake_decomposition(v, stake_per_seat);
}


} // verus!
