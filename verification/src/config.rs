//! Process-wide run parameters and the partition of shuffled seat pools into
//! per-shard groups.

use vstd::prelude::*;

use crate::error::SimError;
use crate::partial_seat::PartialSeat;
use crate::rational::Fraction;
use crate::seat::Seat;

verus! {

/// Immutable parameters of one simulation run.
pub struct Config {
    pub num_blocks: u64,
    // A `u16` count allows infallible conversion to `usize`. For use cases of
    // this simulation the number of shards is expected to be far below
    // `u16::MAX`.
    pub num_shards: u16,
    /// The set of validators must be sufficient to fill
    /// `num_shards * seats_per_shard` seats. Any seats above that threshold
    /// remain unassigned.
    pub seats_per_shard: u64,
    /// The amount of stake required to get one seat.
    pub stake_per_seat: u128,
    /// If the ratio of malicious stake is higher than this threshold, the
    /// shard is considered corrupted, i.e. a security failure occurred.
    pub max_malicious_stake_per_shard: Fraction,
    /// The file from which validator data is read. It is expected to contain
    /// a vector of validator records. If no validator data is provided,
    /// mocked validator data will be used in the simulation.
    pub validator_data: Option<String>,
    /// A validator's stake might not entirely cover seats given a particular
    /// `stake_per_seat`. This option controls whether remaining stake (not
    /// covering a full seat) should be assigned to a partial seat or ignored.
    pub include_partial_seats: bool,
}

/// Returns the number of (full) seats that can be claimed by `stake`:
/// integer division takes the floor of the quotient.
pub fn seats_per_stake(stake: u128, stake_per_seat: u128) -> (r: u64)
    requires
        stake_per_seat > 0,
        stake as int / stake_per_seat as int <= u64::MAX,
    ensures
        r == crate::validator::seats_for_stake(stake, stake_per_seat),
{
    (stake / stake_per_seat) as u64
}

impl Config {
    /// A small fixed configuration for exercising the library.
    pub fn new_mock(include_partial_seats: bool) -> (r: Config)
        ensures
            r.num_blocks == 1000,
            r.num_shards == 4,
            r.seats_per_shard == 2,
            r.stake_per_seat == 100,
            r.max_malicious_stake_per_shard == (Fraction { numer: 1, denom: 3 }),
            r.validator_data is None,
            r.include_partial_seats == include_partial_seats,
    {
        Config {
            num_blocks: 1000,
            num_shards: 4,
            seats_per_shard: 2,
            stake_per_seat: 100,
            max_malicious_stake_per_shard: Fraction::new(1, 3),
            validator_data: None,
            include_partial_seats,
        }
    }

    /// Returns the number of (full) seats that can be claimed by `stake` at
    /// this configuration's seat price.
    pub fn seats_per_stake(&self, stake: u128) -> (r: u64)
        requires
            self.stake_per_seat > 0,
            stake as int / self.stake_per_seat as int <= u64::MAX,
        ensures
            r == crate::validator::seats_for_stake(stake, self.stake_per_seat),
    {
        seats_per_stake(stake, self.stake_per_seat)
    }

    /// Returns the amount of seats for all shards that must be filled by
    /// validators.
    pub fn total_seats(&self) -> (r: u64)
        requires
            self.num_shards * self.seats_per_shard <= u64::MAX,
        ensures
            r == self.num_shards * self.seats_per_shard,
    {
        (self.num_shards as u64) * self.seats_per_shard
    }

    /// The seats that shard `shard_idx` receives from the pool `seats`: the
    /// contiguous slice starting at `shard_idx * seats_per_shard`.
    pub open spec fn shard_seats_spec(self, shard_idx: int, seats: Seq<Seat>) -> Seq<Seat>
        recommends
            0 <= shard_idx < self.num_shards,
            seats.len() >= self.num_shards * self.seats_per_shard,
    {
        seats.subrange(
            shard_idx * self.seats_per_shard,
            (shard_idx + 1) * self.seats_per_shard,
        )
    }

    /// Collects the (consecutive) seats required for `shard_idx` starting
    /// from `seats[shard_idx * self.seats_per_shard]`.
    ///
    /// Fails if `shard_idx` is out of bounds or if `seats` contains not
    /// enough seats to fill every shard.
    pub fn collect_seats_for_shard(&self, shard_idx: usize, seats: &Vec<Seat>) -> (r: Result<
        Vec<Seat>,
        SimError,
    >)
        requires
            self.num_shards * self.seats_per_shard <= usize::MAX,
        ensures
            r is Ok <==> (shard_idx < self.num_shards && seats@.len() >= self.num_shards
                * self.seats_per_shard),
            r matches Ok(shard_seats) ==> shard_seats@ == self.shard_seats_spec(
                shard_idx as int,
                seats@,
            ),
            shard_idx >= self.num_shards ==> r == Err::<Vec<Seat>, SimError>(
                SimError::InvalidShardIndex {
                    shard_idx: shard_idx as u64,
                    num_shards: self.num_shards,
                },
            ),
            shard_idx < self.num_shards && seats@.len() < self.num_shards * self.seats_per_shard
                ==> r == Err::<Vec<Seat>, SimError>(
                SimError::InsufficientSeats {
                    available: seats@.len() as u64,
                    required: (self.num_shards * self.seats_per_shard) as u64,
                },
            ),
    {
        if shard_idx >= self.num_shards as usize {
            return Err(
                SimError::InvalidShardIndex {
                    shard_idx: shard_idx as u64,
                    num_shards: self.num_shards,
                },
            );
        }
        proof {
            assert(1 * self.seats_per_shard <= self.num_shards * self.seats_per_shard)
                by (nonlinear_arith)
                requires
                    self.num_shards >= 1,
                    self.seats_per_shard >= 0,
            ;
        }
        let seats_per_shard = self.seats_per_shard as usize;
        let required_seats = (self.num_shards as usize) * seats_per_shard;
        if seats.len() < required_seats {
            return Err(
                SimError::InsufficientSeats {
                    available: seats.len() as u64,
                    required: required_seats as u64,
                },
            );
        }
        proof {
            assert((shard_idx + 1) * self.seats_per_shard <= self.num_shards
                * self.seats_per_shard && (shard_idx + 1) * self.seats_per_shard == shard_idx
                * self.seats_per_shard + self.seats_per_shard && shard_idx * self.seats_per_shard
                >= 0) by (nonlinear_arith)
                requires
                    0 <= shard_idx,
                    shard_idx + 1 <= self.num_shards,
                    self.seats_per_shard >= 0,
            ;
        }
        let start = shard_idx * seats_per_shard;
        let mut shard_seats: Vec<Seat> = Vec::new();
        let mut k: usize = 0;
        while k < seats_per_shard
            invariant
                k <= seats_per_shard,
                start + seats_per_shard <= usize::MAX,
                start + seats_per_shard <= seats@.len(),
                shard_seats@.len() == k,
                forall|m: int| 0 <= m < k ==> shard_seats@[m] == seats@[start + m],
            decreases seats_per_shard - k,
        {
            shard_seats.push(seats[start + k]);
            k += 1;
        }
        proof {
            assert(shard_seats@ =~= self.shard_seats_spec(shard_idx as int, seats@));
        }
        Ok(shard_seats)
    }

    /// The partial seats that shard `shard_idx` receives from the pool: the
    /// elements at positions `shard_idx`, `shard_idx + num_shards`,
    /// `shard_idx + 2 * num_shards`, and so on.
    pub open spec fn shard_partial_seats_spec(
        self,
        shard_idx: int,
        partial_seats: Seq<PartialSeat>,
    ) -> Seq<PartialSeat>
        recommends
            0 <= shard_idx < self.num_shards,
    {
        Seq::new(
            modulo_slot_count(
                partial_seats.len() as int,
                shard_idx,
                self.num_shards as int,
            ) as nat,
            |j: int| partial_seats[shard_idx + j * self.num_shards],
        )
    }

    /// Collect partial seats for `shard_idx` by picking seats from positions
    /// with `position % num_shards == shard_idx`.
    ///
    /// # Motivation for assignment via modulo
    ///
    /// Every validator may hold at most 1 partial seat. If a validator's
    /// stake covers full seats without remainder, it holds 0 partial seats.
    /// Hence `0 <= num_partial_seats <= num_validators`. Assigning seats to
    /// shards with `%` allows distributing the existing number of partial
    /// seats to shards as evenly as possible.
    ///
    /// # No minimum number of required _partial_ seats per shard
    ///
    /// It is not needed since partial seats are included only to distribute
    /// leftover stake (not covering full seats) to shards.
    pub fn collect_partial_seats_for_shard(
        &self,
        shard_idx: usize,
        partial_seats: &Vec<PartialSeat>,
    ) -> (r: Result<Vec<PartialSeat>, SimError>)
        requires
            partial_seats@.len() + self.num_shards <= usize::MAX,
        ensures
            r is Ok <==> shard_idx < self.num_shards,
            r matches Ok(shard_partial_seats) ==> shard_partial_seats@
                == self.shard_partial_seats_spec(shard_idx as int, partial_seats@),
            shard_idx >= self.num_shards ==> r == Err::<Vec<PartialSeat>, SimError>(
                SimError::InvalidShardIndex {
                    shard_idx: shard_idx as u64,
                    num_shards: self.num_shards,
                },
            ),
    {
        if shard_idx >= self.num_shards as usize {
            return Err(
                SimError::InvalidShardIndex {
                    shard_idx: shard_idx as u64,
                    num_shards: self.num_shards,
                },
            );
        }
        let n = self.num_shards as usize;
        let len = partial_seats.len();
        let mut shard_partial_seats: Vec<PartialSeat> = Vec::new();
        let mut idx = shard_idx;
        proof {
            assert(shard_partial_seats@.len() == 0);
        }
        while idx < len
            invariant
                n == self.num_shards,
                1 <= n,
                len == partial_seats@.len(),
                len + n <= usize::MAX,
                shard_idx < n,
                idx == shard_idx + shard_partial_seats@.len() * n,
                shard_partial_seats@.len() > 0 ==> shard_idx + (shard_partial_seats@.len() - 1) * n
                    < len,
                forall|m: int|
                    0 <= m < shard_partial_seats@.len() ==> shard_partial_seats@[m]
                        == partial_seats@[shard_idx + m * n],
            decreases len + n - idx,
        {
            let ghost j = shard_partial_seats@.len() as int;
            shard_partial_seats.push(partial_seats[idx]);
            proof {
                assert((j + 1) * n == j * n + n) by (nonlinear_arith);
            }
            idx = idx + n;
        }
        proof {
            let j = shard_partial_seats@.len() as int;
            let ni = n as int;
            let si = shard_idx as int;
            let li = len as int;
            let count = modulo_slot_count(li, si, ni);
            if j == 0 {
                assert(idx == si);
                assert(count == 0);
            } else {
                assert((j - 1) * ni >= 0) by (nonlinear_arith)
                    requires
                        j >= 1,
                        ni >= 0,
                ;
                assert(si < li);
                let d = li - si - 1;
                let rem = d - (j - 1) * ni;
                assert(j * ni == (j - 1) * ni + ni) by (nonlinear_arith);
                assert(0 <= rem < ni);
                vstd::arithmetic::div_mod::lemma_fundamental_div_mod_converse(d, ni, j - 1, rem);
                assert(count == j);
            }
            assert(shard_partial_seats@ =~= self.shard_partial_seats_spec(si, partial_seats@));
        }
        Ok(shard_partial_seats)
    }

    /// A shard's partial seats are elements of the pool: there are at most
    /// as many as the pool holds, and each is the pool element at its modulo
    /// position.
    pub proof fn lemma_shard_partial_seats_in_pool(
        self,
        shard_idx: int,
        pool: Seq<PartialSeat>,
    )
        requires
            0 <= shard_idx < self.num_shards,
        ensures
            self.shard_partial_seats_spec(shard_idx, pool).len() <= pool.len(),
            forall|j: int|
                0 <= j < self.shard_partial_seats_spec(shard_idx, pool).len() ==> 0 <= shard_idx
                    + j * self.num_shards < pool.len() && #[trigger] self.shard_partial_seats_spec(
                    shard_idx,
                    pool,
                )[j] == pool[shard_idx + j * self.num_shards],
    {
        let n = self.num_shards as int;
        let len = pool.len() as int;
        let count = modulo_slot_count(len, shard_idx, n);
        if shard_idx < len {
            let d = len - shard_idx - 1;
            vstd::arithmetic::div_mod::lemma_div_pos_is_pos(d, n);
            vstd::arithmetic::div_mod::lemma_div_nonincreasing(d, n);
            vstd::arithmetic::div_mod::lemma_fundamental_div_mod(d, n);
            vstd::arithmetic::div_mod::lemma_mod_bound(d, n);
            assert forall|j: int| 0 <= j < count implies 0 <= shard_idx + #[trigger] (j * n)
                < len by {
                vstd::arithmetic::mul::lemma_mul_inequality(j, d / n, n);
                assert(j * n >= 0) by (nonlinear_arith)
                    requires
                        j >= 0,
                        n >= 0,
                ;
            }
        }
    }

    /// The seat slices of the first `k` shards, in shard order.
    pub open spec fn shard_slices(self, seats: Seq<Seat>, k: int) -> Seq<Seq<Seat>> {
        Seq::new(k as nat, |i: int| self.shard_seats_spec(i, seats))
    }

    /// The per-shard seat slices partition the assigned prefix of the pool:
    /// concatenated in shard order they give back exactly the seats at
    /// positions `[0, num_shards * seats_per_shard)`. Every assigned seat
    /// therefore lands in exactly one shard, no seat twice, none of the
    /// assigned prefix omitted, over shard indices `[0, num_shards)`.
    pub proof fn lemma_shard_seats_partition(self, seats: Seq<Seat>)
        requires
            seats.len() >= self.num_shards * self.seats_per_shard,
        ensures
            self.shard_slices(seats, self.num_shards as int).flatten() == seats.subrange(
                0,
                self.num_shards * self.seats_per_shard,
            ),
    {
        self.lemma_shard_seats_partition_prefix(seats, self.num_shards as int);
    }

    /// The first `k` shard slices concatenate to the pool prefix of length
    /// `k * seats_per_shard`.
    proof fn lemma_shard_seats_partition_prefix(self, seats: Seq<Seat>, k: int)
        requires
            0 <= k <= self.num_shards,
            seats.len() >= self.num_shards * self.seats_per_shard,
        ensures
            self.shard_slices(seats, k).flatten() == seats.subrange(0, k * self.seats_per_shard),
        decreases k,
    {
        let sps = self.seats_per_shard as int;
        if k == 0 {
            assert(self.shard_slices(seats, 0).flatten() =~= seats.subrange(0, 0));
        } else {
            self.lemma_shard_seats_partition_prefix(seats, k - 1);
            let prefix = self.shard_slices(seats, k - 1);
            let full = self.shard_slices(seats, k);
            assert(full =~= prefix.push(self.shard_seats_spec(k - 1, seats)));
            prefix.lemma_flatten_push(self.shard_seats_spec(k - 1, seats));
            assert((k - 1) * sps >= 0 && (k - 1) * sps == k * sps - sps && k * sps
                <= self.num_shards * sps) by (nonlinear_arith)
                requires
                    1 <= k <= self.num_shards,
                    sps >= 0,
            ;
            assert(seats.subrange(0, (k - 1) * sps) + seats.subrange((k - 1) * sps, k * sps)
                =~= seats.subrange(0, k * sps));
            assert(self.shard_seats_spec(k - 1, seats) =~= seats.subrange((k - 1) * sps, k * sps));
            assert(full.flatten() == prefix.flatten() + self.shard_seats_spec(k - 1, seats));
            assert(full.flatten() =~= seats.subrange(0, k * sps));
        }
    }
}

/// How many positions of a pool of length `len` fall to the shard starting
/// at offset `shard_idx` when stepping by `num_shards`.
pub open spec fn modulo_slot_count(len: int, shard_idx: int, num_shards: int) -> int
    recommends
        0 <= shard_idx,
        num_shards > 0,
{
    if shard_idx >= len {
        0
    } else {
        (len - shard_idx - 1) / num_shards + 1
    }
}

} // verus!
