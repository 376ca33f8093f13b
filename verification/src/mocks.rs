//! Deterministic mock validator populations.

use vstd::prelude::*;

use crate::validator::RawValidatorData;

verus! {

/// The account label of the mock validator at position `i`, as produced by
/// std's formatting of the index.
pub uninterp spec fn account_label(i: u64) -> Seq<char>;

/// Relies on `format!` (std's formatting of a `u64`): the label is a
/// function of the index alone.
#[verifier::external_body]
fn account_name(i: u64) -> (r: String)
    ensures
        r@ == account_label(i),
{
    format!("validator_{i}")
}

/// Generates `num` instances of `RawValidatorData` each having the same
/// `stake`. Out of these validators the first `num_malicious` are malicious.
pub fn new_validators(num: u64, stake: u128, num_malicious: u64) -> (r: Vec<RawValidatorData>)
    ensures
        r@.len() == num,
        forall|i: int|
            0 <= i < num ==> {
                &&& (#[trigger] r@[i]).stake == stake
                &&& r@[i].is_malicious == (i < num_malicious)
                &&& r@[i].account_id@ == account_label(i as u64)
            },
{
    let mut validators: Vec<RawValidatorData> = Vec::new();
    let mut i: u64 = 0;
    while i < num
        invariant
            i <= num,
            validators@.len() == i,
            forall|j: int|
                0 <= j < i ==> {
                    &&& (#[trigger] validators@[j]).stake == stake
                    &&& validators@[j].is_malicious == (j < num_malicious)
                    &&& validators@[j].account_id@ == account_label(j as u64)
                },
        decreases num - i,
    {
        let account_id = account_name(i);
        let is_malicious = i < num_malicious;
        validators.push(RawValidatorData { account_id, stake, is_malicious });
        i += 1;
    }
    validators
}

/// The mock population used when no validator data file is given: 4000
/// validators with one unit of stake each, a third of them malicious. This
/// mirrors the population of Table 4 of the Montreal Blockchain Lab's
/// mathematical model of sharded-blockchain security, with the malicious
/// share of its Class B.
pub fn mock_validator_data() -> (r: Vec<RawValidatorData>)
    ensures
        r@.len() == 4000,
        forall|i: int|
            0 <= i < 4000 ==> {
                &&& (#[trigger] r@[i]).stake == 1
                &&& r@[i].is_malicious == (i < 1333)
                &&& r@[i].account_id@ == account_label(i as u64)
            },
{
    let num_validators: u64 = 4000;
    new_validators(num_validators, 1, num_validators / 3)
}

} // verus!
