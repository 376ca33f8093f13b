//! Validator data as delivered by an external validator-data source, and
//! the parsing of textual stake amounts.
//!
//! The network transport itself is outside this library; the data shape and
//! the stake parsing, which decide what reaches the simulation, live here.

use vstd::prelude::*;

use crate::error::SimError;

verus! {

/// The information per validator required to run a simulation.
#[derive(Debug, PartialEq)]
pub struct ValidatorData {
    pub account_id: String,
    /// The validator's stake, parsed from its textual representation.
    pub stake: u128,
    /// In case downloaded validator data contains no information whether a
    /// node is malicious this is `None`.
    pub is_malicious: Option<bool>,
}

/// Identifies a Near RPC endpoint and the block height for which validator
/// data is queried.
pub struct NearProtocol {
    /// The RPC endpoint to query. See [`Self::new`] for more info.
    pub rpc_url: String,
    /// The block height for which validator data is queried. See
    /// [`Self::new`] for more info.
    pub block: Option<u64>,
}

impl NearProtocol {
    /// Constructs an instance to download validator data from `rpc_url` for
    /// `block`.
    ///
    /// If `block` is `None`, data for the latest block will be downloaded.
    /// In case a block height is provided, it must refer to the last block
    /// of an epoch, as the RPC method for validation status demands.
    pub fn new(rpc_url: String, block: Option<u64>) -> (r: NearProtocol)
        ensures
            r.rpc_url@ == rpc_url@,
            r.block == block,
    {
        NearProtocol { rpc_url, block }
    }
}

/// Whether the byte is an ASCII decimal digit.
pub open spec fn is_dec_digit(b: u8) -> bool {
    48 <= b <= 57
}

/// The value of a sequence of ASCII decimal digits, most significant digit
/// first.
pub open spec fn dec_value(digits: Seq<u8>) -> int
    decreases digits.len(),
{
    if digits.len() == 0 {
        0
    } else {
        dec_value(digits.drop_last()) * 10 + (digits.last() - 48)
    }
}

/// A digit string denotes a non-negative value.
proof fn lemma_dec_value_nonneg(digits: Seq<u8>)
    requires
        forall|k: int| 0 <= k < digits.len() ==> is_dec_digit(#[trigger] digits[k]),
    ensures
        dec_value(digits) >= 0,
    decreases digits.len(),
{
    if digits.len() > 0 {
        lemma_dec_value_nonneg(digits.drop_last());
    }
}

/// In a digit string, every prefix denotes at most the value of the whole
/// string.
proof fn lemma_dec_value_prefix_le(digits: Seq<u8>, i: int)
    requires
        0 <= i <= digits.len(),
        forall|k: int| 0 <= k < digits.len() ==> is_dec_digit(#[trigger] digits[k]),
    ensures
        dec_value(digits.take(i)) <= dec_value(digits),
    decreases digits.len() - i,
{
    if i == digits.len() {
        assert(digits.take(i) =~= digits);
    } else {
        assert(digits.take(i + 1).drop_last() =~= digits.take(i));
        assert(digits.take(i + 1).last() == digits[i]);
        lemma_dec_value_nonneg(digits.take(i));
        lemma_dec_value_prefix_le(digits, i + 1);
    }
}

/// Parses a textual stake amount: one or more ASCII decimal digits whose
/// value fits an unsigned 128-bit integer. Anything else — an empty string, a
/// non-digit, or a value out of range — is a malformed stake.
pub fn parse_stake(text: &Vec<u8>) -> (r: Result<u128, SimError>)
    ensures
        r is Ok <==> (text@.len() > 0 && (forall|k: int|
            0 <= k < text@.len() ==> is_dec_digit(#[trigger] text@[k])) && dec_value(text@)
            <= u128::MAX),
        r matches Ok(v) ==> v == dec_value(text@),
        r is Err ==> r == Err::<u128, SimError>(SimError::MalformedStake),
{
    if text.len() == 0 {
        return Err(SimError::MalformedStake);
    }
    let mut value: u128 = 0;
    let mut i: usize = 0;
    while i < text.len()
        invariant
            i <= text@.len(),
            forall|k: int| 0 <= k < i ==> is_dec_digit(#[trigger] text@[k]),
            value == dec_value(text@.take(i as int)),
        decreases text@.len() - i,
    {
        let b = text[i];
        if b < 48 || b > 57 {
            return Err(SimError::MalformedStake);
        }
        let d = (b - 48) as u128;
        proof {
            assert(text@.take(i as int + 1).drop_last() =~= text@.take(i as int));
            assert(text@.take(i as int + 1).last() == text@[i as int]);
            lemma_dec_value_nonneg(text@.take(i as int));
            vstd::arithmetic::div_mod::lemma_fundamental_div_mod(u128::MAX - d, 10);
            vstd::arithmetic::div_mod::lemma_mod_bound(u128::MAX - d, 10);
        }
        if value > (u128::MAX - d) / 10 {
            proof {
                if forall|k: int| 0 <= k < text@.len() ==> is_dec_digit(#[trigger] text@[k]) {
                    lemma_dec_value_prefix_le(text@, i as int + 1);
                }
            }
            return Err(SimError::MalformedStake);
        }
        proof {
            vstd::arithmetic::mul::lemma_mul_inequality(
                value as int,
                ((u128::MAX - d) / 10) as int,
                10,
            );
        }
        value = value * 10 + d;
        i += 1;
    }
    proof {
        assert(text@.take(text@.len() as int) =~= text@);
    }
    Ok(value)
}

impl ValidatorData {
    /// Builds validator data from one entry of an RPC response: the account
    /// and the stake as decimal text. Whether the validator is malicious is
    /// unknown at download time.
    pub fn from_rpc(account_id: String, stake_text: &Vec<u8>) -> (r: Result<
        ValidatorData,
        SimError,
    >)
        ensures
            r is Ok <==> (stake_text@.len() > 0 && (forall|k: int|
                0 <= k < stake_text@.len() ==> is_dec_digit(#[trigger] stake_text@[k]))
                && dec_value(stake_text@) <= u128::MAX),
            r matches Ok(v) ==> {
                &&& v.account_id@ == account_id@
                &&& v.stake == dec_value(stake_text@)
                &&& v.is_malicious is None
            },
            r is Err ==> r == Err::<ValidatorData, SimError>(SimError::MalformedStake),
    {
        match parse_stake(stake_text) {
            Ok(stake) => Ok(ValidatorData { account_id, stake, is_malicious: None }),
            Err(e) => Err(e),
        }
    }
}

} // verus!
