//! The derivation verifier: given a claimed identifier, an ordered list of
//! seed byte-strings and a program namespace, recompute the expected
//! deterministically-derived identifier and confirm equality. The result is
//! a pure function of namespace and seeds, so identical inputs always yield
//! identical outcomes.

use vstd::prelude::*;

use crate::error::RuleSetError;
use crate::pubkey::{bytes32_eq, Pubkey};

verus! {

/// The identifier (with its disambiguating bump byte) that the address
/// derivation scheme assigns to a namespace and a seed list, or nothing when
/// the scheme admits no valid result for them. It is a function of its
/// arguments alone; it is named here and computed only by the wrapper below.
pub uninterp spec fn derived_address(program: Seq<u8>, seeds: Seq<Seq<u8>>) -> Option<
    (Seq<u8>, u8),
>;

/// Relies on `Pubkey::try_find_program_address` of the ledger SDK: the
/// derived identifier and bump for a namespace and a seed list, a
/// deterministic function of its arguments alone, with no valid result
/// reported as `None`.
#[verifier::external_body]
fn find_derived_address(program: &Pubkey, seeds: &Vec<Vec<u8>>) -> (r: Option<(Pubkey, u8)>)
    ensures
        match r {
            Some(pair) => derived_address(program@, seeds.deep_view()) == Some(
                (pair.0@, pair.1),
            ),
            None => derived_address(program@, seeds.deep_view()) is None,
        },
{
    let slices: Vec<&[u8]> = seeds.iter().map(|s: &Vec<u8>| s.as_slice()).collect();
    let program = solana_program::pubkey::Pubkey::new_from_array(program.0);
    solana_program::pubkey::Pubkey::try_find_program_address(&slices, &program)
        .map(|(key, bump)| (Pubkey(key.to_bytes()), bump))
}

/// What verifying a claimed derivation decides: the discovered bump when the
/// derived identifier for `program` and `seeds` exists and has the bytes of
/// `target`, and a derivation failure otherwise.
pub open spec fn spec_assert_derivation(
    program: Seq<u8>,
    target: Seq<u8>,
    seeds: Seq<Seq<u8>>,
) -> Result<u8, RuleSetError> {
    match derived_address(program, seeds) {
        Some(pair) => if pair.0 == target {
            Ok(pair.1)
        } else {
            Err(RuleSetError::DerivedKeyMatchCheckFailed)
        },
        None => Err(RuleSetError::DerivedKeyMatchCheckFailed),
    }
}

/// Recompute the identifier derived from `program` and `seeds` and confirm
/// that it equals `target`, returning the discovered bump on success.
pub fn assert_derivation(program: &Pubkey, target: &Pubkey, seeds: &Vec<Vec<u8>>) -> (r: Result<
    u8,
    RuleSetError,
>)
    ensures
        r == spec_assert_derivation(program@, target@, seeds.deep_view()),
{
    match find_derived_address(program, seeds) {
        Some(pair) => {
            if bytes32_eq(&pair.0.0, &target.0) {
                Ok(pair.1)
            } else {
                Err(RuleSetError::DerivedKeyMatchCheckFailed)
            }
        },
        None => Err(RuleSetError::DerivedKeyMatchCheckFailed),
    }
}

/// Verification is deterministic: identical namespace, target and seeds
/// always decide identically, in every invocation.
pub proof fn lemma_derivation_deterministic(
    program1: Seq<u8>,
    target1: Seq<u8>,
    seeds1: Seq<Seq<u8>>,
    program2: Seq<u8>,
    target2: Seq<u8>,
    seeds2: Seq<Seq<u8>>,
)
    requires
        program1 == program2,
        target1 == target2,
        seeds1 == seeds2,
    ensures
        spec_assert_derivation(program1, target1, seeds1) == spec_assert_derivation(
            program2,
            target2,
            seeds2,
        ),
{
}

} // verus!
