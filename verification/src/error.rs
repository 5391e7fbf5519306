//! The error taxonomy: one stable identity per leaf predicate kind, plus the
//! overflow, structural-mismatch and not-implemented cases. A denial is never
//! a bare boolean; it always carries one of these identities.

use vstd::prelude::*;

verus! {

/// The specific reason an authorization check failed (or, for a passing
/// result, the identity of the last predicate consulted, kept only as
/// diagnostic context).
#[derive(Clone, Copy, Debug, PartialEq, Eq, Structural)]
pub enum RuleSetError {
    /// The additional-signer predicate did not hold.
    AdditionalSignerCheckFailed,
    /// The identifier-equality predicate did not hold.
    PubkeyMatchCheckFailed,
    /// The derived-identifier predicate did not hold.
    DerivedKeyMatchCheckFailed,
    /// The account-ownership predicate did not hold.
    ProgramOwnedCheckFailed,
    /// The amount predicate did not hold.
    AmountCheckFailed,
    /// The rate-limit predicate did not hold.
    FrequencyCheckFailed,
    /// The Merkle-membership predicate did not hold.
    PubkeyTreeMatchCheckFailed,
    /// Arithmetic in the rate-limit computation overflowed.
    NumericalOverflow,
    /// A structural pre-flight pass found no valid alternative.
    DataTypeMismatch,
    /// A composite node was asked for its own identity.
    NotImplemented,
}

} // verus!
