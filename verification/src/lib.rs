//! A declarative authorization engine: a tree of composable predicate rules
//! is evaluated against a set of supplied accounts and a structured payload,
//! yielding an allow/deny decision together with the error identity of the
//! predicate that determined the outcome.

pub mod accounts;
pub mod derivation;
pub mod error;
pub mod frequency;
pub mod merkle;
pub mod payload;
pub mod pubkey;
pub mod rules;
