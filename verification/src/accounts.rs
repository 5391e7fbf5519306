//! The account references the engine consumes: per identifier, a capability
//! bundle exposing a signer flag, an owner identifier, and the rate-limit
//! state the account resolves to, if it resolves at all. The engine receives
//! them as a mapping from identifier to reference; a missing identifier is a
//! lookup failure, never a crash.

use vstd::prelude::*;

use crate::pubkey::{pubkey_eq, Pubkey};

verus! {

/// Persisted rate-limit state: the timestamp of the last use and the
/// configured cooldown period.
#[derive(Clone, Copy, Debug)]
pub struct FrequencyAccount {
    pub last_update: u64,
    pub period: u64,
}

/// What the engine may ask of one account: its signer flag, its owner, and
/// its resolution into rate-limit state (`None` when the account's data does
/// not parse as such state).
#[derive(Clone, Copy, Debug)]
pub struct AccountRef {
    pub is_signer: bool,
    pub owner: Pubkey,
    pub frequency: Option<FrequencyAccount>,
}

/// One entry of the accounts mapping.
#[derive(Clone, Copy, Debug)]
pub struct AccountEntry {
    pub key: Pubkey,
    pub account: AccountRef,
}

/// The accounts mapping handed to an evaluation: identifier to reference.
/// When one identifier appears more than once, the last entry wins.
#[derive(Debug)]
pub struct Accounts {
    pub entries: Vec<AccountEntry>,
}

/// The reference that `key` names among `entries`: the last entry whose key
/// has those bytes, or nothing.
pub open spec fn spec_lookup(entries: Seq<AccountEntry>, key: Seq<u8>) -> Option<AccountRef>
    decreases entries.len(),
{
    if entries.len() == 0 {
        None
    } else if entries.last().key@ == key {
        Some(entries.last().account)
    } else {
        spec_lookup(entries.drop_last(), key)
    }
}

impl Accounts {
    /// Look an identifier up in the mapping.
    pub fn get(&self, key: &Pubkey) -> (r: Option<&AccountRef>)
        ensures
            match r {
                Some(a) => spec_lookup(self.entries@, key@) == Some(*a),
                None => spec_lookup(self.entries@, key@) is None,
            },
    {
        let mut i: usize = self.entries.len();
        proof {
            assert(self.entries@.take(i as int) =~= self.entries@);
        }
        while i > 0
            invariant
                i <= self.entries.len(),
                spec_lookup(self.entries@, key@) == spec_lookup(
                    self.entries@.take(i as int),
                    key@,
                ),
            decreases i,
        {
            i -= 1;
            proof {
                assert(self.entries@.take(i + 1).last() == self.entries@[i as int]);
                assert(self.entries@.take(i + 1).drop_last() =~= self.entries@.take(i as int));
            }
            if pubkey_eq(&self.entries[i].key, key) {
                return Some(&self.entries[i].account);
            }
        }
        proof {
            assert(self.entries@.take(0) =~= Seq::<AccountEntry>::empty());
        }
        None
    }
}

} // verus!
