//! The payload model: an ordered list of typed contextual fields is folded
//! into a fixed-shape record with named, optional slots (target, holder,
//! authority, amount). Later fields for the same slot overwrite earlier ones.
//! A slot may carry an identifier, a seed list, or a Merkle proof; rule
//! leaves resolve the shape they need by payload key.

use vstd::prelude::*;

use crate::pubkey::Pubkey;

verus! {

/// An ordered list of seed byte-strings for a derived-identifier check.
#[derive(Debug)]
pub struct SeedsVec {
    pub seeds: Vec<Vec<u8>>,
}

/// A Merkle proof: a 32-byte leaf and its ordered path of sibling hashes.
#[derive(Debug)]
pub struct LeafInfo {
    pub leaf: [u8; 32],
    pub proof: Vec<[u8; 32]>,
}

/// A value carried in one of the identifier slots of the payload.
#[derive(Debug)]
pub enum PayloadType {
    Pubkey(Pubkey),
    Seeds(SeedsVec),
    MerkleProof(LeafInfo),
}

/// A discriminant selecting which contextual slot a rule leaf reads.
#[derive(Clone, Copy, Debug, PartialEq, Eq, Structural)]
pub enum PayloadKey {
    Target,
    Holder,
    Authority,
    Amount,
}

/// One entry of the caller-supplied payload list.
#[derive(Debug)]
pub enum PayloadField {
    Target(PayloadType),
    Holder(PayloadType),
    Authority(PayloadType),
    Amount(u64),
}

/// The normalized payload: four optional slots, built once per evaluation.
#[derive(Debug)]
pub struct ParsedPayload {
    pub target: Option<PayloadType>,
    pub holder: Option<PayloadType>,
    pub authority: Option<PayloadType>,
    pub amount: Option<u64>,
}

/// The payload with every slot empty.
pub open spec fn empty_payload() -> ParsedPayload {
    ParsedPayload { target: None, holder: None, authority: None, amount: None }
}

/// The record that folding `fields` left to right produces: each field fills
/// its slot, and a later field for the same slot wins.
pub open spec fn parse_fields(fields: Seq<PayloadField>) -> ParsedPayload
    decreases fields.len(),
{
    if fields.len() == 0 {
        empty_payload()
    } else {
        apply_field(parse_fields(fields.drop_last()), fields.last())
    }
}

/// One step of the fold: `f` overwrites its slot of `p`.
pub open spec fn apply_field(p: ParsedPayload, f: PayloadField) -> ParsedPayload {
    match f {
        PayloadField::Target(v) => ParsedPayload { target: Some(v), ..p },
        PayloadField::Holder(v) => ParsedPayload { holder: Some(v), ..p },
        PayloadField::Authority(v) => ParsedPayload { authority: Some(v), ..p },
        PayloadField::Amount(a) => ParsedPayload { amount: Some(a), ..p },
    }
}

/// The typed value in the slot that `key` selects; the amount slot carries a
/// number, not a typed value, so it yields none here.
pub open spec fn spec_slot(p: ParsedPayload, key: PayloadKey) -> Option<PayloadType> {
    match key {
        PayloadKey::Target => p.target,
        PayloadKey::Holder => p.holder,
        PayloadKey::Authority => p.authority,
        PayloadKey::Amount => None,
    }
}

/// The identifier in the slot that `key` selects, if that slot holds one.
pub open spec fn spec_get_pubkey(p: ParsedPayload, key: PayloadKey) -> Option<Pubkey> {
    match spec_slot(p, key) {
        Some(PayloadType::Pubkey(pk)) => Some(pk),
        _ => None,
    }
}

/// The seed list in the slot that `key` selects, if that slot holds one.
pub open spec fn spec_get_seeds(p: ParsedPayload, key: PayloadKey) -> Option<SeedsVec> {
    match spec_slot(p, key) {
        Some(PayloadType::Seeds(s)) => Some(s),
        _ => None,
    }
}

/// The Merkle proof in the slot that `key` selects, if that slot holds one.
pub open spec fn spec_get_merkle_proof(p: ParsedPayload, key: PayloadKey) -> Option<LeafInfo> {
    match spec_slot(p, key) {
        Some(PayloadType::MerkleProof(l)) => Some(l),
        _ => None,
    }
}

impl ParsedPayload {
    /// Normalize an ordered field list into the fixed-shape record.
    pub fn from_fields(fields: Vec<PayloadField>) -> (r: ParsedPayload)
        ensures
            r == parse_fields(fields@),
    {
        let ghost all = fields@;
        let mut fields = fields;
        let mut p = ParsedPayload { target: None, holder: None, authority: None, amount: None };
        let mut i: usize = 0;
        let n: usize = fields.len();
        proof {
            assert(all.len() == n);
            assert(all.take(0) =~= Seq::<PayloadField>::empty());
        }
        while fields.len() > 0
            invariant
                all.len() <= usize::MAX,
                i + fields.len() == all.len(),
                fields@ =~= all.skip(i as int),
                p == parse_fields(all.take(i as int)),
            decreases fields.len(),
        {
            let f = fields.remove(0);
            proof {
                assert(f == all[i as int]);
                assert(all.take(i + 1).drop_last() =~= all.take(i as int));
                assert(all.take(i + 1).last() == all[i as int]);
            }
            match f {
                PayloadField::Target(v) => p.target = Some(v),
                PayloadField::Holder(v) => p.holder = Some(v),
                PayloadField::Authority(v) => p.authority = Some(v),
                PayloadField::Amount(a) => p.amount = Some(a),
            }
            i += 1;
        }
        proof {
            assert(all.take(i as int) =~= all);
        }
        p
    }

    /// The identifier at `key`, or nothing if that slot is empty or holds
    /// another shape.
    pub fn get_pubkey(&self, key: PayloadKey) -> (r: Option<Pubkey>)
        ensures
            r == spec_get_pubkey(*self, key),
    {
        let slot = match key {
            PayloadKey::Target => &self.target,
            PayloadKey::Holder => &self.holder,
            PayloadKey::Authority => &self.authority,
            PayloadKey::Amount => return None,
        };
        match slot {
            Some(PayloadType::Pubkey(pk)) => Some(*pk),
            _ => None,
        }
    }

    /// The seed list at `key`, or nothing if that slot is empty or holds
    /// another shape.
    pub fn get_seeds(&self, key: PayloadKey) -> (r: Option<&SeedsVec>)
        ensures
            match r {
                Some(s) => spec_get_seeds(*self, key) == Some(*s),
                None => spec_get_seeds(*self, key) is None,
            },
    {
        let slot = match key {
            PayloadKey::Target => &self.target,
            PayloadKey::Holder => &self.holder,
            PayloadKey::Authority => &self.authority,
            PayloadKey::Amount => return None,
        };
        match slot {
            Some(PayloadType::Seeds(s)) => Some(s),
            _ => None,
        }
    }

    /// The Merkle proof at `key`, or nothing if that slot is empty or holds
    /// another shape.
    pub fn get_merkle_proof(&self, key: PayloadKey) -> (r: Option<&LeafInfo>)
        ensures
            match r {
                Some(l) => spec_get_merkle_proof(*self, key) == Some(*l),
                None => spec_get_merkle_proof(*self, key) is None,
            },
    {
        let slot = match key {
            PayloadKey::Target => &self.target,
            PayloadKey::Holder => &self.holder,
            PayloadKey::Authority => &self.authority,
            PayloadKey::Amount => return None,
        };
        match slot {
            Some(PayloadType::MerkleProof(l)) => Some(l),
            _ => None,
        }
    }
}

impl Default for ParsedPayload {
    /// The payload with every slot empty.
    fn default() -> (r: Self)
        ensures
            r == empty_payload(),
    {
        ParsedPayload { target: None, holder: None, authority: None, amount: None }
    }
}

} // verus!
