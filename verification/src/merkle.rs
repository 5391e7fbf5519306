//! The Merkle verifier: recomputes a root from a leaf and an ordered proof
//! path, hashing each pair in sorted order under a fixed one-byte domain
//! prefix, and compares the result to an expected root. The sorted-pair
//! ordering makes the scheme independent of whether the leaf is a left or a
//! right child at each level.

use vstd::prelude::*;

use crate::pubkey::bytes32_eq;

verus! {

/// The keccak-256 digest of the concatenation of the given byte-strings.
/// The digest is a function of those bytes alone; it is named here and
/// computed only by the hashing wrapper below.
pub uninterp spec fn keccak256(parts: Seq<Seq<u8>>) -> Seq<u8>;

/// Relies on `keccak::hashv` of the ledger SDK: the keccak-256 digest of the
/// concatenation of the given byte-strings, 32 bytes, a function of those
/// bytes alone.
#[verifier::external_body]
fn keccak_hashv(p0: &[u8], p1: &[u8], p2: &[u8]) -> (r: [u8; 32])
    ensures
        r@ == keccak256(seq![p0@, p1@, p2@]),
{
    solana_program::keccak::hashv(&[p0, p1, p2]).to_bytes()
}

/// Lexicographic order on byte-strings: the first differing byte decides,
/// and a prefix comes before every extension of it.
pub open spec fn lex_le(a: Seq<u8>, b: Seq<u8>) -> bool
    decreases a.len(),
{
    if a.len() == 0 {
        true
    } else if b.len() == 0 {
        false
    } else if a.first() < b.first() {
        true
    } else if a.first() > b.first() {
        false
    } else {
        lex_le(a.drop_first(), b.drop_first())
    }
}

/// Whether `a` comes no later than `b` in byte-lexicographic order.
pub fn bytes32_le(a: &[u8; 32], b: &[u8; 32]) -> (r: bool)
    ensures
        r == lex_le(a@, b@),
{
    let mut i: usize = 0;
    proof {
        assert(a@.skip(0) =~= a@);
        assert(b@.skip(0) =~= b@);
    }
    while i < 32
        invariant
            i <= 32,
            lex_le(a@, b@) == lex_le(a@.skip(i as int), b@.skip(i as int)),
        decreases 32 - i,
    {
        if a[i] < b[i] {
            return true;
        }
        if a[i] > b[i] {
            return false;
        }
        proof {
            assert(a@.skip(i as int).drop_first() =~= a@.skip(i + 1));
            assert(b@.skip(i as int).drop_first() =~= b@.skip(i + 1));
        }
        i += 1;
    }
    proof {
        assert(a@.skip(32) =~= Seq::<u8>::empty());
    }
    true
}

/// The views of a proof path's hashes.
pub open spec fn hash_views(proof: Seq<[u8; 32]>) -> Seq<Seq<u8>> {
    proof.map_values(|p: [u8; 32]| p@)
}

/// One combining step: hash the sorted pair under the one-byte domain prefix.
pub open spec fn hash_pair(a: Seq<u8>, b: Seq<u8>) -> Seq<u8> {
    if lex_le(a, b) {
        keccak256(seq![seq![1u8], a, b])
    } else {
        keccak256(seq![seq![1u8], b, a])
    }
}

/// The root that folding the proof path onto the leaf produces.
pub open spec fn merkle_root(leaf: Seq<u8>, proof: Seq<Seq<u8>>) -> Seq<u8>
    decreases proof.len(),
{
    if proof.len() == 0 {
        leaf
    } else {
        merkle_root(hash_pair(leaf, proof.first()), proof.drop_first())
    }
}

/// Recompute the root committed to by `leaf` and the ordered proof path.
pub fn compute_merkle_root(leaf: &[u8; 32], proof: &Vec<[u8; 32]>) -> (r: [u8; 32])
    ensures
        r@ == merkle_root(leaf@, hash_views(proof@)),
{
    let prefix: [u8; 1] = [1u8; 1];
    let mut computed: [u8; 32] = *leaf;
    let mut i: usize = 0;
    proof {
        assert(hash_views(proof@).skip(0) =~= hash_views(proof@));
    }
    while i < proof.len()
        invariant
            i <= proof.len(),
            prefix@ =~= seq![1u8],
            merkle_root(leaf@, hash_views(proof@)) == merkle_root(
                computed@,
                hash_views(proof@).skip(i as int),
            ),
        decreases proof.len() - i,
    {
        let element = &proof[i];
        let next: [u8; 32] = if bytes32_le(&computed, element) {
            keccak_hashv(prefix.as_slice(), computed.as_slice(), element.as_slice())
        } else {
            keccak_hashv(prefix.as_slice(), element.as_slice(), computed.as_slice())
        };
        proof {
            assert(hash_views(proof@).skip(i as int).first() == proof@[i as int]@);
            assert(hash_views(proof@).skip(i as int).drop_first() =~= hash_views(proof@).skip(
                i + 1,
            ));
            assert(next@ == hash_pair(computed@, proof@[i as int]@));
        }
        computed = next;
        i += 1;
    }
    proof {
        assert(hash_views(proof@).skip(proof@.len() as int) =~= Seq::<Seq<u8>>::empty());
    }
    computed
}

/// Whether the proof path authenticates `leaf` under the expected `root`.
pub fn verify_merkle_proof(leaf: &[u8; 32], proof: &Vec<[u8; 32]>, root: &[u8; 32]) -> (r: bool)
    ensures
        r == (merkle_root(leaf@, hash_views(proof@)) == root@),
{
    let computed = compute_merkle_root(leaf, proof);
    bytes32_eq(&computed, root)
}

} // verus!
