//! Targets and hashes as 256-bit numbers, least significant byte first.
use vstd::prelude::*;

verus! {

/// The number that the bytes of `s` spell, least significant byte first.
pub open spec fn le_value(s: Seq<u8>) -> nat
    decreases s.len(),
{
    if s.len() == 0 {
        0
    } else {
        s[0] as nat + 256 * le_value(s.drop_first())
    }
}

/// Whether `hash` is at most `target`, both read as numbers.
pub open spec fn meets_target(hash: Seq<u8>, target: Seq<u8>) -> bool {
    le_value(hash) <= le_value(target)
}

/// The lesser of two targets; the first where they are the same number.
pub open spec fn lesser_target(a: Seq<u8>, b: Seq<u8>) -> Seq<u8> {
    if le_value(a) <= le_value(b) {
        a
    } else {
        b
    }
}

/// Of two byte strings of one length that agree above place `i`, the one
/// with the lesser byte at `i` spells the lesser number.
pub proof fn lemma_le_value_decided(a: Seq<u8>, b: Seq<u8>, i: int)
    requires
        a.len() == b.len(),
        0 <= i < a.len(),
        a[i] < b[i],
        forall|j: int| i < j < a.len() ==> a[j] == b[j],
    ensures
        le_value(a) < le_value(b),
    decreases a.len(),
{
    let ra = a.drop_first();
    let rb = b.drop_first();
    if i == 0 {
        assert(ra =~= rb);
    } else {
        assert forall|j: int| i - 1 < j < ra.len() implies ra[j] == rb[j] by {
            assert(a[j + 1] == b[j + 1]);
        }
        lemma_le_value_decided(ra, rb, i - 1);
    }
}

/// Whether `hash` meets `target`: whether, as a number, it is at most the
/// target.
pub fn does_hash_meet_target(hash: &[u8], target: &[u8]) -> (meets: bool)
    requires
        hash@.len() == target@.len(),
    ensures
        meets == meets_target(hash@, target@),
{
    let mut i: usize = hash.len();
    while i > 0
        invariant
            i <= hash@.len(),
            hash@.len() == target@.len(),
            forall|j: int| i <= j < hash@.len() ==> hash@[j] == target@[j],
        decreases i,
    {
        i -= 1;
        if hash[i] > target[i] {
            proof {
                lemma_le_value_decided(target@, hash@, i as int);
            }
            return false;
        } else if target[i] > hash[i] {
            proof {
                lemma_le_value_decided(hash@, target@, i as int);
            }
            return true;
        }
    }
    assert(hash@ =~= target@);
    true
}

/// The lesser of two targets; the first where they are the same number.
pub fn min_le(a: [u8; 32], b: [u8; 32]) -> (least: [u8; 32])
    ensures
        least@ == lesser_target(a@, b@),
{
    if does_hash_meet_target(a.as_slice(), b.as_slice()) {
        a
    } else {
        b
    }
}

/// The lesser target is one of the two, and a hash meets it exactly when it
/// meets both.
pub proof fn lemma_lesser_target_meets(hash: Seq<u8>, a: Seq<u8>, b: Seq<u8>)
    ensures
        lesser_target(a, b) == a || lesser_target(a, b) == b,
        meets_target(hash, lesser_target(a, b)) <==> meets_target(hash, a) && meets_target(hash, b),
{
}

} // verus!
