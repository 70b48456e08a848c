//! Construction of physical keys from a logical table prefix and a caller key,
//! together with the byte-sequence orders and prefix facts that the scan and
//! isolation contracts are stated over.

use vstd::prelude::*;

verus! {

/// Whether the byte sequence `k` begins with the byte sequence `p`.
pub open spec fn starts_with(k: Seq<u8>, p: Seq<u8>) -> bool {
    p.len() <= k.len() && k.subrange(0, p.len() as int) == p
}

/// Strict lexicographic order on byte sequences; this is the storage engine's
/// native key order, in which prefix scans yield their entries.
pub open spec fn lex_lt(a: Seq<u8>, b: Seq<u8>) -> bool
    decreases a.len(),
{
    if b.len() == 0 {
        false
    } else if a.len() == 0 {
        true
    } else if a[0] < b[0] {
        true
    } else if a[0] > b[0] {
        false
    } else {
        lex_lt(a.subrange(1, a.len() as int), b.subrange(1, b.len() as int))
    }
}

/// Builds the physical key for table `prefix` and caller key `key`: the prefix
/// bytes followed by the key bytes, with no separator and no length framing.
/// Callers must choose prefixes such that no active prefix is a proper byte
/// prefix of another; see `lemma_distinct_prefixed_keys`.
pub fn prefixed_key(prefix: &[u8], key: &[u8]) -> (r: Vec<u8>)
    ensures
        r@ == prefix@ + key@,
{
    let mut buf = vstd::slice::slice_to_vec(prefix);
    let mut tail = vstd::slice::slice_to_vec(key);
    buf.append(&mut tail);
    buf
}

/// Whether the bytes `k` begin with the bytes `p`, decided by comparing the
/// first `p.len()` bytes.
pub fn has_prefix(k: &[u8], p: &[u8]) -> (b: bool)
    ensures
        b == starts_with(k@, p@),
{
    if p.len() > k.len() {
        return false;
    }
    let mut i: usize = 0;
    while i < p.len()
        invariant
            i <= p.len(),
            p.len() <= k.len(),
            p@.len() <= k@.len(),
            forall|j: int| 0 <= j < i ==> k@[j] == p@[j],
        decreases p.len() - i,
    {
        if k[i] != p[i] {
            proof {
                assert(k@.subrange(0, p@.len() as int)[i as int] != p@[i as int]);
            }
            return false;
        }
        i += 1;
    }
    proof {
        assert(k@.subrange(0, p@.len() as int) =~= p@);
    }
    true
}

/// Physical keys built from two prefixes, neither of which is a byte prefix of
/// the other, can never collide, whatever the caller keys are. This is the
/// caller discipline that makes one physical keyspace behave as disjoint
/// logical tables.
pub proof fn lemma_distinct_prefixed_keys(p1: Seq<u8>, k1: Seq<u8>, p2: Seq<u8>, k2: Seq<u8>)
    requires
        !starts_with(p1, p2),
        !starts_with(p2, p1),
    ensures
        p1 + k1 != p2 + k2,
{
    if p1 + k1 == p2 + k2 {
        if p1.len() <= p2.len() {
            assert((p1 + k1).subrange(0, p1.len() as int) =~= p1);
            assert((p2 + k2).subrange(0, p1.len() as int) =~= p2.subrange(0, p1.len() as int));
            assert(p2.subrange(0, p1.len() as int) == p1);
            assert(starts_with(p2, p1));
        } else {
            assert((p2 + k2).subrange(0, p2.len() as int) =~= p2);
            assert((p1 + k1).subrange(0, p2.len() as int) =~= p1.subrange(0, p2.len() as int));
            assert(p1.subrange(0, p2.len() as int) == p2);
            assert(starts_with(p1, p2));
        }
    }
}

/// A key that carries a prefix is lexicographically at least the prefix
/// itself, so all entries of one logical table form one contiguous ascending
/// range of the physical keyspace.
pub proof fn lemma_prefixed_key_ge_prefix(k: Seq<u8>, p: Seq<u8>)
    requires
        starts_with(k, p),
    ensures
        !lex_lt(k, p),
    decreases p.len(),
{
    if p.len() > 0 {
        assert(k[0] == p[0]);
        let k1 = k.subrange(1, k.len() as int);
        let p1 = p.subrange(1, p.len() as int);
        assert(k1.subrange(0, p1.len() as int) =~= k.subrange(0, p.len() as int).subrange(
            1,
            p.len() as int,
        ));
        assert(k1.subrange(0, p1.len() as int) =~= p1);
        lemma_prefixed_key_ge_prefix(k1, p1);
    }
}

} // verus!
