//! The storage layer's laws, stated over the store's abstract value — the map
//! from physical key bytes to value bytes that `store_encodable` inserts into
//! and `retrieve_decodable` reads — and proved once for every store state,
//! prefix, key and value.

use vstd::prelude::*;

use crate::codec::Decodable;
use crate::codec::Encodable;
use crate::keys::lemma_distinct_prefixed_keys;
use crate::keys::starts_with;

verus! {

/// Round trip: after a typed value is stored under a (prefix, key) pair, that
/// pair is present and its bytes decode back to the stored value — so a
/// retrieval of the same pair that the engine answers yields the value back.
pub proof fn lemma_round_trip<V: Decodable>(
    m: Map<Seq<u8>, Seq<u8>>,
    prefix: Seq<u8>,
    key: Seq<u8>,
    v: V,
)
    ensures
        m.insert(prefix + key, v.encoding()).contains_key(prefix + key),
        V::decoding(m.insert(prefix + key, v.encoding())[prefix + key]) == Some(v),
{
    v.lemma_decoding_inverts_encoding();
}

/// Namespace isolation: storing under one table never affects what any other
/// table holds, for tables whose prefixes are not byte prefixes of one
/// another — neither whether a pair is present nor what it holds.
pub proof fn lemma_namespace_isolation(
    m: Map<Seq<u8>, Seq<u8>>,
    p1: Seq<u8>,
    k1: Seq<u8>,
    v: Seq<u8>,
    p2: Seq<u8>,
    k2: Seq<u8>,
)
    requires
        !starts_with(p1, p2),
        !starts_with(p2, p1),
    ensures
        m.insert(p1 + k1, v).contains_key(p2 + k2) == m.contains_key(p2 + k2),
        m.contains_key(p2 + k2) ==> m.insert(p1 + k1, v)[p2 + k2] == m[p2 + k2],
{
    lemma_distinct_prefixed_keys(p1, k1, p2, k2);
}

/// Overwrite: storing twice under the same (prefix, key) pair leaves the
/// second value standing, never the first.
pub proof fn lemma_overwrite(
    m: Map<Seq<u8>, Seq<u8>>,
    prefix: Seq<u8>,
    key: Seq<u8>,
    v1: Seq<u8>,
    v2: Seq<u8>,
)
    ensures
        m.insert(prefix + key, v1).insert(prefix + key, v2).contains_key(prefix + key),
        m.insert(prefix + key, v1).insert(prefix + key, v2)[prefix + key] == v2,
{
}

} // verus!
