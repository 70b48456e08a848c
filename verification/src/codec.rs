//! The typed codec boundary: capability traits that let typed values cross
//! the storage layer as opaque bytes, together with codecs for a few plain
//! types. Any type with a total serializer and a fallible deserializer that
//! inverts it may be stored and retrieved generically.

use vstd::prelude::*;

verus! {

/// A decode failure: stored bytes could not be interpreted as the requested
/// typed value. Constructed by `Decodable` implementations; surfaced by the
/// storage layer as `DbError::DecodeError`, never as an engine failure.
#[derive(Clone, Debug)]
pub struct ProtocolError {
    /// What was malformed about the bytes.
    pub message: String,
}

/// A value that can be serialized to a byte string. The encoder is total: it
/// cannot fail and it does not panic.
pub trait Encodable: Sized {
    /// The byte string this value serializes to.
    spec fn encoding(&self) -> Seq<u8>;

    /// Serializes this value to its byte string.
    fn to_vec(&self) -> (r: Vec<u8>)
        ensures
            r@ == self.encoding(),
    ;
}

/// A value that can be deserialized from a byte string, failing on malformed
/// input. Decoding is the left inverse of encoding — see
/// `lemma_decoding_inverts_encoding` — which is what makes stored values
/// round-trip.
pub trait Decodable: Encodable {
    /// What the byte string `bytes` decodes to: `Some` exactly on well-formed
    /// byte strings.
    spec fn decoding(bytes: Seq<u8>) -> Option<Self>;

    /// Deserializes a value from `bytes`; returns the decode failure on
    /// malformed input and never panics.
    fn read_from(bytes: &[u8]) -> (r: Result<Self, ProtocolError>)
        ensures
            match r {
                Ok(v) => Self::decoding(bytes@) == Some(v),
                Err(_) => Self::decoding(bytes@) is None,
            },
    ;

    /// Decoding inverts encoding: the bytes this value serializes to decode
    /// back to the value itself.
    proof fn lemma_decoding_inverts_encoding(&self)
        ensures
            Self::decoding(self.encoding()) == Some(*self),
    ;
}

/// The big-endian four-byte encoding of a 32-bit integer.
pub open spec fn u32_be_bytes(x: u32) -> Seq<u8> {
    seq![(x >> 24) as u8, (x >> 16) as u8, (x >> 8) as u8, x as u8]
}

/// The 32-bit integer read back from four big-endian bytes.
pub open spec fn u32_from_be(b: Seq<u8>) -> u32 {
    ((b[0] as u32) << 24) | ((b[1] as u32) << 16) | ((b[2] as u32) << 8) | (b[3] as u32)
}

impl Encodable for u32 {
    open spec fn encoding(&self) -> Seq<u8> {
        u32_be_bytes(*self)
    }

    fn to_vec(&self) -> (r: Vec<u8>) {
        let x = *self;
        let mut r: Vec<u8> = Vec::new();
        r.push((x >> 24) as u8);
        r.push((x >> 16) as u8);
        r.push((x >> 8) as u8);
        r.push(x as u8);
        proof {
            assert(r@ =~= u32_be_bytes(x));
        }
        r
    }
}

impl Decodable for u32 {
    open spec fn decoding(bytes: Seq<u8>) -> Option<u32> {
        if bytes.len() == 4 {
            Some(u32_from_be(bytes))
        } else {
            None
        }
    }

    fn read_from(bytes: &[u8]) -> (r: Result<u32, ProtocolError>) {
        if bytes.len() == 4 {
            let v = ((bytes[0] as u32) << 24) | ((bytes[1] as u32) << 16) | ((bytes[2] as u32)
                << 8) | (bytes[3] as u32);
            Ok(v)
        } else {
            Err(ProtocolError { message: "expected exactly four bytes".to_owned() })
        }
    }

    proof fn lemma_decoding_inverts_encoding(&self) {
        let x = *self;
        assert(((((x >> 24) as u8) as u32) << 24) | ((((x >> 16) as u8) as u32) << 16) | ((((x
            >> 8) as u8) as u32) << 8) | ((x as u8) as u32) == x) by (bit_vector);
        assert(u32_be_bytes(x).len() == 4);
        assert(u32_from_be(u32_be_bytes(x)) == x);
    }
}

/// The big-endian eight-byte encoding of a 64-bit integer.
pub open spec fn u64_be_bytes(x: u64) -> Seq<u8> {
    seq![
        (x >> 56) as u8,
        (x >> 48) as u8,
        (x >> 40) as u8,
        (x >> 32) as u8,
        (x >> 24) as u8,
        (x >> 16) as u8,
        (x >> 8) as u8,
        x as u8,
    ]
}

/// The 64-bit integer read back from eight big-endian bytes.
pub open spec fn u64_from_be(b: Seq<u8>) -> u64 {
    ((b[0] as u64) << 56) | ((b[1] as u64) << 48) | ((b[2] as u64) << 40) | ((b[3] as u64) << 32)
        | ((b[4] as u64) << 24) | ((b[5] as u64) << 16) | ((b[6] as u64) << 8) | (b[7] as u64)
}

impl Encodable for u64 {
    open spec fn encoding(&self) -> Seq<u8> {
        u64_be_bytes(*self)
    }

    fn to_vec(&self) -> (r: Vec<u8>) {
        let x = *self;
        let mut r: Vec<u8> = Vec::new();
        r.push((x >> 56) as u8);
        r.push((x >> 48) as u8);
        r.push((x >> 40) as u8);
        r.push((x >> 32) as u8);
        r.push((x >> 24) as u8);
        r.push((x >> 16) as u8);
        r.push((x >> 8) as u8);
        r.push(x as u8);
        proof {
            assert(r@ =~= u64_be_bytes(x));
        }
        r
    }
}

impl Decodable for u64 {
    open spec fn decoding(bytes: Seq<u8>) -> Option<u64> {
        if bytes.len() == 8 {
            Some(u64_from_be(bytes))
        } else {
            None
        }
    }

    fn read_from(bytes: &[u8]) -> (r: Result<u64, ProtocolError>) {
        if bytes.len() == 8 {
            let v = ((bytes[0] as u64) << 56) | ((bytes[1] as u64) << 48) | ((bytes[2] as u64)
                << 40) | ((bytes[3] as u64) << 32) | ((bytes[4] as u64) << 24) | ((bytes[5] as u64)
                << 16) | ((bytes[6] as u64) << 8) | (bytes[7] as u64);
            Ok(v)
        } else {
            Err(ProtocolError { message: "expected exactly eight bytes".to_owned() })
        }
    }

    proof fn lemma_decoding_inverts_encoding(&self) {
        let x = *self;
        assert(((((x >> 56) as u8) as u64) << 56) | ((((x >> 48) as u8) as u64) << 48) | ((((x
            >> 40) as u8) as u64) << 40) | ((((x >> 32) as u8) as u64) << 32) | ((((x
            >> 24) as u8) as u64) << 24) | ((((x >> 16) as u8) as u64) << 16) | ((((x
            >> 8) as u8) as u64) << 8) | ((x as u8) as u64) == x) by (bit_vector);
        assert(u64_be_bytes(x).len() == 8);
        assert(u64_from_be(u64_be_bytes(x)) == x);
    }
}

impl Encodable for () {
    open spec fn encoding(&self) -> Seq<u8> {
        Seq::empty()
    }

    fn to_vec(&self) -> (r: Vec<u8>) {
        let r: Vec<u8> = Vec::new();
        r
    }
}

/// The unit value is the canonical empty stored value: it encodes to the
/// empty byte string, which is a valid value distinct from absence.
impl Decodable for () {
    open spec fn decoding(bytes: Seq<u8>) -> Option<()> {
        if bytes.len() == 0 {
            Some(())
        } else {
            None
        }
    }

    fn read_from(bytes: &[u8]) -> (r: Result<(), ProtocolError>) {
        if bytes.len() == 0 {
            Ok(())
        } else {
            Err(ProtocolError { message: "expected an empty byte string".to_owned() })
        }
    }

    proof fn lemma_decoding_inverts_encoding(&self) {
    }
}

} // verus!
