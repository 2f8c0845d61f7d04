//! Generic byte-serialization of message payloads.
//!
//! A payload that crosses the channel implements [`Packed`]: it can turn
//! itself into an owned byte buffer and be rebuilt from one.  Every
//! implementation carries its own proof that unpacking what was packed
//! gives the original value back, so the round trip holds for any payload
//! the rest of the protocol is instantiated with.

use vstd::prelude::*;

verus! {

/// Message packager: turns a value into a byte buffer and rebuilds it
/// from one.
///
/// `spec_pack` is the mathematical encoding of a value and `spec_unpack`
/// the mathematical decoding of arbitrary bytes, stated at the level of
/// the type's view.  Decoding is total over bytes: bytes that no value
/// of the type packs to decode to `None`.
pub trait Packed: Sized + View {
    /// The byte sequence this value packs to.
    spec fn spec_pack(&self) -> Seq<u8>;

    /// The view of the value, if any, that the given bytes unpack to.
    spec fn spec_unpack(data: Seq<u8>) -> Option<Self::V>;

    /// Law: unpacking a packed value yields that value back.
    proof fn lemma_pack_round_trip(&self)
        ensures
            Self::spec_unpack(self.spec_pack()) == Some(self@);

    /// Pack the message into an owned byte buffer.
    fn pack(&self) -> (r: Vec<u8>)
        ensures
            r@ == self.spec_pack(),
    ;

    /// Unpack a message from a byte slice; `None` when the bytes are not
    /// an encoding of any value of this type.
    fn unpack(data: &[u8]) -> (r: Option<Self>)
        ensures
            match r {
                Some(v) => Self::spec_unpack(data@) == Some(v@),
                None => Self::spec_unpack(data@) is None,
            },
    ;
}

impl Packed for u64 {
    open spec fn spec_pack(&self) -> Seq<u8> {
        vstd::bytes::spec_u64_to_le_bytes(*self)
    }

    open spec fn spec_unpack(data: Seq<u8>) -> Option<u64> {
        if data.len() == 8 {
            Some(vstd::bytes::spec_u64_from_le_bytes(data))
        } else {
            None
        }
    }

    proof fn lemma_pack_round_trip(&self) {
        vstd::bytes::lemma_auto_spec_u64_to_from_le_bytes();
    }

    fn pack(&self) -> (r: Vec<u8>) {
        vstd::bytes::u64_to_le_bytes(*self)
    }

    fn unpack(data: &[u8]) -> (r: Option<u64>) {
        if data.len() == 8 {
            Some(vstd::bytes::u64_from_le_bytes(data))
        } else {
            None
        }
    }
}

impl Packed for Vec<u8> {
    /// A byte payload packs to itself.
    open spec fn spec_pack(&self) -> Seq<u8> {
        self@
    }

    open spec fn spec_unpack(data: Seq<u8>) -> Option<Seq<u8>> {
        Some(data)
    }

    proof fn lemma_pack_round_trip(&self) {
    }

    fn pack(&self) -> (r: Vec<u8>) {
        let mut r: Vec<u8> = Vec::new();
        r.extend_from_slice(self.as_slice());
        r
    }

    fn unpack(data: &[u8]) -> (r: Option<Vec<u8>>) {
        let mut r: Vec<u8> = Vec::new();
        r.extend_from_slice(data);
        Some(r)
    }
}

} // verus!
