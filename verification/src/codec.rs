//! The pluggable codec protocol.
//!
//! A codec tag identifies one binary encoding scheme and is uniquely
//! convertible to and from a numeric code shared with peers.  The three
//! companion protocols are generic over the tag, so one domain type can
//! offer several independent encodings: [`Encode`] turns a value into
//! bytes, [`Decode`] turns bytes back into a value, and [`References`]
//! scrapes the content identifiers embedded in an encoded block without
//! decoding it.
use vstd::prelude::*;

verus! {

use crate::cid::{Cid, CidView};
use crate::error::{CodecError, UnsupportedCodec};

/// A codec registry value: a small, copyable tag in bijection with the
/// registered part of a numeric code space.
pub trait Codec: Sized + Copy {
    /// The numeric code this tag was constructed from.
    spec fn spec_code(&self) -> u64;

    /// Whether a numeric code is registered for this codec family.
    spec fn spec_registered(code: u64) -> bool;

    /// The tag a registered numeric code constructs.
    spec fn spec_from_code(code: u64) -> Self;

    /// A registered code constructs the tag that maps back to that code.
    proof fn lemma_from_code_round_trip(code: u64)
        requires
            Self::spec_registered(code),
        ensures
            Self::spec_from_code(code).spec_code() == code,
    ;

    /// Every tag carries a registered code, and that code constructs the
    /// tag back: conversion is total on the tags the system hands out.
    proof fn lemma_tag_round_trip(&self)
        ensures
            Self::spec_registered(self.spec_code()),
            Self::spec_from_code(self.spec_code()) == *self,
    ;

    /// The numeric code of this tag.
    fn into_code(&self) -> (code: u64)
        ensures
            code == self.spec_code(),
    ;

    /// Validates a numeric code at construction: a registered code yields
    /// its tag, an unrecognized code fails naming the offending code.
    fn try_from_code(code: u64) -> (r: Result<Self, UnsupportedCodec>)
        ensures
            r is Ok <==> Self::spec_registered(code),
            r matches Ok(c) ==> c == Self::spec_from_code(code),
            r matches Err(e) ==> e == (UnsupportedCodec(code)),
    ;

    /// Encodes an encodable value into a fresh byte block.
    fn encode<T: Encode<Self>>(&self, obj: &T) -> (r: Result<Vec<u8>, CodecError>)
        ensures
            r is Ok <==> obj.spec_encodable(*self),
            r matches Ok(bytes) ==> bytes@ == obj.spec_encoding(*self),
            r matches Err(e) ==> e == obj.spec_encode_err(*self),
    {
        let mut buf: Vec<u8> = Vec::new();
        match obj.encode(*self, &mut buf) {
            Ok(()) => {
                proof {
                    assert(buf@ =~= obj.spec_encoding(*self));
                }
                Ok(buf)
            },
            Err(e) => Err(e),
        }
    }

    /// Decodes a decodable value from a byte block.
    fn decode<T: Decode<Self>>(&self, bytes: &[u8]) -> (r: Result<T, CodecError>)
        ensures
            r is Ok <==> T::spec_decoded(*self, bytes@) is Some,
            r matches Ok(v) ==> T::spec_decoded(*self, bytes@) == Some(v),
            r matches Err(e) ==> e == T::spec_decode_err(*self, bytes@),
    {
        T::decode(*self, bytes)
    }

    /// Scrapes the references out of a byte block.
    fn references<T: References<Self>>(&self, bytes: &[u8], set: &mut Vec<Cid>) -> (r: Result<
        (),
        CodecError,
    >)
        ensures
            r is Ok <==> T::spec_references(*self, bytes@) is Some,
            r is Ok ==> (T::spec_references(*self, bytes@) matches Some(refs) && final(set)@.map_values(
                |x: Cid| x@,
            ) == old(set)@.map_values(|x: Cid| x@) + refs),
            r is Err ==> final(set)@ == old(set)@,
            r matches Err(e) ==> e == T::spec_references_err(*self, bytes@),
    {
        T::references(*self, bytes, set)
    }
}

/// The minimal codec: registered under numeric code zero, it represents
/// exactly the null value, encoded as a single zero byte.
#[derive(Clone, Copy, Debug)]
pub struct CodecImpl;

impl Codec for CodecImpl {
    open spec fn spec_code(&self) -> u64 {
        0
    }

    open spec fn spec_registered(code: u64) -> bool {
        code == 0
    }

    open spec fn spec_from_code(code: u64) -> Self {
        CodecImpl
    }

    proof fn lemma_from_code_round_trip(code: u64) {
    }

    proof fn lemma_tag_round_trip(&self) {
    }

    fn into_code(&self) -> (code: u64) {
        0
    }

    fn try_from_code(code: u64) -> (r: Result<Self, UnsupportedCodec>) {
        if code == 0 {
            Ok(CodecImpl)
        } else {
            Err(UnsupportedCodec(code))
        }
    }
}

/// Law: for every registered numeric code, converting to a codec tag and
/// back yields the code unchanged.  That an unregistered code is refused
/// with the unsupported-codec condition is part of the contract of
/// [`Codec::try_from_code`].
pub proof fn lemma_code_round_trip<C: Codec>(code: u64)
    requires
        C::spec_registered(code),
    ensures
        C::spec_from_code(code).spec_code() == code,
{
    C::lemma_from_code_round_trip(code);
}

/// The encode half of a serialization contract, generic over a codec so
/// that one type can support several codecs.
pub trait Encode<C: Copy> {
    /// Whether this value is representable under codec `c`; encoding fails
    /// exactly on the values that are not.
    spec fn spec_encodable(&self, c: C) -> bool;

    /// The bytes this value encodes to under codec `c`.  Encoding is a pure
    /// function of the value and the codec: equal values always produce
    /// equal bytes, which content addressing relies on.
    spec fn spec_encoding(&self, c: C) -> Seq<u8>;

    /// The error reported when the value is not representable.
    spec fn spec_encode_err(&self, c: C) -> CodecError;

    /// Appends the encoding of this value to `w`.
    fn encode(&self, c: C, w: &mut Vec<u8>) -> (r: Result<(), CodecError>)
        ensures
            r is Ok <==> self.spec_encodable(c),
            r is Ok ==> final(w)@ == old(w)@ + self.spec_encoding(c),
            r matches Err(e) ==> e == self.spec_encode_err(c),
    ;
}

/// The decode half of a serialization contract, generic over a codec so
/// that one type can support several codecs.
pub trait Decode<C: Copy>: Sized {
    /// The value a byte block decodes to under codec `c`, or `None` where
    /// the block is truncated, malformed or of the wrong type.
    spec fn spec_decoded(c: C, bytes: Seq<u8>) -> Option<Self>;

    /// The error reported for a block that does not decode.
    spec fn spec_decode_err(c: C, bytes: Seq<u8>) -> CodecError;

    /// Decodes a value from a byte block: deterministic, and on failure no
    /// partially constructed value escapes.
    fn decode(c: C, bytes: &[u8]) -> (r: Result<Self, CodecError>)
        ensures
            r is Ok <==> Self::spec_decoded(c, bytes@) is Some,
            r matches Ok(v) ==> Self::spec_decoded(c, bytes@) == Some(v),
            r matches Err(e) ==> e == Self::spec_decode_err(c, bytes@),
    ;
}

/// Reference scraping, generic over a codec: extracts the content
/// identifiers embedded in an encoded block without decoding it into a
/// domain value.
pub trait References<C: Copy>: Sized {
    /// The identifiers embedded in `bytes`, in the order the scan reports
    /// them, or `None` where the block is malformed.  Behaviour must equal
    /// "decode fully, then collect every identifier".
    spec fn spec_references(c: C, bytes: Seq<u8>) -> Option<Seq<CidView>>;

    /// The error reported for a malformed block.
    spec fn spec_references_err(c: C, bytes: Seq<u8>) -> CodecError;

    /// Appends every content identifier embedded in `bytes` to `set`.
    fn references(c: C, bytes: &[u8], set: &mut Vec<Cid>) -> (r: Result<(), CodecError>)
        ensures
            r is Ok <==> Self::spec_references(c, bytes@) is Some,
            r is Ok ==> (Self::spec_references(c, bytes@) matches Some(refs) && final(set)@.map_values(
                |x: Cid| x@,
            ) == old(set)@.map_values(|x: Cid| x@) + refs),
            r is Err ==> final(set)@ == old(set)@,
            r matches Err(e) ==> e == Self::spec_references_err(c, bytes@),
    ;
}

} // verus!
