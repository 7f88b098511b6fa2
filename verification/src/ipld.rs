//! A small domain value and its encodings under the minimal codec.
use vstd::prelude::*;

verus! {

use crate::cid::{Cid, CidView};
use crate::codec::{Codec, CodecImpl, Decode, Encode, References};
use crate::error::CodecError;

/// A domain value that blocks decode to.
#[derive(Debug, PartialEq)]
pub enum Ipld {
    /// The null value: the only value the minimal codec represents.
    Null,
    /// A boolean value; not representable under the minimal codec.
    Bool(bool),
    /// A link to another block; not representable under the minimal codec.
    Link(Cid),
}

impl Ipld {
    /// The set of content identifiers structurally embedded in this value.
    pub open spec fn links(self) -> Set<CidView> {
        match self {
            Ipld::Link(c) => Set::empty().insert(c@),
            _ => Set::empty(),
        }
    }
}

impl Encode<CodecImpl> for Ipld {
    open spec fn spec_encodable(&self, c: CodecImpl) -> bool {
        *self is Null
    }

    open spec fn spec_encoding(&self, c: CodecImpl) -> Seq<u8> {
        seq![0u8]
    }

    open spec fn spec_encode_err(&self, c: CodecImpl) -> CodecError {
        CodecError::NotNull
    }

    fn encode(&self, c: CodecImpl, w: &mut Vec<u8>) -> (r: Result<(), CodecError>) {
        match self {
            Ipld::Null => {
                w.push(0u8);
                proof {
                    assert(w@ =~= old(w)@ + seq![0u8]);
                }
                Ok(())
            },
            _ => Err(CodecError::NotNull),
        }
    }
}

impl Decode<CodecImpl> for Ipld {
    open spec fn spec_decoded(c: CodecImpl, bytes: Seq<u8>) -> Option<Ipld> {
        if bytes.len() >= 1 && bytes[0] == 0u8 {
            Some(Ipld::Null)
        } else {
            None
        }
    }

    open spec fn spec_decode_err(c: CodecImpl, bytes: Seq<u8>) -> CodecError {
        if bytes.len() == 0 {
            CodecError::Truncated
        } else {
            CodecError::NotNull
        }
    }

    fn decode(c: CodecImpl, bytes: &[u8]) -> (r: Result<Ipld, CodecError>) {
        if bytes.len() == 0 {
            Err(CodecError::Truncated)
        } else if *vstd::slice::slice_index_get(bytes, 0) == 0u8 {
            Ok(Ipld::Null)
        } else {
            Err(CodecError::NotNull)
        }
    }
}

impl References<CodecImpl> for Ipld {
    open spec fn spec_references(c: CodecImpl, bytes: Seq<u8>) -> Option<Seq<CidView>> {
        if bytes.len() >= 1 && bytes[0] == 0u8 {
            Some(Seq::empty())
        } else {
            None
        }
    }

    open spec fn spec_references_err(c: CodecImpl, bytes: Seq<u8>) -> CodecError {
        if bytes.len() == 0 {
            CodecError::Truncated
        } else {
            CodecError::NotNull
        }
    }

    fn references(c: CodecImpl, bytes: &[u8], set: &mut Vec<Cid>) -> (r: Result<(), CodecError>) {
        if bytes.len() == 0 {
            Err(CodecError::Truncated)
        } else if *vstd::slice::slice_index_get(bytes, 0) == 0u8 {
            proof {
                assert(set@.map_values(|x: Cid| x@) =~= old(set)@.map_values(|x: Cid| x@)
                    + Seq::<CidView>::empty());
            }
            Ok(())
        } else {
            Err(CodecError::NotNull)
        }
    }
}

/// Law: for every value whose decode is defined, decoding an encoding of
/// the value under the same codec yields the value unchanged.
pub proof fn lemma_round_trip(v: Ipld)
    requires
        v.spec_encodable(CodecImpl),
    ensures
        <Ipld as Decode<CodecImpl>>::spec_decoded(CodecImpl, v.spec_encoding(CodecImpl)) == Some(
            v,
        ),
{
}

/// Law: scanning the encoding of a value reports exactly the set of
/// content identifiers structurally embedded in the value: no omissions
/// and no spurious entries.
pub proof fn lemma_reference_completeness(v: Ipld)
    requires
        v.spec_encodable(CodecImpl),
    ensures
        <Ipld as References<CodecImpl>>::spec_references(CodecImpl, v.spec_encoding(CodecImpl))
            matches Some(refs) && refs.to_set() == v.links(),
{
    let refs = <Ipld as References<CodecImpl>>::spec_references(
        CodecImpl,
        v.spec_encoding(CodecImpl),
    )->Some_0;
    assert(refs.to_set() =~= v.links());
}

} // verus!
