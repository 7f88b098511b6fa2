//! Content identifiers.
//!
//! A content identifier combines the digest of a block's bytes with the
//! numeric code of the codec that produced them.  The store treats it as an
//! opaque, equality-comparable key: its construction (hashing, textual
//! encodings) happens outside this crate.
use vstd::prelude::*;

verus! {

/// Mathematical view of a content identifier.
#[verifier::ext_equal]
pub struct CidView {
    /// Numeric code of the codec the block was encoded with.
    pub codec: u64,
    /// Digest of the block's bytes.
    pub digest: Seq<u8>,
}

/// A content identifier: the primary key of a block.
///
/// Equal block bytes encoded under the same codec always carry an equal
/// identifier; this crate only relies on identifiers being immutable and
/// comparable.
#[derive(Debug, Eq, Hash)]
pub struct Cid {
    codec: u64,
    digest: Vec<u8>,
}

impl View for Cid {
    type V = CidView;

    closed spec fn view(&self) -> CidView {
        CidView { codec: self.codec, digest: self.digest@ }
    }
}

impl Cid {
    /// Builds an identifier from a codec code and a digest, as handed in by
    /// the external identifier library.
    pub fn new(codec: u64, digest: Vec<u8>) -> (r: Cid)
        ensures
            r@ == (CidView { codec, digest: digest@ }),
    {
        Cid { codec, digest }
    }

    /// The numeric code of the codec this identifier was produced under.
    pub fn codec(&self) -> (r: u64)
        ensures
            r == self@.codec,
    {
        self.codec
    }

    /// The digest part of the identifier.
    pub fn digest(&self) -> (r: &Vec<u8>)
        ensures
            r@ == self@.digest,
    {
        &self.digest
    }

    /// An owned copy of this identifier.
    pub fn duplicate(&self) -> (r: Cid)
        ensures
            r@ == self@,
    {
        let mut digest: Vec<u8> = Vec::new();
        let mut i: usize = 0;
        while i < self.digest.len()
            invariant
                i <= self.digest.len(),
                digest@ == self.digest@.subrange(0, i as int),
            decreases self.digest.len() - i,
        {
            digest.push(self.digest[i]);
            i = i + 1;
        }
        proof {
            assert(digest@ =~= self.digest@);
        }
        Cid { codec: self.codec, digest }
    }
}

impl PartialEq for Cid {
    /// Identifiers are equal when both the codec code and the digest agree.
    fn eq(&self, other: &Cid) -> (r: bool)
    {
        let codes_eq = self.codec == other.codec;
        let digests_eq = self.digest == other.digest;
        proof {
            if digests_eq {
                assert(self.digest@ =~= other.digest@);
            }
        }
        codes_eq && digests_eq
    }
}

impl vstd::std_specs::cmp::PartialEqSpecImpl for Cid {
    open spec fn obeys_eq_spec() -> bool {
        true
    }

    open spec fn eq_spec(&self, other: &Cid) -> bool {
        self@ == other@
    }
}

} // verus!
