use ipld_core::cid::Cid;
use ipld_core::codec::{Codec, CodecImpl};
use ipld_core::error::{CodecError, UnsupportedCodec};
use ipld_core::ipld::Ipld;

#[test]
fn test_codec() {
    let bytes = CodecImpl.encode(&Ipld::Null).unwrap();
    let ipld: Ipld = CodecImpl.decode(&bytes).unwrap();
    assert_eq!(ipld, Ipld::Null);
}

#[test]
fn registered_code_round_trips() {
    let c = CodecImpl::try_from_code(0).unwrap();
    assert_eq!(c.into_code(), 0);
}

#[test]
fn unregistered_code_is_refused() {
    let e = CodecImpl::try_from_code(7).unwrap_err();
    assert_eq!(e, UnsupportedCodec(7));
}

#[test]
fn encode_null_is_a_single_zero_byte() {
    let bytes = CodecImpl.encode(&Ipld::Null).unwrap();
    assert_eq!(bytes, vec![0u8]);
}

#[test]
fn decode_zero_byte_is_null() {
    let ipld: Ipld = CodecImpl.decode(&[0u8]).unwrap();
    assert_eq!(ipld, Ipld::Null);
}

#[test]
fn decode_nonzero_byte_is_not_null() {
    let e = CodecImpl.decode::<Ipld>(&[1u8]).unwrap_err();
    assert_eq!(e, CodecError::NotNull);
}

#[test]
fn decode_empty_input_is_truncated() {
    let e = CodecImpl.decode::<Ipld>(&[]).unwrap_err();
    assert_eq!(e, CodecError::Truncated);
}

#[test]
fn encode_of_unrepresentable_value_fails() {
    let e = CodecImpl.encode(&Ipld::Bool(true)).unwrap_err();
    assert_eq!(e, CodecError::NotNull);
}

#[test]
fn references_of_a_null_block_are_empty() {
    let bytes = CodecImpl.encode(&Ipld::Null).unwrap();
    let mut sink: Vec<Cid> = Vec::new();
    CodecImpl.references::<Ipld>(&bytes, &mut sink).unwrap();
    assert!(sink.is_empty());
}

#[test]
fn references_of_a_malformed_block_fail() {
    let mut sink: Vec<Cid> = Vec::new();
    let e = CodecImpl.references::<Ipld>(&[1u8], &mut sink).unwrap_err();
    assert_eq!(e, CodecError::NotNull);
    assert!(sink.is_empty());
}

#[test]
fn cid_carries_codec_and_digest() {
    let c = Cid::new(7, vec![1u8, 2u8, 3u8]);
    assert_eq!(c.codec(), 7);
    assert_eq!(c.digest(), &vec![1u8, 2u8, 3u8]);
    assert_eq!(c.duplicate(), c);
    assert_ne!(Cid::new(7, vec![1u8]), c);
}
