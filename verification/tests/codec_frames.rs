use ipiis::codec::{decode_chunk, decode_envelope, encode_chunk, encode_envelope};
use ipiis::crypto::Account;
use ipiis::envelope::GuaranteeSigned;
use ipiis::errors::Error;
use ipiis::frame::{
    classify_flag, decode_response, encode_response_err, encode_response_ok, FlagKind, ACK_ERR,
    ACK_OK,
};

#[test]
fn chunk_framing_exact_bytes() {
    let mut out: Vec<u8> = Vec::new();
    encode_chunk(&mut out, &vec![1, 2, 3]);
    assert_eq!(out, vec![3, 0, 0, 0, 0, 0, 0, 0, 1, 2, 3]);
    let (payload, end) = decode_chunk(&out, 0).unwrap();
    assert_eq!(payload, vec![1, 2, 3]);
    assert_eq!(end, 11);
}

#[test]
fn truncated_chunk_rejected() {
    let mut out: Vec<u8> = Vec::new();
    encode_chunk(&mut out, &vec![1, 2, 3]);
    out.pop();
    assert!(matches!(decode_chunk(&out, 0), Err(Error::Malformed)));
    // a truncated header as well
    assert!(matches!(decode_chunk(&vec![3, 0, 0], 0), Err(Error::Malformed)));
}

#[test]
fn envelope_encoding_roundtrip() {
    let a = Account::generate();
    let b = Account::generate();
    let env = GuaranteeSigned::sign(&a, &b.account_ref(), Some(7_000_000), vec![42, 43]);
    let mut bytes: Vec<u8> = Vec::new();
    encode_envelope(&mut bytes, &env);
    let back = decode_envelope(&bytes).unwrap();
    assert_eq!(back.guarantor.id, env.guarantor.id);
    assert_eq!(back.guarantee.id, env.guarantee.id);
    assert_eq!(back.expiration, Some(7_000_000));
    assert_eq!(back.payload, vec![42, 43]);
    assert_eq!(back.signature, env.signature);
    assert!(back.verify(Some(&b.account_ref()), 0).is_ok());
}

#[test]
fn truncated_envelope_rejected() {
    let a = Account::generate();
    let b = Account::generate();
    let env = GuaranteeSigned::sign(&a, &b.account_ref(), None, Vec::new());
    let mut bytes: Vec<u8> = Vec::new();
    encode_envelope(&mut bytes, &env);
    bytes.truncate(100);
    assert!(matches!(decode_envelope(&bytes), Err(Error::Malformed)));
}

#[test]
fn noncanonical_expiration_bytes_rejected() {
    let a = Account::generate();
    let b = Account::generate();
    let env = GuaranteeSigned::sign(&a, &b.account_ref(), None, Vec::new());
    let mut bytes: Vec<u8> = Vec::new();
    encode_envelope(&mut bytes, &env);
    // absent expiration must carry zeroed timestamp bytes
    bytes[65] = 1;
    assert!(matches!(decode_envelope(&bytes), Err(Error::Malformed)));
    // and the tag itself may only be 0 or 1
    bytes[65] = 0;
    bytes[64] = 2;
    assert!(matches!(decode_envelope(&bytes), Err(Error::Malformed)));
}

#[test]
fn result_flag_classification() {
    assert!(matches!(classify_flag(ACK_OK), FlagKind::AckOk));
    assert!(matches!(classify_flag(ACK_ERR), FlagKind::AckErr));
    // the ACK bit alone, or all three bits, is an unknown ACK flag
    assert!(matches!(classify_flag(0x80), FlagKind::UnknownAck));
    assert!(matches!(classify_flag(0xE0), FlagKind::UnknownAck));
    // no ACK bit, or low bits set: not a flag at all
    assert!(matches!(classify_flag(0x40), FlagKind::Invalid));
    assert!(matches!(classify_flag(0x00), FlagKind::Invalid));
    assert!(matches!(classify_flag(0xC1), FlagKind::Invalid));
}

#[test]
fn response_ok_roundtrip_and_strictness() {
    let a = Account::generate();
    let b = Account::generate();
    let env = GuaranteeSigned::sign(&a, &b.account_ref(), None, vec![1]);
    let fields = vec![vec![10, 11], vec![], vec![12]];
    let frame = encode_response_ok(&env, &fields);
    assert_eq!(frame[0], ACK_OK);
    let (back_env, back_fields) = decode_response(&frame, 3).unwrap();
    assert_eq!(back_fields, fields);
    assert_eq!(back_env.signature, env.signature);
    // a second frame's worth of bytes on the same stream is rejected whole
    let mut padded = frame.clone();
    padded.extend_from_slice(&frame);
    assert!(matches!(decode_response(&padded, 3), Err(Error::Malformed)));
    // even one trailing byte is rejected
    let mut one_more = frame.clone();
    one_more.push(0);
    assert!(matches!(decode_response(&one_more, 3), Err(Error::Malformed)));
    // a truncated frame is rejected
    let mut short = frame.clone();
    short.pop();
    assert!(matches!(decode_response(&short, 3), Err(Error::Malformed)));
    // the field count is the schema's, not the sender's choice
    assert!(matches!(decode_response(&frame, 2), Err(Error::Malformed)));
}

#[test]
fn response_err_roundtrip_and_strictness() {
    let message = b"remote says no".to_vec();
    let frame = encode_response_err(&message);
    assert_eq!(frame[0], ACK_ERR);
    match decode_response(&frame, 0) {
        Err(Error::Remote { message: m }) => assert_eq!(m, message),
        r => panic!("expected the remote error, got {:?}", r.is_ok()),
    }
    let mut padded = frame.clone();
    padded.push(7);
    assert!(matches!(decode_response(&padded, 0), Err(Error::Malformed)));
}

#[test]
fn bad_flags_are_distinct_errors() {
    assert!(matches!(decode_response(&vec![0x80, 0, 0], 0), Err(Error::UnknownAckFlag { flag: 0x80 })));
    assert!(matches!(decode_response(&vec![0x01], 0), Err(Error::BadResultFlag { flag: 0x01 })));
    assert!(matches!(decode_response(&Vec::new(), 0), Err(Error::Malformed)));
}

#[test]
fn u64_little_endian_bytes_exact() {
    let mut v: Vec<u8> = Vec::new();
    ipiis::byteops::push_u64_le(&mut v, 0x0102030405060708);
    assert_eq!(v, vec![8, 7, 6, 5, 4, 3, 2, 1]);
    assert_eq!(ipiis::byteops::read_u64_le(&v, 0), 0x0102030405060708);
}

#[test]
fn negative_expiration_survives_the_wire() {
    let a = Account::generate();
    let b = Account::generate();
    let env = GuaranteeSigned::sign(&a, &b.account_ref(), Some(-5), vec![1]);
    let mut bytes: Vec<u8> = Vec::new();
    encode_envelope(&mut bytes, &env);
    let back = decode_envelope(&bytes).unwrap();
    assert_eq!(back.expiration, Some(-5));
    assert!(back.verify(Some(&b.account_ref()), -5).is_ok());
    assert!(matches!(back.verify(Some(&b.account_ref()), 0), Err(Error::Expired)));
}
