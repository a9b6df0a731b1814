use ipiis::crypto::Account;
use ipiis::double::GuarantorSigned;
use ipiis::envelope::GuaranteeSigned;
use ipiis::errors::Error;

#[test]
fn sign_then_verify_succeeds_for_guarantee() {
    let a = Account::generate();
    let b = Account::generate();
    let b_ref = b.account_ref();
    let env = GuaranteeSigned::sign(&a, &b_ref, None, vec![1, 2, 3]);
    assert!(env.verify(Some(&b_ref), 0).is_ok());
    assert!(env.verify(None, 0).is_ok());
}

#[test]
fn sign_then_verify_rejects_other_guarantee() {
    let a = Account::generate();
    let b = Account::generate();
    let c = Account::generate();
    let env = GuaranteeSigned::sign(&a, &b.account_ref(), None, vec![9]);
    let r = env.verify(Some(&c.account_ref()), 0);
    assert!(matches!(r, Err(Error::GuaranteeMismatch)));
}

#[test]
fn expired_envelope_rejected_regardless_of_signature() {
    let a = Account::generate();
    let b = Account::generate();
    let b_ref = b.account_ref();
    // a valid signature, but the expiration lies in the past
    let env = GuaranteeSigned::sign(&a, &b_ref, Some(100), vec![5]);
    assert!(matches!(env.verify(Some(&b_ref), 101), Err(Error::Expired)));
    // an invalid signature as well: expiration is still judged first
    let mut tampered = GuaranteeSigned::sign(&a, &b_ref, Some(100), vec![5]);
    tampered.signature[0] ^= 0xFF;
    assert!(matches!(tampered.verify(Some(&b_ref), 101), Err(Error::Expired)));
    assert!(matches!(tampered.verify(None, 101), Err(Error::Expired)));
}

#[test]
fn expiration_boundary_is_inclusive() {
    let a = Account::generate();
    let b = Account::generate();
    let b_ref = b.account_ref();
    let env = GuaranteeSigned::sign(&a, &b_ref, Some(100), vec![5]);
    assert!(env.verify(Some(&b_ref), 100).is_ok());
    assert!(env.verify(Some(&b_ref), 99).is_ok());
    assert!(matches!(env.verify(Some(&b_ref), 101), Err(Error::Expired)));
}

#[test]
fn tampered_signature_rejected() {
    let a = Account::generate();
    let b = Account::generate();
    let b_ref = b.account_ref();
    let mut env = GuaranteeSigned::sign(&a, &b_ref, None, vec![1, 2, 3]);
    env.signature[10] ^= 0x01;
    assert!(matches!(env.verify(Some(&b_ref), 0), Err(Error::BadSignature)));
}

#[test]
fn tampered_payload_rejected() {
    let a = Account::generate();
    let b = Account::generate();
    let b_ref = b.account_ref();
    let mut env = GuaranteeSigned::sign(&a, &b_ref, None, vec![1, 2, 3]);
    env.payload[0] = 99;
    assert!(matches!(env.verify(Some(&b_ref), 0), Err(Error::BadSignature)));
}

#[test]
fn double_signing_keeps_both_signatures_honest() {
    let a = Account::generate();
    let b = Account::generate();
    let relay = Account::generate();
    let b_ref = b.account_ref();
    let inner = GuaranteeSigned::sign(&a, &b_ref, None, vec![7, 7]);
    let double = GuarantorSigned::sign_as_guarantor(&relay, inner).unwrap();
    assert!(double.verify(Some(&b_ref), 0).is_ok());
    // tampering with the outer signature is caught
    let inner2 = GuaranteeSigned::sign(&a, &b_ref, None, vec![7, 7]);
    let mut double2 = GuarantorSigned::sign_as_guarantor(&relay, inner2).unwrap();
    double2.signature[3] ^= 0x80;
    assert!(matches!(double2.verify(Some(&b_ref), 0), Err(Error::BadSignature)));
}

#[test]
fn double_signing_fails_fast_on_invalid_inner() {
    let a = Account::generate();
    let b = Account::generate();
    let relay = Account::generate();
    let mut inner = GuaranteeSigned::sign(&a, &b.account_ref(), None, vec![1]);
    inner.signature[0] ^= 0x01;
    let r = GuarantorSigned::sign_as_guarantor(&relay, inner);
    assert!(matches!(r, Err(Error::BadSignature)));
}

#[test]
fn account_from_secret_is_deterministic() {
    let secret: Vec<u8> = (0u8..32).collect();
    let a1 = Account::from_secret(secret.clone());
    let a2 = Account::from_secret(secret.clone());
    assert_eq!(a1.account_ref().id, a2.account_ref().id);
    // the public reference is derived, not the secret handed back
    assert_ne!(a1.account_ref().id, secret);
    assert_eq!(a1.secret_bytes(), secret);
    let other = Account::from_secret((1u8..33).collect());
    assert_ne!(a1.account_ref().id, other.account_ref().id);
}

#[test]
fn generated_accounts_are_distinct() {
    let a = Account::generate();
    let b = Account::generate();
    assert_eq!(a.account_ref().id.len(), 32);
    assert_ne!(a.account_ref().id, b.account_ref().id);
    // a signature is no echo of its message
    let env = GuaranteeSigned::sign(&a, &b.account_ref(), None, vec![0u8; 64]);
    assert_ne!(env.signature, vec![0u8; 64]);
    assert_eq!(env.signature.len(), 64);
}
