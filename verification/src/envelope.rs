//! Signed envelopes. A `GuaranteeSigned` binds a payload to the account that
//! signed it (the guarantor), the account it is meant for (the guarantee) and
//! an optional expiration; a `GuarantorSigned` re-signs a whole envelope for
//! delegated relaying. Verification checks expiration, guarantee and
//! signature, each failure with its own error.

use vstd::prelude::*;

use crate::byteops::spec_u64_le;
use crate::crypto::{pk_of, sig_verifies, signature_of, Account, AccountRef};
use crate::errors::Error;

verus! {

/// The mathematical content of an envelope.
pub struct EnvelopeData {
    pub guarantor: Seq<u8>,
    pub guarantee: Seq<u8>,
    pub expiration: Option<i64>,
    pub payload: Seq<u8>,
    pub signature: Seq<u8>,
}

/// The nine bytes that stand for an optional expiration: a presence tag,
/// then the timestamp's little-endian bytes (zero when absent).
pub open spec fn spec_expiration_bytes(e: Option<i64>) -> Seq<u8> {
    match e {
        Some(t) => seq![1u8] + spec_u64_le(t as u64),
        None => seq![0u8] + spec_u64_le(0),
    }
}

/// The canonical byte string that a guarantee signature covers: the
/// guarantee's identity, the expiration and the payload. The guarantor is
/// bound by the key that signs, not by these bytes.
pub open spec fn spec_signing_bytes(guarantee: Seq<u8>, expiration: Option<i64>, payload: Seq<u8>) -> Seq<u8> {
    guarantee + spec_expiration_bytes(expiration) + payload
}

impl EnvelopeData {
    /// Structural well-formedness: identity and signature lengths.
    pub open spec fn wf(self) -> bool {
        &&& self.guarantor.len() == 32
        &&& self.guarantee.len() == 32
        &&& self.signature.len() == 64
    }

    /// Whether the signature verifies against the guarantor's key.
    pub open spec fn signed_ok(self) -> bool {
        sig_verifies(
            self.guarantor,
            spec_signing_bytes(self.guarantee, self.expiration, self.payload),
            self.signature,
        )
    }

    /// Whether the envelope's expiration lies strictly before `now`.
    pub open spec fn expired(self, now: i64) -> bool {
        match self.expiration {
            Some(t) => now > t,
            None => false,
        }
    }
}

/// The envelope built by signing `payload` with `secret` for `guarantee`.
pub open spec fn spec_sign(secret: Seq<u8>, guarantee: Seq<u8>, expiration: Option<i64>, payload: Seq<u8>) -> EnvelopeData {
    EnvelopeData {
        guarantor: pk_of(secret),
        guarantee,
        expiration,
        payload,
        signature: signature_of(secret, spec_signing_bytes(guarantee, expiration, payload)),
    }
}

/// What `verify` returns: expiration is judged first, then the expected
/// guarantee, then the signature.
pub open spec fn spec_verify(e: EnvelopeData, expected: Option<Seq<u8>>, now: i64) -> Result<(), Error> {
    if e.expired(now) {
        Err(Error::Expired)
    } else if expected matches Some(g) && g != e.guarantee {
        Err(Error::GuaranteeMismatch)
    } else if !e.signed_ok() {
        Err(Error::BadSignature)
    } else {
        Ok(())
    }
}

/// A payload signed by its guarantor for a single intended recipient.
pub struct GuaranteeSigned {
    pub guarantor: AccountRef,
    pub guarantee: AccountRef,
    pub expiration: Option<i64>,
    pub payload: Vec<u8>,
    pub signature: Vec<u8>,
}

impl View for GuaranteeSigned {
    type V = EnvelopeData;

    open spec fn view(&self) -> EnvelopeData {
        EnvelopeData {
            guarantor: self.guarantor@,
            guarantee: self.guarantee@,
            expiration: self.expiration,
            payload: self.payload@,
            signature: self.signature@,
        }
    }
}

/// The expiration bytes, executably.
pub fn expiration_bytes(e: Option<i64>) -> (r: Vec<u8>)
    ensures
        r@ == spec_expiration_bytes(e),
{
    let mut out: Vec<u8> = Vec::new();
    match e {
        Some(t) => {
            out.push(1);
            crate::byteops::push_u64_le(&mut out, t as u64);
            assert(out@ =~= spec_expiration_bytes(e));
        },
        None => {
            out.push(0);
            crate::byteops::push_u64_le(&mut out, 0);
            assert(out@ =~= spec_expiration_bytes(e));
        },
    }
    out
}

/// The canonical byte string covered by a guarantee signature, executably.
pub fn signing_bytes(guarantee: &AccountRef, expiration: Option<i64>, payload: &Vec<u8>) -> (r: Vec<u8>)
    ensures
        r@ == spec_signing_bytes(guarantee@, expiration, payload@),
{
    let mut out = crate::byteops::copy_range(&guarantee.id, 0, guarantee.id.len());
    let exp = expiration_bytes(expiration);
    crate::byteops::push_bytes(&mut out, &exp);
    crate::byteops::push_bytes(&mut out, payload);
    assert(out@ =~= spec_signing_bytes(guarantee@, expiration, payload@));
    out
}

impl GuaranteeSigned {
    pub open spec fn wf(&self) -> bool {
        self@.wf()
    }

    /// Builds an envelope with `account` as guarantor, `target` as
    /// guarantee, and a fresh signature over the canonical bytes of
    /// (guarantee, expiration, payload).
    pub fn sign(account: &Account, target: &AccountRef, expiration: Option<i64>, payload: Vec<u8>) -> (e: GuaranteeSigned)
        requires
            account.wf(),
            target.wf(),
        ensures
            e@ == spec_sign(account.secret_view(), target@, expiration, payload@),
            e.wf(),
            e@.signed_ok(),
            e@.guarantor == account.public_view(),
            e@.guarantee == target@,
            e@.expiration == expiration,
            e@.payload == payload@,
    {
        let msg = signing_bytes(target, expiration, &payload);
        let signature = account.sign_msg(&msg);
        GuaranteeSigned {
            guarantor: account.account_ref(),
            guarantee: target.clone_ref(),
            expiration,
            payload,
            signature,
        }
    }

    /// Validates the envelope: not expired at `now`, addressed to
    /// `expected_guarantee` when one is given, and carrying a signature that
    /// verifies against the guarantor. Each failure has its own error.
    pub fn verify(&self, expected_guarantee: Option<&AccountRef>, now: i64) -> (r: Result<(), Error>)
        ensures
            r == spec_verify(
                self@,
                match expected_guarantee {
                    Some(g) => Some(g@),
                    None => None,
                },
                now,
            ),
    {
        if let Some(t) = self.expiration {
            if now > t {
                return Err(Error::Expired);
            }
        }
        if let Some(expected) = expected_guarantee {
            if !expected.equals(&self.guarantee) {
                return Err(Error::GuaranteeMismatch);
            }
        }
        let msg = signing_bytes(&self.guarantee, self.expiration, &self.payload);
        if !crate::crypto::verify_msg(&self.guarantor.id, &msg, &self.signature) {
            return Err(Error::BadSignature);
        }
        Ok(())
    }
}

/// Signing then verifying succeeds exactly for the signed-for guarantee: an
/// envelope that carries a verifying signature — as every envelope built by
/// `sign` does — and has not expired verifies under its own guarantee, and
/// fails with a guarantee mismatch under every other expected guarantee.
pub proof fn lemma_sign_then_verify(e: EnvelopeData, expected: Seq<u8>, now: i64)
    requires
        e.signed_ok(),
        !e.expired(now),
    ensures
        expected == e.guarantee ==> spec_verify(e, Some(expected), now) == Ok::<(), Error>(()),
        expected != e.guarantee ==> spec_verify(e, Some(expected), now) == Err::<(), Error>(
            Error::GuaranteeMismatch,
        ),
{
}

/// An envelope whose expiration lies in the past is rejected with the
/// expiration error, regardless of its signature and of the expected
/// guarantee.
pub proof fn lemma_expired_rejected(e: EnvelopeData, expected: Option<Seq<u8>>, now: i64)
    requires
        e.expiration matches Some(t) && now > t,
    ensures
        spec_verify(e, expected, now) == Err::<(), Error>(Error::Expired),
{
}

} // verus!
