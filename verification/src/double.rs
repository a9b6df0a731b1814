//! Doubly signed envelopes. A `GuarantorSigned` is a whole envelope
//! re-signed by a second account acting as delegate or relay: the outer
//! signature covers the inner envelope's encoded bytes together with the
//! delegate's identity.

use vstd::prelude::*;

use crate::codec::spec_encode_envelope;
use crate::crypto::{sig_verifies, signature_of, Account, AccountRef};
use crate::envelope::{spec_verify, EnvelopeData, GuaranteeSigned};
use crate::errors::Error;

verus! {

/// The mathematical content of a doubly signed envelope.
pub struct DoubleData {
    pub inner: EnvelopeData,
    pub guarantor: Seq<u8>,
    pub signature: Seq<u8>,
}

/// The byte string an outer signature covers: the inner envelope's encoded
/// bytes, then the delegate's identity.
pub open spec fn spec_outer_bytes(inner: EnvelopeData, guarantor: Seq<u8>) -> Seq<u8> {
    spec_encode_envelope(inner) + guarantor
}

impl DoubleData {
    pub open spec fn wf(self) -> bool {
        &&& self.inner.wf()
        &&& self.guarantor.len() == 32
        &&& self.signature.len() == 64
    }

    /// Whether the outer signature verifies against the delegate's key.
    pub open spec fn outer_signed_ok(self) -> bool {
        sig_verifies(self.guarantor, spec_outer_bytes(self.inner, self.guarantor), self.signature)
    }
}

/// An envelope re-signed by a delegate.
pub struct GuarantorSigned {
    pub inner: GuaranteeSigned,
    pub guarantor: AccountRef,
    pub signature: Vec<u8>,
}

impl View for GuarantorSigned {
    type V = DoubleData;

    open spec fn view(&self) -> DoubleData {
        DoubleData { inner: self.inner@, guarantor: self.guarantor@, signature: self.signature@ }
    }
}

impl GuarantorSigned {
    pub open spec fn wf(&self) -> bool {
        self@.wf()
    }

    /// Re-signs an already signed envelope for delegated relaying. Fails
    /// fast with the signature error when the inner envelope's own
    /// signature is already invalid, before a second signature is added to
    /// bad data.
    pub fn sign_as_guarantor(account: &Account, inner: GuaranteeSigned) -> (r: Result<
        GuarantorSigned,
        Error,
    >)
        requires
            account.wf(),
        ensures
            r matches Ok(d) ==> {
                &&& inner@.signed_ok()
                &&& d@.inner == inner@
                &&& d@.guarantor == account.public_view()
                &&& d@.signature == signature_of(
                    account.secret_view(),
                    spec_outer_bytes(inner@, account.public_view()),
                )
                &&& d@.outer_signed_ok()
                &&& inner.wf() ==> d.wf()
            },
            r matches Err(e) ==> e == Error::BadSignature && !inner@.signed_ok(),
    {
        let msg = crate::envelope::signing_bytes(&inner.guarantee, inner.expiration, &inner.payload);
        if !crate::crypto::verify_msg(&inner.guarantor.id, &msg, &inner.signature) {
            return Err(Error::BadSignature);
        }
        let me = account.account_ref();
        let mut outer: Vec<u8> = Vec::new();
        crate::codec::encode_envelope(&mut outer, &inner);
        crate::byteops::push_bytes(&mut outer, &me.id);
        proof {
            assert(outer@ =~= spec_outer_bytes(inner@, account.public_view()));
        }
        let signature = account.sign_msg(&outer);
        Ok(GuarantorSigned { inner, guarantor: me, signature })
    }

    /// Validates both signatures: the inner envelope as `verify` does, then
    /// the outer signature against the delegate.
    pub fn verify(&self, expected_guarantee: Option<&AccountRef>, now: i64) -> (r: Result<
        (),
        Error,
    >)
        ensures
            r == spec_verify_double(
                self@,
                match expected_guarantee {
                    Some(g) => Some(g@),
                    None => None,
                },
                now,
            ),
    {
        match self.inner.verify(expected_guarantee, now) {
            Ok(()) => {
                let mut outer: Vec<u8> = Vec::new();
                crate::codec::encode_envelope(&mut outer, &self.inner);
                crate::byteops::push_bytes(&mut outer, &self.guarantor.id);
                proof {
                    assert(outer@ =~= spec_outer_bytes(self.inner@, self.guarantor@));
                }
                if !crate::crypto::verify_msg(&self.guarantor.id, &outer, &self.signature) {
                    return Err(Error::BadSignature);
                }
                Ok(())
            },
            Err(e) => Err(e),
        }
    }
}

/// What a doubly signed envelope's `verify` returns: the inner envelope is
/// judged first, then the outer signature.
pub open spec fn spec_verify_double(d: DoubleData, expected: Option<Seq<u8>>, now: i64) -> Result<
    (),
    Error,
> {
    if spec_verify(d.inner, expected, now) is Err {
        spec_verify(d.inner, expected, now)
    } else if !d.outer_signed_ok() {
        Err(Error::BadSignature)
    } else {
        Ok(())
    }
}

} // verus!
