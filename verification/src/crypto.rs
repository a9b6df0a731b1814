//! Accounts: keypair-backed identities. The Ed25519 primitives stand behind
//! trusted wrappers; everything above them (who signed what, for whom, until
//! when) is verified library logic.

use vstd::prelude::*;

verus! {

/// The public key derived from 32 secret-key bytes (RFC 8032 key derivation).
pub uninterp spec fn pk_of(secret: Seq<u8>) -> Seq<u8>;

/// The Ed25519 signature over `msg` by the key with 32 secret bytes `secret`.
/// Ed25519 signing is deterministic: the signature is a function of the
/// secret key and the message alone.
pub uninterp spec fn signature_of(secret: Seq<u8>, msg: Seq<u8>) -> Seq<u8>;

/// Whether Ed25519 verification accepts `sig` as a signature over `msg` by
/// the key with public bytes `public`. Acceptance is a function of the three
/// byte strings alone; unparsable key or signature bytes verify nothing.
pub uninterp spec fn sig_verifies(public: Seq<u8>, msg: Seq<u8>, sig: Seq<u8>) -> bool;

/// Relies on rand's `OsRng`: fills 32 bytes from the operating system's
/// entropy source. Nothing is promised of the bytes but their count; if the
/// entropy source itself fails, the call does not return — an environmental
/// failure no input can avoid.
#[verifier::external_body]
fn generate_secret_bytes() -> (r: Vec<u8>)
    ensures
        r@.len() == 32,
{
    let mut secret = [0u8; 32];
    rand::RngCore::fill_bytes(&mut rand::rngs::OsRng, &mut secret);
    secret.to_vec()
}

/// Relies on `ed25519_dalek::SigningKey::from_bytes` and `verifying_key`:
/// the 32-byte public key is derived from the 32 secret bytes alone.
#[verifier::external_body]
fn derive_public_bytes(secret: &Vec<u8>) -> (r: Vec<u8>)
    requires
        secret@.len() == 32,
    ensures
        r@ == pk_of(secret@),
        r@.len() == 32,
{
    let bytes: &[u8; 32] = secret.as_slice().try_into().unwrap();
    let key = ed25519_dalek::SigningKey::from_bytes(bytes);
    key.verifying_key().to_bytes().to_vec()
}

/// Relies on `ed25519_dalek::SigningKey::sign`: Ed25519 signatures are
/// deterministic (RFC 8032), and a fresh signature is accepted by
/// verification under the matching public key. The signature is 64 bytes.
#[verifier::external_body]
fn sign_raw(secret: &Vec<u8>, msg: &Vec<u8>) -> (r: Vec<u8>)
    requires
        secret@.len() == 32,
    ensures
        r@ == signature_of(secret@, msg@),
        r@.len() == 64,
        sig_verifies(pk_of(secret@), msg@, r@),
{
    let bytes: &[u8; 32] = secret.as_slice().try_into().unwrap();
    let key = ed25519_dalek::SigningKey::from_bytes(bytes);
    let sig = ed25519_dalek::Signer::sign(&key, msg.as_slice());
    sig.to_bytes().to_vec()
}

/// Relies on `ed25519_dalek::VerifyingKey::verify`: returns whether
/// verification accepts the signature; bytes that parse as no key or no
/// signature are rejected.
#[verifier::external_body]
fn verify_raw(public: &Vec<u8>, msg: &Vec<u8>, sig: &Vec<u8>) -> (r: bool)
    ensures
        r == sig_verifies(public@, msg@, sig@),
{
    let key_bytes: &[u8; 32] = match public.as_slice().try_into() {
        Ok(b) => b,
        Err(_) => return false,
    };
    let key = match ed25519_dalek::VerifyingKey::from_bytes(key_bytes) {
        Ok(k) => k,
        Err(_) => return false,
    };
    let sig = match ed25519_dalek::Signature::from_slice(sig.as_slice()) {
        Ok(s) => s,
        Err(_) => return false,
    };
    ed25519_dalek::Verifier::verify(&key, msg.as_slice(), &sig).is_ok()
}

/// The public, comparable identifier of an account: its 32 public-key bytes.
pub struct AccountRef {
    pub id: Vec<u8>,
}

impl View for AccountRef {
    type V = Seq<u8>;

    open spec fn view(&self) -> Seq<u8> {
        self.id@
    }
}

impl AccountRef {
    /// A reference is well formed when it holds exactly 32 bytes.
    pub open spec fn wf(&self) -> bool {
        self@.len() == 32
    }

    pub fn new(id: Vec<u8>) -> (r: AccountRef)
        requires
            id@.len() == 32,
        ensures
            r@ == id@,
            r.wf(),
    {
        AccountRef { id }
    }

    pub fn clone_ref(&self) -> (r: AccountRef)
        ensures
            r@ == self@,
    {
        AccountRef { id: crate::byteops::copy_range(&self.id, 0, self.id.len()) }
    }

    pub fn equals(&self, other: &AccountRef) -> (r: bool)
        ensures
            r == (self@ == other@),
    {
        let r = self.id == other.id;
        proof {
            if r {
                assert(self.id@ =~= other.id@);
            } else {
                if self.id@ == other.id@ {
                    assert(forall|i: int| 0 <= i < self.id@.len() ==> self.id@[i] == other.id@[i]);
                    assert(false);
                }
            }
        }
        r
    }
}

/// A keypair-backed identity: the private signing capability together with
/// the public reference derived from it. Never transmitted.
pub struct Account {
    secret: Vec<u8>,
    public: Vec<u8>,
}

impl Account {
    /// The 32 secret bytes, as they stand in contracts.
    pub closed spec fn secret_view(&self) -> Seq<u8> {
        self.secret@
    }

    /// The 32 public-key bytes, as they stand in contracts.
    pub closed spec fn public_view(&self) -> Seq<u8> {
        self.public@
    }

    /// An account is well formed when its public half is the one derived
    /// from its secret half.
    pub open spec fn wf(&self) -> bool {
        &&& self.secret_view().len() == 32
        &&& self.public_view() == pk_of(self.secret_view())
        &&& self.public_view().len() == 32
    }

    /// Generates a fresh account from operating-system entropy. Does not
    /// return if the operating system's entropy source fails.
    pub fn generate() -> (r: Account)
        ensures
            r.wf(),
    {
        let secret = generate_secret_bytes();
        let public = derive_public_bytes(&secret);
        Account { secret, public }
    }

    /// Rebuilds the account that owns the given 32 secret bytes.
    pub fn from_secret(secret: Vec<u8>) -> (r: Account)
        requires
            secret@.len() == 32,
        ensures
            r.wf(),
            r.secret_view() == secret@,
    {
        let public = derive_public_bytes(&secret);
        Account { secret, public }
    }

    /// The 32 secret bytes, for exporting the account to a sibling
    /// capability or to storage.
    pub fn secret_bytes(&self) -> (r: Vec<u8>)
        requires
            self.wf(),
        ensures
            r@ == self.secret_view(),
    {
        crate::byteops::copy_range(&self.secret, 0, self.secret.len())
    }

    /// The account's public reference.
    pub fn account_ref(&self) -> (r: AccountRef)
        requires
            self.wf(),
        ensures
            r@ == self.public_view(),
            r.wf(),
    {
        AccountRef { id: crate::byteops::copy_range(&self.public, 0, self.public.len()) }
    }

    /// Signs `msg` with the account's secret key.
    pub fn sign_msg(&self, msg: &Vec<u8>) -> (r: Vec<u8>)
        requires
            self.wf(),
        ensures
            r@ == signature_of(self.secret_view(), msg@),
            r@.len() == 64,
            sig_verifies(self.public_view(), msg@, r@),
    {
        sign_raw(&self.secret, msg)
    }
}

/// Whether `sig` is accepted as a signature over `msg` by the account with
/// public bytes `public`.
pub fn verify_msg(public: &Vec<u8>, msg: &Vec<u8>, sig: &Vec<u8>) -> (r: bool)
    ensures
        r == sig_verifies(public@, msg@, sig@),
{
    verify_raw(public, msg, sig)
}

} // verus!
