//! The transport client's verified state and logic: its own account, the
//! primary-account setting, the address cache keyed by account reference,
//! and the pure halves of `call` — building a signed request frame and
//! checking a reply frame. Opening streams and moving bytes is I/O and
//! stays outside the library.

use vstd::prelude::*;

use crate::crypto::{Account, AccountRef};
use crate::envelope::{spec_sign, spec_verify, GuaranteeSigned};
use crate::errors::Error;

verus! {

/// A transport address, carried as opaque bytes (for instance the UTF-8
/// text of a socket address). The library stores and forwards it; only the
/// connecting code interprets it.
pub struct Address {
    pub bytes: Vec<u8>,
}

impl View for Address {
    type V = Seq<u8>;

    open spec fn view(&self) -> Seq<u8> {
        self.bytes@
    }
}

impl Address {
    pub fn new(bytes: Vec<u8>) -> (r: Address)
        ensures
            r@ == bytes@,
    {
        Address { bytes }
    }

    pub fn clone_addr(&self) -> (r: Address)
        ensures
            r@ == self@,
    {
        Address { bytes: crate::byteops::copy_range(&self.bytes, 0, self.bytes.len()) }
    }
}

/// The address that an entry list maps `key` to: the first entry with that
/// account reference wins.
pub open spec fn spec_lookup(entries: Seq<(AccountRef, Address)>, key: Seq<u8>) -> Option<Seq<u8>>
    decreases entries.len(),
{
    if entries.len() == 0 {
        None
    } else if entries[0].0@ == key {
        Some(entries[0].1@)
    } else {
        spec_lookup(entries.drop_first(), key)
    }
}

/// Updating the address under one key leaves every other key's address as
/// it was.
proof fn lemma_lookup_update(entries: Seq<(AccountRef, Address)>, i: int, v: (AccountRef, Address), key: Seq<u8>)
    requires
        0 <= i < entries.len(),
        entries[i].0@ == v.0@,
        forall|j: int| 0 <= j < i ==> entries[j].0@ != v.0@,
    ensures
        spec_lookup(entries.update(i, v), v.0@) == Some::<Seq<u8>>(v.1@),
        key != v.0@ ==> spec_lookup(entries.update(i, v), key) == spec_lookup(entries, key),
    decreases entries.len(),
{
    if i == 0 {
        assert(entries.update(0, v)[0] == v);
        if key != v.0@ {
            assert(entries.update(0, v).drop_first() =~= entries.drop_first());
        }
    } else {
        assert(entries.update(i, v)[0] == entries[0]);
        assert(entries.update(i, v).drop_first() =~= entries.drop_first().update(i - 1, v));
        assert(forall|j: int|
            0 <= j < i - 1 ==> entries.drop_first()[j] == entries[j + 1]
                && #[trigger] entries.drop_first()[j].0@ != v.0@);
        lemma_lookup_update(entries.drop_first(), i - 1, v, key);
    }
}

/// Appending an entry under a fresh key binds that key and leaves every
/// other key's address as it was.
proof fn lemma_lookup_push(entries: Seq<(AccountRef, Address)>, v: (AccountRef, Address), key: Seq<u8>)
    requires
        forall|j: int| 0 <= j < entries.len() ==> entries[j].0@ != v.0@,
    ensures
        spec_lookup(entries.push(v), v.0@) == Some::<Seq<u8>>(v.1@),
        key != v.0@ ==> spec_lookup(entries.push(v), key) == spec_lookup(entries, key),
    decreases entries.len(),
{
    let p = entries.push(v);
    if entries.len() == 0 {
        assert(p[0] == v);
        assert(p.drop_first() =~= Seq::<(AccountRef, Address)>::empty());
        assert(spec_lookup(p, v.0@) == Some::<Seq<u8>>(v.1@));
        if key != v.0@ {
            assert(spec_lookup(p, key) == spec_lookup(p.drop_first(), key));
            assert(spec_lookup(p.drop_first(), key) == None::<Seq<u8>>);
        }
    } else {
        assert(p[0] == entries[0]);
        assert(p.drop_first() =~= entries.drop_first().push(v));
        assert(forall|j: int|
            0 <= j < entries.len() - 1 ==> entries.drop_first()[j] == entries[j + 1]
                && #[trigger] entries.drop_first()[j].0@ != v.0@);
        lemma_lookup_push(entries.drop_first(), v, key);
        assert(entries[0].0@ != v.0@);
        assert(spec_lookup(p, v.0@) == spec_lookup(p.drop_first(), v.0@));
        assert(spec_lookup(p.drop_first(), v.0@) == Some::<Seq<u8>>(v.1@));
        if key != v.0@ {
            if entries[0].0@ == key {
                assert(spec_lookup(p, key) == Some::<Seq<u8>>(entries[0].1@));
                assert(spec_lookup(entries, key) == Some::<Seq<u8>>(entries[0].1@));
            } else {
                assert(spec_lookup(p, key) == spec_lookup(p.drop_first(), key));
                assert(spec_lookup(entries, key) == spec_lookup(entries.drop_first(), key));
            }
        }
    }
}

/// A peer node's client capability: its account, the primary account it
/// defers to, and the address cache.
pub struct Client {
    pub account: Account,
    pub primary: Option<AccountRef>,
    pub addresses: Vec<(AccountRef, Address)>,
}

impl Client {
    pub open spec fn wf(&self) -> bool {
        &&& self.account.wf()
        &&& match self.primary {
            Some(p) => p.wf(),
            None => true,
        }
    }

    /// The client's address cache, as the map it denotes.
    pub open spec fn addr_of(&self, key: Seq<u8>) -> Option<Seq<u8>> {
        spec_lookup(self.addresses@, key)
    }

    /// The client's own public identity bytes.
    pub open spec fn me(&self) -> Seq<u8> {
        self.account.public_view()
    }

    pub fn new(account: Account, primary: Option<AccountRef>) -> (r: Client)
        requires
            account.wf(),
            primary matches Some(p) ==> p.wf(),
        ensures
            r.wf(),
            r.account == account,
            r.primary == primary,
            r.addresses@ =~= Seq::<(AccountRef, Address)>::empty(),
    {
        Client { account, primary, addresses: Vec::new() }
    }

    /// The client's own account.
    pub fn account_me(&self) -> (r: &Account)
        ensures
            r == &self.account,
    {
        &self.account
    }

    /// The primary account this node defers to, or an error when none was
    /// ever set.
    pub fn account_primary(&self) -> (r: Result<AccountRef, Error>)
        ensures
            match r {
                Ok(p) => self.primary matches Some(q) && p@ == q@,
                Err(e) => e == Error::AddressNotFound && self.primary is None,
            },
    {
        match &self.primary {
            Some(p) => Ok(p.clone_ref()),
            None => Err(Error::AddressNotFound),
        }
    }

    /// Reads the primary account, as the address-resolution exchange
    /// reports it.
    pub fn get_account_primary(&self) -> (r: Result<AccountRef, Error>)
        ensures
            match r {
                Ok(p) => self.primary matches Some(q) && p@ == q@,
                Err(e) => e == Error::AddressNotFound && self.primary is None,
            },
    {
        self.account_primary()
    }

    /// Replaces the primary account.
    pub fn set_account_primary(&mut self, account: AccountRef)
        requires
            account.wf(),
        ensures
            final(self).primary matches Some(p) && p@ == account@,
            final(self).account == old(self).account,
            final(self).addresses == old(self).addresses,
    {
        self.primary = Some(account);
    }

    /// The cached address of `target`, or an error on a cache miss.
    pub fn get_address(&self, target: &AccountRef) -> (r: Result<Address, Error>)
        ensures
            match r {
                Ok(a) => self.addr_of(target@) == Some(a@),
                Err(e) => e == Error::AddressNotFound && self.addr_of(target@) is None,
            },
    {
        let n: usize = self.addresses.len();
        proof {
            assert(self.addresses@.skip(0) =~= self.addresses@);
        }
        let mut i: usize = 0;
        while i < n
            invariant
                i <= n,
                n == self.addresses@.len(),
                spec_lookup(self.addresses@.skip(i as int), target@) == spec_lookup(
                    self.addresses@,
                    target@,
                ),
                forall|j: int| 0 <= j < i ==> #[trigger] self.addresses@[j].0@ != target@,
            decreases n - i,
        {
            proof {
                assert(self.addresses@.skip(i as int)[0] == self.addresses@[i as int]);
            }
            if self.addresses[i].0.equals(target) {
                return Ok(self.addresses[i].1.clone_addr());
            }
            proof {
                assert(self.addresses@.skip(i as int).drop_first() =~= self.addresses@.skip(
                    i as int + 1,
                ));
            }
            i = i + 1;
        }
        proof {
            assert(self.addresses@.skip(n as int) =~= Seq::<(AccountRef, Address)>::empty());
        }
        Err(Error::AddressNotFound)
    }

    /// Caches `address` as the address of `target`: afterwards `target`
    /// resolves to it and every other account resolves as before.
    pub fn set_address(&mut self, target: &AccountRef, address: Address)
        ensures
            final(self).addr_of(target@) == Some(address@),
            forall|k: Seq<u8>| k != target@ ==> final(self).addr_of(k) == old(self).addr_of(k),
            final(self).account == old(self).account,
            final(self).primary == old(self).primary,
    {
        let n: usize = self.addresses.len();
        let mut i: usize = 0;
        while i < n
            invariant
                i <= n,
                *self == *old(self),
                n == self.addresses@.len(),
                forall|j: int| 0 <= j < i ==> #[trigger] self.addresses@[j].0@ != target@,
            decreases n - i,
        {
            if self.addresses[i].0.equals(target) {
                let entry = (target.clone_ref(), address);
                proof {
                    lemma_lookup_update(self.addresses@, i as int, (entry.0, entry.1), target@);
                    assert(forall|k: Seq<u8>|
                        k != target@ ==> spec_lookup(
                            self.addresses@.update(i as int, (entry.0, entry.1)),
                            k,
                        ) == spec_lookup(self.addresses@, k)) by {
                        assert forall|k: Seq<u8>| k != target@ implies spec_lookup(
                            self.addresses@.update(i as int, (entry.0, entry.1)),
                            k,
                        ) == spec_lookup(self.addresses@, k) by {
                            lemma_lookup_update(self.addresses@, i as int, (entry.0, entry.1), k);
                        };
                    };
                }
                self.addresses.set(i, entry);
                return ;
            }
            i = i + 1;
        }
        let entry = (target.clone_ref(), address);
        proof {
            lemma_lookup_push(self.addresses@, (entry.0, entry.1), target@);
            assert forall|k: Seq<u8>| k != target@ implies spec_lookup(
                self.addresses@.push((entry.0, entry.1)),
                k,
            ) == spec_lookup(self.addresses@, k) by {
                lemma_lookup_push(self.addresses@, (entry.0, entry.1), k);
            };
        }
        self.addresses.push(entry);
    }

    /// Signs `payload` for `target` with this client's account.
    pub fn sign(&self, target: &AccountRef, expiration: Option<i64>, payload: Vec<u8>) -> (e: GuaranteeSigned)
        requires
            self.wf(),
            target.wf(),
        ensures
            e@ == spec_sign(self.account.secret_view(), target@, expiration, payload@),
            e.wf(),
            e@.signed_ok(),
            e@.guarantor == self.me(),
    {
        GuaranteeSigned::sign(&self.account, target, expiration, payload)
    }

    /// Re-signs an already signed envelope as delegate, failing fast when
    /// its own signature is already invalid.
    pub fn sign_as_guarantor(&self, inner: GuaranteeSigned) -> (r: Result<
        crate::double::GuarantorSigned,
        Error,
    >)
        requires
            self.wf(),
        ensures
            r matches Ok(d) ==> {
                &&& inner@.signed_ok()
                &&& d@.inner == inner@
                &&& d@.guarantor == self.me()
                &&& d@.outer_signed_ok()
            },
            r matches Err(e) ==> e == Error::BadSignature && !inner@.signed_ok(),
    {
        crate::double::GuarantorSigned::sign_as_guarantor(&self.account, inner)
    }

    /// Builds the request frame for one call carrying a pre-signed
    /// envelope and no schema fields: the opcode byte, then the envelope.
    pub fn encode_call(&self, opcode: u8, envelope: &GuaranteeSigned) -> (r: Vec<u8>)
        ensures
            r@ == crate::frame::spec_encode_request(opcode, envelope@, Seq::empty()),
    {
        let fields: Vec<Vec<u8>> = Vec::new();
        proof {
            assert(fields.deep_view() =~= Seq::<Seq<u8>>::empty());
        }
        crate::frame::encode_request(opcode, envelope, &fields)
    }

    /// Builds the request frame for one call, signing `payload` for
    /// `target` first.
    pub fn encode_call_permanent(&self, opcode: u8, target: &AccountRef, expiration: Option<i64>, payload: Vec<u8>) -> (r: Vec<u8>)
        requires
            self.wf(),
            target.wf(),
        ensures
            r@ == crate::frame::spec_encode_request(
                opcode,
                spec_sign(self.account.secret_view(), target@, expiration, payload@),
                Seq::empty(),
            ),
            spec_sign(self.account.secret_view(), target@, expiration, payload@).wf(),
            spec_sign(self.account.secret_view(), target@, expiration, payload@).signed_ok(),
    {
        let envelope = self.sign(target, expiration, payload);
        self.encode_call(opcode, &envelope)
    }

    /// Checks one reply frame: the flag must be ACK with OK, the envelope
    /// must verify with this client as the expected guarantee, and the
    /// whole stream must be exactly one frame. A remote failure surfaces
    /// as the distinct remote error carrying the peer's message.
    pub fn decode_reply(&self, reply: &Vec<u8>, now: i64) -> (r: Result<GuaranteeSigned, Error>)
        requires
            self.wf(),
        ensures
            r matches Ok(env) ==> {
                &&& crate::frame::spec_response_ok_shape(reply@, 0)
                &&& env@ == crate::codec::spec_decode_envelope(
                    crate::codec::spec_chunk_payload(reply@, 1),
                )
                &&& spec_verify(env@, Some(self.me()), now) is Ok
                &&& env@.guarantee == self.me()
                &&& !env@.expired(now)
                &&& env@.signed_ok()
            },
            r matches Err(e) ==> match e {
                Error::Remote { message } => crate::frame::spec_response_err_shape(reply@)
                    && message@ == crate::codec::spec_chunk_payload(reply@, 1),
                Error::Expired | Error::GuaranteeMismatch | Error::BadSignature => {
                    &&& crate::frame::spec_response_ok_shape(reply@, 0)
                    &&& spec_verify(
                        crate::codec::spec_decode_envelope(
                            crate::codec::spec_chunk_payload(reply@, 1),
                        ),
                        Some(self.me()),
                        now,
                    ) == Err::<(), Error>(e)
                },
                Error::UnknownAckFlag { flag } => reply@.len() >= 1 && flag == reply@[0]
                    && crate::frame::spec_classify_flag(flag) is UnknownAck,
                Error::BadResultFlag { flag } => reply@.len() >= 1 && flag == reply@[0]
                    && crate::frame::spec_classify_flag(flag) is Invalid,
                Error::Malformed => !crate::frame::spec_response_ok_shape(reply@, 0)
                    && !crate::frame::spec_response_err_shape(reply@),
                _ => false,
            },
            crate::frame::spec_response_err_shape(reply@) ==> (r matches Err(Error::Remote {
                message,
            }) && message@ == crate::codec::spec_chunk_payload(reply@, 1)),
            crate::frame::spec_response_ok_shape(reply@, 0) ==> (r matches Ok(env) <==> spec_verify(
                crate::codec::spec_decode_envelope(crate::codec::spec_chunk_payload(reply@, 1)),
                Some(self.me()),
                now,
            ) is Ok),
    {
        let (envelope, _fields) = match crate::frame::decode_response(reply, 0) {
            Ok(x) => x,
            Err(e) => {
                return Err(e);
            },
        };
        let me = self.account.account_ref();
        match envelope.verify(Some(&me), now) {
            Ok(()) => Ok(envelope),
            Err(e) => Err(e),
        }
    }

    /// Checks one reply frame and unwraps the verified payload.
    pub fn decode_reply_payload(&self, reply: &Vec<u8>, now: i64) -> (r: Result<Vec<u8>, Error>)
        requires
            self.wf(),
        ensures
            r matches Ok(p) ==> {
                &&& crate::frame::spec_response_ok_shape(reply@, 0)
                &&& p@ == crate::codec::spec_decode_envelope(
                    crate::codec::spec_chunk_payload(reply@, 1),
                ).payload
                &&& spec_verify(
                    crate::codec::spec_decode_envelope(
                        crate::codec::spec_chunk_payload(reply@, 1),
                    ),
                    Some(self.me()),
                    now,
                ) is Ok
            },
            r matches Err(e) ==> match e {
                Error::Remote { message } => crate::frame::spec_response_err_shape(reply@)
                    && message@ == crate::codec::spec_chunk_payload(reply@, 1),
                Error::Expired | Error::GuaranteeMismatch | Error::BadSignature => {
                    &&& crate::frame::spec_response_ok_shape(reply@, 0)
                    &&& spec_verify(
                        crate::codec::spec_decode_envelope(
                            crate::codec::spec_chunk_payload(reply@, 1),
                        ),
                        Some(self.me()),
                        now,
                    ) == Err::<(), Error>(e)
                },
                Error::UnknownAckFlag { flag } => reply@.len() >= 1 && flag == reply@[0]
                    && crate::frame::spec_classify_flag(flag) is UnknownAck,
                Error::BadResultFlag { flag } => reply@.len() >= 1 && flag == reply@[0]
                    && crate::frame::spec_classify_flag(flag) is Invalid,
                Error::Malformed => !crate::frame::spec_response_ok_shape(reply@, 0)
                    && !crate::frame::spec_response_err_shape(reply@),
                _ => false,
            },
            crate::frame::spec_response_err_shape(reply@) ==> (r matches Err(Error::Remote {
                message,
            }) && message@ == crate::codec::spec_chunk_payload(reply@, 1)),
            crate::frame::spec_response_ok_shape(reply@, 0) ==> (r is Ok <==> spec_verify(
                crate::codec::spec_decode_envelope(crate::codec::spec_chunk_payload(reply@, 1)),
                Some(self.me()),
                now,
            ) is Ok),
    {
        match self.decode_reply(reply, now) {
            Ok(envelope) => Ok(envelope.payload),
            Err(e) => Err(e),
        }
    }
}

} // verus!
