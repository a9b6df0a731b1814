//! The transport server's verified logic: one stream carries one request,
//! which is decoded, trust-checked and routed by its opcode. Address
//! resolution is answered inline from the address cache; the application
//! opcode hands a verified payload out to the handler and signs whatever
//! the handler returns. Every failure is answered with an ACK-with-ERR
//! frame carrying the error's message, and a trust failure never reaches
//! the handler. Accepting connections and spawning tasks is I/O and stays
//! outside the library.

use vstd::prelude::*;
use vstd::string::{StrSliceExecFns, StringSliceAdditionalSpecFns};

use crate::client::Client;
use crate::codec::{spec_chunk_payload, spec_decode_envelope};
use crate::crypto::AccountRef;
use crate::envelope::{spec_sign, spec_verify, GuaranteeSigned};
use crate::errors::Error;
use crate::frame::{
    spec_encode_response_err, spec_encode_response_ok, spec_request_shape,
};

verus! {

/// The transport-level opcode for address resolution.
pub const OPCODE_ARP: u8 = 0x01;

/// The application opcode: the payload goes to the registered handler.
pub const OPCODE_TEXT: u8 = 0x02;

/// The message text sent in an ACK-with-ERR frame for each error kind.
pub open spec fn spec_error_message(e: Error) -> Seq<u8> {
    match e {
        Error::BadSignature => "bad signature".spec_bytes(),
        Error::GuaranteeMismatch => "guarantee mismatch".spec_bytes(),
        Error::Expired => "envelope expired".spec_bytes(),
        Error::Malformed => "malformed frame".spec_bytes(),
        Error::UnknownOpcode { opcode } => "unknown opcode".spec_bytes(),
        Error::UnknownAckFlag { flag } => "unknown ack flag".spec_bytes(),
        Error::BadResultFlag { flag } => "cannot parse the result of response".spec_bytes(),
        Error::Remote { message } => message@,
        Error::AddressNotFound => "address not found".spec_bytes(),
    }
}

/// The message text of an error, executably.
pub fn error_message(e: &Error) -> (r: Vec<u8>)
    ensures
        r@ == spec_error_message(*e),
{
    match e {
        Error::BadSignature => "bad signature".as_bytes_vec(),
        Error::GuaranteeMismatch => "guarantee mismatch".as_bytes_vec(),
        Error::Expired => "envelope expired".as_bytes_vec(),
        Error::Malformed => "malformed frame".as_bytes_vec(),
        Error::UnknownOpcode { opcode: _ } => "unknown opcode".as_bytes_vec(),
        Error::UnknownAckFlag { flag: _ } => "unknown ack flag".as_bytes_vec(),
        Error::BadResultFlag { flag: _ } => "cannot parse the result of response".as_bytes_vec(),
        Error::Remote { message } => crate::byteops::copy_range(message, 0, message.len()),
        Error::AddressNotFound => "address not found".as_bytes_vec(),
    }
}

/// The resolved-address payload of an address-resolution response: a
/// presence tag, then the address bytes when one is known.
pub open spec fn spec_encode_opt_address(a: Option<Seq<u8>>) -> Seq<u8> {
    match a {
        Some(b) => seq![1u8] + b,
        None => seq![0u8],
    }
}

/// Builds the resolved-address payload.
pub fn encode_opt_address(a: &Option<crate::client::Address>) -> (r: Vec<u8>)
    ensures
        r@ == spec_encode_opt_address(
            match a {
                Some(x) => Some(x@),
                None => None,
            },
        ),
{
    let mut out: Vec<u8> = Vec::new();
    match a {
        Some(x) => {
            out.push(1);
            crate::byteops::push_bytes(&mut out, &x.bytes);
            assert(out@ =~= seq![1u8] + x@);
        },
        None => {
            out.push(0);
            assert(out@ =~= seq![0u8]);
        },
    }
    out
}

/// Reads a resolved-address payload back; rejects anything that is not
/// exactly one such payload.
pub fn decode_opt_address(b: &Vec<u8>) -> (r: Result<Option<crate::client::Address>, Error>)
    ensures
        r matches Ok(a) ==> b@ == spec_encode_opt_address(
            match a {
                Some(x) => Some(x@),
                None => None,
            },
        ),
        r is Ok <==> (b@.len() >= 1 && (b@[0] == 1u8 || (b@[0] == 0u8 && b@.len() == 1))),
        r matches Err(e) ==> e == Error::Malformed,
{
    let n: usize = b.len();
    assert(n == b@.len());
    if n == 0 {
        return Err(Error::Malformed);
    }
    let tag: u8 = b[0];
    if tag == 1 {
        let addr = crate::client::Address::new(crate::byteops::copy_range(b, 1, n - 1));
        proof {
            assert(b@ =~= seq![1u8] + b@.subrange(1, n as int));
        }
        Ok(Some(addr))
    } else if tag == 0 && n == 1 {
        proof {
            assert(b@ =~= seq![0u8]);
        }
        Ok(None)
    } else {
        Err(Error::Malformed)
    }
}

/// What the server does with one request stream: either a finished response
/// frame to write back, or a verified application request awaiting the
/// handler.
pub enum ServerStep {
    Reply { bytes: Vec<u8> },
    NeedHandler { guarantee: AccountRef, expiration: Option<i64>, payload: Vec<u8> },
}

/// The mathematical content of a server step.
pub enum StepData {
    Reply { bytes: Seq<u8> },
    NeedHandler { guarantee: Seq<u8>, expiration: Option<i64>, payload: Seq<u8> },
}

impl View for ServerStep {
    type V = StepData;

    open spec fn view(&self) -> StepData {
        match self {
            ServerStep::Reply { bytes } => StepData::Reply { bytes: bytes@ },
            ServerStep::NeedHandler { guarantee, expiration, payload } => StepData::NeedHandler {
                guarantee: guarantee@,
                expiration: *expiration,
                payload: payload@,
            },
        }
    }
}

/// A server: the client capability it is a superset of, joined with the
/// stream-handling logic. The listening endpoint itself lives outside the
/// library.
pub struct Server {
    pub client: Client,
}

/// An ACK-with-ERR frame carrying the message of `e`.
pub open spec fn spec_err_reply(e: Error) -> Seq<u8> {
    spec_encode_response_err(spec_error_message(e))
}

/// What one request stream is answered with, given the server's state and
/// the time `now`: malformed frames, trust failures and unknown opcodes get
/// an ACK-with-ERR frame; address resolution is answered from the cache
/// with a signed response to the requester; the application opcode yields
/// the verified payload for the handler.
pub open spec fn spec_step(s: Server, req: Seq<u8>, now: i64) -> StepData {
    if !spec_request_shape(req, 0) {
        StepData::Reply { bytes: spec_err_reply(Error::Malformed) }
    } else {
        let env = spec_decode_envelope(spec_chunk_payload(req, 1));
        let opcode = req[0];
        if opcode == OPCODE_ARP {
            match spec_verify(env, Some(s.client.me()), now) {
                Err(e) => StepData::Reply { bytes: spec_err_reply(e) },
                Ok(()) => {
                    if env.payload.len() != 32 {
                        StepData::Reply { bytes: spec_err_reply(Error::Malformed) }
                    } else {
                        let out_payload = spec_encode_opt_address(s.client.addr_of(env.payload));
                        let out_env = spec_sign(
                            s.client.account.secret_view(),
                            env.guarantor,
                            env.expiration,
                            out_payload,
                        );
                        StepData::Reply { bytes: spec_encode_response_ok(out_env, Seq::empty()) }
                    }
                },
            }
        } else if opcode == OPCODE_TEXT {
            match spec_verify(env, Some(s.client.me()), now) {
                Err(e) => StepData::Reply { bytes: spec_err_reply(e) },
                Ok(()) => StepData::NeedHandler {
                    guarantee: env.guarantor,
                    expiration: env.expiration,
                    payload: env.payload,
                },
            }
        } else {
            StepData::Reply { bytes: spec_err_reply(Error::UnknownOpcode { opcode }) }
        }
    }
}

impl Server {
    pub open spec fn wf(&self) -> bool {
        self.client.wf()
    }

    pub fn new(client: Client) -> (r: Server)
        ensures
            r.client == client,
    {
        Server { client }
    }

    /// Builds the ACK-with-ERR frame for `e`.
    pub fn err_reply(&self, e: &Error) -> (r: Vec<u8>)
        ensures
            r@ == spec_err_reply(*e),
    {
        let message = error_message(e);
        crate::frame::encode_response_err(&message)
    }

    /// Handles one request stream up to the application handler: decodes
    /// and trust-checks the frame, answers address resolution inline, and
    /// never hands an unverified payload out. The reply for a failure is an
    /// ACK-with-ERR frame, so one bad stream answers with an error rather
    /// than tearing anything down.
    pub fn handle_request(&self, request: &Vec<u8>, now: i64) -> (r: ServerStep)
        requires
            self.wf(),
        ensures
            r@ == spec_step(*self, request@, now),
            r@ matches StepData::NeedHandler { guarantee, .. } ==> spec_verify(
                spec_decode_envelope(spec_chunk_payload(request@, 1)),
                Some(self.client.me()),
                now,
            ) is Ok,
    {
        let (opcode, envelope, _fields) = match crate::frame::decode_request(request, 0) {
            Ok(x) => x,
            Err(_) => {
                return ServerStep::Reply { bytes: self.err_reply(&Error::Malformed) };
            },
        };
        if opcode == OPCODE_ARP {
            let me = self.client.account.account_ref();
            if let Err(e) = envelope.verify(Some(&me), now) {
                return ServerStep::Reply { bytes: self.err_reply(&e) };
            }
            if envelope.payload.len() != 32 {
                return ServerStep::Reply { bytes: self.err_reply(&Error::Malformed) };
            }
            let target = AccountRef::new(envelope.payload);
            let resolved: Option<crate::client::Address> = match self.client.get_address(&target) {
                Ok(a) => Some(a),
                Err(_) => None,
            };
            let out_payload = encode_opt_address(&resolved);
            let out_env = GuaranteeSigned::sign(
                &self.client.account,
                &envelope.guarantor,
                envelope.expiration,
                out_payload,
            );
            let no_fields: Vec<Vec<u8>> = Vec::new();
            proof {
                assert(no_fields.deep_view() =~= Seq::<Seq<u8>>::empty());
            }
            let bytes = crate::frame::encode_response_ok(&out_env, &no_fields);
            ServerStep::Reply { bytes }
        } else if opcode == OPCODE_TEXT {
            let me = self.client.account.account_ref();
            if let Err(e) = envelope.verify(Some(&me), now) {
                return ServerStep::Reply { bytes: self.err_reply(&e) };
            }
            ServerStep::NeedHandler {
                guarantee: envelope.guarantor,
                expiration: envelope.expiration,
                payload: envelope.payload,
            }
        } else {
            ServerStep::Reply { bytes: self.err_reply(&Error::UnknownOpcode { opcode }) }
        }
    }

    /// Signs and frames what the handler produced for a verified
    /// application request: the result payload is signed to the requester,
    /// with the request's expiration carried over, inside an ACK-with-OK
    /// frame; a handler failure is framed as ACK-with-ERR with its message.
    pub fn finish_handled(&self, guarantee: &AccountRef, expiration: Option<i64>, outcome: Result<Vec<u8>, Vec<u8>>) -> (r: Vec<u8>)
        requires
            self.wf(),
            guarantee.wf(),
        ensures
            outcome matches Ok(payload) ==> {
                &&& r@ == spec_encode_response_ok(
                    spec_sign(self.client.account.secret_view(), guarantee@, expiration, payload@),
                    Seq::empty(),
                )
                &&& spec_sign(
                    self.client.account.secret_view(),
                    guarantee@,
                    expiration,
                    payload@,
                ).wf()
                &&& spec_sign(
                    self.client.account.secret_view(),
                    guarantee@,
                    expiration,
                    payload@,
                ).signed_ok()
            },
            outcome matches Err(message) ==> r@ == spec_encode_response_err(message@),
    {
        match outcome {
            Ok(payload) => {
                let env = GuaranteeSigned::sign(&self.client.account, guarantee, expiration, payload);
                let no_fields: Vec<Vec<u8>> = Vec::new();
                proof {
                    assert(no_fields.deep_view() =~= Seq::<Seq<u8>>::empty());
                }
                crate::frame::encode_response_ok(&env, &no_fields)
            },
            Err(message) => crate::frame::encode_response_err(&message),
        }
    }
}

impl Server {
    /// The server signs and resolves addresses the same way a client does:
    /// these forward to the client capability it holds.
    pub fn account_me(&self) -> (r: &crate::crypto::Account)
        ensures
            r == &self.client.account,
    {
        self.client.account_me()
    }

    pub fn account_primary(&self) -> (r: Result<AccountRef, Error>)
        ensures
            match r {
                Ok(p) => self.client.primary matches Some(q) && p@ == q@,
                Err(e) => e == Error::AddressNotFound && self.client.primary is None,
            },
    {
        self.client.account_primary()
    }

    pub fn sign(&self, target: &AccountRef, expiration: Option<i64>, payload: Vec<u8>) -> (e: GuaranteeSigned)
        requires
            self.wf(),
            target.wf(),
        ensures
            e@ == spec_sign(self.client.account.secret_view(), target@, expiration, payload@),
            e.wf(),
            e@.signed_ok(),
    {
        self.client.sign(target, expiration, payload)
    }

    pub fn get_address(&self, target: &AccountRef) -> (r: Result<crate::client::Address, Error>)
        ensures
            match r {
                Ok(a) => self.client.addr_of(target@) == Some(a@),
                Err(e) => e == Error::AddressNotFound && self.client.addr_of(target@) is None,
            },
    {
        self.client.get_address(target)
    }

    pub fn set_address(&mut self, target: &AccountRef, address: crate::client::Address)
        ensures
            final(self).client.addr_of(target@) == Some(address@),
            forall|k: Seq<u8>| k != target@ ==> final(self).client.addr_of(k) == old(
                self,
            ).client.addr_of(k),
            final(self).client.account == old(self).client.account,
            final(self).client.primary == old(self).client.primary,
    {
        self.client.set_address(target, address);
    }

    pub fn encode_call(&self, opcode: u8, envelope: &GuaranteeSigned) -> (r: Vec<u8>)
        ensures
            r@ == crate::frame::spec_encode_request(opcode, envelope@, Seq::empty()),
    {
        self.client.encode_call(opcode, envelope)
    }

    pub fn encode_call_permanent(&self, opcode: u8, target: &AccountRef, expiration: Option<i64>, payload: Vec<u8>) -> (r: Vec<u8>)
        requires
            self.wf(),
            target.wf(),
        ensures
            r@ == crate::frame::spec_encode_request(
                opcode,
                spec_sign(self.client.account.secret_view(), target@, expiration, payload@),
                Seq::empty(),
            ),
            spec_sign(self.client.account.secret_view(), target@, expiration, payload@).wf(),
            spec_sign(
                self.client.account.secret_view(),
                target@,
                expiration,
                payload@,
            ).signed_ok(),
    {
        self.client.encode_call_permanent(opcode, target, expiration, payload)
    }
}

/// What the listener sees from one connection attempt.
pub enum AcceptEvent {
    /// The handshake completed: a connection is up.
    Connected,
    /// The attempt failed.
    Failed,
}

/// What the accept loop does with it: give the connection a task of its
/// own, or report the failure and keep accepting.
pub enum AcceptAction {
    HandleConnection,
    LogAndContinue,
}

/// The accept loop's decision for one connection attempt: a connection is
/// handled in a task of its own; a failed attempt is reported and the loop
/// goes on — it is never fatal to the listener.
pub fn accept_step(e: &AcceptEvent) -> (r: AcceptAction)
    ensures
        r == match e {
            AcceptEvent::Connected => AcceptAction::HandleConnection,
            AcceptEvent::Failed => AcceptAction::LogAndContinue,
        },
{
    match e {
        AcceptEvent::Connected => AcceptAction::HandleConnection,
        AcceptEvent::Failed => AcceptAction::LogAndContinue,
    }
}

/// What the stream-accept loop sees from one poll of a connection.
pub enum ConnectionEvent {
    /// A new bidirectional stream was accepted.
    Stream,
    /// The peer closed the connection in an orderly way.
    Closed,
    /// The connection failed.
    Failed,
}

/// What the loop does with it: handle the stream in a task of its own,
/// stop this connection's loop quietly, or stop it reporting the failure.
/// Either way the listener itself keeps accepting other connections.
pub enum ConnectionAction {
    HandleStream,
    Stop,
    Fail,
}

/// The stream-accept loop's decision for one event: a stream is handled, an
/// orderly close ends the loop quietly, a failure ends it loudly; no event
/// on one connection ever stops the others.
pub fn connection_step(e: &ConnectionEvent) -> (r: ConnectionAction)
    ensures
        r == match e {
            ConnectionEvent::Stream => ConnectionAction::HandleStream,
            ConnectionEvent::Closed => ConnectionAction::Stop,
            ConnectionEvent::Failed => ConnectionAction::Fail,
        },
{
    match e {
        ConnectionEvent::Stream => ConnectionAction::HandleStream,
        ConnectionEvent::Closed => ConnectionAction::Stop,
        ConnectionEvent::Failed => ConnectionAction::Fail,
    }
}

} // verus!
