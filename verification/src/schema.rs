//! The protocol generator. A method is declared as a schema — its opcode,
//! its number of input fields and its number of output fields — and every
//! method gets the same generated behavior: `send_request` signs and frames,
//! `recv_request` (on the serving side) and `recv_response` (on the calling
//! side) decode, check the opcode or result flag, and verify the envelope
//! against the receiver's own account before anything is returned. Field
//! order is fixed by the schema: it is wire order on both sides.

use vstd::prelude::*;

use crate::client::Client;
use crate::codec::{spec_chunk_end, spec_chunk_payload, spec_decode_envelope};
use crate::crypto::{Account, AccountRef};
use crate::envelope::{spec_sign, spec_verify, EnvelopeData, GuaranteeSigned};
use crate::errors::Error;
use crate::frame::{
    spec_chunks_payloads, spec_encode_request, spec_request_shape, spec_response_err_shape,
    spec_response_ok_shape,
};

verus! {

/// One RPC method's declarative schema: the opcode that selects it, and how
/// many length-framed fields its requests and responses carry.
pub struct MethodSchema {
    pub opcode: u8,
    pub n_inputs: usize,
    pub n_outputs: usize,
}

/// A decoded, verified request: the signed envelope and the input fields in
/// schema order.
pub struct Request {
    pub envelope: GuaranteeSigned,
    pub inputs: Vec<Vec<u8>>,
}

/// A decoded, verified response: the signed envelope and the output fields
/// in schema order.
pub struct Response {
    pub envelope: GuaranteeSigned,
    pub outputs: Vec<Vec<u8>>,
}

impl MethodSchema {
    /// Generated request `send`, for an input already signed: frames the
    /// opcode, the envelope and the input fields in schema order.
    pub fn send_request_signed(&self, envelope: &GuaranteeSigned, inputs: &Vec<Vec<u8>>) -> (r: Vec<u8>)
        requires
            inputs@.len() == self.n_inputs,
        ensures
            r@ == spec_encode_request(self.opcode, envelope@, inputs.deep_view()),
    {
        crate::frame::encode_request(self.opcode, envelope, inputs)
    }

    /// Generated request `send`: signs the designated input value for
    /// `target` first, then frames the request.
    pub fn send_request(&self, account: &Account, target: &AccountRef, expiration: Option<i64>, sign_payload: Vec<u8>, inputs: &Vec<Vec<u8>>) -> (r: Vec<u8>)
        requires
            account.wf(),
            target.wf(),
            inputs@.len() == self.n_inputs,
        ensures
            r@ == spec_encode_request(
                self.opcode,
                spec_sign(account.secret_view(), target@, expiration, sign_payload@),
                inputs.deep_view(),
            ),
            spec_sign(account.secret_view(), target@, expiration, sign_payload@).wf(),
            spec_sign(account.secret_view(), target@, expiration, sign_payload@).signed_ok(),
    {
        let envelope = GuaranteeSigned::sign(account, target, expiration, sign_payload);
        self.send_request_signed(&envelope, inputs)
    }

    /// Generated request `recv`, the serving side: decodes one request
    /// frame, demands this schema's opcode, and verifies the envelope with
    /// the receiver's own account as the expected guarantee before any
    /// field is returned.
    pub fn recv_request(&self, client: &Client, buf: &Vec<u8>, now: i64) -> (r: Result<
        Request,
        Error,
    >)
        requires
            client.wf(),
        ensures
            r matches Ok(req) ==> {
                &&& spec_request_shape(buf@, self.n_inputs as nat)
                &&& buf@[0] == self.opcode
                &&& req.envelope@ == spec_decode_envelope(spec_chunk_payload(buf@, 1))
                &&& req.inputs.deep_view() == spec_chunks_payloads(buf@, spec_chunk_end(buf@, 1),
                    self.n_inputs as nat,
                )
                &&& req.inputs@.len() == self.n_inputs
                &&& spec_verify(req.envelope@, Some(client.me()), now) is Ok
            },
            r matches Err(e) ==> match e {
                Error::Malformed => !spec_request_shape(buf@, self.n_inputs as nat),
                Error::UnknownOpcode { opcode } => spec_request_shape(buf@, self.n_inputs as nat)
                    && opcode == buf@[0] && buf@[0] != self.opcode,
                Error::Expired | Error::GuaranteeMismatch | Error::BadSignature => {
                    &&& spec_request_shape(buf@, self.n_inputs as nat)
                    &&& buf@[0] == self.opcode
                    &&& spec_verify(
                        spec_decode_envelope(spec_chunk_payload(buf@, 1)),
                        Some(client.me()),
                        now,
                    ) == Err::<(), Error>(e)
                },
                _ => false,
            },
            (spec_request_shape(buf@, self.n_inputs as nat) && buf@[0] == self.opcode
                && spec_verify(
                spec_decode_envelope(spec_chunk_payload(buf@, 1)),
                Some(client.me()),
                now,
            ) is Ok) ==> r is Ok,
    {
        let (opcode, envelope, inputs) = match crate::frame::decode_request(buf, self.n_inputs) {
            Ok(x) => x,
            Err(_) => {
                return Err(Error::Malformed);
            },
        };
        if opcode != self.opcode {
            return Err(Error::UnknownOpcode { opcode });
        }
        let me = client.account.account_ref();
        if let Err(e) = envelope.verify(Some(&me), now) {
            return Err(e);
        }
        Ok(Request { envelope, inputs })
    }

    /// Generated response `send`, the serving side: signs the designated
    /// output value for the requester, then frames the ACK-with-OK
    /// response with the output fields in schema order.
    pub fn send_response(&self, account: &Account, guarantee: &AccountRef, expiration: Option<i64>, sign_payload: Vec<u8>, outputs: &Vec<Vec<u8>>) -> (r: Vec<u8>)
        requires
            account.wf(),
            guarantee.wf(),
            outputs@.len() == self.n_outputs,
        ensures
            r@ == crate::frame::spec_encode_response_ok(
                spec_sign(account.secret_view(), guarantee@, expiration, sign_payload@),
                outputs.deep_view(),
            ),
            spec_sign(account.secret_view(), guarantee@, expiration, sign_payload@).wf(),
            spec_sign(account.secret_view(), guarantee@, expiration, sign_payload@).signed_ok(),
    {
        let envelope = GuaranteeSigned::sign(account, guarantee, expiration, sign_payload);
        crate::frame::encode_response_ok(&envelope, outputs)
    }

    /// Generated `call`'s receiving half, the calling side: reads the
    /// result flag and branches — ACK with OK decodes and verifies the
    /// signed response against the caller's own account; ACK with ERR
    /// surfaces the peer's message as the distinct remote error; any other
    /// flag is a protocol error of its own.
    pub fn recv_response(&self, client: &Client, buf: &Vec<u8>, now: i64) -> (r: Result<
        Response,
        Error,
    >)
        requires
            client.wf(),
        ensures
            r matches Ok(res) ==> {
                &&& spec_response_ok_shape(buf@, self.n_outputs as nat)
                &&& res.envelope@ == spec_decode_envelope(spec_chunk_payload(buf@, 1))
                &&& res.outputs.deep_view() == spec_chunks_payloads(buf@, spec_chunk_end(buf@, 1),
                    self.n_outputs as nat,
                )
                &&& res.outputs@.len() == self.n_outputs
                &&& spec_verify(res.envelope@, Some(client.me()), now) is Ok
            },
            r matches Err(e) ==> match e {
                Error::Remote { message } => spec_response_err_shape(buf@) && message@
                    == spec_chunk_payload(buf@, 1),
                Error::UnknownAckFlag { flag } => buf@.len() >= 1 && flag == buf@[0]
                    && crate::frame::spec_classify_flag(flag) is UnknownAck,
                Error::BadResultFlag { flag } => buf@.len() >= 1 && flag == buf@[0]
                    && crate::frame::spec_classify_flag(flag) is Invalid,
                Error::Malformed => !spec_response_ok_shape(buf@, self.n_outputs as nat)
                    && !spec_response_err_shape(buf@),
                Error::Expired | Error::GuaranteeMismatch | Error::BadSignature => {
                    &&& spec_response_ok_shape(buf@, self.n_outputs as nat)
                    &&& spec_verify(
                        spec_decode_envelope(spec_chunk_payload(buf@, 1)),
                        Some(client.me()),
                        now,
                    ) == Err::<(), Error>(e)
                },
                _ => false,
            },
            spec_response_err_shape(buf@) ==> (r matches Err(Error::Remote { message }) && message@
                == spec_chunk_payload(buf@, 1)),
            (spec_response_ok_shape(buf@, self.n_outputs as nat) && spec_verify(
                spec_decode_envelope(spec_chunk_payload(buf@, 1)),
                Some(client.me()),
                now,
            ) is Ok) ==> r is Ok,
    {
        let (envelope, outputs) = match crate::frame::decode_response(buf, self.n_outputs) {
            Ok(x) => x,
            Err(e) => {
                return Err(e);
            },
        };
        let me = client.account.account_ref();
        if let Err(e) = envelope.verify(Some(&me), now) {
            return Err(e);
        }
        Ok(Response { envelope, outputs })
    }
}

/// The route a stream's opcode selects: the index of the first declared
/// schema with that opcode, if any.
pub open spec fn spec_find_route(routes: Seq<MethodSchema>, opcode: u8) -> Option<int>
    decreases routes.len(),
{
    if routes.len() == 0 {
        None
    } else if routes[0].opcode == opcode {
        Some(0)
    } else {
        match spec_find_route(routes.drop_first(), opcode) {
            Some(i) => Some(i + 1),
            None => None,
        }
    }
}

/// The first index whose schema carries `opcode` is the route it selects.
proof fn lemma_find_route_first(routes: Seq<MethodSchema>, opcode: u8, i: int)
    requires
        0 <= i < routes.len(),
        routes[i].opcode == opcode,
        forall|j: int| 0 <= j < i ==> #[trigger] routes[j].opcode != opcode,
    ensures
        spec_find_route(routes, opcode) == Some(i),
    decreases i,
{
    if i > 0 {
        assert(forall|j: int|
            0 <= j < i - 1 ==> routes.drop_first()[j] == routes[j + 1]
                && #[trigger] routes.drop_first()[j].opcode != opcode);
        assert(routes.drop_first()[i - 1] == routes[i]);
        lemma_find_route_first(routes.drop_first(), opcode, i - 1);
    }
}

/// An opcode no schema carries selects no route.
proof fn lemma_find_route_none(routes: Seq<MethodSchema>, opcode: u8)
    requires
        forall|j: int| 0 <= j < routes.len() ==> #[trigger] routes[j].opcode != opcode,
    ensures
        spec_find_route(routes, opcode) is None,
    decreases routes.len(),
{
    if routes.len() > 0 {
        assert(forall|j: int|
            0 <= j < routes.len() - 1 ==> routes.drop_first()[j] == routes[j + 1]
                && #[trigger] routes.drop_first()[j].opcode != opcode);
        lemma_find_route_none(routes.drop_first(), opcode);
    }
}

/// The serving side's route table lookup: the index of the first declared
/// schema whose opcode the stream began with; an opcode no route is
/// declared for is a protocol error, never a silent no-op.
pub fn find_route(routes: &Vec<MethodSchema>, opcode: u8) -> (r: Result<usize, Error>)
    ensures
        r matches Ok(i) ==> (i < routes@.len() && routes@[i as int].opcode == opcode
            && spec_find_route(routes@, opcode) == Some(i as int)),
        r matches Err(e) ==> (e == (Error::UnknownOpcode { opcode }) && spec_find_route(
            routes@,
            opcode,
        ) is None),
        r is Ok <==> spec_find_route(routes@, opcode) is Some,
{
    let n: usize = routes.len();
    let mut i: usize = 0;
    while i < n
        invariant
            i <= n,
            n == routes@.len(),
            forall|j: int| 0 <= j < i ==> #[trigger] routes@[j].opcode != opcode,
        decreases n - i,
    {
        if routes[i].opcode == opcode {
            proof {
                lemma_find_route_first(routes@, opcode, i as int);
            }
            return Ok(i);
        }
        i = i + 1;
    }
    proof {
        lemma_find_route_none(routes@, opcode);
    }
    Err(Error::UnknownOpcode { opcode })
}

/// Round trip of the generated send/recv pair: a request frame built from
/// a well-formed, verifying envelope and a field list decodes back to that
/// very envelope and those very fields, in their declared order, and the
/// envelope is accepted by the receiver it names. Rejection of anything
/// else is what the decoder's own contract states: only exact encodings
/// are accepted, and a decoded frame re-encodes to the bytes it came from.
pub proof fn lemma_generated_roundtrip(opcode: u8, env: EnvelopeData, fields: Seq<Seq<u8>>, now: i64)
    requires
        env.wf(),
        env.signed_ok(),
        !env.expired(now),
        crate::codec::spec_encode_envelope(env).len() <= u64::MAX,
        forall|i: int| 0 <= i < fields.len() ==> #[trigger] fields[i].len() <= u64::MAX,
    ensures
        spec_request_shape(spec_encode_request(opcode, env, fields), fields.len() as nat),
        spec_decode_envelope(
            spec_chunk_payload(spec_encode_request(opcode, env, fields), 1),
        ) == env,
        spec_chunks_payloads(spec_encode_request(opcode, env, fields),
            spec_chunk_end(spec_encode_request(opcode, env, fields), 1), fields.len() as nat,
        ) == fields,
        spec_verify(env, Some(env.guarantee), now) == Ok::<(), Error>(()),
{
    crate::frame::lemma_request_roundtrip(opcode, env, fields);
    crate::codec::lemma_envelope_roundtrip(env);
    crate::envelope::lemma_sign_then_verify(env, env.guarantee, now);
}

/// The serving side's generic dispatch: finds the declared schema the
/// stream's opcode selects and receives the request through it, verified.
/// The caller then invokes its handler for that route and answers with
/// `send_response`. Success is owed whenever a declared route matches, the
/// stream is exactly one request of that route's arity, and its envelope
/// verifies; each failure carries the error that caused it.
pub fn route_request(routes: &Vec<MethodSchema>, client: &Client, buf: &Vec<u8>, now: i64) -> (r: Result<(usize, Request), Error>)
    requires
        client.wf(),
    ensures
        r matches Ok(ok) ==> {
            &&& ok.0 < routes@.len()
            &&& buf@.len() >= 1
            &&& spec_find_route(routes@, buf@[0]) == Some(ok.0 as int)
            &&& routes@[ok.0 as int].opcode == buf@[0]
            &&& spec_request_shape(buf@, routes@[ok.0 as int].n_inputs as nat)
            &&& ok.1.envelope@ == spec_decode_envelope(spec_chunk_payload(buf@, 1))
            &&& ok.1.inputs.deep_view() == spec_chunks_payloads(buf@, spec_chunk_end(buf@, 1),
                routes@[ok.0 as int].n_inputs as nat,
            )
            &&& ok.1.inputs@.len() == routes@[ok.0 as int].n_inputs
            &&& spec_verify(ok.1.envelope@, Some(client.me()), now) is Ok
        },
        r matches Err(e) ==> match e {
            Error::UnknownOpcode { opcode } => buf@.len() >= 1 && opcode == buf@[0]
                && spec_find_route(routes@, opcode) is None,
            Error::Malformed => buf@.len() == 0 || (spec_find_route(routes@, buf@[0]) matches Some(
                i,
            ) && !spec_request_shape(buf@, routes@[i].n_inputs as nat)),
            Error::Expired | Error::GuaranteeMismatch | Error::BadSignature => buf@.len() >= 1
                && (spec_find_route(routes@, buf@[0]) matches Some(i) && spec_request_shape(
                buf@,
                routes@[i].n_inputs as nat,
            ) && spec_verify(
                spec_decode_envelope(spec_chunk_payload(buf@, 1)),
                Some(client.me()),
                now,
            ) == Err::<(), Error>(e)),
            _ => false,
        },
        (buf@.len() >= 1 && (spec_find_route(routes@, buf@[0]) matches Some(i)
            && spec_request_shape(buf@, routes@[i].n_inputs as nat) && spec_verify(
            spec_decode_envelope(spec_chunk_payload(buf@, 1)),
            Some(client.me()),
            now,
        ) is Ok)) ==> r is Ok,
{
    let n: usize = buf.len();
    if n == 0 {
        return Err(Error::Malformed);
    }
    let opcode: u8 = buf[0];
    let route = match find_route(routes, opcode) {
        Ok(i) => i,
        Err(e) => {
            return Err(e);
        },
    };
    match routes[route].recv_request(client, buf, now) {
        Ok(req) => Ok((route, req)),
        Err(e) => Err(e),
    }
}

/// The schema of the address-resolution exchange that reads the primary
/// account: one input (the namespace it is asked under), two outputs (the
/// account and, when known, its address).
pub fn get_account_primary_schema() -> (r: MethodSchema)
    ensures
        r.opcode == 0x10u8 && r.n_inputs == 1 && r.n_outputs == 2,
{
    MethodSchema { opcode: 0x10, n_inputs: 1, n_outputs: 2 }
}

/// The schema of the exchange that replaces the primary account: two
/// inputs (the namespace and the account), no outputs.
pub fn set_account_primary_schema() -> (r: MethodSchema)
    ensures
        r.opcode == 0x11u8 && r.n_inputs == 2 && r.n_outputs == 0,
{
    MethodSchema { opcode: 0x11, n_inputs: 2, n_outputs: 0 }
}

/// The schema of the exchange that resolves an account's address: two
/// inputs (the namespace and the account), one output (the address).
pub fn get_address_schema() -> (r: MethodSchema)
    ensures
        r.opcode == 0x12u8 && r.n_inputs == 2 && r.n_outputs == 1,
{
    MethodSchema { opcode: 0x12, n_inputs: 2, n_outputs: 1 }
}

/// The schema of the exchange that registers an account's address: three
/// inputs (the namespace, the account and the address), no outputs.
pub fn set_address_schema() -> (r: MethodSchema)
    ensures
        r.opcode == 0x13u8 && r.n_inputs == 3 && r.n_outputs == 0,
{
    MethodSchema { opcode: 0x13, n_inputs: 3, n_outputs: 0 }
}

} // verus!
