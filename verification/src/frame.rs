//! Wire frames. A request stream carries one opcode byte, a length-framed
//! envelope and the method's fields in schema order; a response stream
//! carries one result-flag byte and either a signed envelope with output
//! fields (ACK with OK) or a length-framed error message (ACK with ERR).
//! Decoding is strict: a frame must account for every byte of the stream.

use vstd::prelude::*;

use crate::byteops::{spec_u64_from_le, spec_u64_le};
use crate::codec::{
    spec_chunk_at, spec_chunk_end, spec_chunk_payload, spec_encode_chunk, spec_encode_envelope,
    spec_valid_envelope_bytes,
};
use crate::envelope::{EnvelopeData, GuaranteeSigned};
use crate::errors::Error;

verus! {

/// The response was recognized by the peer.
pub const FLAG_ACK: u8 = 0x80;

/// The peer handled the request successfully.
pub const FLAG_OK: u8 = 0x40;

/// The peer failed to handle the request.
pub const FLAG_ERR: u8 = 0x20;

/// The two valid result flags: ACK with OK (0x80 | 0x40), and ACK with
/// ERR (0x80 | 0x20).
pub const ACK_OK: u8 = 0xC0;

pub const ACK_ERR: u8 = 0xA0;

/// How a result-flag byte is read: the two valid values; a value with the
/// ACK bit that is neither; or a value that is no flag at all.
pub enum FlagKind {
    AckOk,
    AckErr,
    UnknownAck,
    Invalid,
}

/// The classification of a result-flag byte. Only the three flag bits may be
/// set; of those, exactly ACK with OK, or ACK with ERR, are valid.
pub open spec fn spec_classify_flag(f: u8) -> FlagKind {
    if f == ACK_OK {
        FlagKind::AckOk
    } else if f == ACK_ERR {
        FlagKind::AckErr
    } else if f & 0x1f == 0 && f & FLAG_ACK == FLAG_ACK {
        FlagKind::UnknownAck
    } else {
        FlagKind::Invalid
    }
}

pub fn classify_flag(f: u8) -> (r: FlagKind)
    ensures
        r == spec_classify_flag(f),
{
    if f == ACK_OK {
        FlagKind::AckOk
    } else if f == ACK_ERR {
        FlagKind::AckErr
    } else if f & 0x1f == 0 && f & FLAG_ACK == FLAG_ACK {
        FlagKind::UnknownAck
    } else {
        FlagKind::Invalid
    }
}

/// The concatenated chunk framings of a list of fields.
pub open spec fn spec_encode_chunks(fields: Seq<Seq<u8>>) -> Seq<u8>
    decreases fields.len(),
{
    if fields.len() == 0 {
        Seq::empty()
    } else {
        spec_encode_chunk(fields[0]) + spec_encode_chunks(fields.drop_first())
    }
}

/// Appending one more field extends the encoding by one more chunk.
pub proof fn lemma_encode_chunks_push(fields: Seq<Seq<u8>>, x: Seq<u8>)
    ensures
        spec_encode_chunks(fields.push(x)) == spec_encode_chunks(fields) + spec_encode_chunk(x),
    decreases fields.len(),
{
    let p = fields.push(x);
    assert(p.len() == fields.len() + 1);
    if fields.len() == 0 {
        assert(p[0] == x);
        assert(p.drop_first() =~= Seq::<Seq<u8>>::empty());
        assert(spec_encode_chunks(p) == spec_encode_chunk(p[0]) + spec_encode_chunks(
            p.drop_first(),
        ));
        assert(spec_encode_chunks(p.drop_first()) == Seq::<u8>::empty());
        assert(spec_encode_chunk(x) + Seq::<u8>::empty() =~= Seq::<u8>::empty()
            + spec_encode_chunk(x));
    } else {
        assert(p[0] == fields[0]);
        assert(p.drop_first() =~= fields.drop_first().push(x));
        lemma_encode_chunks_push(fields.drop_first(), x);
        assert(spec_encode_chunks(p) == spec_encode_chunk(fields[0]) + (spec_encode_chunks(
            fields.drop_first(),
        ) + spec_encode_chunk(x)));
        assert(spec_encode_chunk(fields[0]) + (spec_encode_chunks(fields.drop_first())
            + spec_encode_chunk(x)) =~= (spec_encode_chunk(fields[0]) + spec_encode_chunks(
            fields.drop_first(),
        )) + spec_encode_chunk(x));
    }
}

/// Whether `n` chunks stand back to back at `pos` in `buf`.
pub open spec fn spec_chunks_at(buf: Seq<u8>, pos: int, n: nat) -> bool
    decreases n,
{
    n == 0 || (spec_chunk_at(buf, pos) && spec_chunks_at(
        buf,
        spec_chunk_end(buf, pos),
        (n - 1) as nat,
    ))
}

/// The position just past `n` chunks that start at `pos`.
pub open spec fn spec_chunks_end(buf: Seq<u8>, pos: int, n: nat) -> int
    decreases n,
{
    if n == 0 {
        pos
    } else {
        spec_chunks_end(buf, spec_chunk_end(buf, pos), (n - 1) as nat)
    }
}

/// The payloads of `n` chunks that start at `pos`.
pub open spec fn spec_chunks_payloads(buf: Seq<u8>, pos: int, n: nat) -> Seq<Seq<u8>>
    decreases n,
{
    if n == 0 {
        Seq::empty()
    } else {
        seq![spec_chunk_payload(buf, pos)] + spec_chunks_payloads(
            buf,
            spec_chunk_end(buf, pos),
            (n - 1) as nat,
        )
    }
}

/// Chunk positions grow: `n` chunks at `pos` end at or after `pos`.
pub proof fn lemma_chunks_end_monotonic(buf: Seq<u8>, pos: int, n: nat)
    requires
        spec_chunks_at(buf, pos, n),
        0 <= pos <= buf.len(),
    ensures
        pos <= spec_chunks_end(buf, pos, n) <= buf.len(),
        n > 0 ==> spec_chunks_end(buf, pos, n) >= pos + 8,
    decreases n,
{
    if n > 0 {
        lemma_chunks_end_monotonic(buf, spec_chunk_end(buf, pos), (n - 1) as nat);
    }
}

/// Encoded chunks read back as the fields that were framed.
#[verifier::rlimit(100)]
#[verifier::spinoff_prover]
pub proof fn lemma_chunks_roundtrip(prefix: Seq<u8>, fields: Seq<Seq<u8>>, rest: Seq<u8>)
    requires
        forall|i: int| 0 <= i < fields.len() ==> #[trigger] fields[i].len() <= u64::MAX,
    ensures
        spec_chunks_at(prefix + spec_encode_chunks(fields) + rest, prefix.len() as int,
            fields.len() as nat,
        ),
        spec_chunks_end(prefix + spec_encode_chunks(fields) + rest, prefix.len() as int,
            fields.len() as nat,
        ) == prefix.len() + spec_encode_chunks(fields).len(),
        spec_chunks_payloads(prefix + spec_encode_chunks(fields) + rest, prefix.len() as int,
            fields.len() as nat,
        ) == fields,
    decreases fields.len(),
{
    let buf = prefix + spec_encode_chunks(fields) + rest;
    let pos = prefix.len() as int;
    if fields.len() == 0 {
        assert(spec_chunks_payloads(buf, pos, 0) =~= fields);
    } else {
        let first = fields[0];
        let tail = fields.drop_first();
        assert(forall|i: int|
            0 <= i < tail.len() ==> #[trigger] tail[i].len() <= u64::MAX && tail[i] == fields[i
                + 1]);
        let buf2 = (prefix + spec_encode_chunk(first)) + spec_encode_chunks(tail) + rest;
        assert(buf =~= buf2) by {
            assert(spec_encode_chunks(fields) == spec_encode_chunk(first) + spec_encode_chunks(
                tail,
            ));
        };
        assert(buf =~= prefix + spec_encode_chunk(first) + (spec_encode_chunks(tail) + rest));
        crate::codec::lemma_chunk_roundtrip(prefix, first, spec_encode_chunks(tail) + rest);
        let end0 = spec_chunk_end(buf, pos);
        assert(end0 == pos + 8 + first.len());
        lemma_chunks_roundtrip(prefix + spec_encode_chunk(first), tail, rest);
        assert(end0 == (prefix + spec_encode_chunk(first)).len());
        assert(spec_chunks_at(buf, end0, tail.len() as nat));
        assert(spec_chunks_at(buf, pos, fields.len() as nat));
        assert(spec_chunks_end(buf, pos, fields.len() as nat) == spec_chunks_end(buf, end0,
            tail.len() as nat,
        ));
        assert(spec_encode_chunks(fields).len() == 8 + first.len() + spec_encode_chunks(
            tail,
        ).len()) by {
            assert(spec_encode_chunks(fields) == spec_encode_chunk(first) + spec_encode_chunks(
                tail,
            ));
        };
        assert(spec_chunks_payloads(buf, pos, fields.len() as nat) == seq![spec_chunk_payload(
            buf,
            pos,
        )] + spec_chunks_payloads(buf, end0, tail.len() as nat));
        assert(spec_chunks_payloads(buf, pos, fields.len() as nat) =~= fields);
    }
}

/// Appends the chunk framings of all `fields` to `out`.
pub fn encode_chunks(out: &mut Vec<u8>, fields: &Vec<Vec<u8>>)
    ensures
        final(out)@ == old(out)@ + spec_encode_chunks(fields.deep_view()),
{
    let mut i: usize = 0;
    while i < fields.len()
        invariant
            i <= fields@.len(),
            fields.deep_view().len() == fields@.len(),
            out@ == old(out)@ + spec_encode_chunks(fields.deep_view().take(i as int)),
        decreases fields@.len() - i,
    {
        proof {
            assert(fields.deep_view()[i as int] == fields@[i as int]@);
            lemma_encode_chunks_push(fields.deep_view().take(i as int),
                fields.deep_view()[i as int],
            );
            assert(fields.deep_view().take(i as int).push(fields.deep_view()[i as int])
                =~= fields.deep_view().take(i as int + 1));
        }
        crate::codec::encode_chunk(out, &fields[i]);
        i = i + 1;
    }
    proof {
        assert(fields.deep_view().take(fields@.len() as int) =~= fields.deep_view());
    }
}

/// Reads `n` chunks that stand back to back at `pos`, returning their
/// payloads and the position just past the last; rejects truncation.
pub fn decode_chunks(buf: &Vec<u8>, pos: usize, n: usize) -> (r: Result<(Vec<Vec<u8>>, usize), Error>)
    requires
        pos <= buf@.len(),
    ensures
        r matches Ok(ok) ==> {
            &&& spec_chunks_at(buf@, pos as int, n as nat)
            &&& ok.0.deep_view() == spec_chunks_payloads(buf@, pos as int, n as nat)
            &&& ok.0@.len() == n
            &&& ok.1 == spec_chunks_end(buf@, pos as int, n as nat)
            &&& pos <= ok.1 <= buf@.len()
        },
        r matches Err(e) ==> e == Error::Malformed && !spec_chunks_at(buf@, pos as int, n as nat),
{
    let mut fields: Vec<Vec<u8>> = Vec::new();
    let mut cur: usize = pos;
    let mut i: usize = 0;
    while i < n
        invariant
            i <= n,
            pos <= cur <= buf@.len(),
            spec_chunks_at(buf@, pos as int, i as nat),
            cur == spec_chunks_end(buf@, pos as int, i as nat),
            fields.deep_view() == spec_chunks_payloads(buf@, pos as int, i as nat),
            fields@.len() == i,
        decreases n - i,
    {
        let ghost prev = fields.deep_view();
        match crate::codec::decode_chunk(buf, cur) {
            Ok((bytes, end)) => {
                proof {
                    lemma_chunks_extend(buf@, pos as int, i as nat, cur as int);
                    assert(bytes.deep_view() =~= bytes@);
                }
                let ghost item = bytes.deep_view();
                fields.push(bytes);
                cur = end;
                i = i + 1;
                proof {
                    assert(fields.deep_view() =~= prev.push(item));
                    assert(fields.deep_view() =~= spec_chunks_payloads(buf@, pos as int,
                        i as nat,
                    ));
                }
            },
            Err(e) => {
                proof {
                    lemma_chunks_truncated(buf@, pos as int, i as nat, n as nat, cur as int);
                }
                return Err(e);
            },
        }
    }
    Ok((fields, cur))
}

/// Chunks verified so far, plus one more chunk at the current end, make one
/// more verified chunk.
proof fn lemma_chunks_extend(buf: Seq<u8>, pos: int, i: nat, cur: int)
    requires
        spec_chunks_at(buf, pos, i),
        cur == spec_chunks_end(buf, pos, i),
        spec_chunk_at(buf, cur),
    ensures
        spec_chunks_at(buf, pos, i + 1),
        spec_chunks_end(buf, pos, i + 1) == spec_chunk_end(buf, cur),
        spec_chunks_payloads(buf, pos, i + 1) == spec_chunks_payloads(buf, pos, i).push(
            spec_chunk_payload(buf, cur),
        ),
    decreases i,
{
    if i == 0 {
        assert(spec_chunks_end(buf, pos, 0) == pos);
        assert(cur == pos);
        assert(spec_chunks_at(buf, spec_chunk_end(buf, pos), 0));
        assert(spec_chunks_at(buf, pos, 1));
        assert(spec_chunks_end(buf, pos, 1) == spec_chunks_end(buf, spec_chunk_end(buf, pos), 0));
        assert(spec_chunks_payloads(buf, pos, 1) == seq![spec_chunk_payload(buf, pos)]
            + spec_chunks_payloads(buf, spec_chunk_end(buf, pos), 0));
        assert(spec_chunks_payloads(buf, pos, 0) == Seq::<Seq<u8>>::empty());
        assert(spec_chunks_payloads(buf, pos, 1) =~= spec_chunks_payloads(buf, pos, 0).push(
            spec_chunk_payload(buf, cur),
        ));
    } else {
        let mid = spec_chunk_end(buf, pos);
        assert(spec_chunk_at(buf, pos) && spec_chunks_at(buf, mid, (i - 1) as nat));
        assert(spec_chunks_end(buf, pos, i) == spec_chunks_end(buf, mid, (i - 1) as nat));
        lemma_chunks_extend(buf, mid, (i - 1) as nat, cur);
        assert(spec_chunks_at(buf, mid, i));
        assert(spec_chunks_at(buf, pos, i + 1));
        assert(spec_chunks_end(buf, pos, i + 1) == spec_chunks_end(buf, mid, i));
        assert(spec_chunks_payloads(buf, pos, i + 1) == seq![spec_chunk_payload(buf, pos)]
            + spec_chunks_payloads(buf, mid, i));
        assert(spec_chunks_payloads(buf, pos, i) == seq![spec_chunk_payload(buf, pos)]
            + spec_chunks_payloads(buf, mid, (i - 1) as nat));
        assert(spec_chunks_payloads(buf, pos, i + 1) =~= spec_chunks_payloads(buf, pos, i).push(
            spec_chunk_payload(buf, cur),
        ));
    }
}

/// If no chunk starts at the end of `i` verified chunks, there are no `n`
/// chunks at `pos` for any `n` beyond `i`.
proof fn lemma_chunks_truncated(buf: Seq<u8>, pos: int, i: nat, n: nat, cur: int)
    requires
        spec_chunks_at(buf, pos, i),
        cur == spec_chunks_end(buf, pos, i),
        !spec_chunk_at(buf, cur),
        i < n,
    ensures
        !spec_chunks_at(buf, pos, n),
    decreases i,
{
    if i == 0 {
        lemma_chunks_not_at(buf, pos, n);
    } else {
        if spec_chunks_at(buf, pos, n) {
            lemma_chunks_truncated(buf, spec_chunk_end(buf, pos), (i - 1) as nat, (n - 1) as nat,
                cur,
            );
        }
    }
}

/// If no chunk starts at `pos`, no positive number of chunks does.
proof fn lemma_chunks_not_at(buf: Seq<u8>, pos: int, n: nat)
    requires
        !spec_chunk_at(buf, pos),
        n > 0,
    ensures
        !spec_chunks_at(buf, pos, n),
{
}

/// The bytes of a request stream: the opcode, the length-framed envelope,
/// then each input field, length-framed, in schema order.
pub open spec fn spec_encode_request(opcode: u8, env: EnvelopeData, fields: Seq<Seq<u8>>) -> Seq<u8> {
    seq![opcode] + spec_encode_chunk(spec_encode_envelope(env)) + spec_encode_chunks(fields)
}

/// Whether `b` is exactly one request frame with `n` fields.
pub open spec fn spec_request_shape(b: Seq<u8>, n: nat) -> bool {
    &&& b.len() >= 1
    &&& spec_chunk_at(b, 1)
    &&& spec_valid_envelope_bytes(spec_chunk_payload(b, 1))
    &&& spec_chunks_at(b, spec_chunk_end(b, 1), n)
    &&& spec_chunks_end(b, spec_chunk_end(b, 1), n) == b.len()
}

/// The bytes of a successful response stream: the ACK-with-OK flag, the
/// length-framed envelope, then each output field, length-framed.
pub open spec fn spec_encode_response_ok(env: EnvelopeData, fields: Seq<Seq<u8>>) -> Seq<u8> {
    seq![ACK_OK] + spec_encode_chunk(spec_encode_envelope(env)) + spec_encode_chunks(fields)
}

/// The bytes of a failed response stream: the ACK-with-ERR flag, then the
/// length-framed message text.
pub open spec fn spec_encode_response_err(message: Seq<u8>) -> Seq<u8> {
    seq![ACK_ERR] + spec_encode_chunk(message)
}

/// Whether `b` is exactly one successful response frame with `n` fields.
pub open spec fn spec_response_ok_shape(b: Seq<u8>, n: nat) -> bool {
    &&& b.len() >= 1
    &&& b[0] == ACK_OK
    &&& spec_chunk_at(b, 1)
    &&& spec_valid_envelope_bytes(spec_chunk_payload(b, 1))
    &&& spec_chunks_at(b, spec_chunk_end(b, 1), n)
    &&& spec_chunks_end(b, spec_chunk_end(b, 1), n) == b.len()
}

/// Whether `b` is exactly one failed response frame.
pub open spec fn spec_response_err_shape(b: Seq<u8>) -> bool {
    &&& b.len() >= 1
    &&& b[0] == ACK_ERR
    &&& spec_chunk_at(b, 1)
    &&& spec_chunk_end(b, 1) == b.len()
}

/// Builds one request frame.
pub fn encode_request(opcode: u8, env: &GuaranteeSigned, fields: &Vec<Vec<u8>>) -> (r: Vec<u8>)
    ensures
        r@ == spec_encode_request(opcode, env@, fields.deep_view()),
{
    let mut out: Vec<u8> = Vec::new();
    out.push(opcode);
    let mut env_bytes: Vec<u8> = Vec::new();
    crate::codec::encode_envelope(&mut env_bytes, env);
    crate::codec::encode_chunk(&mut out, &env_bytes);
    encode_chunks(&mut out, fields);
    assert(out@ =~= spec_encode_request(opcode, env@, fields.deep_view()));
    out
}

/// Builds one successful response frame.
pub fn encode_response_ok(env: &GuaranteeSigned, fields: &Vec<Vec<u8>>) -> (r: Vec<u8>)
    ensures
        r@ == spec_encode_response_ok(env@, fields.deep_view()),
{
    let mut out: Vec<u8> = Vec::new();
    out.push(ACK_OK);
    let mut env_bytes: Vec<u8> = Vec::new();
    crate::codec::encode_envelope(&mut env_bytes, env);
    crate::codec::encode_chunk(&mut out, &env_bytes);
    encode_chunks(&mut out, fields);
    assert(out@ =~= spec_encode_response_ok(env@, fields.deep_view()));
    out
}

/// Builds one failed response frame carrying the error's message text.
pub fn encode_response_err(message: &Vec<u8>) -> (r: Vec<u8>)
    ensures
        r@ == spec_encode_response_err(message@),
{
    let mut out: Vec<u8> = Vec::new();
    out.push(ACK_ERR);
    crate::codec::encode_chunk(&mut out, message);
    assert(out@ =~= spec_encode_response_err(message@));
    out
}

/// The bytes under a verified chunk are the chunk framing of its payload:
/// no two payloads share a framing.
pub proof fn lemma_chunk_canonical(buf: Seq<u8>, pos: int)
    requires
        spec_chunk_at(buf, pos),
        pos >= 0,
    ensures
        buf.subrange(pos, spec_chunk_end(buf, pos)) == spec_encode_chunk(
            spec_chunk_payload(buf, pos),
        ),
{
    let header = buf.subrange(pos, pos + 8);
    crate::codec::lemma_u64_le_inverse(header);
    let payload = spec_chunk_payload(buf, pos);
    crate::byteops::lemma_u64_le_roundtrip(payload.len() as u64);
    assert(payload.len() == spec_u64_from_le(header));
    assert(spec_u64_le(payload.len() as u64) =~= header) by {
        assert(payload.len() as u64 == spec_u64_from_le(header)) by {
            crate::byteops::lemma_u64_le_injective(payload.len() as u64,
                spec_u64_from_le(header),
            );
        };
    };
    assert(buf.subrange(pos, spec_chunk_end(buf, pos)) =~= header + payload);
}

/// The bytes under `n` verified chunks are the concatenated framings of
/// their payloads.
pub proof fn lemma_chunks_canonical(buf: Seq<u8>, pos: int, n: nat)
    requires
        spec_chunks_at(buf, pos, n),
        0 <= pos <= buf.len(),
    ensures
        buf.subrange(pos, spec_chunks_end(buf, pos, n)) == spec_encode_chunks(
            spec_chunks_payloads(buf, pos, n),
        ),
    decreases n,
{
    lemma_chunks_end_monotonic(buf, pos, n);
    if n == 0 {
        assert(buf.subrange(pos, pos) =~= Seq::<u8>::empty());
    } else {
        let mid = spec_chunk_end(buf, pos);
        lemma_chunk_canonical(buf, pos);
        lemma_chunks_canonical(buf, mid, (n - 1) as nat);
        let end = spec_chunks_end(buf, pos, n);
        lemma_chunks_end_monotonic(buf, mid, (n - 1) as nat);
        assert(buf.subrange(pos, end) =~= buf.subrange(pos, mid) + buf.subrange(mid, end));
        let ps = spec_chunks_payloads(buf, pos, n);
        assert(ps[0] == spec_chunk_payload(buf, pos));
        assert(ps.drop_first() =~= spec_chunks_payloads(buf, mid, (n - 1) as nat));
        assert(spec_encode_chunks(ps) == spec_encode_chunk(ps[0]) + spec_encode_chunks(
            ps.drop_first(),
        ));
    }
}

/// Decodes one request frame: the opcode byte, the envelope, and exactly
/// `n_fields` input fields, rejecting any stream that is not exactly one
/// frame. A decoded request re-encodes to the bytes it came from.
pub fn decode_request(buf: &Vec<u8>, n_fields: usize) -> (r: Result<
    (u8, GuaranteeSigned, Vec<Vec<u8>>),
    Error,
>)
    ensures
        r matches Ok(ok) ==> {
            &&& spec_request_shape(buf@, n_fields as nat)
            &&& ok.0 == buf@[0]
            &&& ok.1@ == crate::codec::spec_decode_envelope(spec_chunk_payload(buf@, 1))
            &&& ok.1.wf()
            &&& ok.2.deep_view() == spec_chunks_payloads(buf@, spec_chunk_end(buf@, 1),
                n_fields as nat,
            )
            &&& ok.2@.len() == n_fields
            &&& buf@ == spec_encode_request(ok.0, ok.1@, ok.2.deep_view())
        },
        r is Ok <==> spec_request_shape(buf@, n_fields as nat),
        r matches Err(e) ==> e == Error::Malformed,
{
    let total: usize = buf.len();
    assert(total == buf@.len());
    if total == 0 {
        return Err(Error::Malformed);
    }
    let opcode: u8 = buf[0];
    let (env_bytes, after_env) = match crate::codec::decode_chunk(buf, 1) {
        Ok(x) => x,
        Err(_) => {
            return Err(Error::Malformed);
        },
    };
    let env = match crate::codec::decode_envelope(&env_bytes) {
        Ok(e) => e,
        Err(_) => {
            return Err(Error::Malformed);
        },
    };
    let (fields, end) = match decode_chunks(buf, after_env, n_fields) {
        Ok(x) => x,
        Err(_) => {
            return Err(Error::Malformed);
        },
    };
    if end != total {
        return Err(Error::Malformed);
    }
    proof {
        lemma_chunk_canonical(buf@, 1);
        lemma_chunks_canonical(buf@, after_env as int, n_fields as nat);
        assert(buf@ =~= buf@.subrange(0, 1) + buf@.subrange(1, after_env as int) + buf@.subrange(
            after_env as int,
            end as int,
        ));
        assert(buf@.subrange(0, 1) =~= seq![buf@[0]]);
        assert(spec_encode_envelope(env@) == env_bytes@);
        assert(buf@ =~= spec_encode_request(opcode, env@, fields.deep_view()));
    }
    Ok((opcode, env, fields))
}

/// Decodes one response frame: on the ACK-with-OK flag the envelope and
/// exactly `n_fields` output fields; on the ACK-with-ERR flag the remote
/// error message; distinct errors for every other flag and for a stream
/// that is not exactly one frame. A decoded response re-encodes to the
/// bytes it came from.
pub fn decode_response(buf: &Vec<u8>, n_fields: usize) -> (r: Result<
    (GuaranteeSigned, Vec<Vec<u8>>),
    Error,
>)
    ensures
        r matches Ok(ok) ==> {
            &&& spec_response_ok_shape(buf@, n_fields as nat)
            &&& ok.0@ == crate::codec::spec_decode_envelope(spec_chunk_payload(buf@, 1))
            &&& ok.0.wf()
            &&& ok.1.deep_view() == spec_chunks_payloads(buf@, spec_chunk_end(buf@, 1),
                n_fields as nat,
            )
            &&& ok.1@.len() == n_fields
            &&& buf@ == spec_encode_response_ok(ok.0@, ok.1.deep_view())
        },
        r is Ok <==> spec_response_ok_shape(buf@, n_fields as nat),
        spec_response_err_shape(buf@) ==> (r matches Err(Error::Remote { message })
            && message@ == spec_chunk_payload(buf@, 1)),
        r matches Err(e) ==> match e {
            Error::Remote { message } => spec_response_err_shape(buf@) && message@
                == spec_chunk_payload(buf@, 1) && buf@ == spec_encode_response_err(message@),
            Error::UnknownAckFlag { flag } => buf@.len() >= 1 && flag == buf@[0]
                && spec_classify_flag(flag) is UnknownAck,
            Error::BadResultFlag { flag } => buf@.len() >= 1 && flag == buf@[0]
                && spec_classify_flag(flag) is Invalid,
            Error::Malformed => !spec_response_ok_shape(buf@, n_fields as nat)
                && !spec_response_err_shape(buf@),
            _ => false,
        },
{
    let total: usize = buf.len();
    assert(total == buf@.len());
    if total == 0 {
        return Err(Error::Malformed);
    }
    let flag: u8 = buf[0];
    match classify_flag(flag) {
        FlagKind::AckOk => {
            let (env_bytes, after_env) = match crate::codec::decode_chunk(buf, 1) {
                Ok(x) => x,
                Err(_) => {
                    return Err(Error::Malformed);
                },
            };
            let env = match crate::codec::decode_envelope(&env_bytes) {
                Ok(e) => e,
                Err(_) => {
                    return Err(Error::Malformed);
                },
            };
            let (fields, end) = match decode_chunks(buf, after_env, n_fields) {
                Ok(x) => x,
                Err(_) => {
                    return Err(Error::Malformed);
                },
            };
            if end != total {
                return Err(Error::Malformed);
            }
            proof {
                lemma_chunk_canonical(buf@, 1);
                lemma_chunks_canonical(buf@, after_env as int, n_fields as nat);
                assert(buf@ =~= buf@.subrange(0, 1) + buf@.subrange(1, after_env as int)
                    + buf@.subrange(after_env as int, end as int));
                assert(buf@.subrange(0, 1) =~= seq![buf@[0]]);
                assert(spec_encode_envelope(env@) == env_bytes@);
                assert(buf@ =~= spec_encode_response_ok(env@, fields.deep_view()));
            }
            Ok((env, fields))
        },
        FlagKind::AckErr => {
            let (message, end) = match crate::codec::decode_chunk(buf, 1) {
                Ok(x) => x,
                Err(_) => {
                    return Err(Error::Malformed);
                },
            };
            if end != total {
                return Err(Error::Malformed);
            }
            proof {
                lemma_chunk_canonical(buf@, 1);
                assert(buf@ =~= buf@.subrange(0, 1) + buf@.subrange(1, end as int));
                assert(buf@.subrange(0, 1) =~= seq![buf@[0]]);
                assert(buf@ =~= spec_encode_response_err(message@));
            }
            Err(Error::Remote { message })
        },
        FlagKind::UnknownAck => Err(Error::UnknownAckFlag { flag }),
        FlagKind::Invalid => Err(Error::BadResultFlag { flag }),
    }
}

/// Framed fields appended to a prefix read back as themselves.
pub proof fn lemma_chunks_roundtrip_tail(prefix: Seq<u8>, fields: Seq<Seq<u8>>)
    requires
        forall|i: int| 0 <= i < fields.len() ==> #[trigger] fields[i].len() <= u64::MAX,
    ensures
        spec_chunks_at(prefix + spec_encode_chunks(fields), prefix.len() as int,
            fields.len() as nat,
        ),
        spec_chunks_end(prefix + spec_encode_chunks(fields), prefix.len() as int,
            fields.len() as nat,
        ) == prefix.len() + spec_encode_chunks(fields).len(),
        spec_chunks_payloads(prefix + spec_encode_chunks(fields), prefix.len() as int,
            fields.len() as nat,
        ) == fields,
{
    lemma_chunks_roundtrip(prefix, fields, Seq::<u8>::empty());
    assert(prefix + spec_encode_chunks(fields) + Seq::<u8>::empty() =~= prefix
        + spec_encode_chunks(fields));
}

/// A chunk within `b` is untouched by bytes appended after `b`.
pub proof fn lemma_chunk_extend_buf(b: Seq<u8>, rest: Seq<u8>, pos: int)
    requires
        0 <= pos,
        spec_chunk_at(b, pos),
    ensures
        spec_chunk_at(b + rest, pos),
        spec_chunk_end(b + rest, pos) == spec_chunk_end(b, pos),
        spec_chunk_payload(b + rest, pos) == spec_chunk_payload(b, pos),
{
    assert((b + rest).subrange(pos, pos + 8) =~= b.subrange(pos, pos + 8));
    let end = spec_chunk_end(b, pos);
    assert((b + rest).subrange(pos + 8, end) =~= b.subrange(pos + 8, end));
}

/// Chunks within `b` are untouched by bytes appended after `b`.
pub proof fn lemma_chunks_extend_buf(b: Seq<u8>, rest: Seq<u8>, pos: int, n: nat)
    requires
        0 <= pos <= b.len(),
        spec_chunks_at(b, pos, n),
    ensures
        spec_chunks_at(b + rest, pos, n),
        spec_chunks_end(b + rest, pos, n) == spec_chunks_end(b, pos, n),
        spec_chunks_payloads(b + rest, pos, n) == spec_chunks_payloads(b, pos, n),
    decreases n,
{
    if n > 0 {
        lemma_chunk_extend_buf(b, rest, pos);
        lemma_chunks_end_monotonic(b, pos, n);
        lemma_chunks_end_monotonic(b, spec_chunk_end(b, pos), (n - 1) as nat);
        lemma_chunks_extend_buf(b, rest, spec_chunk_end(b, pos), (n - 1) as nat);
        assert(spec_chunks_payloads(b + rest, pos, n) =~= spec_chunks_payloads(b, pos, n));
    }
}

/// The envelope chunk of a frame stands at position 1, whatever the
/// frame's first byte is.
#[verifier::rlimit(100)]
#[verifier::spinoff_prover]
proof fn lemma_frame_env_chunk(first: u8, eb: Seq<u8>, tail: Seq<u8>)
    requires
        eb.len() <= u64::MAX,
    ensures
        spec_chunk_at(seq![first] + spec_encode_chunk(eb) + tail, 1),
        spec_chunk_payload(seq![first] + spec_encode_chunk(eb) + tail, 1) == eb,
        spec_chunk_end(seq![first] + spec_encode_chunk(eb) + tail, 1) == 9 + eb.len(),
{
    crate::codec::lemma_chunk_roundtrip(seq![first], eb, tail);
}

/// The field chunks of a frame stand just past the envelope chunk.
#[verifier::rlimit(100)]
#[verifier::spinoff_prover]
proof fn lemma_frame_field_chunks(first: u8, eb: Seq<u8>, fields: Seq<Seq<u8>>)
    requires
        eb.len() <= u64::MAX,
        forall|i: int| 0 <= i < fields.len() ==> #[trigger] fields[i].len() <= u64::MAX,
    ensures
        spec_chunks_at(seq![first] + spec_encode_chunk(eb) + spec_encode_chunks(fields), 9
            + eb.len() as int, fields.len() as nat),
        spec_chunks_end(seq![first] + spec_encode_chunk(eb) + spec_encode_chunks(fields), 9
            + eb.len() as int, fields.len() as nat) == (seq![first] + spec_encode_chunk(eb)
            + spec_encode_chunks(fields)).len(),
        spec_chunks_payloads(seq![first] + spec_encode_chunk(eb) + spec_encode_chunks(fields), 9
            + eb.len() as int, fields.len() as nat) == fields,
{
    assert(spec_encode_chunk(eb).len() == 8 + eb.len());
    assert((seq![first] + spec_encode_chunk(eb)).len() == 9 + eb.len());
    lemma_chunks_roundtrip_tail(seq![first] + spec_encode_chunk(eb), fields);
}

/// Shape of the ACK-with-OK flag followed by a framed envelope and framed
/// fields.
#[verifier::rlimit(100)]
#[verifier::spinoff_prover]
proof fn lemma_ok_shape(eb: Seq<u8>, fields: Seq<Seq<u8>>)
    requires
        eb.len() <= u64::MAX,
        spec_valid_envelope_bytes(eb),
        forall|i: int| 0 <= i < fields.len() ==> #[trigger] fields[i].len() <= u64::MAX,
    ensures
        spec_response_ok_shape(seq![ACK_OK] + spec_encode_chunk(eb) + spec_encode_chunks(fields),
            fields.len() as nat,
        ),
{
    let b = seq![ACK_OK] + spec_encode_chunk(eb) + spec_encode_chunks(fields);
    lemma_frame_env_chunk(ACK_OK, eb, spec_encode_chunks(fields));
    lemma_frame_field_chunks(ACK_OK, eb, fields);
    assert(b[0] == ACK_OK);
}

/// A successful response frame decodes as built: its shape is valid.
#[verifier::rlimit(100)]
#[verifier::spinoff_prover]
pub proof fn lemma_response_ok_roundtrip(env: EnvelopeData, fields: Seq<Seq<u8>>)
    requires
        env.wf(),
        spec_encode_envelope(env).len() <= u64::MAX,
        forall|i: int| 0 <= i < fields.len() ==> #[trigger] fields[i].len() <= u64::MAX,
    ensures
        spec_response_ok_shape(spec_encode_response_ok(env, fields), fields.len() as nat),
{
    crate::codec::lemma_envelope_roundtrip(env);
    lemma_ok_shape(spec_encode_envelope(env), fields);
}

/// A stream holding a successful response frame and anything more is no
/// frame at all, so a single stream never yields more than one complete
/// response.
#[verifier::rlimit(100)]
#[verifier::spinoff_prover]
pub proof fn lemma_one_ok_frame_per_stream(env: EnvelopeData, fields: Seq<Seq<u8>>, rest: Seq<u8>)
    requires
        env.wf(),
        spec_encode_envelope(env).len() <= u64::MAX,
        forall|i: int| 0 <= i < fields.len() ==> #[trigger] fields[i].len() <= u64::MAX,
        rest.len() > 0,
    ensures
        !spec_response_ok_shape(spec_encode_response_ok(env, fields) + rest, fields.len() as nat),
{
    let frame = spec_encode_response_ok(env, fields);
    crate::codec::lemma_envelope_roundtrip(env);
    lemma_ok_shape(spec_encode_envelope(env), fields);
    if spec_response_ok_shape(frame + rest, fields.len() as nat) {
        lemma_chunk_extend_buf(frame, rest, 1);
        lemma_chunks_end_monotonic(frame, spec_chunk_end(frame, 1), fields.len() as nat);
        lemma_chunks_extend_buf(frame, rest, spec_chunk_end(frame, 1), fields.len() as nat);
        assert(false);
    }
}

/// A request frame decodes as built: its shape is valid, whatever its
/// opcode.
pub proof fn lemma_request_roundtrip(opcode: u8, env: EnvelopeData, fields: Seq<Seq<u8>>)
    requires
        env.wf(),
        spec_encode_envelope(env).len() <= u64::MAX,
        forall|i: int| 0 <= i < fields.len() ==> #[trigger] fields[i].len() <= u64::MAX,
    ensures
        spec_request_shape(spec_encode_request(opcode, env, fields), fields.len() as nat),
        spec_encode_request(opcode, env, fields)[0] == opcode,
        spec_chunk_payload(spec_encode_request(opcode, env, fields), 1) == spec_encode_envelope(
            env,
        ),
        spec_chunks_payloads(spec_encode_request(opcode, env, fields),
            spec_chunk_end(spec_encode_request(opcode, env, fields), 1), fields.len() as nat,
        ) == fields,
{
    crate::codec::lemma_envelope_roundtrip(env);
    lemma_frame_env_chunk(opcode, spec_encode_envelope(env), spec_encode_chunks(fields));
    lemma_frame_field_chunks(opcode, spec_encode_envelope(env), fields);
}

/// A failed response frame is exactly one frame, in the same sense: it
/// decodes as built, and the frame followed by anything more is no frame.
pub proof fn lemma_one_err_frame_per_stream(message: Seq<u8>, rest: Seq<u8>)
    requires
        message.len() <= u64::MAX,
    ensures
        spec_response_err_shape(spec_encode_response_err(message)),
        rest.len() > 0 ==> !spec_response_err_shape(spec_encode_response_err(message) + rest),
{
    let frame = spec_encode_response_err(message);
    crate::codec::lemma_chunk_roundtrip(seq![ACK_ERR], message, Seq::<u8>::empty());
    assert(seq![ACK_ERR] + spec_encode_chunk(message) + Seq::<u8>::empty() =~= frame);
    if rest.len() > 0 {
        let padded = frame + rest;
        crate::codec::lemma_chunk_roundtrip(seq![ACK_ERR], message, rest);
        assert(seq![ACK_ERR] + spec_encode_chunk(message) + rest =~= padded);
        assert(spec_chunk_end(padded, 1) == frame.len());
        assert(frame.len() < padded.len());
    }
}

} // verus!
