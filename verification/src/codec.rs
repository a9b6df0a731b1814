//! The wire codec: length-framed chunks, and the byte encoding of an
//! envelope. Decoding validates structure before any field is trusted and
//! accepts exactly the encodings the encoder produces, so a decoded value
//! re-encodes to the very bytes it came from.

use vstd::prelude::*;

use crate::byteops::{spec_u64_from_le, spec_u64_le};
use crate::envelope::{spec_expiration_bytes, EnvelopeData, GuaranteeSigned};
use crate::errors::Error;

verus! {

/// A length-framed chunk: eight little-endian length bytes, then the bytes.
pub open spec fn spec_encode_chunk(b: Seq<u8>) -> Seq<u8> {
    spec_u64_le(b.len() as u64) + b
}

/// Whether a chunk starts at `pos` in `buf`: the length header fits, and it
/// announces no more bytes than remain.
pub open spec fn spec_chunk_at(buf: Seq<u8>, pos: int) -> bool {
    &&& pos + 8 <= buf.len()
    &&& pos + 8 + spec_u64_from_le(buf.subrange(pos, pos + 8)) <= buf.len()
}

/// The payload of the chunk that starts at `pos`.
pub open spec fn spec_chunk_payload(buf: Seq<u8>, pos: int) -> Seq<u8>
    recommends
        spec_chunk_at(buf, pos),
{
    buf.subrange(pos + 8, pos + 8 + spec_u64_from_le(buf.subrange(pos, pos + 8)))
}

/// The position just past the chunk that starts at `pos`.
pub open spec fn spec_chunk_end(buf: Seq<u8>, pos: int) -> int
    recommends
        spec_chunk_at(buf, pos),
{
    pos + 8 + spec_u64_from_le(buf.subrange(pos, pos + 8))
}

/// Reading back an encoded chunk yields the bytes that were framed.
pub proof fn lemma_chunk_roundtrip(prefix: Seq<u8>, b: Seq<u8>, rest: Seq<u8>)
    requires
        b.len() <= u64::MAX,
    ensures
        spec_chunk_at(prefix + spec_encode_chunk(b) + rest, prefix.len() as int),
        spec_chunk_payload(prefix + spec_encode_chunk(b) + rest, prefix.len() as int) == b,
        spec_chunk_end(prefix + spec_encode_chunk(b) + rest, prefix.len() as int) == prefix.len()
            + 8 + b.len(),
{
    let buf = prefix + spec_encode_chunk(b) + rest;
    let pos = prefix.len() as int;
    assert(buf.subrange(pos, pos + 8) =~= spec_u64_le(b.len() as u64));
    crate::byteops::lemma_u64_le_roundtrip(b.len() as u64);
    assert(spec_u64_from_le(buf.subrange(pos, pos + 8)) == b.len());
    assert(buf.subrange(pos + 8, pos + 8 + b.len()) =~= b);
}

/// Appends the chunk framing of `b` to `out`.
pub fn encode_chunk(out: &mut Vec<u8>, b: &Vec<u8>)
    ensures
        final(out)@ == old(out)@ + spec_encode_chunk(b@),
{
    crate::byteops::push_u64_le(out, b.len() as u64);
    crate::byteops::push_bytes(out, b);
    assert(out@ =~= old(out)@ + spec_encode_chunk(b@));
}

/// Reads the chunk that starts at `pos`, returning its payload and the
/// position just past it; rejects a truncated header or body.
pub fn decode_chunk(buf: &Vec<u8>, pos: usize) -> (r: Result<(Vec<u8>, usize), Error>)
    requires
        pos <= buf@.len(),
    ensures
        r matches Ok(ok) ==> {
            &&& spec_chunk_at(buf@, pos as int)
            &&& ok.0@ == spec_chunk_payload(buf@, pos as int)
            &&& ok.1 == spec_chunk_end(buf@, pos as int)
            &&& pos + 8 <= ok.1 <= buf@.len()
        },
        r matches Err(e) ==> e == Error::Malformed && !spec_chunk_at(buf@, pos as int),
{
    let total: usize = buf.len();
    assert(total == buf@.len());
    if total - pos < 8 {
        return Err(Error::Malformed);
    }
    let len: u64 = crate::byteops::read_u64_le(buf, pos);
    let room: usize = total - (pos + 8);
    if len > room as u64 {
        return Err(Error::Malformed);
    }
    let n: usize = len as usize;
    assert(n == len) by {
        assert(len <= room as u64);
    };
    let bytes = crate::byteops::copy_range(buf, pos + 8, n);
    Ok((bytes, pos + 8 + n))
}

/// The byte encoding of an envelope: guarantor, guarantee, expiration,
/// signature, payload, in that order; 137 bytes before the payload.
pub open spec fn spec_encode_envelope(e: EnvelopeData) -> Seq<u8> {
    e.guarantor + e.guarantee + spec_expiration_bytes(e.expiration) + e.signature + e.payload
}

/// Whether `b` is the encoding of some well-formed envelope: long enough,
/// with a valid expiration tag, and zeroed timestamp bytes when the tag says
/// the expiration is absent.
pub open spec fn spec_valid_envelope_bytes(b: Seq<u8>) -> bool {
    &&& b.len() >= 137
    &&& (b[64] == 1u8 || (b[64] == 0u8 && b.subrange(65, 73) == spec_u64_le(0)))
}

/// The envelope whose encoding `b` is.
pub open spec fn spec_decode_envelope(b: Seq<u8>) -> EnvelopeData
    recommends
        spec_valid_envelope_bytes(b),
{
    EnvelopeData {
        guarantor: b.subrange(0, 32),
        guarantee: b.subrange(32, 64),
        expiration: if b[64] == 1u8 {
            Some(spec_u64_from_le(b.subrange(65, 73)) as i64)
        } else {
            None
        },
        signature: b.subrange(73, 137),
        payload: b.subrange(137, b.len() as int),
    }
}

/// An eight-byte string is recovered from the value it denotes.
pub proof fn lemma_u64_le_inverse(s: Seq<u8>)
    requires
        s.len() == 8,
    ensures
        spec_u64_le(spec_u64_from_le(s)) == s,
{
    let b0 = s[0];
    let b1 = s[1];
    let b2 = s[2];
    let b3 = s[3];
    let b4 = s[4];
    let b5 = s[5];
    let b6 = s[6];
    let b7 = s[7];
    let x = spec_u64_from_le(s);
    assert(x == (b0 as u64) | ((b1 as u64) << 8) | ((b2 as u64) << 16) | ((b3 as u64) << 24) | ((
    b4 as u64) << 32) | ((b5 as u64) << 40) | ((b6 as u64) << 48) | ((b7 as u64) << 56));
    let y = (b0 as u64) | ((b1 as u64) << 8) | ((b2 as u64) << 16) | ((b3 as u64) << 24) | ((
    b4 as u64) << 32) | ((b5 as u64) << 40) | ((b6 as u64) << 48) | ((b7 as u64) << 56);
    assert((y & 0xff) as u8 == b0 && ((y >> 8) & 0xff) as u8 == b1 && ((y >> 16) & 0xff) as u8 == b2
        && ((y >> 24) & 0xff) as u8 == b3 && ((y >> 32) & 0xff) as u8 == b4 && ((y >> 40)
        & 0xff) as u8 == b5 && ((y >> 48) & 0xff) as u8 == b6 && ((y >> 56) & 0xff) as u8 == b7)
        by (bit_vector)
        requires
            y == (b0 as u64) | ((b1 as u64) << 8) | ((b2 as u64) << 16) | ((b3 as u64) << 24) | ((
            b4 as u64) << 32) | ((b5 as u64) << 40) | ((b6 as u64) << 48) | ((b7 as u64) << 56),
    ;
    assert(spec_u64_le(x) =~= s);
}

/// Encoding then decoding an envelope yields the envelope back.
pub proof fn lemma_envelope_roundtrip(e: EnvelopeData)
    requires
        e.wf(),
    ensures
        spec_valid_envelope_bytes(spec_encode_envelope(e)),
        spec_decode_envelope(spec_encode_envelope(e)) == e,
{
    let b = spec_encode_envelope(e);
    let exp = spec_expiration_bytes(e.expiration);
    assert(b.subrange(0, 32) =~= e.guarantor);
    assert(b.subrange(32, 64) =~= e.guarantee);
    assert(b.subrange(64, 73) =~= exp);
    assert(b.subrange(73, 137) =~= e.signature);
    assert(b.subrange(137, b.len() as int) =~= e.payload);
    assert(b[64] == exp[0]);
    assert(b.subrange(65, 73) =~= exp.subrange(1, 9));
    match e.expiration {
        Some(t) => {
            assert(exp[0] == 1u8);
            assert(exp.subrange(1, 9) =~= spec_u64_le(t as u64));
            crate::byteops::lemma_u64_le_roundtrip(t as u64);
            assert(spec_u64_from_le(spec_u64_le(t as u64)) == t as u64);
            assert((t as u64) as i64 == t) by (bit_vector);
        },
        None => {
            assert(exp[0] == 0u8);
            assert(exp.subrange(1, 9) =~= spec_u64_le(0));
        },
    }
}

/// Appends the byte encoding of `e` to `out`.
pub fn encode_envelope(out: &mut Vec<u8>, e: &GuaranteeSigned)
    ensures
        final(out)@ == old(out)@ + spec_encode_envelope(e@),
{
    crate::byteops::push_bytes(out, &e.guarantor.id);
    crate::byteops::push_bytes(out, &e.guarantee.id);
    let exp = crate::envelope::expiration_bytes(e.expiration);
    crate::byteops::push_bytes(out, &exp);
    crate::byteops::push_bytes(out, &e.signature);
    crate::byteops::push_bytes(out, &e.payload);
    assert(out@ =~= old(out)@ + spec_encode_envelope(e@));
}

/// Decodes an envelope from exactly the bytes `b`, validating structure
/// before any field is trusted. Succeeds exactly on valid encodings, and a
/// decoded envelope re-encodes to the bytes it came from: no two envelopes
/// share an encoding.
pub fn decode_envelope(b: &Vec<u8>) -> (r: Result<GuaranteeSigned, Error>)
    ensures
        r matches Ok(e) ==> {
            &&& spec_valid_envelope_bytes(b@)
            &&& e@ == spec_decode_envelope(b@)
            &&& e.wf()
            &&& spec_encode_envelope(e@) == b@
        },
        r matches Err(er) ==> er == Error::Malformed && !spec_valid_envelope_bytes(b@),
{
    let total: usize = b.len();
    assert(total == b@.len());
    if total < 137 {
        return Err(Error::Malformed);
    }
    let tag: u8 = b[64];
    let ts: u64 = crate::byteops::read_u64_le(b, 65);
    let expiration: Option<i64> = if tag == 1 {
        Some(ts as i64)
    } else if tag == 0 && ts == 0 {
        None
    } else {
        // an unknown tag, or an absent expiration with nonzero timestamp
        // bytes, is no encoding: a zeroed timestamp reads back as zero
        proof {
            if spec_valid_envelope_bytes(b@) {
                if b@[64] == 0u8 {
                    crate::byteops::lemma_u64_le_roundtrip(0);
                }
            }
        }
        return Err(Error::Malformed);
    };
    let guarantor = crate::crypto::AccountRef::new(crate::byteops::copy_range(b, 0, 32));
    let guarantee = crate::crypto::AccountRef::new(crate::byteops::copy_range(b, 32, 32));
    let signature = crate::byteops::copy_range(b, 73, 64);
    let payload = crate::byteops::copy_range(b, 137, total - 137);
    let e = GuaranteeSigned { guarantor, guarantee, expiration, payload, signature };
    proof {
        if tag == 1 {
            lemma_u64_le_inverse(b@.subrange(65, 73));
            assert((ts as i64) as u64 == ts) by (bit_vector);
        } else {
            crate::byteops::lemma_u64_le_roundtrip(0);
            lemma_u64_le_inverse(b@.subrange(65, 73));
            assert(b@.subrange(65, 73) == spec_u64_le(0));
        }
        assert(e@ == spec_decode_envelope(b@));
        assert(spec_encode_envelope(e@) =~= b@);
    }
    Ok(e)
}

} // verus!
