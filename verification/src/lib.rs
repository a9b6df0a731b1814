//! An accountable remote-procedure framework for peers identified by
//! cryptographic accounts rather than network addresses. Every request and
//! response travels inside a signed, expiration-bound envelope binding a
//! payload to its signer (the guarantor) and its intended recipient (the
//! guarantee), so a peer can prove who asked for what and until when the
//! answer stays valid. The envelopes and payload fields ride a length-framed
//! wire protocol: one opcode byte selects the method on a request stream,
//! and one result-flag byte opens a response stream with either a signed
//! answer or a remote error's message.
//!
//! The library holds the verified core — the trust rules, the codec, the
//! frames, the per-stream dispatch and the protocol generator. Sockets,
//! streams and tasks live with the embedding program, which moves byte
//! buffers between this library and the network.

pub mod byteops;
pub mod client;
pub mod codec;
pub mod crypto;
pub mod double;
pub mod envelope;
pub mod errors;
pub mod frame;
pub mod schema;
pub mod server;
