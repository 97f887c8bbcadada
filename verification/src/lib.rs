//! A client-side engine for the RESP2/RESP3 wire protocol of a key-value
//! store, written without any I/O of its own.
//!
//! The library serializes commands and pipelines, decodes replies
//! incrementally from whatever bytes have arrived, and decides, step by step,
//! what a connection has to write or read next. A driver that owns the socket
//! performs those steps and reports back what happened.
//!
//! - [`value`], [`types`]: replies and errors, with their mathematical content.
//! - [`wire`], [`cmd`]: framing primitives; commands and pipelines and their
//!   wire form.
//! - [`grammar`]: the wire grammar of replies, as functions on bytes.
//! - [`parser`], [`encoder`]: the decoder and the encoder of replies, proved
//!   against the grammar.
//! - [`roundtrip`], [`resume`]: decoding undoes encoding; a frame that has
//!   arrived stays what it is when more bytes arrive.
//! - [`exchange`]: one exchange with the peer as a state machine: a single
//!   command, a pipeline, or leaving pub/sub mode.
//! - [`connection`]: the session that owns a stream and runs exchanges on
//!   the bytes that the driver hands it.
//! - [`runs`]: what complete runs of exchanges come to: replies in issue
//!   order, pipelines that take exactly their replies, leaving pub/sub mode.
//! - [`pubsub`]: acknowledgements, messages, and sessions in pub/sub and
//!   monitor mode.
//! - [`bootstrap`], [`tls`]: how a stream is obtained for an address, the
//!   race between candidate addresses, and what a TLS connection checks.
//! - [`async_std`]: the wrapper for streams of another runtime.

pub mod async_std;
pub mod bootstrap;
pub mod cmd;
pub mod connection;
pub mod encoder;
pub mod exchange;
pub mod grammar;
pub mod parser;
pub mod pubsub;
pub mod resume;
pub mod roundtrip;
pub mod runs;
pub mod tls;
pub mod types;
pub mod value;
pub mod wire;
