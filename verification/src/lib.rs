//! The core of an asynchronous language-server client, with proofs.
//!
//! Three pieces of such a client carry its invariants, and they are what
//! this crate holds:
//!
//! - the framing codec, which cuts a byte stream into messages and back
//!   (`codec`, over the grammar in `header` and `frame`, with the laws of
//!   the stream in `stream` and `round_trip`);
//! - the typed dispatcher, a slot that lends its channel to one exchange
//!   at a time and loses it for good when the transport fails (`client`);
//! - the handler that follows the progress reports of the server and
//!   releases a one-shot signal when the server is ready (`client::rust`).
//!
//! Nothing here reads or writes a socket. The crate decides; its caller
//! moves the bytes. What is assumed of other crates stands in `trusted`.

pub mod client;
pub mod codec;
pub mod frame;
pub mod header;
pub mod round_trip;
pub mod stream;
pub mod text;
pub mod trusted;

pub use client::Client;
pub use codec::LspCodec;
