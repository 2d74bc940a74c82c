//! What the library takes on trust.
//!
//! The library works with values of other crates: the byte buffer of
//! `bytes`, the messages and the body codec of `tokio_jsonrpc`, the JSON
//! values of `serde_json`, the one-shot channel of `futures`. This file
//! declares those types to the verifier and gives each function that the
//! library calls a contract. The verifier believes these contracts; it
//! proves none of them. Everything outside this file is proved, on the
//! strength of what is stated here.

use bytes::BytesMut;
use futures::sync::oneshot::{channel, Receiver, Sender};
use serde_json::Value;
use tokio_io::codec::{Decoder, Encoder};
use tokio_jsonrpc::message::{Broken, Response};
use tokio_jsonrpc::Client as Channel;
use tokio_jsonrpc::{BoundaryCodec, Message, Parsed, RpcError};
use vstd::prelude::*;
use vstd::utf8::{decode_utf8, valid_utf8};

verus! {

/// The byte buffer of the `bytes` crate, opaque to the verifier.
#[verifier::external_type_specification]
#[verifier::external_body]
pub struct ExBytesMut(BytesMut);

/// A message of the body codec, opaque to the verifier.
#[verifier::external_type_specification]
#[verifier::external_body]
pub struct ExMessage(Message);

/// What the body codec makes of bytes that are no message, opaque to the
/// verifier.
#[verifier::external_type_specification]
#[verifier::external_body]
pub struct ExBroken(Broken);

/// A response of the remote side, opaque to the verifier.
#[verifier::external_type_specification]
#[verifier::external_body]
pub struct ExResponse(Response);

/// The error object of a response, opaque to the verifier.
#[verifier::external_type_specification]
#[verifier::external_body]
pub struct ExRpcError(RpcError);

/// The handle of the correlation engine for one connection, opaque to the
/// verifier.
#[verifier::external_type_specification]
#[verifier::external_body]
pub struct ExChannel(Channel);

/// A JSON value, opaque to the verifier.
#[verifier::external_type_specification]
#[verifier::external_body]
pub struct ExValue(Value);

/// The error type of the JSON serializer, opaque to the verifier.
#[verifier::external_type_specification]
#[verifier::external_body]
pub struct ExJsonError(serde_json::Error);

/// The error type of `std::io`, opaque to the verifier.
#[verifier::external_type_specification]
#[verifier::external_body]
pub struct ExIoError(std::io::Error);

/// The sending half of a one-shot channel, opaque to the verifier.
#[verifier::external_type_specification]
#[verifier::external_body]
#[verifier::reject_recursive_types(T)]
pub struct ExSender<T>(Sender<T>);

/// The receiving half of a one-shot channel, opaque to the verifier.
#[verifier::external_type_specification]
#[verifier::external_body]
#[verifier::reject_recursive_types(T)]
pub struct ExReceiver<T>(Receiver<T>);

/// The bytes that a buffer holds, first to last.
pub uninterp spec fn held(buf: BytesMut) -> Seq<u8>;

/// What the body codec makes of a message: the body that it writes, or
/// the error of its serializer for a message that it refuses.
pub uninterp spec fn encoded_body(msg: Message) -> Result<Seq<u8>, std::io::Error>;

/// The text that `String::from_utf8_lossy` makes of bytes.
pub uninterp spec fn lossy_text(bytes: Seq<u8>) -> Seq<char>;

/// What the body codec reads from a body: a message, a report of a broken
/// one, or nothing where the body holds no complete value.
pub uninterp spec fn decoded_body(body: Seq<u8>) -> Option<Parsed>;

/// What a response carries: a result, or the error object of the remote
/// side.
pub uninterp spec fn response_result(response: Response) -> Result<Value, RpcError>;

/// `BytesMut` as a slice (`AsRef<[u8]>`): the bytes that the buffer holds.
#[verifier::external_body]
pub(crate) fn contents(buf: &BytesMut) -> (bytes: &[u8])
    ensures
        bytes@ == held(*buf),
{
    buf.as_ref()
}

/// `BytesMut::split_to`: takes the first `at` bytes out of the buffer and
/// returns them; the rest stays. It panics where `at` is more than the
/// buffer holds.
#[verifier::external_body]
pub(crate) fn split_to(buf: &mut BytesMut, at: usize) -> (head: BytesMut)
    requires
        at <= held(*old(buf)).len(),
    ensures
        held(head) == held(*old(buf)).take(at as int),
        held(*final(buf)) == held(*old(buf)).skip(at as int),
{
    buf.split_to(at)
}

/// `BytesMut::extend_from_slice`: appends the bytes to the buffer, which
/// grows as needed.
#[verifier::external_body]
pub(crate) fn extend_from_slice(buf: &mut BytesMut, bytes: &[u8])
    ensures
        held(*final(buf)) == held(*old(buf)) + bytes@,
{
    buf.extend_from_slice(bytes)
}

/// `Encoder::encode` of the body codec, on a fresh buffer: the serialized
/// message, or the error of the serializer. Either is a function of the
/// message alone.
#[verifier::external_body]
pub(crate) fn encode_body(msg: Message) -> (r: Result<Vec<u8>, std::io::Error>)
    ensures
        match r {
            Ok(body) => encoded_body(msg) == Ok::<Seq<u8>, std::io::Error>(body@),
            Err(error) => encoded_body(msg) == Err::<Seq<u8>, std::io::Error>(error),
        },
{
    let mut body = BytesMut::new();
    match BoundaryCodec.encode(msg, &mut body) {
        Ok(()) => Ok(body.to_vec()),
        Err(error) => Err(error),
    }
}

/// `Decoder::decode` of the body codec: it reads the first JSON value of
/// the buffer and never fails; what it returns is a function of the bytes
/// alone. It may leave bytes in the buffer; nothing is said of them.
#[verifier::external_body]
pub(crate) fn decode_body(body: &mut BytesMut) -> (r: Result<Option<Parsed>, std::io::Error>)
    ensures
        r matches Ok(parsed) && parsed == decoded_body(held(*old(body))),
{
    BoundaryCodec.decode(body)
}

/// `std::str::from_utf8`, asked only whether it succeeds: it does for
/// bytes that are UTF-8 and for no others.
#[verifier::external_body]
pub(crate) fn is_text(bytes: &[u8]) -> (r: bool)
    ensures
        r == valid_utf8(bytes@),
{
    std::str::from_utf8(bytes).is_ok()
}

/// `String::from_utf8_lossy`: the bytes as text, with U+FFFD in place of
/// what is no UTF-8. Bytes that are UTF-8 give the text that they encode.
#[verifier::external_body]
pub(crate) fn text_of(bytes: &[u8]) -> (text: String)
    ensures
        text@ == lossy_text(bytes@),
        valid_utf8(bytes@) ==> text@ == decode_utf8(bytes@),
{
    String::from_utf8_lossy(bytes).into_owned()
}

/// `ToString::to_string` of `std::io::Error`: the text that the error
/// displays. Nothing is claimed of it.
#[verifier::external_body]
pub(crate) fn describe(error: &std::io::Error) -> (text: String) {
    error.to_string()
}

/// The field `result` of a `Response`.
#[verifier::external_body]
pub(crate) fn into_result(response: Response) -> (r: Result<Value, RpcError>)
    ensures
        r == response_result(response),
{
    response.result
}

/// `oneshot::channel`: a fresh one-shot channel. Nothing is claimed of the
/// two halves.
#[verifier::external_body]
pub(crate) fn ready_signal() -> (halves: (Sender<()>, Receiver<()>)) {
    channel()
}

/// The record of one call of `Sender::send`. Only `release` makes one, so
/// whoever holds a record holds the proof that the sender it names was
/// sent, not dropped.
pub struct Released {
    delivered: bool,
    sender: Ghost<Sender<()>>,
}

impl Released {
    /// The sender that was sent.
    pub closed spec fn sender(self) -> Sender<()> {
        self.sender@
    }

    /// What `send` returned: whether a receiver was still there.
    pub closed spec fn reached_receiver(self) -> bool {
        self.delivered
    }

    /// Whether a receiver was still there to be woken.
    pub fn delivered(&self) -> (r: bool)
        ensures
            r == self.reached_receiver(),
    {
        self.delivered
    }
}

/// `Sender::send`: completes the channel, and so wakes the receiver. The
/// record names the sender that was sent and keeps what `send` returned:
/// whether a receiver was still there. Nothing is claimed of that.
#[verifier::external_body]
pub(crate) fn release(sender: Sender<()>) -> (sent: Released)
    ensures
        sent.sender() == sender,
{
    let named = Ghost(sender);
    Released { delivered: sender.send(()).is_ok(), sender: named }
}

} // verus!
