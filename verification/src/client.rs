//! The typed dispatcher: a slot that owns the channel to the correlation
//! engine, lends it to one exchange at a time, and loses it for good when
//! the transport fails.
//!
//! The dispatcher decides; it sends nothing itself. `call` and `notify`
//! hand the channel out for one exchange, and `sent` takes the outcome of
//! the send: the channel comes back only after a send that succeeded.

pub mod rust;

use crate::trusted::{describe, into_result, response_result};
use serde_json::Value;
use tokio_jsonrpc::message::Response;
use tokio_jsonrpc::Client as Channel;
use vstd::prelude::*;
use vstd::string::*;

verus! {

/// Why an exchange with the remote side failed.
#[derive(Debug)]
pub enum ClientError {
    /// The parameters could not be serialized. Nothing was sent.
    Serialize,
    /// The dispatcher has lost its channel. Nothing was sent.
    Poisoned,
    /// The request could not be sent. The dispatcher is poisoned from now
    /// on.
    Send,
    /// The transport failed while the response was awaited, with this
    /// error.
    InvalidResponse(std::io::Error),
    /// The exchange ended without a response.
    MissingResponse,
    /// The response carries an error object in place of a result.
    InvalidEncoding,
    /// The result does not have the shape that the method promises.
    Deserialize,
}

impl ClientError {
    /// The description of the error. For an error of the transport this is
    /// what the description starts with; what the error displays follows.
    pub open spec fn text(self) -> Seq<char> {
        match self {
            ClientError::Serialize => "Failed to serialize parameters"@,
            ClientError::Poisoned => "Tried to make a call on a poisoned client instance"@,
            ClientError::Send => "Failed to send request"@,
            ClientError::InvalidResponse(_) => "invalid response: "@,
            ClientError::MissingResponse => "expected a response value"@,
            ClientError::InvalidEncoding => "invalid encoding"@,
            ClientError::Deserialize => "Failed to deserialize"@,
        }
    }

    /// A description of the error for people.
    pub fn message(&self) -> (text: String)
        ensures
            self.text().is_prefix_of(text@),
            !(self is InvalidResponse) ==> text@ == self.text(),
    {
        match self {
            ClientError::Serialize => String::from_str("Failed to serialize parameters"),
            ClientError::Poisoned => String::from_str(
                "Tried to make a call on a poisoned client instance",
            ),
            ClientError::Send => String::from_str("Failed to send request"),
            ClientError::InvalidResponse(error) => {
                let detail = describe(error);
                String::from_str("invalid response: ").concat(detail.as_str())
            },
            ClientError::MissingResponse => String::from_str("expected a response value"),
            ClientError::InvalidEncoding => String::from_str("invalid encoding"),
            ClientError::Deserialize => String::from_str("Failed to deserialize"),
        }
    }
}

/// One message that is ready to be sent: the channel to send it on, and
/// its serialized parameters.
pub struct Outgoing {
    pub channel: Channel,
    pub params: Value,
}

/// What beginning an exchange comes to, for a dispatcher that holds
/// `channel` and parameters that were serialized to `params`.
///
/// Parameters that could not be serialized fail the exchange and leave the
/// channel where it is. A dispatcher without a channel fails it as
/// poisoned. Otherwise the channel leaves the dispatcher with the message.
pub open spec fn begin(
    channel: Option<Channel>,
    params: Result<Value, serde_json::Error>,
) -> (Option<Channel>, Result<Outgoing, ClientError>) {
    match (params, channel) {
        (Err(_), _) => (channel, Err(ClientError::Serialize)),
        (Ok(_), None) => (None, Err(ClientError::Poisoned)),
        (Ok(params), Some(channel)) => (None, Ok(Outgoing { channel, params })),
    }
}

/// A dispatcher without its channel sends nothing: whatever the
/// parameters, the exchange fails, and the dispatcher stays as it is. With
/// parameters that could be serialized, it fails as poisoned.
pub proof fn lemma_poisoned_sends_nothing(params: Result<Value, serde_json::Error>)
    ensures
        begin(None, params).0 is None,
        begin(None, params).1 is Err,
        params is Ok ==> begin(None, params).1 == Err::<Outgoing, ClientError>(
            ClientError::Poisoned,
        ),
{
}

/// A generic client to a language server.
pub struct Client {
    inner: Option<Channel>,
}

impl Client {
    /// The channel that the dispatcher holds. It holds none while an
    /// exchange is being sent, and none ever again once a send has failed.
    pub closed spec fn channel(&self) -> Option<Channel> {
        self.inner
    }

    /// A dispatcher that owns `channel`.
    pub fn new(channel: Channel) -> (client: Self)
        ensures
            client.channel() == Some(channel),
    {
        Client { inner: Some(channel) }
    }

    /// Whether the dispatcher is without its channel.
    pub fn is_poisoned(&self) -> (r: bool)
        ensures
            r == (self.channel() is None),
    {
        self.inner.is_none()
    }

    /// Begins a call with parameters that were serialized to `params`. On
    /// `Ok` the caller sends the message and reports with `sent`.
    pub fn call(&mut self, params: Result<Value, serde_json::Error>) -> (r: Result<
        Outgoing,
        ClientError,
    >)
        ensures
            (final(self).channel(), r) == begin(old(self).channel(), params),
    {
        let params = match params {
            Ok(params) => params,
            Err(_) => {
                return Err(ClientError::Serialize);
            },
        };
        match self.inner.take() {
            None => Err(ClientError::Poisoned),
            Some(channel) => Ok(Outgoing { channel, params }),
        }
    }

    /// Begins a notification with parameters that were serialized to
    /// `params`. On `Some` the caller sends the message and reports with
    /// `sent`. Why nothing is to be sent is not said: the next call shows
    /// whether the dispatcher is poisoned.
    pub fn notify(&mut self, params: Result<Value, serde_json::Error>) -> (r: Option<Outgoing>)
        ensures
            final(self).channel() == begin(old(self).channel(), params).0,
            match begin(old(self).channel(), params).1 {
                Ok(outgoing) => r == Some(outgoing),
                Err(_) => r is None,
            },
    {
        match self.call(params) {
            Ok(outgoing) => Some(outgoing),
            Err(_) => None,
        }
    }

    /// Takes the outcome of a send: the channel that the engine gave back,
    /// or the error of the transport. After an error the dispatcher holds
    /// no channel.
    pub fn sent(&mut self, outcome: Result<Channel, std::io::Error>) -> (r: Result<
        (),
        ClientError,
    >)
        ensures
            match outcome {
                Ok(channel) => r is Ok && final(self).channel() == Some(channel),
                Err(_) => r == Err::<(), ClientError>(ClientError::Send) && final(self).channel()
                    is None,
            },
    {
        match outcome {
            Ok(channel) => {
                self.inner = Some(channel);
                Ok(())
            },
            Err(_) => {
                self.inner = None;
                Err(ClientError::Send)
            },
        }
    }
}

/// Extracts the result of an exchange and maps its failures.
pub fn extract_response(resp: Result<Option<Response>, std::io::Error>) -> (r: Result<
    Value,
    ClientError,
>)
    ensures
        r == match resp {
            Err(error) => Err::<Value, ClientError>(ClientError::InvalidResponse(error)),
            Ok(None) => Err(ClientError::MissingResponse),
            Ok(Some(response)) => match response_result(response) {
                Ok(value) => Ok(value),
                Err(_) => Err(ClientError::InvalidEncoding),
            },
        },
{
    match resp {
        Err(error) => Err(ClientError::InvalidResponse(error)),
        Ok(None) => Err(ClientError::MissingResponse),
        Ok(Some(response)) => match into_result(response) {
            Ok(value) => Ok(value),
            Err(_) => Err(ClientError::InvalidEncoding),
        },
    }
}

/// Takes the outcome of reading a result at the type that the method
/// promises.
pub fn deserialized<T>(outcome: Result<T, serde_json::Error>) -> (r: Result<T, ClientError>)
    ensures
        r == match outcome {
            Ok(value) => Ok::<T, ClientError>(value),
            Err(_) => Err(ClientError::Deserialize),
        },
{
    match outcome {
        Ok(value) => Ok(value),
        Err(_) => Err(ClientError::Deserialize),
    }
}

} // verus!
