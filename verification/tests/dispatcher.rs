use serde_json::Value;
use std::io::{Cursor, Error as IoError, ErrorKind};
use tokio_core::reactor::Core;
use tokio_io::AsyncRead;
use tokio_jsonrpc::message::{from_str, Response};
use tokio_jsonrpc::{Endpoint, LineCodec, Message};
use tokio_lsp::client::{deserialized, extract_response, ClientError};
use tokio_lsp::Client;

#[allow(deprecated)]
fn channel(core: &Core) -> tokio_jsonrpc::Client {
    let connection = Cursor::new(Vec::new()).framed(LineCodec::new());
    let (channel, _finished) = Endpoint::client_only(connection).start(&core.handle());
    channel
}

fn unserializable() -> serde_json::Error {
    serde_json::from_str::<Value>("{").unwrap_err()
}

fn transport_failure() -> IoError {
    IoError::new(ErrorKind::BrokenPipe, "write failed")
}

fn response(text: &str) -> Response {
    match from_str(text) {
        Ok(Message::Response(response)) => response,
        other => panic!("no response: {:?}", other),
    }
}

#[test]
fn call_hands_the_channel_out_and_takes_it_back() {
    let core = Core::new().unwrap();
    let mut client = Client::new(channel(&core));
    assert!(!client.is_poisoned());
    let outgoing = client.call(Ok(Value::Bool(true))).unwrap();
    assert_eq!(outgoing.params, Value::Bool(true));
    assert!(client.is_poisoned());
    assert!(client.sent(Ok(outgoing.channel)).is_ok());
    assert!(!client.is_poisoned());
    let outgoing = client.call(Ok(Value::Null)).unwrap();
    assert_eq!(outgoing.params, Value::Null);
}

#[test]
fn call_after_failed_send_is_poisoned() {
    let core = Core::new().unwrap();
    let mut client = Client::new(channel(&core));
    let outgoing = client.call(Ok(Value::Bool(true)));
    assert!(outgoing.is_ok());
    drop(outgoing);
    assert!(matches!(client.sent(Err(transport_failure())), Err(ClientError::Send)));
    assert!(client.is_poisoned());
    assert!(matches!(client.call(Ok(Value::Bool(true))), Err(ClientError::Poisoned)));
    assert!(matches!(client.call(Ok(Value::Null)), Err(ClientError::Poisoned)));
    assert!(client.notify(Ok(Value::Null)).is_none());
    assert!(client.is_poisoned());
}

#[test]
fn call_with_unserializable_parameters_leaves_the_channel() {
    let core = Core::new().unwrap();
    let mut client = Client::new(channel(&core));
    assert!(matches!(client.call(Err(unserializable())), Err(ClientError::Serialize)));
    assert!(!client.is_poisoned());
    assert!(client.call(Ok(Value::Null)).is_ok());
}

#[test]
fn call_reports_serialization_before_poisoning() {
    let core = Core::new().unwrap();
    let mut client = Client::new(channel(&core));
    let _ = client.sent(Err(transport_failure()));
    assert!(matches!(client.call(Err(unserializable())), Err(ClientError::Serialize)));
    assert!(matches!(client.call(Ok(Value::Null)), Err(ClientError::Poisoned)));
}

#[test]
fn notify_hands_the_channel_out_and_takes_it_back() {
    let core = Core::new().unwrap();
    let mut client = Client::new(channel(&core));
    assert!(client.notify(Err(unserializable())).is_none());
    assert!(!client.is_poisoned());
    let outgoing = client.notify(Ok(Value::Bool(false))).unwrap();
    assert_eq!(outgoing.params, Value::Bool(false));
    assert!(client.is_poisoned());
    assert!(client.notify(Ok(Value::Null)).is_none());
    assert!(client.sent(Ok(outgoing.channel)).is_ok());
    assert!(client.notify(Ok(Value::Null)).is_some());
}

#[test]
fn extract_response_takes_the_result() {
    let resp = response("{\"jsonrpc\": \"2.0\", \"result\": 5, \"id\": 1}");
    assert_eq!(extract_response(Ok(Some(resp))).unwrap(), Value::from(5));
    let resp = response("{\"jsonrpc\": \"2.0\", \"result\": null, \"id\": 1}");
    assert_eq!(extract_response(Ok(Some(resp))).unwrap(), Value::Null);
}

#[test]
fn extract_response_maps_failures() {
    let resp = response(
        "{\"jsonrpc\": \"2.0\", \"error\": {\"code\": -32601, \"message\": \"no\"}, \"id\": 1}",
    );
    assert!(matches!(extract_response(Ok(Some(resp))), Err(ClientError::InvalidEncoding)));
    assert!(matches!(extract_response(Ok(None)), Err(ClientError::MissingResponse)));
    match extract_response(Err(transport_failure())) {
        Err(ClientError::InvalidResponse(error)) => {
            assert_eq!(error.kind(), ErrorKind::BrokenPipe);
            assert_eq!(error.to_string(), "write failed");
            assert_eq!(
                ClientError::InvalidResponse(error).message(),
                "invalid response: write failed"
            );
        }
        other => panic!("unexpected: {:?}", other),
    }
}

#[test]
fn deserialized_maps_the_failure() {
    assert_eq!(deserialized(serde_json::from_value::<u32>(Value::from(5))).unwrap(), 5);
    assert!(matches!(
        deserialized(serde_json::from_value::<u32>(Value::Bool(true))),
        Err(ClientError::Deserialize)
    ));
}

#[test]
fn client_error_messages() {
    assert_eq!(ClientError::Serialize.message(), "Failed to serialize parameters");
    assert_eq!(
        ClientError::Poisoned.message(),
        "Tried to make a call on a poisoned client instance"
    );
    assert_eq!(ClientError::Send.message(), "Failed to send request");
    assert_eq!(
        ClientError::InvalidResponse(IoError::new(ErrorKind::Other, "connection lost")).message(),
        "invalid response: connection lost"
    );
    assert_eq!(ClientError::MissingResponse.message(), "expected a response value");
    assert_eq!(ClientError::InvalidEncoding.message(), "invalid encoding");
    assert_eq!(ClientError::Deserialize.message(), "Failed to deserialize");
}
