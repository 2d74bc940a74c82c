use bytes::BytesMut;
use serde_json::Value;
use tokio_jsonrpc::message::{from_str, Broken};
use tokio_jsonrpc::{Message, Parsed};
use tokio_lsp::codec::{CodecError, FramingError, LspCodec};
use tokio_lsp::text::NumberError;

const REQUEST: &str = "{\"jsonrpc\": \"2.0\",\"id\": 1,\"method\": \"test\"}";

fn buffer(text: &str) -> BytesMut {
    let mut bytes = BytesMut::new();
    bytes.extend_from_slice(text.as_bytes());
    bytes
}

fn read(codec: &mut LspCodec, bytes: &mut BytesMut) -> Option<Parsed> {
    match codec.decode(bytes) {
        Ok(parsed) => parsed,
        Err(error) => panic!("error: {:?}", error),
    }
}

fn refused(codec: &mut LspCodec, bytes: &mut BytesMut) -> (FramingError, String) {
    match codec.decode(bytes) {
        Err(CodecError::Framing { error, line }) => (error, String::from_utf8(line).unwrap()),
        other => panic!("no framing error: {:?}", other),
    }
}

fn drain(codec: &mut LspCodec, bytes: &mut BytesMut, out: &mut Vec<Parsed>) {
    loop {
        let before = bytes.len();
        match codec.decode(bytes).unwrap() {
            Some(parsed) => out.push(parsed),
            None => {
                if bytes.len() == before {
                    return;
                }
            }
        }
    }
}

#[test]
fn encode_writes_length_header_and_body() {
    let mut codec = LspCodec;
    let mut bytes = BytesMut::new();
    let msg = Message::notification("notif".to_owned(), None);
    assert!(codec.encode(msg, &mut bytes).is_ok());
    assert_eq!(
        &bytes[..],
        &b"Content-Length: 35\r\n\r\n{\"jsonrpc\":\"2.0\",\"method\":\"notif\"}\n"[..]
    );
}

#[test]
fn encode_appends_to_what_the_buffer_holds() {
    let mut codec = LspCodec;
    let mut bytes = buffer("abc");
    let msg = Message::notification("notif".to_owned(), None);
    assert!(codec.encode(msg, &mut bytes).is_ok());
    assert_eq!(
        &bytes[..],
        &b"abcContent-Length: 35\r\n\r\n{\"jsonrpc\":\"2.0\",\"method\":\"notif\"}\n"[..]
    );
}

#[test]
fn encode_refuses_what_the_body_codec_cannot_write() {
    let mut codec = LspCodec;
    let mut bytes = buffer("abc");
    let msg = Message::UnmatchedSub(Value::Null);
    let expected = serde_json::to_vec(&msg).unwrap_err().to_string();
    match codec.encode(msg, &mut bytes) {
        Err(CodecError::Body(error)) => {
            assert_eq!(error.kind(), std::io::ErrorKind::Other);
            assert_eq!(error.to_string(), expected);
            assert_eq!(CodecError::Body(error).message(), expected);
        }
        other => panic!("no error of the body codec: {:?}", other),
    }
    assert_eq!(&bytes[..], &b"abc"[..]);
}

#[test]
fn encode_then_decode_gives_the_message_back() {
    let mut codec = LspCodec;
    let mut bytes = BytesMut::new();
    let msg = from_str(REQUEST).unwrap();
    codec.encode(msg.clone(), &mut bytes).unwrap();
    assert_eq!(read(&mut codec, &mut bytes), Some(Ok(msg)));
    assert!(bytes.is_empty());
}

#[test]
fn encode_then_decode_twice_in_one_buffer() {
    let mut codec = LspCodec;
    let mut bytes = BytesMut::new();
    let first = Message::notification("one".to_owned(), None);
    let second = Message::notification("two".to_owned(), Some(Value::Bool(true)));
    codec.encode(first.clone(), &mut bytes).unwrap();
    codec.encode(second.clone(), &mut bytes).unwrap();
    assert_eq!(read(&mut codec, &mut bytes), Some(Ok(first)));
    assert_eq!(read(&mut codec, &mut bytes), Some(Ok(second)));
    assert_eq!(read(&mut codec, &mut bytes), None);
    assert!(bytes.is_empty());
}

#[test]
fn decode_does_not_depend_on_chunks() {
    let msg = from_str(REQUEST).unwrap();
    let other = Message::notification("notif".to_owned(), None);
    let mut stream = BytesMut::new();
    let mut codec = LspCodec;
    codec.encode(msg.clone(), &mut stream).unwrap();
    codec.encode(other.clone(), &mut stream).unwrap();
    stream.extend_from_slice(b"Content-Length: 43\n\n");
    stream.extend_from_slice(REQUEST.as_bytes());
    let stream = stream.to_vec();

    let mut at_once = Vec::new();
    let mut bytes = BytesMut::new();
    bytes.extend_from_slice(&stream);
    drain(&mut codec, &mut bytes, &mut at_once);
    assert_eq!(at_once, vec![Ok(msg.clone()), Ok(other), Ok(msg)]);
    assert!(bytes.is_empty());

    let mut by_byte = Vec::new();
    let mut bytes = BytesMut::new();
    for byte in stream.iter() {
        bytes.extend_from_slice(&[*byte]);
        drain(&mut codec, &mut bytes, &mut by_byte);
    }
    assert_eq!(by_byte, at_once);
    assert!(bytes.is_empty());

    for cut in 0..stream.len() {
        let mut in_two = Vec::new();
        let mut bytes = BytesMut::new();
        bytes.extend_from_slice(&stream[..cut]);
        drain(&mut codec, &mut bytes, &mut in_two);
        bytes.extend_from_slice(&stream[cut..]);
        drain(&mut codec, &mut bytes, &mut in_two);
        assert_eq!(in_two, at_once);
    }
}

#[test]
fn decode_in_two_chunks() {
    let mut codec = LspCodec;
    let mut bytes = BytesMut::new();
    bytes.extend_from_slice(b"Content-Length: 2\r\n\r\n");
    assert_eq!(read(&mut codec, &mut bytes), None);
    assert_eq!(&bytes[..], &b"Content-Length: 2\r\n\r\n"[..]);
    bytes.extend_from_slice(b"{}");
    assert_eq!(read(&mut codec, &mut bytes), Some(Err(Broken::Unmatched(Value::Object(serde_json::Map::new())))));
    assert!(bytes.is_empty());
}

#[test]
fn decode_waits_for_the_whole_header_block() {
    let mut codec = LspCodec;
    let mut bytes = buffer("Content-Length: 43\r\n\r");
    assert_eq!(read(&mut codec, &mut bytes), None);
    assert_eq!(&bytes[..], &b"Content-Length: 43\r\n\r"[..]);
    let mut bytes = BytesMut::new();
    assert_eq!(read(&mut codec, &mut bytes), None);
    assert!(bytes.is_empty());
}

#[test]
fn decode_waits_for_the_whole_body() {
    let mut codec = LspCodec;
    let mut bytes = buffer("Content-Length: 43\r\n\r\n{\"jsonrpc\"");
    assert_eq!(read(&mut codec, &mut bytes), None);
    assert_eq!(&bytes[..], &b"Content-Length: 43\r\n\r\n{\"jsonrpc\""[..]);
}

#[test]
fn decode_leaves_what_follows_the_frame() {
    let mut codec = LspCodec;
    let mut text = String::from("Content-Length: 43\r\n\r\n");
    text.push_str(REQUEST);
    text.push_str("Content-Le");
    let mut bytes = buffer(&text);
    assert_eq!(read(&mut codec, &mut bytes), Some(Ok(from_str(REQUEST).unwrap())));
    assert_eq!(&bytes[..], &b"Content-Le"[..]);
}

#[test]
fn decode_takes_a_body_of_exactly_the_announced_length() {
    let mut codec = LspCodec;
    let mut bytes = buffer("Content-Length: 4\r\n\r\ntruefalse");
    assert_eq!(read(&mut codec, &mut bytes), Some(Err(Broken::Unmatched(Value::Bool(true)))));
    assert_eq!(&bytes[..], &b"false"[..]);
}

#[test]
fn decode_ends_the_header_block_at_two_line_feeds() {
    let mut codec = LspCodec;
    let mut text = String::from("Content-Length: 43\n\n");
    text.push_str(REQUEST);
    let mut bytes = buffer(&text);
    assert_eq!(read(&mut codec, &mut bytes), Some(Ok(from_str(REQUEST).unwrap())));
    assert!(bytes.is_empty());
}

#[test]
fn decode_of_an_empty_body_consumes_the_frame() {
    let mut codec = LspCodec;
    let mut bytes = buffer("Content-Length: 0\r\n\r\nrest");
    assert_eq!(read(&mut codec, &mut bytes), None);
    assert_eq!(&bytes[..], &b"rest"[..]);
}

#[test]
fn decode_reports_invalid_json_as_broken() {
    let mut codec = LspCodec;
    let mut bytes = buffer("Content-Length: 2\r\n\r\n{]");
    match read(&mut codec, &mut bytes) {
        Some(Err(Broken::SyntaxError(_))) => (),
        other => panic!("unexpected: {:?}", other),
    }
}

#[test]
fn decode_without_length_header_is_an_error() {
    let mut codec = LspCodec;
    let mut bytes = buffer("Content-Type: utf-8\r\n\r\n{}");
    assert_eq!(
        refused(&mut codec, &mut bytes),
        (FramingError::MissingContentLength, String::new())
    );
    assert_eq!(&bytes[..], &b"{}"[..]);
    let mut bytes = buffer("\r\n\r\n");
    assert_eq!(refused(&mut codec, &mut bytes).0, FramingError::MissingContentLength);
    let mut bytes = buffer("Content-Type: utf-8\r\n\r\n");
    assert_eq!(refused(&mut codec, &mut bytes).0, FramingError::MissingContentLength);
}

#[test]
fn decode_with_unknown_header_is_an_error() {
    let mut codec = LspCodec;
    let mut bytes = buffer("Content-Length: 2\r\nX-Custom: 1\r\n\r\n{}");
    assert_eq!(
        refused(&mut codec, &mut bytes),
        (FramingError::UnknownHeader, "\nX-Custom: 1\r".to_owned())
    );
    assert_eq!(&bytes[..], &b"{}"[..]);
    let mut bytes = buffer("X-Custom: 1\r\nContent-Length: 2\r\n\r\n{}");
    assert_eq!(
        refused(&mut codec, &mut bytes),
        (FramingError::UnknownHeader, "X-Custom: 1\r".to_owned())
    );
}

#[test]
fn decode_with_malformed_header_is_an_error() {
    let mut codec = LspCodec;
    let mut bytes = buffer("Content-Length 2\r\n\r\n{}");
    assert_eq!(
        refused(&mut codec, &mut bytes),
        (FramingError::MalformedHeader, "Content-Length 2\r".to_owned())
    );
    let mut bytes = buffer("Content-Length: 2\r\nnonsense\r\n\r\n{}");
    assert_eq!(
        refused(&mut codec, &mut bytes),
        (FramingError::MalformedHeader, "\nnonsense\r".to_owned())
    );
}

#[test]
fn decode_with_other_content_type_is_an_error() {
    let mut codec = LspCodec;
    let mut bytes = buffer("Content-Length: 2\r\nContent-Type: latin1\r\n\r\n{}");
    assert_eq!(
        refused(&mut codec, &mut bytes),
        (FramingError::UnsupportedContentType, "\nContent-Type: latin1\r".to_owned())
    );
}

#[test]
fn decode_with_invalid_length_is_an_error() {
    let mut codec = LspCodec;
    let mut bytes = buffer("Content-Length: two\r\n\r\n{}");
    assert_eq!(
        refused(&mut codec, &mut bytes),
        (
            FramingError::InvalidLength(NumberError::InvalidDigit),
            "Content-Length: two\r".to_owned()
        )
    );
}

#[test]
fn decode_reports_the_first_line_in_error() {
    let mut codec = LspCodec;
    let mut bytes = buffer("X-Custom: 1\r\nnonsense\r\n\r\n");
    assert_eq!(refused(&mut codec, &mut bytes).0, FramingError::UnknownHeader);
    let mut bytes = buffer("nonsense\r\nX-Custom: 1\r\n\r\n");
    assert_eq!(refused(&mut codec, &mut bytes).0, FramingError::MalformedHeader);
}

#[test]
fn decode_with_a_header_line_that_is_no_text_is_an_error() {
    let mut codec = LspCodec;
    let mut bytes = BytesMut::new();
    bytes.extend_from_slice(b"Content-Length: 2\r\n\xff\r\n\r\n{}");
    match codec.decode(&mut bytes) {
        Err(CodecError::Framing { error, line }) => {
            assert_eq!(error, FramingError::InvalidText);
            assert_eq!(line, b"\n\xff\r".to_vec());
            assert_eq!(
                (CodecError::Framing { error, line }).message(),
                "stream did not contain valid UTF-8"
            );
        }
        other => panic!("no framing error: {:?}", other),
    }
    let mut bytes = BytesMut::new();
    bytes.extend_from_slice(b"Content-Length: 2\r\nContent-Type: \xff; charset=utf-8\r\n\r\n{}");
    match codec.decode(&mut bytes) {
        Err(CodecError::Framing { error, .. }) => assert_eq!(error, FramingError::InvalidText),
        other => panic!("no framing error: {:?}", other),
    }
    let mut bytes = BytesMut::new();
    bytes.extend_from_slice(b"Content-Length: 2\r\n \xc2\r\n\r\n{}");
    match codec.decode(&mut bytes) {
        Err(CodecError::Framing { error, .. }) => assert_eq!(error, FramingError::InvalidText),
        other => panic!("no framing error: {:?}", other),
    }
    let mut bytes = BytesMut::new();
    bytes.extend_from_slice(b"Content-Length: X\xff\r\n\r\n{}");
    let error = codec.decode(&mut bytes).unwrap_err();
    assert_eq!(
        (CodecError::Framing { error: FramingError::MalformedHeader, line: b"a\xffb".to_vec() })
            .message(),
        "malformed header: a\u{fffd}b"
    );
    assert_eq!(error.message(), "stream did not contain valid UTF-8");
}

#[test]
fn decode_trims_white_space_outside_ascii() {
    let mut codec = LspCodec;
    let mut bytes = buffer("Content-Length: 4\u{a0}\r\n\u{2003}\u{3000}\r\n\u{85}Content-Type: \u{1680}utf-8\r\n\r\ntrue");
    assert_eq!(
        read(&mut codec, &mut bytes),
        Some(Err(Broken::Unmatched(Value::Bool(true))))
    );
    assert!(bytes.is_empty());
}

#[test]
fn decode_passes_over_blank_lines() {
    let mut codec = LspCodec;
    let mut bytes = buffer("Content-Length: 4\r\n \t \r\nContent-Type: utf8\r\n\r\ntrue");
    assert_eq!(read(&mut codec, &mut bytes), Some(Err(Broken::Unmatched(Value::Bool(true)))));
    assert!(bytes.is_empty());
}

#[test]
fn decode_takes_the_last_length_header() {
    let mut codec = LspCodec;
    let mut bytes = buffer("Content-Length: 1\r\nContent-Length: 4\r\n\r\ntrue");
    assert_eq!(read(&mut codec, &mut bytes), Some(Err(Broken::Unmatched(Value::Bool(true)))));
    assert!(bytes.is_empty());
}

#[test]
fn decode_matches_header_names_without_regard_to_case() {
    let mut codec = LspCodec;
    let mut bytes = buffer("content-length: 4\r\nCONTENT-TYPE: UTF-8\r\n\r\ntrue");
    assert_eq!(read(&mut codec, &mut bytes), Some(Err(Broken::Unmatched(Value::Bool(true)))));
}

#[test]
fn framing_error_messages() {
    assert_eq!(
        FramingError::MalformedHeader.message("Content-Length"),
        "malformed header: Content-Length"
    );
    assert_eq!(FramingError::UnknownHeader.message("X-Custom: 1\r"), "Unknown header: X-Custom: 1\r");
    assert_eq!(
        FramingError::InvalidLength(NumberError::Empty).message("Content-Length: "),
        "cannot parse integer from empty string"
    );
    assert_eq!(
        FramingError::InvalidLength(NumberError::InvalidDigit).message("Content-Length: x"),
        "invalid digit found in string"
    );
    assert_eq!(
        FramingError::InvalidLength(NumberError::TooLarge).message(""),
        "number too large to fit in target type"
    );
    assert_eq!(
        FramingError::UnsupportedContentType.message("Content-Type: latin1"),
        "Unsupported content type: Content-Type: latin1"
    );
    assert_eq!(
        FramingError::MissingContentLength.message(""),
        "Malformed header, missing Content-Length"
    );
    assert_eq!(FramingError::InvalidText.message(""), "stream did not contain valid UTF-8");
}

#[test]
fn codec_error_messages() {
    let mut codec = LspCodec;
    let mut bytes = buffer("Content-Length: 2\r\nX-Custom: 1\r\n\r\n{}");
    assert_eq!(
        codec.decode(&mut bytes).unwrap_err().message(),
        "Unknown header: \nX-Custom: 1\r"
    );
    let mut bytes = buffer("\r\n\r\n");
    assert_eq!(
        codec.decode(&mut bytes).unwrap_err().message(),
        "Malformed header, missing Content-Length"
    );
    let mut bytes = buffer("Content-Length: \r\n\r\n");
    assert_eq!(
        codec.decode(&mut bytes).unwrap_err().message(),
        "cannot parse integer from empty string"
    );
    let failure = std::io::Error::new(std::io::ErrorKind::Other, "no body");
    assert_eq!(CodecError::Body(failure).message(), "no body");
}
