use xscp::request::{OpCode, RequestError, XscpRequest};

// Creation tests
#[test]
fn correct_request() {
    let request = XscpRequest::try_new(OpCode::Send, "source", "message").unwrap();
    assert_eq!(OpCode::Send, request.opcode());
    assert_eq!("source", request.source());
    assert_eq!("message", request.message());
}

#[test]
fn request_source_with_pipe() {
    let request = XscpRequest::try_new(OpCode::Send, "source|name", "message").unwrap_err();
    assert_eq!(RequestError::InvalidSource, request);
}

#[test]
fn request_source_with_crlf() {
    let request = XscpRequest::try_new(OpCode::Send, "source\r\nname", "message").unwrap_err();
    assert_eq!(RequestError::InvalidSource, request);
}

#[test]
fn request_source_empty() {
    let err = XscpRequest::try_new(OpCode::Send, "", "message").unwrap_err();
    assert_eq!(RequestError::InvalidSource, err);
}

#[test]
fn request_source_below_min() {
    let err = XscpRequest::try_new(OpCode::Send, "ab", "message").unwrap_err();
    assert_eq!(RequestError::InvalidSource, err);
}

#[test]
fn request_source_above_max() {
    let source = "a".repeat(33);
    let err = XscpRequest::try_new(OpCode::Send, &source, "message").unwrap_err();
    assert_eq!(RequestError::InvalidSource, err);
}

#[test]
fn request_message_with_crlf() {
    let request =
        XscpRequest::try_new(OpCode::Send, "source", "message with \r\n (CRLF)").unwrap_err();
    assert_eq!(RequestError::InvalidMessage, request);
}

#[test]
fn request_message_with_pipe() {
    let request = XscpRequest::try_new(OpCode::Send, "source", "message with | (pipe)").unwrap();
    assert_eq!(OpCode::Send, request.opcode());
    assert_eq!("source", request.source());
    assert_eq!("message with | (pipe)", request.message());
}

#[test]
fn request_message_above_max() {
    let message = "a".repeat(473);
    let err = XscpRequest::try_new(OpCode::Send, "source", &message).unwrap_err();
    assert_eq!(RequestError::InvalidMessage, err);
}

// Parsing tests
#[test]
fn request_correct_parsing() {
    let raw_request = "SEND|source|message\r\n";
    let request = XscpRequest::parse(raw_request).unwrap();
    assert_eq!(OpCode::Send, request.opcode());
    assert_eq!("source", request.source());
    assert_eq!("message", request.message());
}

#[test]
fn invalid_opcode() {
    let raw_request = "AAAA|source|message\r\n";
    let error = XscpRequest::parse(raw_request).unwrap_err();
    assert_eq!(RequestError::UnknownOpcode, error);
}

#[test]
fn invalid_format() {
    let raw_request = "vfw9f8i9v\r\n";
    let error = XscpRequest::parse(raw_request).unwrap_err();
    assert_eq!(RequestError::MalformedRequest, error);
}

#[test]
fn request_missing_crlf() {
    let raw_request = "SEND|source|message";
    let error = XscpRequest::parse(raw_request).unwrap_err();
    assert_eq!(RequestError::MissingCrlf, error);
}

#[test]
fn request_parse_message_with_pipe() {
    let raw_request = "SEND|source|message with | (pipe)\r\n";
    let request = XscpRequest::parse(raw_request).unwrap();
    assert_eq!(OpCode::Send, request.opcode());
    assert_eq!("source", request.source());
    assert_eq!("message with | (pipe)", request.message());
}

// Other tests
#[test]
fn to_string_format() {
    let request = XscpRequest::try_new(OpCode::Send, "Test", "Msg").unwrap();
    let request = request.to_string();
    assert_eq!(request, "SEND|Test|Msg\r\n".to_string());
}

// Further cases

#[test]
fn request_source_bounds_are_inclusive() {
    assert!(XscpRequest::try_new(OpCode::Login, "abc", "").is_ok());
    let source = "a".repeat(32);
    assert!(XscpRequest::try_new(OpCode::Login, &source, "").is_ok());
    let message = "m".repeat(472);
    assert!(XscpRequest::try_new(OpCode::Send, "abc", &message).is_ok());
}

#[test]
fn request_lengths_count_bytes() {
    // 17 characters, 33 bytes: too long as a source.
    let source = "é".repeat(16) + "a";
    assert_eq!(source.len(), 33);
    let err = XscpRequest::try_new(OpCode::Send, &source, "m").unwrap_err();
    assert_eq!(RequestError::InvalidSource, err);
    // Two characters, four bytes: long enough.
    assert!(XscpRequest::try_new(OpCode::Send, "éé", "m").is_ok());
}

#[test]
fn request_source_is_checked_before_message() {
    let err = XscpRequest::try_new(OpCode::Send, "a|b", "bad\nmessage").unwrap_err();
    assert_eq!(RequestError::InvalidSource, err);
}

#[test]
fn request_message_with_lone_cr_or_lf() {
    let err = XscpRequest::try_new(OpCode::Send, "source", "a\rb").unwrap_err();
    assert_eq!(RequestError::InvalidMessage, err);
    let err = XscpRequest::try_new(OpCode::Send, "source", "a\nb").unwrap_err();
    assert_eq!(RequestError::InvalidMessage, err);
}

#[test]
fn request_parse_every_opcode() {
    assert_eq!(XscpRequest::parse("LOGN|alice|\r\n").unwrap().opcode(), OpCode::Login);
    assert_eq!(XscpRequest::parse("SEND|alice|hi\r\n").unwrap().opcode(), OpCode::Send);
    assert_eq!(XscpRequest::parse("EXIT|alice|\r\n").unwrap().opcode(), OpCode::Exit);
    assert_eq!(
        XscpRequest::parse("CHAT|alice|hi\r\n").unwrap_err(),
        RequestError::UnknownOpcode
    );
    assert_eq!(
        XscpRequest::parse("logn|alice|\r\n").unwrap_err(),
        RequestError::UnknownOpcode
    );
}

#[test]
fn request_parse_one_delimiter_is_malformed() {
    let err = XscpRequest::parse("SEND|alice\r\n").unwrap_err();
    assert_eq!(RequestError::MalformedRequest, err);
}

#[test]
fn request_parse_field_errors() {
    assert_eq!(
        XscpRequest::parse("SEND|al|hi\r\n").unwrap_err(),
        RequestError::InvalidSource
    );
    let raw = format!("SEND|alice|{}\r\n", "m".repeat(473));
    assert_eq!(XscpRequest::parse(&raw).unwrap_err(), RequestError::InvalidMessage);
}

#[test]
fn request_parse_strips_every_trailing_crlf() {
    let request = XscpRequest::parse("SEND|alice|hello\r\n\r\n\r\n").unwrap();
    assert_eq!(request.message(), "hello");
    assert_eq!(request.to_string(), "SEND|alice|hello\r\n");
}

#[test]
fn request_parse_lone_crlf_in_body_is_invalid_message() {
    let err = XscpRequest::parse("SEND|alice|a\r\nb\r\n").unwrap_err();
    assert_eq!(RequestError::InvalidMessage, err);
}

#[test]
fn request_round_trip() {
    for (op, source, message) in [
        (OpCode::Login, "alice", ""),
        (OpCode::Send, "bob", "hello | world"),
        (OpCode::Exit, "ÉlodieÉlodie", "¡adiós!"),
    ] {
        let request = XscpRequest::try_new(op, source, message).unwrap();
        let wire = request.to_string();
        let parsed = XscpRequest::parse(&wire).unwrap();
        assert_eq!(parsed.opcode(), op);
        assert_eq!(parsed.source(), source);
        assert_eq!(parsed.message(), message);
    }
}

#[test]
fn request_framing_budget() {
    let source = "s".repeat(32);
    let message = "m".repeat(472);
    let request = XscpRequest::try_new(OpCode::Send, &source, &message).unwrap();
    let wire = request.to_string();
    assert_eq!(wire.len(), 512);
    assert!(wire.ends_with("\r\n"));
    assert!(!wire[..wire.len() - 2].contains(['\r', '\n']));
}

#[test]
fn opcode_wire_names() {
    assert_eq!(OpCode::Login.to_string(), "LOGN");
    assert_eq!(OpCode::Send.to_string(), "SEND");
    assert_eq!(OpCode::Exit.to_string(), "EXIT");
}
