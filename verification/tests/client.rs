use xscp::client::{
    auth_request, auth_status, auth_step, classify_server_line, outgoing_request, server_address,
    AuthError, AuthStep, ServerMessage,
};
use xscp::{RequestError, ResponseError};

#[test]
fn auth_request_wire_form() {
    assert_eq!(auth_request("alice").unwrap(), "LOGN|alice|\r\n");
}

#[test]
fn auth_request_rejects_bad_nickname() {
    assert!(matches!(
        auth_request("al"),
        Err(AuthError::BuildRequest(RequestError::InvalidSource))
    ));
    assert!(matches!(
        auth_request("a|b|c"),
        Err(AuthError::BuildRequest(RequestError::InvalidSource))
    ));
}

#[test]
fn auth_status_reads_reply() {
    assert_eq!(auth_status(Some("200|Login Successful\r\n")).unwrap(), 200);
    assert_eq!(auth_status(Some("401|Invalid Credentials\r\n")).unwrap(), 401);
    assert!(matches!(auth_status(None), Err(AuthError::ConnectionClosed)));
    assert!(matches!(
        auth_status(Some("200|OK")),
        Err(AuthError::ParseResponse(ResponseError::MissingCrlf))
    ));
}

#[test]
fn classify_lines_from_server() {
    match classify_server_line("BRDC|Alice|hello\r\n") {
        ServerMessage::Notification(n) => {
            assert_eq!(n.source(), "Alice");
            assert_eq!(n.message(), "hello");
        }
        _ => panic!("expected a notification"),
    }
    match classify_server_line("400|Invalid Request\r\n") {
        ServerMessage::Response(r) => assert_eq!(r.status_code(), 400),
        _ => panic!("expected a response"),
    }
    match classify_server_line("what\r\n") {
        ServerMessage::Unparseable(e) => assert_eq!(e, ResponseError::MalformedResponse),
        _ => panic!("expected an unparseable line"),
    }
}

#[test]
fn server_address_defaults() {
    assert_eq!(server_address("localhost", ""), "127.0.0.1:7878");
    assert_eq!(server_address("localhost", "9000"), "127.0.0.1:9000");
    assert_eq!(server_address("10.0.0.2", ""), "10.0.0.2:7878");
    assert_eq!(server_address("localhostx", "1"), "localhostx:1");
}

#[test]
fn auth_steps() {
    assert_eq!(auth_step(&Ok(200)), AuthStep::LoggedIn);
    assert_eq!(auth_step(&Ok(401)), AuthStep::Retry);
    assert_eq!(auth_step(&Ok(402)), AuthStep::TooManyAttempts);
    assert_eq!(auth_step(&Ok(400)), AuthStep::UnexpectedStatus(400));
    assert_eq!(auth_step(&Err(AuthError::ConnectionClosed)), AuthStep::Failed);
}

#[test]
fn outgoing_requests() {
    assert_eq!(
        outgoing_request("alice", Some("hi | all")).unwrap(),
        Some("SEND|alice|hi | all\r\n".to_string())
    );
    assert_eq!(outgoing_request("alice", Some("")).unwrap(), None);
    assert_eq!(outgoing_request("al", Some("")).unwrap(), None);
    assert_eq!(
        outgoing_request("alice", None).unwrap(),
        Some("EXIT|alice|\r\n".to_string())
    );
    assert_eq!(
        outgoing_request("alice", Some(&"m".repeat(473))).unwrap_err(),
        RequestError::InvalidMessage
    );
    assert_eq!(outgoing_request("al", None).unwrap_err(), RequestError::InvalidSource);
}
