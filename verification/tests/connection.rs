use xscp::connection::dispatcher::dispatch;
use xscp::connection::{Action, Connection, State};
use xscp::session::storage::StringHashSet;
use xscp::{OpCode, XscpNotification, XscpRequest, XscpResponse};

fn reply(action: Action) -> XscpResponse<'static> {
    match action {
        Action::Reply(res) => res,
        _ => panic!("expected Action::Reply"),
    }
}

#[test]
fn negotiating_to_established() {
    let mut sessions = StringHashSet::new();
    let mut connection = Connection::new();

    assert_eq!(*connection.state(), State::Negotiating { attempts: 0 });

    let request = XscpRequest::try_new(OpCode::Login, "test", "").unwrap();
    let source = request.source().to_string();
    let response = reply(connection.handle(request, &mut sessions));

    assert_eq!(response.status_code(), 200);
    assert_eq!(*connection.state(), State::Established { source });
}

#[test]
fn negotiating_to_negotiating() {
    let mut sessions = StringHashSet::new();
    sessions.insert("test".to_string());
    let mut connection = Connection::new();

    assert_eq!(*connection.state(), State::Negotiating { attempts: 0 });

    let request = XscpRequest::try_new(OpCode::Login, "test", "").unwrap();
    let response = reply(connection.handle(request, &mut sessions));

    assert_eq!(response.status_code(), 401);
    assert_eq!(*connection.state(), State::Negotiating { attempts: 1 });
}

#[test]
fn attempts_exceeded_replies_and_closes() {
    let mut sessions = StringHashSet::new();
    sessions.insert("test".to_string());
    let mut connection = Connection::new();

    assert_eq!(*connection.state(), State::Negotiating { attempts: 0 });

    for _ in 0..2 {
        let request = XscpRequest::try_new(OpCode::Login, "test", "").unwrap();
        assert!(
            matches!(connection.handle(request, &mut sessions), Action::Reply(_)),
            "expected Action::Reply while attempts remain",
        );
    }

    let request = XscpRequest::try_new(OpCode::Login, "test", "").unwrap();
    let response = match connection.handle(request, &mut sessions) {
        Action::ReplyAndClose(res) => res,
        _ => panic!("expected Action::ReplyAndClose after exceeding attempts"),
    };

    assert_eq!(response.status_code(), 402);
}

#[test]
fn invalid_login_request() {
    let mut sessions = StringHashSet::new();
    sessions.insert("test".to_string());
    let mut connection = Connection::new();

    let request = XscpRequest::try_new(OpCode::Send, "invalid", "msg").unwrap();
    let response = reply(connection.handle(request, &mut sessions));

    assert_eq!(response.status_code(), 400);
    assert_eq!(response.reason_phrase(), "Invalid Request");
    assert_eq!(*connection.state(), State::Negotiating { attempts: 1 });
}

#[test]
fn exit_from_established_closes_and_cleans_session() {
    let mut sessions = StringHashSet::new();
    let mut connection = Connection::new();

    let login = XscpRequest::try_new(OpCode::Login, "test", "").unwrap();
    assert!(matches!(connection.handle(login, &mut sessions), Action::Reply(_)));
    assert_eq!(
        *connection.state(),
        State::Established {
            source: "test".to_string()
        }
    );
    assert!(sessions.contains("test"));

    let exit = XscpRequest::try_new(OpCode::Exit, "test", "").unwrap();
    assert!(matches!(connection.handle(exit, &mut sessions), Action::Close));

    connection.release(&mut sessions);
    drop(connection);
    assert!(!sessions.contains("test"));
}

#[test]
fn login_while_established_is_invalid_request() {
    let mut sessions = StringHashSet::new();
    let mut connection = Connection::new();

    let login = XscpRequest::try_new(OpCode::Login, "test", "").unwrap();
    assert!(matches!(connection.handle(login, &mut sessions), Action::Reply(_)));
    assert_eq!(
        *connection.state(),
        State::Established {
            source: "test".to_string()
        }
    );

    let relogin = XscpRequest::try_new(OpCode::Login, "test", "").unwrap();
    let response = reply(connection.handle(relogin, &mut sessions));

    assert_eq!(response.status_code(), 400);
    assert_eq!(response.reason_phrase(), "Invalid Request");
    assert_eq!(
        *connection.state(),
        State::Established {
            source: "test".to_string()
        }
    );
    assert!(sessions.contains("test"));
}

#[test]
fn send_from_established_returns_broadcast_action() {
    let mut sessions = StringHashSet::new();
    let mut connection = Connection::new();

    let login = XscpRequest::try_new(OpCode::Login, "Bob", "").unwrap();
    let _ = connection.handle(login, &mut sessions);

    assert_eq!(
        *connection.state(),
        State::Established {
            source: "Bob".to_string()
        }
    );

    let request = XscpRequest::try_new(OpCode::Send, "Bob", "Hello World").unwrap();
    match connection.handle(request, &mut sessions) {
        Action::Broadcast(envelope) => {
            assert_eq!(envelope.from, "Bob");
            assert_eq!(envelope.payload, "BRDC|Bob|Hello World\r\n");
        }
        _ => panic!("expected Action::Broadcast"),
    }
}

// The login exchanges of the server, one raw line at a time.

#[test]
fn login_ok_returns_200() {
    let mut sessions = StringHashSet::new();
    let mut connection = Connection::new();
    let response = reply(connection.handle_line("LOGN|Alice|\r\n", &mut sessions));
    assert_eq!(response.to_string(), "200|Login Successful\r\n");
}

#[test]
fn login_invalid_credentials_returns_401() {
    let mut sessions = StringHashSet::new();
    let mut client_1 = Connection::new();
    let mut client_2 = Connection::new();

    reply(client_1.handle_line("LOGN|Alice|\r\n", &mut sessions));
    let response = reply(client_2.handle_line("LOGN|Alice|\r\n", &mut sessions));

    assert_eq!(response.to_string(), "401|Invalid Credentials\r\n");
}

#[test]
fn login_exceeded_attempts_returns_402() {
    let mut sessions = StringHashSet::new();
    let mut client_1 = Connection::new();
    let mut client_2 = Connection::new();

    reply(client_1.handle_line("LOGN|Alice|\r\n", &mut sessions));

    reply(client_2.handle_line("LOGN|Alice|\r\n", &mut sessions));
    reply(client_2.handle_line("LOGN|Alice|\r\n", &mut sessions));
    let response = match client_2.handle_line("LOGN|Alice|\r\n", &mut sessions) {
        Action::ReplyAndClose(res) => res,
        _ => panic!("expected Action::ReplyAndClose"),
    };

    assert_eq!(response.to_string(), "402|Too Many Attempts\r\n");
}

// Further cases

#[test]
fn unparseable_line_is_invalid_request() {
    let mut sessions = StringHashSet::new();
    let mut connection = Connection::new();
    let response = reply(connection.handle_line("garbage\r\n", &mut sessions));
    assert_eq!(response.to_string(), "400|Invalid Request\r\n");
    assert_eq!(*connection.state(), State::Negotiating { attempts: 0 });
    let response = reply(connection.handle_line("LOGN|al|\r\n", &mut sessions));
    assert_eq!(response.status_code(), 400);
    assert_eq!(*connection.state(), State::Negotiating { attempts: 0 });
}

#[test]
fn non_login_requests_count_as_attempts() {
    let mut sessions = StringHashSet::new();
    let mut connection = Connection::new();
    for expected in 1..=3u8 {
        let request = XscpRequest::try_new(OpCode::Exit, "test", "").unwrap();
        let response = reply(connection.handle(request, &mut sessions));
        assert_eq!(response.status_code(), 400);
        assert_eq!(*connection.state(), State::Negotiating { attempts: expected });
    }
    let request = XscpRequest::try_new(OpCode::Login, "test", "").unwrap();
    assert!(matches!(
        connection.handle(request, &mut sessions),
        Action::ReplyAndClose(_)
    ));
    assert!(!sessions.contains("test"));
}

#[test]
fn source_and_release() {
    let mut sessions = StringHashSet::new();
    sessions.insert("other".to_string());
    let mut connection = Connection::new();
    assert_eq!(connection.source(), None);
    connection.release(&mut sessions);
    assert_eq!(sessions.len(), 1);

    reply(connection.handle_line("LOGN|Carol|\r\n", &mut sessions));
    assert_eq!(connection.source(), Some("Carol"));
    assert_eq!(sessions.len(), 2);
    connection.release(&mut sessions);
    assert!(!sessions.contains("Carol"));
    assert!(sessions.contains("other"));
}

#[test]
fn broadcast_payload_parses_back() {
    let mut sessions = StringHashSet::new();
    let mut connection = Connection::new();
    reply(connection.handle_line("LOGN|Dave|\r\n", &mut sessions));
    match connection.handle_line("SEND|Dave|hi | there\r\n", &mut sessions) {
        Action::Broadcast(envelope) => {
            let n = XscpNotification::parse(&envelope.payload).unwrap();
            assert_eq!(n.source(), "Dave");
            assert_eq!(n.message(), "hi | there");
        }
        _ => panic!("expected Action::Broadcast"),
    }
}

#[test]
fn dispatch_login_is_bad_request() {
    let request = XscpRequest::try_new(OpCode::Login, "test", "").unwrap();
    let response = dispatch(request);
    assert_eq!(response.status_code(), 400);
    assert_eq!(response.reason_phrase(), "BAD REQUEST");
}

#[test]
fn broadcast_goes_to_everyone_but_the_sender() {
    let mut sessions = StringHashSet::new();
    let mut alice = Connection::new();
    let mut bob = Connection::new();
    let idle = Connection::new();
    reply(alice.handle_line("LOGN|Alice|\r\n", &mut sessions));
    reply(bob.handle_line("LOGN|Bob|\r\n", &mut sessions));
    let envelope = match alice.handle_line("SEND|Alice|hi\r\n", &mut sessions) {
        Action::Broadcast(envelope) => envelope,
        _ => panic!("expected Action::Broadcast"),
    };
    assert!(!alice.receives(&envelope));
    assert!(bob.receives(&envelope));
    assert!(!idle.receives(&envelope));
}

#[test]
fn login_after_many_failures_still_gets_402() {
    let mut sessions = StringHashSet::new();
    let mut connection = Connection::new();
    for _ in 0..255 {
        reply(connection.handle_line("EXIT|test|\r\n", &mut sessions));
    }
    assert_eq!(*connection.state(), State::Negotiating { attempts: 255 });
    let response = match connection.handle_line("LOGN|test|\r\n", &mut sessions) {
        Action::ReplyAndClose(res) => res,
        _ => panic!("expected Action::ReplyAndClose"),
    };
    assert_eq!(response.status_code(), 402);
    // An unparseable line counts nothing either.
    reply(connection.handle_line("junk\r\n", &mut sessions));
    assert_eq!(*connection.state(), State::Negotiating { attempts: 255 });
}
