//! The decisions of the reference client: building its login request,
//! reading the server's answer to it, and telling notifications from
//! responses among the lines the server sends.
use crate::notification::{spec_parse_notification, XscpNotification};
use crate::request::{
    spec_request_bytes, spec_try_new_request, spec_valid_message, spec_valid_source, OpCode,
    RequestError, SpecRequest, XscpRequest,
};
use crate::response::{spec_parse_response, ResponseError, XscpResponse};
use vstd::prelude::*;
use vstd::string::*;
use vstd::utf8::{decode_utf8, encode_utf8, encode_utf8_decode_utf8};
use crate::wire::bytes_eq;

verus! {

/// `std::io::Error`, carried through `AuthError` unread.
#[verifier::external_type_specification]
#[verifier::external_body]
pub struct ExIoError(std::io::Error);

/// Errors that can occur during authentication.
///
/// Each variant maps to a distinct stage of the login exchange that can fail,
/// either for reasons outside the protocol (network, socket, OS) or because of
/// an unexpected server response.
#[derive(Debug)]
pub enum AuthError {
    /// The login request could not be built.
    BuildRequest(RequestError),
    /// Writing the request to the socket failed.
    Write(std::io::Error),
    /// Reading the response from the socket failed.
    Read(std::io::Error),
    /// The server closed the connection (EOF) before responding.
    ConnectionClosed,
    /// The server response could not be parsed.
    ParseResponse(ResponseError),
}

/// The wire form of the login request `LOGN|source|\r\n`.
///
/// # Errors
/// `BuildRequest` with the error of `XscpRequest::try_new` when `source` is
/// not an admissible nickname.
pub fn auth_request(source: &str) -> (r: Result<String, AuthError>)
    ensures
        match spec_try_new_request(OpCode::Login, source.spec_bytes(), Seq::empty()) {
            Ok(v) => r matches Ok(s) && encode_utf8(s@) == spec_request_bytes(v),
            Err(e) => r matches Err(AuthError::BuildRequest(e2)) && e2 == e,
        },
{
    let empty = "";
    proof {
        reveal_strlit("");
        assert(empty@ =~= Seq::<char>::empty());
        assert(encode_utf8(empty@) =~= Seq::<u8>::empty());
    }
    match XscpRequest::try_new(OpCode::Login, source, empty) {
        Ok(request) => Ok(request.to_string()),
        Err(e) => Err(AuthError::BuildRequest(e)),
    }
}

/// The status code that the server's reply to a login carries.
///
/// # Errors
/// `ConnectionClosed` when the server closed the connection before replying
/// (`None`), `ParseResponse` when the reply is not a response PDU.
pub fn auth_status(reply: Option<&str>) -> (r: Result<u16, AuthError>)
    ensures
        match reply {
            None => r matches Err(AuthError::ConnectionClosed),
            Some(raw) => match spec_parse_response(raw.spec_bytes()) {
                Ok(v) => r == Ok::<u16, AuthError>(v.status_code),
                Err(e) => r matches Err(AuthError::ParseResponse(e2)) && e2 == e,
            },
        },
{
    match reply {
        None => Err(AuthError::ConnectionClosed),
        Some(raw) => match XscpResponse::parse(raw) {
            Ok(response) => Ok(response.status_code()),
            Err(e) => Err(AuthError::ParseResponse(e)),
        },
    }
}

/// A line received from the server, as the client reads it.
pub enum ServerMessage<'a> {
    /// A notification, e.g. a `BRDC` broadcast from another client.
    Notification(XscpNotification<'a>),
    /// A response to one of the client's own requests.
    Response(XscpResponse<'a>),
    /// Neither; the error is the one the response parser gave.
    Unparseable(ResponseError),
}

/// Reads a line from the server: first as a notification, and failing that
/// as a response.
pub fn classify_server_line<'a>(raw: &'a str) -> (m: ServerMessage<'a>)
    ensures
        match spec_parse_notification(raw.spec_bytes()) {
            Ok(n) => m matches ServerMessage::Notification(x) && x@ == n,
            Err(_) => match spec_parse_response(raw.spec_bytes()) {
                Ok(v) => m matches ServerMessage::Response(x) && x@ == v,
                Err(e) => m matches ServerMessage::Unparseable(e2) && e2 == e,
            },
        },
{
    match XscpNotification::parse(raw) {
        Ok(notification) => ServerMessage::Notification(notification),
        Err(_) => match XscpResponse::parse(raw) {
            Ok(response) => ServerMessage::Response(response),
            Err(e) => ServerMessage::Unparseable(e),
        },
    }
}

/// The address the client connects to, `ip:port`, from what the user typed
/// (already trimmed): `localhost` stands for `127.0.0.1`, and an empty port
/// for the default port 7878.
pub fn server_address(ip: &str, port: &str) -> (s: String)
    ensures
        s@ == (if ip@ == "localhost"@ {
            "127.0.0.1"@
        } else {
            ip@
        }) + ":"@ + (if port@.len() == 0 {
            "7878"@
        } else {
            port@
        }),
{
    let localhost = "localhost";
    let is_localhost = bytes_eq(ip.as_bytes(), localhost.as_bytes());
    proof {
        encode_utf8_decode_utf8(ip@);
        encode_utf8_decode_utf8(localhost@);
    }
    let host = if is_localhost {
        "127.0.0.1"
    } else {
        ip
    };
    let port = if port.is_empty() {
        "7878"
    } else {
        port
    };
    let mut s = String::new();
    s.append(host);
    s.append(":");
    s.append(port);
    proof {
        assert(s@ =~= Seq::<char>::empty() + host@ + ":"@ + port@);
    }
    s
}

/// What the client does after a login attempt.
#[derive(Debug, PartialEq, Eq, Clone, Copy, Structural)]
pub enum AuthStep {
    /// `200`: logged in, start chatting.
    LoggedIn,
    /// `401`: the name is taken, ask for another.
    Retry,
    /// `402`: too many attempts, give up.
    TooManyAttempts,
    /// Any other status: give up.
    UnexpectedStatus(u16),
    /// The exchange itself failed: give up.
    Failed,
}

/// The next step of the login loop, from the outcome of `auth_status`.
pub fn auth_step(outcome: &Result<u16, AuthError>) -> (s: AuthStep)
    ensures
        match outcome {
            Ok(c) => if *c == 200 {
                s == AuthStep::LoggedIn
            } else if *c == 401 {
                s == AuthStep::Retry
            } else if *c == 402 {
                s == AuthStep::TooManyAttempts
            } else {
                s == AuthStep::UnexpectedStatus(*c)
            },
            Err(_) => s == AuthStep::Failed,
        },
{
    match outcome {
        Ok(200) => AuthStep::LoggedIn,
        Ok(401) => AuthStep::Retry,
        Ok(402) => AuthStep::TooManyAttempts,
        Ok(c) => AuthStep::UnexpectedStatus(*c),
        Err(_) => AuthStep::Failed,
    }
}

/// The request the client sends for a line typed by the user: nothing for
/// an empty line, `SEND` with the line as message for any other, and, at the
/// end of input (`None`), `EXIT` with an empty message.
pub open spec fn spec_outgoing_request(username: Seq<u8>, line: Option<Seq<u8>>) -> Result<
    Option<SpecRequest>,
    RequestError,
> {
    match line {
        Some(l) => if l.len() == 0 {
            Ok(None)
        } else {
            match spec_try_new_request(OpCode::Send, username, l) {
                Ok(v) => Ok(Some(v)),
                Err(e) => Err(e),
            }
        },
        None => match spec_try_new_request(OpCode::Exit, username, Seq::empty()) {
            Ok(v) => Ok(Some(v)),
            Err(e) => Err(e),
        },
    }
}

/// The wire form of the request for a line typed by the user, if there is
/// one to send (see `spec_outgoing_request`).
///
/// # Errors
/// The error of `XscpRequest::try_new` when the name or the line is not
/// admissible.
pub fn outgoing_request(username: &str, line: Option<&str>) -> (r: Result<Option<String>, RequestError>)
    ensures
        match spec_outgoing_request(
            username.spec_bytes(),
            match line {
                Some(l) => Some(l.spec_bytes()),
                None => None,
            },
        ) {
            Ok(Some(v)) => r matches Ok(Some(s)) && encode_utf8(s@) == spec_request_bytes(v),
            Ok(None) => r matches Ok(None),
            Err(e) => r == Err::<Option<String>, RequestError>(e),
        },
{
    let request = match line {
        Some(l) => {
            if l.is_empty() {
                proof {
                    encode_utf8_decode_utf8(l@);
                    assert(encode_utf8(l@) =~= Seq::<u8>::empty()) by {
                        assert(l@ =~= Seq::<char>::empty());
                    }
                }
                return Ok(None);
            }
            proof {
                if l.spec_bytes().len() == 0 {
                    encode_utf8_decode_utf8(l@);
                    assert(decode_utf8(Seq::<u8>::empty()) =~= Seq::<char>::empty());
                }
            }
            XscpRequest::try_new(OpCode::Send, username, l)
        },
        None => {
            let empty = "";
            proof {
                reveal_strlit("");
                assert(empty@ =~= Seq::<char>::empty());
                assert(encode_utf8(empty@) =~= Seq::<u8>::empty());
            }
            XscpRequest::try_new(OpCode::Exit, username, empty)
        },
    };
    match request {
        Ok(request) => Ok(Some(request.to_string())),
        Err(e) => Err(e),
    }
}

/// Every non-empty line with admissible fields is sent as
/// `SEND|username|line`; the only line for which nothing is sent is the empty
/// one, and a non-empty line is either sent or refused with an error.
pub proof fn law_outgoing_sends_every_line(username: Seq<u8>, l: Seq<u8>)
    ensures
        (spec_outgoing_request(username, Some(l)) == Ok::<Option<SpecRequest>, RequestError>(
            None,
        )) <==> l.len() == 0,
        l.len() > 0 && spec_valid_source(username) && spec_valid_message(l)
            ==> spec_outgoing_request(username, Some(l)) == Ok::<
            Option<SpecRequest>,
            RequestError,
        >(Some(SpecRequest { opcode: OpCode::Send, source: username, message: l })),
        l.len() > 0 && !spec_valid_source(username) ==> spec_outgoing_request(
            username,
            Some(l),
        ) == Err::<Option<SpecRequest>, RequestError>(RequestError::InvalidSource),
{
}

/// At the end of input the client sends `EXIT|username|` whenever the name
/// is admissible.
pub proof fn law_outgoing_exit(username: Seq<u8>)
    requires
        spec_valid_source(username),
    ensures
        spec_outgoing_request(username, None) == Ok::<Option<SpecRequest>, RequestError>(
            Some(SpecRequest { opcode: OpCode::Exit, source: username, message: Seq::empty() }),
        ),
{
    assert(!Seq::<u8>::empty().contains(crate::wire::CR));
    assert(!Seq::<u8>::empty().contains(crate::wire::LF));
}

} // verus!
