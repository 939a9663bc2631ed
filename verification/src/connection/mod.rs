//! The XSCP connection state machine of the server.
//!
//! A connection starts in `Negotiating`, where only `LOGN` is accepted, and
//! moves to `Established` once its nickname is registered. Every request
//! yields an `Action` that tells the I/O layer what to do: reply, reply and
//! close, close, or broadcast a notification.
pub mod dispatcher;

use crate::notification::{
    spec_notification_bytes, NotificationType, SpecNotification, XscpNotification,
};
use crate::replies::{invalid_request, spec_reply};
use crate::request::{spec_parse_request, spec_valid_source, OpCode, SpecRequest, XscpRequest};
use crate::response::{SpecResponse, XscpResponse};
use crate::session::auth;
use vstd::hash_set::StringHashSet;
use vstd::prelude::*;
use vstd::string::*;
use vstd::utf8::{decode_utf8, encode_utf8, encode_utf8_decode_utf8};

verus! {

/// All connection states.
#[derive(Debug, PartialEq)]
pub enum State {
    /// Awaiting a successful login; `attempts` counts the rejected requests.
    Negotiating { attempts: u8 },
    /// Logged in under the nickname `source`.
    Established { source: String },
}

/// The content of a connection state.
pub enum SpecState {
    Negotiating { attempts: u8 },
    Established { source: Seq<char> },
}

impl View for State {
    type V = SpecState;

    open spec fn view(&self) -> SpecState {
        match self {
            State::Negotiating { attempts } => SpecState::Negotiating { attempts: *attempts },
            State::Established { source } => SpecState::Established { source: source@ },
        }
    }
}

/// A broadcast message to be delivered to all connected clients: `payload`
/// is the wire form of a `BRDC` notification from `from`.
#[derive(Clone, Debug)]
pub struct BroadcastEnvelope {
    pub from: String,
    pub payload: String,
}

/// What the I/O layer should do after a request was handled.
pub enum Action {
    /// Send the response to the peer and keep the connection open.
    Reply(XscpResponse<'static>),
    /// Send the response to the peer and then close the connection.
    ReplyAndClose(XscpResponse<'static>),
    /// Close the connection without sending anything.
    Close,
    /// Deliver a broadcast message to all connected clients.
    Broadcast(BroadcastEnvelope),
}

/// The content of an action; a broadcast payload is given by its UTF-8 bytes.
pub enum SpecAction {
    Reply(SpecResponse),
    ReplyAndClose(SpecResponse),
    Close,
    Broadcast { from: Seq<char>, payload: Seq<u8> },
}

impl View for Action {
    type V = SpecAction;

    open spec fn view(&self) -> SpecAction {
        match self {
            Action::Reply(r) => SpecAction::Reply(r@),
            Action::ReplyAndClose(r) => SpecAction::ReplyAndClose(r@),
            Action::Close => SpecAction::Close,
            Action::Broadcast(e) => SpecAction::Broadcast {
                from: e.from@,
                payload: encode_utf8(e.payload@),
            },
        }
    }
}

/// The transition taken on `req` in `state` with the registered names
/// `sessions`: the next state, the action, and the next set of names.
pub open spec fn spec_handle(state: SpecState, req: SpecRequest, sessions: Set<Seq<char>>) -> (
    SpecState,
    SpecAction,
    Set<Seq<char>>,
) {
    match state {
        SpecState::Negotiating { attempts } => {
            if req.opcode == OpCode::Login {
                let name = decode_utf8(req.source);
                if attempts >= auth::MAX_AUTH_ATTEMPTS {
                    (state, SpecAction::ReplyAndClose(spec_reply(402, "Too Many Attempts")), sessions)
                } else if !sessions.contains(name) {
                    (
                        SpecState::Established { source: name },
                        SpecAction::Reply(spec_reply(200, "Login Successful")),
                        sessions.insert(name),
                    )
                } else {
                    (
                        SpecState::Negotiating { attempts: (attempts + 1) as u8 },
                        SpecAction::Reply(spec_reply(401, "Invalid Credentials")),
                        sessions,
                    )
                }
            } else {
                (
                    SpecState::Negotiating { attempts: (attempts + 1) as u8 },
                    SpecAction::Reply(spec_reply(400, "Invalid Request")),
                    sessions,
                )
            }
        },
        SpecState::Established { source } => match req.opcode {
            OpCode::Send => (
                state,
                SpecAction::Broadcast {
                    from: source,
                    payload: spec_notification_bytes(
                        SpecNotification {
                            notification_type: NotificationType::Broadcast,
                            source: encode_utf8(source),
                            message: req.message,
                        },
                    ),
                },
                sessions,
            ),
            OpCode::Exit => (state, SpecAction::Close, sessions),
            OpCode::Login => (state, SpecAction::Reply(spec_reply(400, "Invalid Request")), sessions),
        },
    }
}

/// The transition taken on a raw request line: a line that does not parse
/// is answered with `400 Invalid Request` and changes nothing.
pub open spec fn spec_handle_line(state: SpecState, raw: Seq<u8>, sessions: Set<Seq<char>>) -> (
    SpecState,
    SpecAction,
    Set<Seq<char>>,
) {
    match spec_parse_request(raw) {
        Ok(req) => spec_handle(state, req, sessions),
        Err(_) => (state, SpecAction::Reply(spec_reply(400, "Invalid Request")), sessions),
    }
}

/// The names left registered when a connection in `state` goes away.
pub open spec fn spec_release(state: SpecState, sessions: Set<Seq<char>>) -> Set<Seq<char>> {
    match state {
        SpecState::Established { source } => sessions.remove(source),
        SpecState::Negotiating { .. } => sessions,
    }
}

/// Whether `req` can be handled in `state`: a request other than `LOGN`
/// while negotiating counts one more attempt, so the counter must have room
/// for it. (A `LOGN` after the second failure is refused without counting.)
pub open spec fn spec_can_handle(state: SpecState, req: SpecRequest) -> bool {
    state matches SpecState::Negotiating { attempts } ==> (req.opcode != OpCode::Login
        ==> attempts < u8::MAX)
}

/// Whether two strings hold the same text.
fn string_eq(a: &String, b: &String) -> (r: bool)
    ensures
        r == (a@ == b@),
{
    a.eq(b)
}

/// An XSCP connection with a remote peer, seen as a state machine.
///
/// While `Established`, the connection owns an entry in the shared session
/// set; `release` removes it when the connection goes away.
pub struct Connection {
    state: State,
}

impl View for Connection {
    type V = SpecState;

    closed spec fn view(&self) -> SpecState {
        self.state@
    }
}

impl Connection {
    /// An established nickname is always an admissible source.
    #[verifier::type_invariant]
    spec fn well_formed(self) -> bool {
        self.state@ matches SpecState::Established { source } ==> spec_valid_source(
            encode_utf8(source),
        )
    }

    /// Creates a new connection in the `Negotiating` state with no attempt used.
    pub fn new() -> (c: Self)
        ensures
            c@ == (SpecState::Negotiating { attempts: 0 }),
    {
        Connection { state: State::Negotiating { attempts: 0 } }
    }

    /// The current state.
    pub fn state(&self) -> (s: &State)
        ensures
            s@ == self@,
    {
        &self.state
    }

    /// The authenticated source name, if the connection is established.
    pub fn source(&self) -> (r: Option<&str>)
        ensures
            match self@ {
                SpecState::Established { source } => r matches Some(s) && s@ == source,
                SpecState::Negotiating { .. } => r is None,
            },
    {
        match &self.state {
            State::Established { source } => Some(source.as_str()),
            State::Negotiating { .. } => None,
        }
    }

    /// Processes a request while negotiating: only `LOGN` is considered,
    /// anything else is a `400 Invalid Request`.
    fn negotiate(request: &XscpRequest, attempts: u8, sessions: &mut StringHashSet) -> (r:
        XscpResponse<'static>)
        ensures
            request@.opcode == OpCode::Login ==> {
                &&& r@ == auth::spec_auth_reply(decode_utf8(request@.source), attempts, old(sessions)@)
                &&& final(sessions)@ == auth::spec_auth_sessions(
                    decode_utf8(request@.source),
                    attempts,
                    old(sessions)@,
                )
            },
            request@.opcode != OpCode::Login ==> {
                &&& r@ == spec_reply(400, "Invalid Request")
                &&& final(sessions)@ == old(sessions)@
            },
    {
        match request.opcode() {
            OpCode::Login => {
                let name = request.source().to_owned();
                proof {
                    encode_utf8_decode_utf8(name@);
                }
                auth::auth(name, attempts, sessions)
            },
            _ => invalid_request(),
        }
    }

    /// Processes the next request and advances the state machine.
    ///
    /// While negotiating, a successful login moves to `Established`; a
    /// refused login (`401`) or any other request (`400`) counts one more
    /// attempt; from the second failure on, a login gets
    /// `402 Too Many Attempts` and the connection is to be closed. Once
    /// established, `SEND` becomes a broadcast of a `BRDC` notification,
    /// `EXIT` closes, and `LOGN` is a `400 Invalid Request`.
    pub fn handle(&mut self, request: XscpRequest<'_>, sessions: &mut StringHashSet) -> (a: Action)
        requires
            spec_can_handle(old(self)@, request@),
        ensures
            (final(self)@, a@, final(sessions)@) == spec_handle(old(self)@, request@, old(sessions)@),
    {
        proof {
            use_type_invariant(&*self);
        }
        match &self.state {
            State::Negotiating { attempts } => {
                let attempts = *attempts;
                let response = Self::negotiate(&request, attempts, sessions);
                let code = response.status_code();
                if code == 200 {
                    let name = request.source().to_owned();
                    proof {
                        encode_utf8_decode_utf8(name@);
                    }
                    self.state = State::Established { source: name };
                    Action::Reply(response)
                } else if code == 402 {
                    Action::ReplyAndClose(response)
                } else {
                    self.state = State::Negotiating { attempts: attempts + 1 };
                    Action::Reply(response)
                }
            },
            State::Established { source } => {
                match request.opcode() {
                    OpCode::Send => {
                        let notification = XscpNotification::try_new(
                            NotificationType::Broadcast,
                            source.as_str(),
                            request.message(),
                        ).unwrap();
                        let payload = notification.to_string();
                        Action::Broadcast(BroadcastEnvelope { from: source.clone(), payload })
                    },
                    OpCode::Exit => Action::Close,
                    OpCode::Login => Action::Reply(invalid_request()),
                }
            },
        }
    }

    /// Handles one raw request line: a line that does not parse is answered
    /// with `400 Invalid Request`, any other goes to `handle`.
    pub fn handle_line(&mut self, raw_request: &str, sessions: &mut StringHashSet) -> (a: Action)
        requires
            spec_parse_request(raw_request.spec_bytes()) matches Ok(req) ==> spec_can_handle(
                old(self)@,
                req,
            ),
        ensures
            (final(self)@, a@, final(sessions)@) == spec_handle_line(
                old(self)@,
                raw_request.spec_bytes(),
                old(sessions)@,
            ),
    {
        match XscpRequest::parse(raw_request) {
            Ok(request) => self.handle(request, sessions),
            Err(_) => Action::Reply(invalid_request()),
        }
    }

    /// Whether this connection forwards `envelope` to its peer: every
    /// established connection does, except the one that sent it.
    pub fn receives(&self, envelope: &BroadcastEnvelope) -> (r: bool)
        ensures
            r == (self@ matches SpecState::Established { source } && source != envelope.from@),
    {
        match &self.state {
            State::Established { source } => !string_eq(source, &envelope.from),
            State::Negotiating { .. } => false,
        }
    }

    /// Removes this connection's nickname from `sessions` when it is
    /// established; in any other state nothing was registered on its behalf.
    pub fn release(&self, sessions: &mut StringHashSet)
        ensures
            final(sessions)@ == spec_release(self@, old(sessions)@),
    {
        if let State::Established { source } = &self.state {
            sessions.remove(source.as_str());
        }
    }
}

// ----------------------------------------------------------------------------
// Laws
// ----------------------------------------------------------------------------

/// Once established, a connection stays established under the same name and
/// leaves the session set alone, whatever it is sent.
pub proof fn law_established_is_stable(source: Seq<char>, req: SpecRequest, sessions: Set<Seq<char>>)
    ensures
        ({
            let (next, _, next_sessions) = spec_handle(
                SpecState::Established { source },
                req,
                sessions,
            );
            next == SpecState::Established { source } && next_sessions == sessions
        }),
{
}

/// A negotiating connection either logs in, or is told to close after a
/// `402`, or stays negotiating with one more attempt counted.
pub proof fn law_negotiation_progress(attempts: u8, req: SpecRequest, sessions: Set<Seq<char>>)
    requires
        spec_can_handle(SpecState::Negotiating { attempts }, req),
    ensures
        ({
            let (next, action, _) = spec_handle(SpecState::Negotiating { attempts }, req, sessions);
            ||| next is Established
            ||| (action == SpecAction::ReplyAndClose(spec_reply(402, "Too Many Attempts"))
                && next == SpecState::Negotiating { attempts })
            ||| next == SpecState::Negotiating { attempts: (attempts + 1) as u8 }
        }),
{
}

/// After two rejected requests a login is refused with `402` and the
/// connection is to be closed, whether or not the name is free.
pub proof fn law_attempts_exhausted(attempts: u8, req: SpecRequest, sessions: Set<Seq<char>>)
    requires
        attempts >= auth::MAX_AUTH_ATTEMPTS,
        req.opcode == OpCode::Login,
    ensures
        spec_handle(SpecState::Negotiating { attempts }, req, sessions) == (
            SpecState::Negotiating { attempts },
            SpecAction::ReplyAndClose(spec_reply(402, "Too Many Attempts")),
            sessions,
        ),
{
}

/// A login under a free name, with attempts left, registers exactly that
/// name and establishes the connection under it.
pub proof fn law_login_registers(attempts: u8, req: SpecRequest, sessions: Set<Seq<char>>)
    requires
        attempts < auth::MAX_AUTH_ATTEMPTS,
        req.opcode == OpCode::Login,
        !sessions.contains(decode_utf8(req.source)),
    ensures
        spec_handle(SpecState::Negotiating { attempts }, req, sessions) == (
            SpecState::Established { source: decode_utf8(req.source) },
            SpecAction::Reply(spec_reply(200, "Login Successful")),
            sessions.insert(decode_utf8(req.source)),
        ),
{
}

/// Releasing a connection right after it logged in gives back the session
/// set it started from.
pub proof fn law_release_undoes_login(attempts: u8, req: SpecRequest, sessions: Set<Seq<char>>)
    requires
        attempts < auth::MAX_AUTH_ATTEMPTS,
        req.opcode == OpCode::Login,
        !sessions.contains(decode_utf8(req.source)),
    ensures
        ({
            let (next, _, next_sessions) = spec_handle(
                SpecState::Negotiating { attempts },
                req,
                sessions,
            );
            spec_release(next, next_sessions) == sessions
        }),
{
    let name = decode_utf8(req.source);
    assert(sessions.insert(name).remove(name) =~= sessions);
}

/// An established name stays registered: if the name of an established
/// connection is in the session set before a request, it is afterwards too.
pub proof fn law_established_registered(state: SpecState, req: SpecRequest, sessions: Set<Seq<char>>)
    requires
        state matches SpecState::Established { source } ==> sessions.contains(source),
    ensures
        ({
            let (next, _, next_sessions) = spec_handle(state, req, sessions);
            next matches SpecState::Established { source } ==> next_sessions.contains(source)
        }),
{
}

/// The payload of a broadcast is a `BRDC` notification that parses back to
/// the sender's name and the message that was sent.
pub proof fn law_broadcast_payload_parses(source: Seq<char>, req: SpecRequest, sessions: Set<Seq<char>>)
    requires
        spec_valid_source(encode_utf8(source)),
        crate::request::spec_valid_request(req),
        req.opcode == OpCode::Send,
    ensures
        ({
            let (_, action, _) = spec_handle(SpecState::Established { source }, req, sessions);
            &&& action is Broadcast
            &&& crate::notification::spec_parse_notification(action->payload) == Ok::<
                SpecNotification,
                crate::notification::NotificationError,
            >(
                SpecNotification {
                    notification_type: NotificationType::Broadcast,
                    source: encode_utf8(source),
                    message: req.message,
                },
            )
        }),
{
    crate::notification::law_notification_round_trip(
        SpecNotification {
            notification_type: NotificationType::Broadcast,
            source: encode_utf8(source),
            message: req.message,
        },
    );
}

/// A login under a name that is already taken, with attempts left, is
/// refused with `401 Invalid Credentials`: one more attempt is counted and the
/// session set is unchanged. (The `402` comes only with the next login after
/// the second failure.)
pub proof fn law_taken_name_refused(attempts: u8, req: SpecRequest, sessions: Set<Seq<char>>)
    requires
        attempts < auth::MAX_AUTH_ATTEMPTS,
        req.opcode == OpCode::Login,
        sessions.contains(decode_utf8(req.source)),
    ensures
        spec_handle(SpecState::Negotiating { attempts }, req, sessions) == (
            SpecState::Negotiating { attempts: (attempts + 1) as u8 },
            SpecAction::Reply(spec_reply(401, "Invalid Credentials")),
            sessions,
        ),
        spec_handle(SpecState::Negotiating { attempts }, req, sessions).1 == SpecAction::Reply(
            auth::spec_auth_reply(decode_utf8(req.source), attempts, sessions),
        ),
{
}

/// While negotiating, a login is answered with exactly what `auth` answers,
/// and leaves the session set as `auth` leaves it; the connection is told to
/// close only on a `402`.
pub proof fn law_negotiation_follows_auth(attempts: u8, req: SpecRequest, sessions: Set<Seq<char>>)
    requires
        req.opcode == OpCode::Login,
    ensures
        ({
            let name = decode_utf8(req.source);
            let reply = auth::spec_auth_reply(name, attempts, sessions);
            let (_, action, next_sessions) = spec_handle(
                SpecState::Negotiating { attempts },
                req,
                sessions,
            );
            &&& next_sessions == auth::spec_auth_sessions(name, attempts, sessions)
            &&& action == (if reply.status_code == 402 {
                SpecAction::ReplyAndClose(reply)
            } else {
                SpecAction::Reply(reply)
            })
        }),
{
    let name = decode_utf8(req.source);
    if attempts < auth::MAX_AUTH_ATTEMPTS && !sessions.contains(name) {
        assert(sessions.insert(name) == auth::spec_auth_sessions(name, attempts, sessions));
    }
    if attempts < auth::MAX_AUTH_ATTEMPTS && sessions.contains(name) {
        assert(sessions.insert(name) =~= sessions);
    }
}

/// A line that does not parse, in any state, is answered with
/// `400 Invalid Request` and the connection stays open: the state and the
/// session set are unchanged.
pub proof fn law_unparseable_line_keeps_connection(
    state: SpecState,
    raw: Seq<u8>,
    sessions: Set<Seq<char>>,
)
    requires
        spec_parse_request(raw) is Err,
    ensures
        spec_handle_line(state, raw, sessions) == (
            state,
            SpecAction::Reply(spec_reply(400, "Invalid Request")),
            sessions,
        ),
{
}

/// A line that parses is handled exactly as the request it parses to.
pub proof fn law_parsed_line_is_handled(state: SpecState, raw: Seq<u8>, sessions: Set<Seq<char>>)
    requires
        spec_parse_request(raw) is Ok,
    ensures
        spec_handle_line(state, raw, sessions) == spec_handle(
            state,
            spec_parse_request(raw)->Ok_0,
            sessions,
        ),
{
}

} // verus!
