//! XSCP request PDUs.
//!
//! ```text
//! +------------------------------------------------------------------+
//! |   OPCODE (4 Bytes)   |    Source (Min 3 Bytes, Max 32 Bytes)     |
//! |------------------------------------------------------------------|
//! |          Message (Max 472 Bytes) + \r\n (2 Bytes)                |
//! +------------------------------------------------------------------+
//! ```
//!
//! Fields are delimited by `|`. The source rejects `|`, `\r` and `\n`; the
//! message rejects `\r` and `\n` but may hold `|`. A request therefore never
//! exceeds 512 bytes and cannot smuggle a second PDU.
use crate::wire::{
    crlf, ends_with_crlf, has_field_breaks, has_line_breaks, lemma_ascii_encoding,
    lemma_split_three_join, lemma_split_three_shape, no_field_breaks, no_line_breaks, push_crlf,
    push_pipe, push_text, spec_join_three, spec_split_three, split_three, strip_crlf, FrameError,
    CR, LF, PIPE,
};
use vstd::prelude::*;
use vstd::string::*;
use vstd::utf8::*;

verus! {

/// Possible OPCODEs in XSCP requests (`LOGN`, `SEND`, `EXIT` on the wire).
#[derive(Debug, PartialEq, Eq, Clone, Copy, Structural)]
pub enum OpCode {
    /// User registration.
    Login,
    /// Global message broadcast.
    Send,
    /// Graceful disconnection.
    Exit,
}

/// Possible errors when creating or parsing an XSCP request.
#[derive(Debug, PartialEq, Eq, Clone, Copy, Structural)]
pub enum RequestError {
    UnknownOpcode,
    MalformedRequest,
    InvalidSource,
    InvalidMessage,
    MissingCrlf,
}

/// The content of a request: its opcode and the UTF-8 bytes of its fields.
pub struct SpecRequest {
    pub opcode: OpCode,
    pub source: Seq<u8>,
    pub message: Seq<u8>,
}

/// The four bytes that name `op` on the wire.
pub open spec fn spec_opcode_bytes(op: OpCode) -> Seq<u8> {
    match op {
        OpCode::Login => seq![0x4cu8, 0x4fu8, 0x47u8, 0x4eu8],
        OpCode::Send => seq![0x53u8, 0x45u8, 0x4eu8, 0x44u8],
        OpCode::Exit => seq![0x45u8, 0x58u8, 0x49u8, 0x54u8],
    }
}

/// The opcode whose wire name is `b`, if any.
pub open spec fn spec_opcode_from_bytes(b: Seq<u8>) -> Option<OpCode> {
    if b == spec_opcode_bytes(OpCode::Login) {
        Some(OpCode::Login)
    } else if b == spec_opcode_bytes(OpCode::Send) {
        Some(OpCode::Send)
    } else if b == spec_opcode_bytes(OpCode::Exit) {
        Some(OpCode::Exit)
    } else {
        None
    }
}

/// A source (or nickname): 3 to 32 bytes, without `|`, `\r` or `\n`.
pub open spec fn spec_valid_source(s: Seq<u8>) -> bool {
    no_field_breaks(s) && 3 <= s.len() <= 32
}

/// A message: at most 472 bytes, without `\r` or `\n`.
pub open spec fn spec_valid_message(m: Seq<u8>) -> bool {
    no_line_breaks(m) && m.len() <= 472
}

/// Both fields of the request are admissible.
pub open spec fn spec_valid_request(v: SpecRequest) -> bool {
    spec_valid_source(v.source) && spec_valid_message(v.message)
}

/// What `XscpRequest::try_new` gives for these fields.
pub open spec fn spec_try_new_request(opcode: OpCode, source: Seq<u8>, message: Seq<u8>) -> Result<
    SpecRequest,
    RequestError,
> {
    if !spec_valid_source(source) {
        Err(RequestError::InvalidSource)
    } else if !spec_valid_message(message) {
        Err(RequestError::InvalidMessage)
    } else {
        Ok(SpecRequest { opcode, source, message })
    }
}

/// What `XscpRequest::parse` gives for the line `raw`.
pub open spec fn spec_parse_request(raw: Seq<u8>) -> Result<SpecRequest, RequestError> {
    match spec_split_three(raw) {
        Err(FrameError::MissingCrlf) => Err(RequestError::MissingCrlf),
        Err(FrameError::Malformed) => Err(RequestError::MalformedRequest),
        Ok((op, source, message)) => match spec_opcode_from_bytes(op) {
            None => Err(RequestError::UnknownOpcode),
            Some(opcode) => spec_try_new_request(opcode, source, message),
        },
    }
}

/// The wire form of a request: `OPCODE|source|message\r\n`.
pub open spec fn spec_request_bytes(v: SpecRequest) -> Seq<u8> {
    spec_join_three(spec_opcode_bytes(v.opcode), v.source, v.message)
}

/// An XSCP request PDU, borrowing its fields from the caller.
#[derive(Debug)]
pub struct XscpRequest<'a> {
    opcode: OpCode,
    source: &'a str,
    message: &'a str,
}

impl<'a> View for XscpRequest<'a> {
    type V = SpecRequest;

    closed spec fn view(&self) -> SpecRequest {
        SpecRequest {
            opcode: self.opcode,
            source: self.source.spec_bytes(),
            message: self.message.spec_bytes(),
        }
    }
}

/// The spec counterpart of a constructor or parser result.
pub open spec fn request_result_view(res: Result<XscpRequest, RequestError>) -> Result<
    SpecRequest,
    RequestError,
> {
    match res {
        Ok(r) => Ok(r@),
        Err(e) => Err(e),
    }
}

/// The wire name of `op`.
fn opcode_text(op: OpCode) -> (t: &'static str)
    ensures
        t.spec_bytes() == spec_opcode_bytes(op),
{
    match op {
        OpCode::Login => {
            let t = "LOGN";
            proof {
                reveal_strlit("LOGN");
                assert(t@.len() == 4);
                assert(t@[0] == 'L' && t@[1] == 'O' && t@[2] == 'G' && t@[3] == 'N');
                lemma_ascii_encoding(t@);
                assert(t.spec_bytes() =~= spec_opcode_bytes(op));
            }
            t
        },
        OpCode::Send => {
            let t = "SEND";
            proof {
                reveal_strlit("SEND");
                assert(t@.len() == 4);
                assert(t@[0] == 'S' && t@[1] == 'E' && t@[2] == 'N' && t@[3] == 'D');
                lemma_ascii_encoding(t@);
                assert(t.spec_bytes() =~= spec_opcode_bytes(op));
            }
            t
        },
        OpCode::Exit => {
            let t = "EXIT";
            proof {
                reveal_strlit("EXIT");
                assert(t@.len() == 4);
                assert(t@[0] == 'E' && t@[1] == 'X' && t@[2] == 'I' && t@[3] == 'T');
                lemma_ascii_encoding(t@);
                assert(t.spec_bytes() =~= spec_opcode_bytes(op));
            }
            t
        },
    }
}

/// The opcode named by the four bytes `b`, if any.
fn opcode_from_bytes(b: &[u8]) -> (r: Option<OpCode>)
    ensures
        r == spec_opcode_from_bytes(b@),
{
    if b.len() != 4 {
        assert(b@ != spec_opcode_bytes(OpCode::Login));
        assert(b@ != spec_opcode_bytes(OpCode::Send));
        assert(b@ != spec_opcode_bytes(OpCode::Exit));
        return None;
    }
    if b[0] == 0x4c && b[1] == 0x4f && b[2] == 0x47 && b[3] == 0x4e {
        assert(b@ =~= spec_opcode_bytes(OpCode::Login));
        Some(OpCode::Login)
    } else if b[0] == 0x53 && b[1] == 0x45 && b[2] == 0x4e && b[3] == 0x44 {
        assert(b@ != spec_opcode_bytes(OpCode::Login)) by {
            assert(b@[0] != spec_opcode_bytes(OpCode::Login)[0]);
        }
        assert(b@ =~= spec_opcode_bytes(OpCode::Send));
        Some(OpCode::Send)
    } else if b[0] == 0x45 && b[1] == 0x58 && b[2] == 0x49 && b[3] == 0x54 {
        assert(b@ != spec_opcode_bytes(OpCode::Login)) by {
            assert(b@[0] != spec_opcode_bytes(OpCode::Login)[0]);
        }
        assert(b@ != spec_opcode_bytes(OpCode::Send)) by {
            assert(b@[0] != spec_opcode_bytes(OpCode::Send)[0]);
        }
        assert(b@ =~= spec_opcode_bytes(OpCode::Exit));
        Some(OpCode::Exit)
    } else {
        assert(b@ != spec_opcode_bytes(OpCode::Login)) by {
            if b@ == spec_opcode_bytes(OpCode::Login) {
                assert(b@[0] == 0x4c && b@[1] == 0x4f && b@[2] == 0x47 && b@[3] == 0x4e);
            }
        }
        assert(b@ != spec_opcode_bytes(OpCode::Send)) by {
            if b@ == spec_opcode_bytes(OpCode::Send) {
                assert(b@[0] == 0x53 && b@[1] == 0x45 && b@[2] == 0x4e && b@[3] == 0x44);
            }
        }
        assert(b@ != spec_opcode_bytes(OpCode::Exit)) by {
            if b@ == spec_opcode_bytes(OpCode::Exit) {
                assert(b@[0] == 0x45 && b@[1] == 0x58 && b@[2] == 0x49 && b@[3] == 0x54);
            }
        }
        None
    }
}

impl OpCode {
    /// The wire name of the opcode: `LOGN`, `SEND` or `EXIT`.
    pub fn to_string(&self) -> (s: String)
        ensures
            encode_utf8(s@) == spec_opcode_bytes(*self),
    {
        let mut s = String::new();
        push_text(&mut s, opcode_text(*self));
        proof {
            assert(encode_utf8(Seq::<char>::empty()) =~= Seq::<u8>::empty());
            assert(encode_utf8(s@) =~= spec_opcode_bytes(*self));
        }
        s
    }
}

impl<'a> XscpRequest<'a> {
    /// Every request value carries admissible fields.
    #[verifier::type_invariant]
    spec fn well_formed(self) -> bool {
        spec_valid_request(self@)
    }

    /// Creates a new XSCP request.
    ///
    /// The source must be 3 to 32 bytes without `|`, `\r` or `\n`
    /// (`InvalidSource`); the message at most 472 bytes without `\r` or `\n`
    /// (`InvalidMessage`). The source is checked first.
    pub fn try_new(opcode: OpCode, source: &'a str, message: &'a str) -> (res: Result<
        Self,
        RequestError,
    >)
        ensures
            request_result_view(res) == spec_try_new_request(
                opcode,
                source.spec_bytes(),
                message.spec_bytes(),
            ),
    {
        let sb = source.as_bytes();
        if has_field_breaks(sb) || sb.len() < 3 || sb.len() > 32 {
            return Err(RequestError::InvalidSource);
        }
        let mb = message.as_bytes();
        if has_line_breaks(mb) || mb.len() > 472 {
            return Err(RequestError::InvalidMessage);
        }
        Ok(XscpRequest { opcode, source, message })
    }

    /// Parses a raw request line `OPCODE|source|message\r\n`.
    ///
    /// Errors, in the order they are checked: `MissingCrlf` (no trailing
    /// `\r\n`), `MalformedRequest` (fewer than two `|`), `UnknownOpcode`,
    /// then those of `try_new`.
    pub fn parse(raw_request: &'a str) -> (res: Result<Self, RequestError>)
        ensures
            request_result_view(res) == spec_parse_request(raw_request.spec_bytes()),
    {
        let (op, source, message) = match split_three(raw_request) {
            Ok(parts) => parts,
            Err(FrameError::MissingCrlf) => return Err(RequestError::MissingCrlf),
            Err(FrameError::Malformed) => return Err(RequestError::MalformedRequest),
        };
        let opcode = match opcode_from_bytes(op.as_bytes()) {
            Some(o) => o,
            None => return Err(RequestError::UnknownOpcode),
        };
        Self::try_new(opcode, source, message)
    }

    /// Returns the opcode of the request.
    pub fn opcode(&self) -> (r: OpCode)
        ensures
            r == self@.opcode,
    {
        self.opcode
    }

    /// Returns the source of the request.
    pub fn source(&self) -> (r: &str)
        ensures
            r.spec_bytes() == self@.source,
            spec_valid_source(self@.source),
    {
        proof {
            use_type_invariant(self);
        }
        self.source
    }

    /// Returns the message of the request.
    pub fn message(&self) -> (r: &str)
        ensures
            r.spec_bytes() == self@.message,
            spec_valid_message(self@.message),
    {
        proof {
            use_type_invariant(self);
        }
        self.message
    }

    /// The wire form `OPCODE|source|message\r\n`.
    pub fn to_string(&self) -> (s: String)
        ensures
            encode_utf8(s@) == spec_request_bytes(self@),
            spec_valid_request(self@),
    {
        proof {
            use_type_invariant(self);
        }
        let mut s = String::new();
        push_text(&mut s, opcode_text(self.opcode));
        push_pipe(&mut s);
        push_text(&mut s, self.source);
        push_pipe(&mut s);
        push_text(&mut s, self.message);
        push_crlf(&mut s);
        proof {
            assert(encode_utf8(Seq::<char>::empty()) =~= Seq::<u8>::empty());
            assert(encode_utf8(s@) =~= spec_request_bytes(self@));
        }
        s
    }
}

// ----------------------------------------------------------------------------
// Laws
// ----------------------------------------------------------------------------

/// Parsing the wire form of an admissible request gives that request back.
pub proof fn law_request_round_trip(v: SpecRequest)
    requires
        spec_valid_request(v),
    ensures
        spec_parse_request(spec_request_bytes(v)) == Ok::<SpecRequest, RequestError>(v),
{
    let op = spec_opcode_bytes(v.opcode);
    assert(!op.contains(PIPE)) by {
        assert forall|k: int| 0 <= k < op.len() implies op[k] != PIPE by {}
    }
    lemma_split_three_join(op, v.source, v.message);
}

/// A line that parses is, up to repeated trailing `\r\n`, the wire form of
/// what it parses to.
pub proof fn law_request_canonical(raw: Seq<u8>)
    requires
        spec_parse_request(raw) is Ok,
    ensures
        spec_request_bytes(spec_parse_request(raw)->Ok_0) == strip_crlf(raw) + crlf(),
{
    lemma_split_three_shape(raw);
}

/// Only admissible requests come out of the parser.
pub proof fn law_request_parse_valid(raw: Seq<u8>)
    requires
        spec_parse_request(raw) is Ok,
    ensures
        spec_valid_request(spec_parse_request(raw)->Ok_0),
{
}

/// The wire form of an admissible request fits the 512-byte budget, and its
/// only line break is the final `\r\n`: no field can smuggle a second PDU.
pub proof fn law_request_framing(v: SpecRequest)
    requires
        spec_valid_request(v),
    ensures
        spec_request_bytes(v).len() <= 512,
        ends_with_crlf(spec_request_bytes(v)),
        no_line_breaks(spec_request_bytes(v).drop_last().drop_last()),
{
    let w = spec_request_bytes(v);
    let op = spec_opcode_bytes(v.opcode);
    let body = op + seq![PIPE] + v.source + seq![PIPE] + v.message;
    assert(w =~= body + crlf());
    assert(w.drop_last().drop_last() =~= body);
    assert forall|k: int| 0 <= k < body.len() implies body[k] != CR && body[k] != LF by {
        if k < 4 {
        } else if k == 4 {
        } else if k < 5 + v.source.len() {
            assert(body[k] == v.source[k - 5]);
        } else if k == 5 + v.source.len() {
        } else {
            assert(body[k] == v.message[k - 6 - v.source.len()]);
        }
    }
}

} // verus!
