//! XSCP response PDUs.
//!
//! ```text
//! +-----------------------------------------------------------------------+
//! |   Status Code (1-3 ASCII digits)   |   Reason Phrase (Max 32 Bytes)   |
//! +-----------------------------------------------------------------------+
//! ```
//!
//! Fields are delimited by `|` and the line ends with `\r\n`. Status codes
//! follow an HTTP-like convention and never exceed 599. A response line takes
//! at most 36 bytes, delimiter and `\r\n` included.
use crate::wire::{
    crlf, ends_with_crlf, has_field_breaks, lemma_decimal_len, lemma_decimal_value,
    lemma_split_two_join, lemma_split_two_shape, no_field_breaks, no_line_breaks, parse_status_code,
    push_crlf, push_decimal, push_pipe, push_text, spec_decimal, spec_join_two, spec_parse_status_code,
    spec_split_two, split_two, strip_crlf, FrameError, CR, LF, PIPE,
};
use vstd::prelude::*;
use vstd::string::*;
use vstd::utf8::*;

verus! {

/// Possible errors when creating or parsing an XSCP response.
#[derive(Debug, PartialEq, Eq, Clone, Copy, Structural)]
pub enum ResponseError {
    InvalidStatusCode,
    InvalidReasonPhrase,
    MalformedResponse,
    MissingCrlf,
}

/// The content of a response: its status code and the UTF-8 bytes of its reason phrase.
pub struct SpecResponse {
    pub status_code: u16,
    pub reason_phrase: Seq<u8>,
}

/// A status code: at most 599.
pub open spec fn spec_valid_status_code(code: u16) -> bool {
    code <= 599
}

/// A reason phrase: at most 32 bytes, without `|`, `\r` or `\n`.
pub open spec fn spec_valid_reason_phrase(r: Seq<u8>) -> bool {
    no_field_breaks(r) && r.len() <= 32
}

/// Both fields of the response are admissible.
pub open spec fn spec_valid_response(v: SpecResponse) -> bool {
    spec_valid_status_code(v.status_code) && spec_valid_reason_phrase(v.reason_phrase)
}

/// What `XscpResponse::try_new` gives for these fields.
pub open spec fn spec_try_new_response(status_code: u16, reason_phrase: Seq<u8>) -> Result<
    SpecResponse,
    ResponseError,
> {
    if !spec_valid_status_code(status_code) {
        Err(ResponseError::InvalidStatusCode)
    } else if !spec_valid_reason_phrase(reason_phrase) {
        Err(ResponseError::InvalidReasonPhrase)
    } else {
        Ok(SpecResponse { status_code, reason_phrase })
    }
}

/// The most bytes a response line may take, delimiter and `\r\n` included.
pub const MAX_RESPONSE_LEN: usize = 36;

/// What `XscpResponse::parse` gives for the line `raw`. The status code must
/// be one to three ASCII digits; a line whose fields are admissible but that
/// exceeds `MAX_RESPONSE_LEN` bytes is malformed.
pub open spec fn spec_parse_response(raw: Seq<u8>) -> Result<SpecResponse, ResponseError> {
    match spec_split_two(raw) {
        Err(FrameError::MissingCrlf) => Err(ResponseError::MissingCrlf),
        Err(FrameError::Malformed) => Err(ResponseError::MalformedResponse),
        Ok((code, reason)) => match spec_parse_status_code(code) {
            None => Err(ResponseError::InvalidStatusCode),
            Some(c) => match spec_try_new_response(c, reason) {
                Err(e) => Err(e),
                Ok(v) => if raw.len() > MAX_RESPONSE_LEN {
                    Err(ResponseError::MalformedResponse)
                } else {
                    Ok(v)
                },
            },
        },
    }
}

/// The wire form of a response: `CODE|reason\r\n`, the code in shortest decimal.
pub open spec fn spec_response_bytes(v: SpecResponse) -> Seq<u8> {
    spec_join_two(spec_decimal(v.status_code as nat), v.reason_phrase)
}

/// An XSCP response PDU, borrowing its reason phrase from the caller.
#[derive(Debug)]
pub struct XscpResponse<'a> {
    status_code: u16,
    reason_phrase: &'a str,
}

impl<'a> View for XscpResponse<'a> {
    type V = SpecResponse;

    closed spec fn view(&self) -> SpecResponse {
        SpecResponse { status_code: self.status_code, reason_phrase: self.reason_phrase.spec_bytes() }
    }
}

/// The spec counterpart of a constructor or parser result.
pub open spec fn response_result_view(res: Result<XscpResponse, ResponseError>) -> Result<
    SpecResponse,
    ResponseError,
> {
    match res {
        Ok(r) => Ok(r@),
        Err(e) => Err(e),
    }
}

impl<'a> XscpResponse<'a> {
    /// Every response value carries admissible fields.
    #[verifier::type_invariant]
    spec fn well_formed(self) -> bool {
        spec_valid_response(self@)
    }

    /// Creates a new XSCP response.
    ///
    /// Errors: `InvalidStatusCode` when the code exceeds 599, then
    /// `InvalidReasonPhrase` when the phrase exceeds 32 bytes or holds `|`,
    /// `\r` or `\n`.
    ///
    /// The fields are checked one by one, not against the 36-byte budget of a
    /// response line: a three-digit code with a phrase of 31 or 32 bytes is
    /// admitted, and its wire form (37 or 38 bytes) is refused by `parse`.
    pub fn try_new(status_code: u16, reason_phrase: &'a str) -> (res: Result<Self, ResponseError>)
        ensures
            response_result_view(res) == spec_try_new_response(
                status_code,
                reason_phrase.spec_bytes(),
            ),
            res matches Ok(r) ==> spec_response_bytes(r@).len() <= 38,
    {
        if status_code > 599 {
            return Err(ResponseError::InvalidStatusCode);
        }
        let rb = reason_phrase.as_bytes();
        if has_field_breaks(rb) || rb.len() > 32 {
            return Err(ResponseError::InvalidReasonPhrase);
        }
        let r = XscpResponse { status_code, reason_phrase };
        proof {
            law_response_framing(r@);
        }
        Ok(r)
    }

    /// Builds a response from fields already known to be admissible.
    pub(crate) fn new_valid(status_code: u16, reason_phrase: &'a str) -> (r: Self)
        requires
            spec_valid_status_code(status_code),
            spec_valid_reason_phrase(reason_phrase.spec_bytes()),
        ensures
            r@ == (SpecResponse { status_code, reason_phrase: reason_phrase.spec_bytes() }),
    {
        XscpResponse { status_code, reason_phrase }
    }

    /// Parses a raw response line `CODE|reason\r\n`.
    ///
    /// Errors, in the order they are checked: `MissingCrlf`,
    /// `MalformedResponse` (not exactly one `|`), `InvalidStatusCode` (not one
    /// to three ASCII digits, or above 599), `InvalidReasonPhrase`, and
    /// `MalformedResponse` again when the line exceeds 36 bytes.
    pub fn parse(raw_response: &'a str) -> (res: Result<Self, ResponseError>)
        ensures
            response_result_view(res) == spec_parse_response(raw_response.spec_bytes()),
    {
        let (code, reason) = match split_two(raw_response) {
            Ok(parts) => parts,
            Err(FrameError::MissingCrlf) => return Err(ResponseError::MissingCrlf),
            Err(FrameError::Malformed) => return Err(ResponseError::MalformedResponse),
        };
        let status_code = match parse_status_code(code.as_bytes()) {
            Some(c) => c,
            None => return Err(ResponseError::InvalidStatusCode),
        };
        let response = Self::try_new(status_code, reason)?;
        if raw_response.as_bytes().len() > MAX_RESPONSE_LEN {
            return Err(ResponseError::MalformedResponse);
        }
        Ok(response)
    }

    /// Returns the status code.
    pub fn status_code(&self) -> (r: u16)
        ensures
            r == self@.status_code,
            spec_valid_status_code(r),
    {
        proof {
            use_type_invariant(self);
        }
        self.status_code
    }

    /// Returns the reason phrase.
    pub fn reason_phrase(&self) -> (r: &'a str)
        ensures
            r.spec_bytes() == self@.reason_phrase,
            spec_valid_reason_phrase(self@.reason_phrase),
    {
        proof {
            use_type_invariant(self);
        }
        self.reason_phrase
    }

    /// The wire form `CODE|reason\r\n`.
    ///
    /// The line parses back to this response when it fits the 36-byte
    /// budget; a longer one (at most 38 bytes) is refused as malformed.
    pub fn to_string(&self) -> (s: String)
        ensures
            encode_utf8(s@) == spec_response_bytes(self@),
            spec_valid_response(self@),
            spec_response_bytes(self@).len() <= 38,
            spec_parse_response(encode_utf8(s@)) == (if spec_response_bytes(self@).len()
                <= MAX_RESPONSE_LEN {
                Ok::<SpecResponse, ResponseError>(self@)
            } else {
                Err(ResponseError::MalformedResponse)
            }),
    {
        proof {
            use_type_invariant(self);
            law_response_framing(self@);
            law_response_round_trip(self@);
        }
        let mut s = String::new();
        push_decimal(&mut s, self.status_code);
        push_pipe(&mut s);
        push_text(&mut s, self.reason_phrase);
        push_crlf(&mut s);
        proof {
            assert(encode_utf8(Seq::<char>::empty()) =~= Seq::<u8>::empty());
            assert(encode_utf8(s@) =~= spec_response_bytes(self@));
        }
        s
    }
}

// ----------------------------------------------------------------------------
// Laws
// ----------------------------------------------------------------------------

/// Parsing the wire form of an admissible response gives it back when it
/// fits the 36-byte budget, and is refused as malformed when it does not.
pub proof fn law_response_round_trip(v: SpecResponse)
    requires
        spec_valid_response(v),
    ensures
        spec_parse_response(spec_response_bytes(v)) == (if spec_response_bytes(v).len()
            <= MAX_RESPONSE_LEN {
            Ok::<SpecResponse, ResponseError>(v)
        } else {
            Err(ResponseError::MalformedResponse)
        }),
{
    let d = spec_decimal(v.status_code as nat);
    lemma_decimal_value(v.status_code as nat);
    assert(!d.contains(PIPE)) by {
        assert forall|k: int| 0 <= k < d.len() implies d[k] != PIPE by {
            assert(crate::wire::is_digit(d[k]));
        }
    }
    lemma_decimal_len(v.status_code as nat);
    lemma_split_two_join(d, v.reason_phrase);
    assert(spec_parse_status_code(d) == Some(v.status_code));
}

/// Only admissible responses come out of the parser.
pub proof fn law_response_parse_valid(raw: Seq<u8>)
    requires
        spec_parse_response(raw) is Ok,
    ensures
        spec_valid_response(spec_parse_response(raw)->Ok_0),
{
}

/// A line that parses fits the 36-byte budget and is, up to repeated
/// trailing `\r\n`, a status code field of one to three digits and the
/// reason phrase.
pub proof fn law_response_shape(raw: Seq<u8>)
    requires
        spec_parse_response(raw) is Ok,
    ensures
        ({
            let v = spec_parse_response(raw)->Ok_0;
            let (code, reason) = spec_split_two(raw)->Ok_0;
            &&& raw.len() <= MAX_RESPONSE_LEN
            &&& 1 <= code.len() <= 3
            &&& spec_parse_status_code(code) == Some(v.status_code)
            &&& reason == v.reason_phrase
            &&& spec_join_two(code, reason) == strip_crlf(raw) + crlf()
        }),
{
    lemma_split_two_shape(raw);
}

/// The wire form of an admissible response is at most 38 bytes (three
/// digits, the delimiter, 32 bytes of phrase and `\r\n`), and its only line
/// break is the final `\r\n`.
pub proof fn law_response_framing(v: SpecResponse)
    requires
        spec_valid_response(v),
    ensures
        spec_response_bytes(v).len() == spec_decimal(v.status_code as nat).len()
            + v.reason_phrase.len() + 3,
        spec_decimal(v.status_code as nat).len() <= 3,
        spec_response_bytes(v).len() <= 38,
        ends_with_crlf(spec_response_bytes(v)),
        no_line_breaks(spec_response_bytes(v).drop_last().drop_last()),
{
    let d = spec_decimal(v.status_code as nat);
    lemma_decimal_value(v.status_code as nat);
    lemma_decimal_len(v.status_code as nat);
    let w = spec_response_bytes(v);
    let body = d + seq![PIPE] + v.reason_phrase;
    assert(w =~= body + crlf());
    assert(w.drop_last().drop_last() =~= body);
    assert forall|k: int| 0 <= k < body.len() implies body[k] != CR && body[k] != LF by {
        if k < d.len() {
            assert(crate::wire::is_digit(d[k]));
        } else if k == d.len() {
        } else {
            assert(body[k] == v.reason_phrase[k - d.len() - 1]);
        }
    }
}

} // verus!
