//! XSCP notification PDUs.
//!
//! ```text
//! +---------------------------------------------------------------------------+
//! |   Notification Type (4 Bytes)   |   Source (Min 3 Bytes, Max 32 Bytes)    |
//! |---------------------------------------------------------------------------|
//! |                 Message (Max 472 Bytes) + \r\n (2 Bytes)                  |
//! +---------------------------------------------------------------------------+
//! ```
//!
//! Fields are delimited by `|`. The source is a user's nickname or
//! `XSCP_SERVER`; it rejects `|`, `\r` and `\n`. The message rejects `\r` and
//! `\n` but may hold `|`.
use crate::request::{spec_valid_message, spec_valid_source};
use crate::wire::{
    crlf, ends_with_crlf, has_field_breaks, has_line_breaks, lemma_ascii_encoding,
    lemma_split_three_join, lemma_split_three_shape, no_line_breaks, push_crlf, push_pipe,
    push_text, spec_join_three, spec_split_three, split_three, strip_crlf, FrameError, CR, LF,
    PIPE,
};
use vstd::prelude::*;
use vstd::string::*;
use vstd::utf8::*;

verus! {

/// Possible notification types (`BRDC` on the wire).
#[derive(Debug, PartialEq, Eq, Clone, Copy, Structural)]
pub enum NotificationType {
    /// Broadcast message from a user.
    Broadcast,
}

/// Errors that can occur during notification creation and parsing.
#[derive(Debug, PartialEq, Eq, Clone, Copy, Structural)]
pub enum NotificationError {
    InvalidSource,
    InvalidMessage,
    UnknownNotificationType,
    MalformedNotification,
    MissingCrlf,
}

/// The content of a notification: its type and the UTF-8 bytes of its fields.
pub struct SpecNotification {
    pub notification_type: NotificationType,
    pub source: Seq<u8>,
    pub message: Seq<u8>,
}

/// The four bytes that name `t` on the wire.
pub open spec fn spec_notification_type_bytes(t: NotificationType) -> Seq<u8> {
    match t {
        NotificationType::Broadcast => seq![0x42u8, 0x52u8, 0x44u8, 0x43u8],
    }
}

/// The notification type whose wire name is `b`, if any.
pub open spec fn spec_notification_type_from_bytes(b: Seq<u8>) -> Option<NotificationType> {
    if b == spec_notification_type_bytes(NotificationType::Broadcast) {
        Some(NotificationType::Broadcast)
    } else {
        None
    }
}

/// Both fields of the notification are admissible.
pub open spec fn spec_valid_notification(v: SpecNotification) -> bool {
    spec_valid_source(v.source) && spec_valid_message(v.message)
}

/// What `XscpNotification::try_new` gives for these fields.
pub open spec fn spec_try_new_notification(
    notification_type: NotificationType,
    source: Seq<u8>,
    message: Seq<u8>,
) -> Result<SpecNotification, NotificationError> {
    if !spec_valid_source(source) {
        Err(NotificationError::InvalidSource)
    } else if !spec_valid_message(message) {
        Err(NotificationError::InvalidMessage)
    } else {
        Ok(SpecNotification { notification_type, source, message })
    }
}

/// What `XscpNotification::parse` gives for the line `raw`.
pub open spec fn spec_parse_notification(raw: Seq<u8>) -> Result<
    SpecNotification,
    NotificationError,
> {
    match spec_split_three(raw) {
        Err(FrameError::MissingCrlf) => Err(NotificationError::MissingCrlf),
        Err(FrameError::Malformed) => Err(NotificationError::MalformedNotification),
        Ok((t, source, message)) => match spec_notification_type_from_bytes(t) {
            None => Err(NotificationError::UnknownNotificationType),
            Some(nt) => spec_try_new_notification(nt, source, message),
        },
    }
}

/// The wire form of a notification: `TYPE|source|message\r\n`.
pub open spec fn spec_notification_bytes(v: SpecNotification) -> Seq<u8> {
    spec_join_three(spec_notification_type_bytes(v.notification_type), v.source, v.message)
}

/// An XSCP notification PDU, borrowing its fields from the caller.
#[derive(Debug)]
pub struct XscpNotification<'a> {
    notification_type: NotificationType,
    source: &'a str,
    message: &'a str,
}

impl<'a> View for XscpNotification<'a> {
    type V = SpecNotification;

    closed spec fn view(&self) -> SpecNotification {
        SpecNotification {
            notification_type: self.notification_type,
            source: self.source.spec_bytes(),
            message: self.message.spec_bytes(),
        }
    }
}

/// The spec counterpart of a constructor or parser result.
pub open spec fn notification_result_view(res: Result<XscpNotification, NotificationError>) -> Result<
    SpecNotification,
    NotificationError,
> {
    match res {
        Ok(n) => Ok(n@),
        Err(e) => Err(e),
    }
}

/// The wire name of `t`.
fn notification_type_text(t: NotificationType) -> (s: &'static str)
    ensures
        s.spec_bytes() == spec_notification_type_bytes(t),
{
    match t {
        NotificationType::Broadcast => {
            let s = "BRDC";
            proof {
                reveal_strlit("BRDC");
                assert(s@.len() == 4);
                assert(s@[0] == 'B' && s@[1] == 'R' && s@[2] == 'D' && s@[3] == 'C');
                lemma_ascii_encoding(s@);
                assert(s.spec_bytes() =~= spec_notification_type_bytes(t));
            }
            s
        },
    }
}

/// The notification type named by the four bytes `b`, if any.
fn notification_type_from_bytes(b: &[u8]) -> (r: Option<NotificationType>)
    ensures
        r == spec_notification_type_from_bytes(b@),
{
    if b.len() == 4 && b[0] == 0x42 && b[1] == 0x52 && b[2] == 0x44 && b[3] == 0x43 {
        assert(b@ =~= spec_notification_type_bytes(NotificationType::Broadcast));
        Some(NotificationType::Broadcast)
    } else {
        assert(b@ != spec_notification_type_bytes(NotificationType::Broadcast)) by {
            if b@ == spec_notification_type_bytes(NotificationType::Broadcast) {
                assert(b@.len() == 4);
                assert(b@[0] == 0x42 && b@[1] == 0x52 && b@[2] == 0x44 && b@[3] == 0x43);
            }
        }
        None
    }
}

impl<'a> XscpNotification<'a> {
    /// Every notification value carries admissible fields.
    #[verifier::type_invariant]
    spec fn well_formed(self) -> bool {
        spec_valid_notification(self@)
    }

    /// Creates a new XSCP notification.
    ///
    /// The source must be 3 to 32 bytes without `|`, `\r` or `\n`
    /// (`InvalidSource`); the message at most 472 bytes without `\r` or `\n`
    /// (`InvalidMessage`). The source is checked first.
    pub fn try_new(
        notification_type: NotificationType,
        source: &'a str,
        message: &'a str,
    ) -> (res: Result<Self, NotificationError>)
        ensures
            notification_result_view(res) == spec_try_new_notification(
                notification_type,
                source.spec_bytes(),
                message.spec_bytes(),
            ),
    {
        let sb = source.as_bytes();
        if has_field_breaks(sb) || sb.len() < 3 || sb.len() > 32 {
            return Err(NotificationError::InvalidSource);
        }
        let mb = message.as_bytes();
        if has_line_breaks(mb) || mb.len() > 472 {
            return Err(NotificationError::InvalidMessage);
        }
        Ok(XscpNotification { notification_type, source, message })
    }

    /// Parses a raw notification line `TYPE|source|message\r\n`.
    ///
    /// Errors, in the order they are checked: `MissingCrlf`,
    /// `MalformedNotification` (fewer than two `|`), `UnknownNotificationType`,
    /// then those of `try_new`.
    pub fn parse(raw_notification: &'a str) -> (res: Result<Self, NotificationError>)
        ensures
            notification_result_view(res) == spec_parse_notification(raw_notification.spec_bytes()),
    {
        let (t, source, message) = match split_three(raw_notification) {
            Ok(parts) => parts,
            Err(FrameError::MissingCrlf) => return Err(NotificationError::MissingCrlf),
            Err(FrameError::Malformed) => return Err(NotificationError::MalformedNotification),
        };
        let notification_type = match notification_type_from_bytes(t.as_bytes()) {
            Some(nt) => nt,
            None => return Err(NotificationError::UnknownNotificationType),
        };
        Self::try_new(notification_type, source, message)
    }

    /// Returns the notification type.
    pub fn notification_type(&self) -> (r: NotificationType)
        ensures
            r == self@.notification_type,
    {
        self.notification_type
    }

    /// Returns the source of the notification.
    pub fn source(&self) -> (r: &str)
        ensures
            r.spec_bytes() == self@.source,
            spec_valid_source(self@.source),
    {
        proof {
            use_type_invariant(self);
        }
        self.source
    }

    /// Returns the message of the notification.
    pub fn message(&self) -> (r: &str)
        ensures
            r.spec_bytes() == self@.message,
            spec_valid_message(self@.message),
    {
        proof {
            use_type_invariant(self);
        }
        self.message
    }

    /// The wire form `TYPE|source|message\r\n`.
    pub fn to_string(&self) -> (s: String)
        ensures
            encode_utf8(s@) == spec_notification_bytes(self@),
            spec_valid_notification(self@),
    {
        proof {
            use_type_invariant(self);
        }
        let mut s = String::new();
        push_text(&mut s, notification_type_text(self.notification_type));
        push_pipe(&mut s);
        push_text(&mut s, self.source);
        push_pipe(&mut s);
        push_text(&mut s, self.message);
        push_crlf(&mut s);
        proof {
            assert(encode_utf8(Seq::<char>::empty()) =~= Seq::<u8>::empty());
            assert(encode_utf8(s@) =~= spec_notification_bytes(self@));
        }
        s
    }
}

// ----------------------------------------------------------------------------
// Laws
// ----------------------------------------------------------------------------

/// Parsing the wire form of an admissible notification gives it back.
pub proof fn law_notification_round_trip(v: SpecNotification)
    requires
        spec_valid_notification(v),
    ensures
        spec_parse_notification(spec_notification_bytes(v)) == Ok::<
            SpecNotification,
            NotificationError,
        >(v),
{
    let t = spec_notification_type_bytes(v.notification_type);
    assert(!t.contains(PIPE)) by {
        assert forall|k: int| 0 <= k < t.len() implies t[k] != PIPE by {}
    }
    lemma_split_three_join(t, v.source, v.message);
}

/// A line that parses is, up to repeated trailing `\r\n`, the wire form of
/// what it parses to.
pub proof fn law_notification_canonical(raw: Seq<u8>)
    requires
        spec_parse_notification(raw) is Ok,
    ensures
        spec_notification_bytes(spec_parse_notification(raw)->Ok_0) == strip_crlf(raw) + crlf(),
{
    lemma_split_three_shape(raw);
}

/// Only admissible notifications come out of the parser.
pub proof fn law_notification_parse_valid(raw: Seq<u8>)
    requires
        spec_parse_notification(raw) is Ok,
    ensures
        spec_valid_notification(spec_parse_notification(raw)->Ok_0),
{
}

/// The wire form of an admissible notification fits the 512-byte budget, and
/// its only line break is the final `\r\n`.
pub proof fn law_notification_framing(v: SpecNotification)
    requires
        spec_valid_notification(v),
    ensures
        spec_notification_bytes(v).len() <= 512,
        ends_with_crlf(spec_notification_bytes(v)),
        no_line_breaks(spec_notification_bytes(v).drop_last().drop_last()),
{
    let w = spec_notification_bytes(v);
    let t = spec_notification_type_bytes(v.notification_type);
    let body = t + seq![PIPE] + v.source + seq![PIPE] + v.message;
    assert(w =~= body + crlf());
    assert(w.drop_last().drop_last() =~= body);
    assert forall|k: int| 0 <= k < body.len() implies body[k] != CR && body[k] != LF by {
        if k < 4 {
        } else if k == 4 {
        } else if k < 5 + v.source.len() {
            assert(body[k] == v.source[k - 5]);
        } else if k == 5 + v.source.len() {
        } else {
            assert(body[k] == v.message[k - 6 - v.source.len()]);
        }
    }
}

} // verus!
