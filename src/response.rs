//! What the write path answers: an HTTP status code and, for a failure, a
//! JSON error envelope.
use vstd::prelude::*;
use crate::session::SessionError;
use crate::text::hex_char;

verus! {

/// How JSON text writes one character inside a string: a backslash before
/// the quote and the backslash, short escapes for backspace, tab, line feed,
/// form feed and carriage return, `\u00xx` in lower-case hexadecimal for
/// the other control characters, and every other character as itself.
pub open spec fn json_escape(c: char) -> Seq<char> {
    let u = c as u32;
    if c == '"' {
        seq!['\\', '"']
    } else if c == '\\' {
        seq!['\\', '\\']
    } else if u == 8 {
        seq!['\\', 'b']
    } else if u == 9 {
        seq!['\\', 't']
    } else if u == 10 {
        seq!['\\', 'n']
    } else if u == 12 {
        seq!['\\', 'f']
    } else if u == 13 {
        seq!['\\', 'r']
    } else if u < 32 {
        seq!['\\', 'u', '0', '0', hex_char(u as nat / 16), hex_char(u as nat % 16)]
    } else {
        seq![c]
    }
}

/// The characters of a string, each written as JSON text writes it.
pub open spec fn json_escaped(s: Seq<char>) -> Seq<char>
    decreases s.len(),
{
    if s.len() == 0 {
        Seq::empty()
    } else {
        json_escaped(s.drop_last()) + json_escape(s.last())
    }
}

/// The JSON text of a string: quoted, with JSON's escapes.
pub open spec fn json_quoted(s: Seq<char>) -> Seq<char> {
    seq!['"'] + json_escaped(s) + seq!['"']
}

/// Relies on `serde_json::to_string` on a `str`: the JSON string literal of
/// `s`, escaped by serde_json's escape table and `write_char_escape`.
/// Serializing a string does not fail.
#[verifier::external_body]
fn json_string(s: &str) -> (r: String)
    ensures
        r@ == json_quoted(s@),
{
    serde_json::to_string(s).unwrap_or_default()
}

/// An error answer of the write path.
pub struct ErrorResponse {
    pub reason: String,
}

/// The envelope `{"status":"error","reason":<reason>}` around the JSON text
/// of a reason.
pub open spec fn error_envelope(quoted_reason: Seq<char>) -> Seq<char> {
    "{\"status\":\"error\",\"reason\":"@ + quoted_reason + "}"@
}

impl ErrorResponse {
    /// The JSON text of this error.
    pub fn to_json(&self) -> (r: String)
        ensures
            r@ == error_envelope(json_quoted(self.reason@)),
    {
        let mut s = String::from_str("{\"status\":\"error\",\"reason\":");
        let q = json_string(self.reason.as_str());
        s.append(q.as_str());
        s.append("}");
        s
    }
}

/// The reason given to the client for a failure. The three ways a session
/// can fail to authorize share one reason, so that an answer does not help
/// forge one.
pub open spec fn reason_text(e: SessionError) -> Seq<char> {
    match e {
        SessionError::UnknownSensor => "Unknown sensor"@,
        SessionError::ReservedKey => "Sensor key is reserved for sessions"@,
        SessionError::NoRandomness => "Could not create a session"@,
        SessionError::NotFound | SessionError::Expired | SessionError::Mismatch => "Invalid or expired session"@,
        SessionError::Store(_) => "Updating values in datastore failed"@,
    }
}

impl SessionError {
    /// The HTTP status code of this failure: 400 for an unknown or reserved
    /// sensor key, 401 for a session that does not authorize the write, 500
    /// for a store failure or missing randomness.
    pub fn http_status(&self) -> (r: u16)
        ensures
            r == match *self {
                SessionError::UnknownSensor | SessionError::ReservedKey => 400u16,
                SessionError::NoRandomness => 500u16,
                SessionError::NotFound | SessionError::Expired | SessionError::Mismatch => 401u16,
                SessionError::Store(_) => 500u16,
            },
    {
        match self {
            SessionError::UnknownSensor | SessionError::ReservedKey => 400,
            SessionError::NoRandomness => 500,
            SessionError::NotFound | SessionError::Expired | SessionError::Mismatch => 401,
            SessionError::Store(_) => 500,
        }
    }

    /// The reason given to the client.
    pub fn reason(&self) -> (r: &'static str)
        ensures
            r@ == reason_text(*self),
    {
        match self {
            SessionError::UnknownSensor => "Unknown sensor",
            SessionError::ReservedKey => "Sensor key is reserved for sessions",
            SessionError::NoRandomness => "Could not create a session",
            SessionError::NotFound | SessionError::Expired | SessionError::Mismatch => {
                "Invalid or expired session"
            },
            SessionError::Store(_) => "Updating values in datastore failed",
        }
    }

    /// The error envelope of this failure.
    pub fn response(&self) -> (r: ErrorResponse)
        ensures
            r.reason@ == reason_text(*self),
    {
        ErrorResponse { reason: String::from_str(self.reason()) }
    }
}

} // verus!
