//! The event envelope and its wire encoding: compact JSON text, framed here,
//! with strings and payloads written by `serde_json`.

use crate::client_id::{hex_char, hyphenated, id_text};
use vstd::prelude::*;
use vstd::string::StringExecFns;

verus! {

/// `serde_json::Value`, any JSON value. Nothing here looks inside one.
#[verifier::external_type_specification]
#[verifier::external_body]
pub struct ExJsonValue(serde_json::Value);

/// `serde_json::Error`, what the serializer reports when it fails.
#[verifier::external_type_specification]
#[verifier::external_body]
pub struct ExJsonError(serde_json::Error);

/// `Clone` for `serde_json::Value`, which `serde_json` derives: the copy is
/// the same JSON value.
pub assume_specification[ <serde_json::Value as Clone>::clone ](value: &serde_json::Value) -> (res:
    serde_json::Value)
    ensures
        res == *value,
;

/// A published event: its type and an arbitrary structured payload.
#[derive(Debug, Clone)]
pub struct WsEvent {
    /// Event type, such as `booking_created`; the vocabulary is open.
    pub event: String,
    /// The affected entity, or JSON `null` where the publisher sent none.
    pub data: serde_json::Value,
}

/// What one character of a string becomes inside a JSON string literal.
pub open spec fn escaped_char(c: char) -> Seq<char> {
    if c == '"' {
        seq!['\\', '"']
    } else if c == '\\' {
        seq!['\\', '\\']
    } else if c == '\u{08}' {
        seq!['\\', 'b']
    } else if c == '\u{0c}' {
        seq!['\\', 'f']
    } else if c == '\n' {
        seq!['\\', 'n']
    } else if c == '\r' {
        seq!['\\', 'r']
    } else if c == '\t' {
        seq!['\\', 't']
    } else if (c as int) < 0x20 {
        seq!['\\', 'u', '0', '0', hex_char(c as int / 16), hex_char(c as int % 16)]
    } else {
        seq![c]
    }
}

/// The characters of `s`, each escaped as a JSON string literal needs.
pub open spec fn escaped(s: Seq<char>) -> Seq<char>
    decreases s.len(),
{
    if s.len() == 0 {
        Seq::empty()
    } else {
        escaped(s.drop_last()) + escaped_char(s.last())
    }
}

/// The JSON string literal for `s`.
pub open spec fn quoted(s: Seq<char>) -> Seq<char> {
    seq!['"'] + escaped(s) + seq!['"']
}

/// The compact JSON text of a payload, or `None` where the serializer
/// reports an error.
pub uninterp spec fn json_text(value: serde_json::Value) -> Option<Seq<char>>;

/// Writes a string as a JSON string literal.
///
/// Calls `serde_json::to_string` on a string slice. The serializer puts the
/// text between double quotes and escapes, byte by byte, the quote, the
/// backslash and the control characters below U+0020 (the short forms
/// `\b \t \n \f \r` where JSON has one, `\u00XX` in lower-case hexadecimal
/// otherwise); every other character is copied. It writes into a byte vector,
/// which never refuses a write, so the call does not fail.
#[verifier::external_body]
pub(crate) fn json_string(s: &str) -> (res: Result<String, serde_json::Error>)
    ensures
        match res {
            Ok(text) => text@ == quoted(s@),
            Err(_) => false,
        },
{
    serde_json::to_string(s)
}

/// Writes a payload as compact JSON text.
///
/// Calls `serde_json::to_string` on a `serde_json::Value`. The text is a
/// function of the value alone and is only named here.
#[verifier::external_body]
pub(crate) fn json_value(value: &serde_json::Value) -> (res: Result<String, serde_json::Error>)
    ensures
        match res {
            Ok(text) => json_text(*value) == Some(text@),
            Err(_) => json_text(*value) is None,
        },
{
    serde_json::to_string(value)
}

/// Writes `s` as a JSON string literal.
pub fn quote(s: &str) -> (text: String)
    ensures
        text@ == quoted(s@),
{
    match json_string(s) {
        Ok(text) => text,
        Err(_) => String::new(),
    }
}

/// A character that a JSON string literal holds as it is.
pub open spec fn is_plain(c: char) -> bool {
    c != '"' && c != '\\' && (c as int) >= 0x20
}

/// A string of plain characters is escaped to itself.
pub proof fn lemma_escaped_plain(s: Seq<char>)
    requires
        forall|i: int| 0 <= i < s.len() ==> is_plain(s[i]),
    ensures
        escaped(s) == s,
    decreases s.len(),
{
    if s.len() > 0 {
        lemma_escaped_plain(s.drop_last());
        assert(escaped_char(s.last()) == seq![s.last()]);
        assert(s.drop_last() + seq![s.last()] =~= s);
    }
}

/// The wire text of an envelope: a JSON object with the member `event`, then
/// the member `data`, and no white space.
pub open spec fn frame(event: Seq<char>, data: Seq<char>) -> Seq<char> {
    "{\"event\":"@ + event + ",\"data\":"@ + data + "}"@
}

/// The text that goes onto the bus for an event: its envelope, or nothing
/// where the payload cannot be written.
pub open spec fn wire_text(event: WsEvent) -> Seq<char> {
    match json_text(event.data) {
        Some(data) => frame(quoted(event.event@), data),
        None => Seq::empty(),
    }
}

/// Joins the two members of an envelope, each already JSON text.
pub fn frame_envelope(event: &str, data: &str) -> (text: String)
    ensures
        text@ == frame(event@, data@),
{
    let mut text = String::from_str("{\"event\":");
    text.append(event);
    text.append(",\"data\":");
    text.append(data);
    text.append("}");
    text
}

impl WsEvent {
    /// An envelope is well formed when it names its event type. Publishing
    /// does not depend on it: an envelope without a type goes out like any other.
    pub open spec fn well_formed(&self) -> bool {
        self.event@.len() > 0
    }

    /// Whether the envelope names its event type.
    pub fn is_well_formed(&self) -> (ok: bool)
        ensures
            ok == self.well_formed(),
    {
        !self.event.as_str().is_empty()
    }

    /// Serializes the envelope for fan-out.
    pub fn to_wire(&self) -> (text: String)
        ensures
            text@ == wire_text(*self),
    {
        let name = quote(self.event.as_str());
        match json_value(&self.data) {
            Ok(data) => frame_envelope(name.as_str(), data.as_str()),
            Err(_) => String::new(),
        }
    }
}

/// The note that greets a new client.
pub const WELCOME_NOTE: &'static str = "Connected to Lepotilnica real-time server";

/// The welcome message for the client `id`: an envelope of type `connected`
/// whose payload carries the identifier, in its textual form, and a note.
pub open spec fn welcome_text(id: u128) -> Seq<char> {
    "{\"event\":\"connected\",\"data\":{\"clientId\":\""@ + id_text(id)
        + "\",\"message\":\"Connected to Lepotilnica real-time server\"}}"@
}

/// The textual form of an identifier needs no escaping.
pub proof fn lemma_id_text_plain(id: u128)
    ensures
        escaped(id_text(id)) == id_text(id),
{
    assert forall|p: int| 0 <= p < id_text(id).len() implies is_plain(id_text(id)[p]) by {
        crate::client_id::lemma_hex_digit_bound(id, p - crate::client_id::hyphens_before(p));
    }
    lemma_escaped_plain(id_text(id));
}

/// Builds the message that a session sends first, telling the client its identifier.
pub fn welcome_message(id: u128) -> (text: String)
    ensures
        text@ == welcome_text(id),
{
    let shown = hyphenated(id);
    let quoted_id = quote(shown.as_str());
    let quoted_note = quote(WELCOME_NOTE);
    let kind = quote("connected");
    let mut payload = String::from_str("{\"clientId\":");
    payload.append(quoted_id.as_str());
    payload.append(",\"message\":");
    payload.append(quoted_note.as_str());
    payload.append("}");
    let text = frame_envelope(kind.as_str(), payload.as_str());
    proof {
        reveal_strlit("connected");
        reveal_strlit("Connected to Lepotilnica real-time server");
        reveal_strlit("{\"event\":");
        reveal_strlit(",\"data\":");
        reveal_strlit("}");
        reveal_strlit("{\"clientId\":");
        reveal_strlit(",\"message\":");
        reveal_strlit("{\"event\":\"connected\",\"data\":{\"clientId\":\"");
        reveal_strlit("\",\"message\":\"Connected to Lepotilnica real-time server\"}}");
        lemma_id_text_plain(id);
        lemma_escaped_plain("connected"@);
        lemma_escaped_plain(WELCOME_NOTE@);
        assert(text@ =~= welcome_text(id));
    }
    text
}

} // verus!
