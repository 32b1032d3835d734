//! The client side of the wire protocol: one JSON object per message, each
//! followed by a single NUL byte.

use vstd::prelude::*;
use vstd::slice::slice_subrange;
use vstd::string::{StrSliceExecFns, StringExecFns};
use vstd::utf8::encode_utf8;

verus! {

/// The name of the method that reports a key combination.
pub const SEND_KEYS_METHOD: &'static str = "io.ducky.Keystroke.SendKeys";

/// The name of the member that marks a reply as an error.
pub const ERROR_MEMBER: &'static str = "error";

/// What can go wrong in a call to the relay service.
#[derive(Debug)]
pub enum VarlinkError {
    /// The service could not be reached.
    Connection(String),
    /// Sending or receiving failed.
    Io(String),
    /// A message could not be written or read as JSON.
    Protocol(String),
    /// The service answered with an error.
    Call(String),
}

/// The error type of `serde_json`, carried through as it is.
#[verifier::external_type_specification]
#[verifier::external_body]
pub struct ExJsonError(serde_json::Error);

/// A parsed JSON document of `serde_json`, carried through as it is.
#[verifier::external_type_specification]
#[verifier::external_body]
pub struct ExJsonValue(serde_json::Value);

/// The JSON text that `serde_json::to_string` gives for the string `s`,
/// quotes included, or `None` where it fails.
pub uninterp spec fn json_string_text(s: Seq<char>) -> Option<Seq<char>>;

/// What a JSON value holds, as the compact JSON text that its `to_string`
/// gives.
pub uninterp spec fn json_text(value: serde_json::Value) -> Seq<char>;

/// The JSON document that `serde_json::from_slice` reads from `bytes`, as
/// its compact text, or `None` where the bytes are not one JSON document.
pub uninterp spec fn json_document(bytes: Seq<u8>) -> Option<Seq<char>>;

/// The member `key` of a JSON document, as `Value::get` finds it: its
/// compact text, or `None` where the document is no object or has no such
/// member.
pub uninterp spec fn json_member(document: Seq<char>, key: Seq<char>) -> Option<Seq<char>>;

/// `serde_json::to_string` on a string: the contract gives the result its
/// name, [`json_string_text`], and promises nothing else.
#[verifier::external_body]
fn to_json_string(s: &str) -> (r: Result<String, serde_json::Error>)
    ensures
        r is Ok <==> json_string_text(s@) is Some,
        r matches Ok(text) ==> Some(text@) == json_string_text(s@),
{
    serde_json::to_string(s)
}

/// `serde_json::from_slice` to a `serde_json::Value`: the contract gives
/// the document that was read its name, [`json_document`], and promises
/// nothing else.
#[verifier::external_body]
fn parse_json(bytes: &[u8]) -> (r: Result<serde_json::Value, serde_json::Error>)
    ensures
        r is Ok <==> json_document(bytes@) is Some,
        r matches Ok(value) ==> Some(json_text(value)) == json_document(bytes@),
{
    serde_json::from_slice(bytes)
}

/// `serde_json::Value::get` with a string: the contract gives the member
/// that was found its name, [`json_member`], and promises nothing else.
#[verifier::external_body]
fn get_member<'a>(value: &'a serde_json::Value, key: &str) -> (r: Option<&'a serde_json::Value>)
    ensures
        r is Some <==> json_member(json_text(*value), key@) is Some,
        r matches Some(member) ==> Some(json_text(*member)) == json_member(json_text(*value), key@),
{
    value.get(key)
}

/// `to_string` of a `serde_json::Value`: its compact JSON text.
#[verifier::external_body]
fn value_text(value: &serde_json::Value) -> (text: String)
    ensures
        text@ == json_text(*value),
{
    value.to_string()
}

/// `to_string` of a `serde_json::Error`. Nothing is claimed of the text.
#[verifier::external_body]
fn json_error_text(e: &serde_json::Error) -> (text: String) {
    e.to_string()
}

/// The JSON texts of `keys`, separated by commas, or `None` where one of
/// them has none.
pub open spec fn json_list(keys: Seq<Seq<char>>) -> Option<Seq<char>>
    decreases keys.len(),
{
    if keys.len() == 0 {
        Some(Seq::<char>::empty())
    } else {
        match (json_list(keys.drop_last()), json_string_text(keys.last())) {
            (Some(before), Some(text)) => Some(
                if keys.len() == 1 {
                    text
                } else {
                    before + ","@ + text
                },
            ),
            _ => None,
        }
    }
}

/// The text of the request that reports `keys`, or `None` where a key has
/// no JSON text.
pub open spec fn request_text(keys: Seq<Seq<char>>, pressed: bool) -> Option<Seq<char>> {
    match json_list(keys) {
        Some(list) => Some(
            "{\"method\":\""@ + SEND_KEYS_METHOD@ + "\",\"parameters\":{\"keys\":["@ + list
                + "],\"pressed\":"@ + (if pressed {
                "true"@
            } else {
                "false"@
            }) + "}}"@,
        ),
        None => None,
    }
}

/// A message as it goes over the wire: its UTF-8 bytes and one NUL byte.
pub open spec fn framed(text: Seq<char>) -> Seq<u8> {
    encode_utf8(text).push(0u8)
}

/// Index of the first NUL byte at or after `i`, or the length of `bytes`
/// where there is none.
pub open spec fn first_nul(bytes: Seq<u8>, i: int) -> int
    decreases bytes.len() - i,
{
    if 0 <= i < bytes.len() && bytes[i] != 0 {
        first_nul(bytes, i + 1)
    } else {
        i
    }
}

/// The message at the start of `received`: what stands before the first
/// NUL byte, or all of it where no NUL byte has come.
pub open spec fn payload_of(received: Seq<u8>) -> Seq<u8> {
    received.take(first_nul(received, 0))
}

/// Whether `received` holds a whole message, that is a NUL byte.
pub open spec fn holds_message(received: Seq<u8>) -> bool {
    first_nul(received, 0) < received.len()
}

/// The error member of a reply: `None` where the reply is no JSON
/// document, `Some(None)` where it is one without an error member, and
/// else the text of that member.
pub open spec fn reply_error(payload: Seq<u8>) -> Option<Option<Seq<char>>> {
    match json_document(payload) {
        None => None,
        Some(document) => Some(json_member(document, ERROR_MEMBER@)),
    }
}

/// Whether `r` is what a reply with this error member means: without the
/// member the call went well, with it the service refused the call, and
/// what is no JSON cannot be read.
pub open spec fn reply_outcome(member: Option<Option<Seq<char>>>, r: Result<(), VarlinkError>) -> bool {
    match member {
        None => r matches Err(VarlinkError::Protocol(_)),
        Some(None) => r is Ok,
        Some(Some(text)) => r matches Err(VarlinkError::Call(m)) && m@ == text,
    }
}

impl VarlinkError {
    /// The text of the error: what went wrong, and the detail.
    pub open spec fn message_text(&self) -> Seq<char> {
        match self {
            VarlinkError::Connection(s) => "Connection error: "@ + s@,
            VarlinkError::Io(s) => "IO error: "@ + s@,
            VarlinkError::Protocol(s) => "Protocol error: "@ + s@,
            VarlinkError::Call(s) => "Call error: "@ + s@,
        }
    }

    /// The text of the error: what went wrong, and the detail.
    pub fn message(&self) -> (text: String)
        ensures
            text@ == self.message_text(),
    {
        match self {
            VarlinkError::Connection(s) => "Connection error: ".to_owned().concat(s.as_str()),
            VarlinkError::Io(s) => "IO error: ".to_owned().concat(s.as_str()),
            VarlinkError::Protocol(s) => "Protocol error: ".to_owned().concat(s.as_str()),
            VarlinkError::Call(s) => "Call error: ".to_owned().concat(s.as_str()),
        }
    }
}

/// The text of the request that reports `keys` and whether they were
/// pressed. It fails with a protocol error exactly where a key has no JSON
/// text.
pub fn encode_request(keys: &Vec<String>, pressed: bool) -> (r: Result<String, VarlinkError>)
    ensures
        r is Ok <==> request_text(keys.deep_view(), pressed) is Some,
        r matches Ok(text) ==> Some(text@) == request_text(keys.deep_view(), pressed),
        r matches Err(e) ==> e is Protocol,
{
    let ghost all = keys.deep_view();
    let mut list = String::new();
    let mut i: usize = 0;
    while i < keys.len()
        invariant
            i <= keys@.len(),
            all == keys.deep_view(),
            json_list(all.take(i as int)) == Some(list@),
        decreases keys@.len() - i,
    {
        proof {
            assert(all.take(i + 1).drop_last() =~= all.take(i as int));
            lemma_json_list_prefix(all, i + 1);
        }
        match to_json_string(keys[i].as_str()) {
            Ok(text) => {
                if i > 0 {
                    list.append(",");
                }
                list.append(text.as_str());
            },
            Err(e) => {
                return Err(VarlinkError::Protocol(json_error_text(&e)));
            },
        }
        i += 1;
    }
    assert(all.take(i as int) =~= all);
    let mut text = "{\"method\":\"".to_owned();
    text.append(SEND_KEYS_METHOD);
    text.append("\",\"parameters\":{\"keys\":[");
    text.append(list.as_str());
    text.append("],\"pressed\":");
    if pressed {
        text.append("true");
    } else {
        text.append("false");
    }
    text.append("}}");
    Ok(text)
}

/// Where a prefix of the keys has no JSON list, the whole has none.
proof fn lemma_json_list_prefix(keys: Seq<Seq<char>>, n: int)
    requires
        0 <= n <= keys.len(),
    ensures
        json_list(keys.take(n)) is None ==> json_list(keys) is None,
    decreases keys.len() - n,
{
    if n < keys.len() {
        assert(keys.take(n + 1).drop_last() =~= keys.take(n));
        lemma_json_list_prefix(keys, n + 1);
    } else {
        assert(keys.take(n) =~= keys);
    }
}

/// The bytes of a message on the wire: the text and one NUL byte.
pub fn frame(text: &str) -> (bytes: Vec<u8>)
    ensures
        bytes@ == framed(text@),
{
    let mut bytes = text.as_bytes_vec();
    bytes.push(0u8);
    bytes
}

/// The bytes to send for a report of `keys`, or `None` where there are no
/// keys and so nothing to report.
pub fn request_frame(keys: &Vec<String>, pressed: bool) -> (r: Result<Option<Vec<u8>>, VarlinkError>)
    ensures
        keys@.len() == 0 ==> r == Ok::<Option<Vec<u8>>, VarlinkError>(None),
        keys@.len() > 0 ==> {
            &&& r is Ok <==> request_text(keys.deep_view(), pressed) is Some
            &&& r matches Ok(sent) ==> sent matches Some(bytes) && Some(bytes@) == match request_text(
                keys.deep_view(),
                pressed,
            ) {
                Some(text) => Some(framed(text)),
                None => None,
            }
            &&& r matches Err(e) ==> e is Protocol
        },
{
    if keys.len() == 0 {
        return Ok(None);
    }
    match encode_request(keys, pressed) {
        Ok(text) => Ok(Some(frame(text.as_str()))),
        Err(e) => Err(e),
    }
}

/// Whether `received` holds a whole message, so that reading can stop.
pub fn message_complete(received: &[u8]) -> (b: bool)
    ensures
        b == holds_message(received@),
{
    message_length(received) < received.len()
}

/// The length of the message at the start of `received`.
pub fn message_length(received: &[u8]) -> (n: usize)
    ensures
        n == first_nul(received@, 0),
        n <= received@.len(),
{
    let mut i: usize = 0;
    while i < received.len() && received[i] != 0
        invariant
            i <= received@.len(),
            first_nul(received@, 0) == first_nul(received@, i as int),
        decreases received@.len() - i,
    {
        i += 1;
    }
    i
}

/// The message at the start of `received`, without its NUL byte.
pub fn message_payload(received: &[u8]) -> (payload: &[u8])
    ensures
        payload@ == payload_of(received@),
{
    let n = message_length(received);
    let payload = slice_subrange(received, 0, n);
    payload
}

/// What a reply means, once its error member has been looked up: no
/// member, and the call went well; a member, and the service refused the
/// call with it; no JSON at all, and the reply cannot be read.
pub fn reply_result(member: Result<Option<String>, String>) -> (r: Result<(), VarlinkError>)
    ensures
        match member {
            Ok(None) => r is Ok,
            Ok(Some(text)) => r matches Err(VarlinkError::Call(m)) && m@ == text@,
            Err(reason) => r matches Err(VarlinkError::Protocol(m)) && m@ == reason@,
        },
{
    match member {
        Ok(None) => Ok(()),
        Ok(Some(text)) => Err(VarlinkError::Call(text)),
        Err(reason) => Err(VarlinkError::Protocol(reason)),
    }
}

/// Reads a reply, given without its NUL byte: it is an error exactly where
/// it is no JSON or has an error member.
pub fn check_reply(payload: &[u8]) -> (r: Result<(), VarlinkError>)
    ensures
        reply_outcome(reply_error(payload@), r),
{
    match parse_json(payload) {
        Ok(value) => match get_member(&value, ERROR_MEMBER) {
            Some(member) => reply_result(Ok(Some(value_text(member)))),
            None => reply_result(Ok(None)),
        },
        Err(e) => reply_result(Err(json_error_text(&e))),
    }
}

} // verus!
