//! What the HTTP rules read and write: header lists, header texts and error
//! replies.

use crate::json;
use crate::json::{Json, JsonMember, JsonValue};
use crate::named;
use crate::named::Named;
use crate::text;
use vstd::prelude::*;

verus! {

/// The shape of the JSON object that an error reply carries.
#[derive(Debug, Clone, Copy, PartialEq, Eq, Structural)]
pub enum ReplyShape {
    /// `{"data": null, "error": <text>}`.
    Envelope,
    /// `{"error": <text>}`.
    ErrorOnly,
}

/// An error reply: a status and a JSON object with the error text.
#[derive(Debug)]
pub struct ErrorReply {
    pub status: u16,
    pub shape: ReplyShape,
    pub error: String,
}

/// The model of an error reply.
pub struct ErrorReplyModel {
    pub status: u16,
    pub shape: ReplyShape,
    pub error: Seq<char>,
}

impl View for ErrorReply {
    type V = ErrorReplyModel;

    open spec fn view(&self) -> ErrorReplyModel {
        ErrorReplyModel { status: self.status, shape: self.shape, error: self.error@ }
    }
}

/// The JSON object that an error reply carries.
pub open spec fn reply_json(reply: ErrorReplyModel) -> Json {
    let error = ("error"@, Json::Text(reply.error));
    match reply.shape {
        ReplyShape::Envelope => Json::Object(seq![("data"@, Json::Null), error]),
        ReplyShape::ErrorOnly => Json::Object(seq![error]),
    }
}

impl ErrorReply {
    /// The JSON object that the reply carries.
    pub fn to_json(&self) -> (r: JsonValue)
        ensures
            r@ == reply_json(self@),
    {
        let mut members: Vec<JsonMember> = Vec::new();
        if self.shape == ReplyShape::Envelope {
            members.push(json::member_of("data", JsonValue::Null));
        }
        members.push(json::member_of("error", JsonValue::Text(self.error.clone())));
        proof {
            json::lemma_object_view(members);
            assert(Json::Object(json::members_view(members@)) == reply_json(self@)) by {
                let error = ("error"@, Json::Text(self.error@));
                assert(self.shape == ReplyShape::Envelope ==> json::members_view(members@) =~= seq![
                    ("data"@, Json::Null),
                    error,
                ]);
                assert(self.shape == ReplyShape::ErrorOnly ==> json::members_view(members@)
                    =~= seq![error]);
            }
        }
        JsonValue::Object(members)
    }
}

/// One header line: the name in lower case, and the value's bytes.
#[derive(Debug)]
pub struct Header {
    pub name: String,
    pub value: Vec<u8>,
}

impl Named for Header {
    type Model = Seq<u8>;

    open spec fn entry(&self) -> (Seq<char>, Seq<u8>) {
        (self.name@, self.value@)
    }

    fn name(&self) -> (r: &str) {
        self.name.as_str()
    }
}

/// The model of a list of header lines.
pub open spec fn header_lines(headers: Seq<Header>) -> Seq<(Seq<char>, Seq<u8>)> {
    named::entries(headers)
}

/// The byte is one that a header value shows as text: printable ASCII, or a tab.
pub open spec fn is_visible(b: u8) -> bool {
    32 <= b < 127 || b == 9
}

/// The characters with these codes.
pub open spec fn chars_with_codes(bytes: Seq<u8>) -> Seq<char> {
    bytes.map_values(|b: u8| b as char)
}

/// The text of a header value; none where a byte of it is not visible ASCII.
pub open spec fn header_text(bytes: Seq<u8>) -> Option<Seq<char>> {
    if forall|i: int| 0 <= i < bytes.len() ==> is_visible(#[trigger] bytes[i]) {
        Some(chars_with_codes(bytes))
    } else {
        None
    }
}

/// The text of a header line that may be missing.
pub open spec fn opt_header_text(value: Option<&[u8]>) -> Option<Seq<char>> {
    match value {
        Some(bytes) => header_text(bytes@),
        None => None,
    }
}

/// The text of a header value; none where a byte of it is not visible ASCII.
pub fn header_str(bytes: &[u8]) -> (r: Option<String>)
    ensures
        text::opt_text(r) == header_text(bytes@),
{
    let mut out = String::new();
    let mut i: usize = 0;
    while i < bytes.len()
        invariant
            i <= bytes.len(),
            forall|j: int| 0 <= j < i ==> is_visible(#[trigger] bytes@[j]),
            out@ == chars_with_codes(bytes@.take(i as int)),
        decreases bytes.len() - i,
    {
        let b: u8 = bytes[i];
        if !((32 <= b && b < 127) || b == 9) {
            assert(!is_visible(bytes@[i as int]));
            return None;
        }
        out.push(b as char);
        i += 1;
        assert(bytes@.take(i as int) =~= bytes@.take(i - 1).push(b));
    }
    assert(bytes@.take(bytes@.len() as int) =~= bytes@);
    Some(out)
}

/// The text of a header line that may be missing.
pub fn opt_header_str(value: Option<&[u8]>) -> (r: Option<String>)
    ensures
        text::opt_text(r) == opt_header_text(value),
{
    match value {
        Some(bytes) => header_str(bytes),
        None => None,
    }
}

/// A header value is shown character by character, and only where each of its bytes
/// is printable ASCII or a tab.
pub proof fn law_header_values_are_shown_whole(bytes: Seq<u8>)
    ensures
        header_text(bytes) is Some <==> forall|i: int|
            0 <= i < bytes.len() ==> 32 <= (#[trigger] bytes[i]) <= 126 || bytes[i] == 9,
        header_text(bytes) matches Some(shown) ==> shown.len() == bytes.len() && forall|i: int|
            0 <= i < bytes.len() ==> (#[trigger] shown[i]) as u32 == bytes[i] as u32,
{
    if forall|i: int| 0 <= i < bytes.len() ==> 32 <= (#[trigger] bytes[i]) <= 126 || bytes[i] == 9 {
        assert forall|i: int| 0 <= i < bytes.len() implies is_visible(#[trigger] bytes[i]) by {}
    }
    if header_text(bytes) is Some {
        assert forall|i: int| 0 <= i < bytes.len() implies 32 <= (#[trigger] bytes[i]) <= 126
            || bytes[i] == 9 by {
            assert(is_visible(bytes[i]));
        }
    }
}

/// A missing header line has no text, and another has that of its value.
pub proof fn law_missing_header_has_no_text(bytes: &[u8])
    ensures
        opt_header_text(None) is None,
        opt_header_text(Some(bytes)) == header_text(bytes@),
{
}

/// An error reply carries its error text, and in an envelope null data beside it.
pub proof fn law_error_reply_carries_its_text(reply: ErrorReplyModel)
    ensures
        json::json_get(reply_json(reply), "error"@) == Some(Json::Text(reply.error)),
        reply.shape == ReplyShape::Envelope ==> json::json_get(reply_json(reply), "data"@) == Some(
            Json::Null,
        ) && reply_json(reply)->Object_0.len() == 2,
        reply.shape == ReplyShape::ErrorOnly ==> reply_json(reply)->Object_0.len() == 1,
{
    reveal_strlit("data");
    reveal_strlit("error");
    assert("data"@.len() != "error"@.len());
    let members = reply_json(reply)->Object_0;
    json::law_first_member_is_found(members, 0);
    if members.len() == 2 {
        json::law_first_member_is_found(members, 1);
    }
}

/// Header lines and error replies are modelled by what they hold.
pub proof fn law_headers_and_replies_are_modelled(headers: Seq<Header>, reply: ErrorReply)
    ensures
        header_lines(headers).len() == headers.len(),
        forall|i: int|
            0 <= i < headers.len() ==> (#[trigger] header_lines(headers)[i]).0 == headers[i].name@
                && header_lines(headers)[i].1 == headers[i].value@,
        reply@.status == reply.status,
        reply@.shape == reply.shape,
        reply@.error == reply.error@,
{
}

} // verus!
