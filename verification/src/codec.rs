//! The wire codec: every value crosses a connection as one JSON text.
//!
//! The relay lays out the frames itself and leaves JSON's own grammar, the
//! quoting of a text and the reading of an object, to `serde_json`.

use vstd::prelude::*;
use crate::error::RelayError;
use crate::request::{ClientRequest, Connect, ConnectType, ConnectView, Message, MessageView, RequestView};

verus! {

/// `serde_json`'s error, taken as it is: the codec asks only whether there
/// is one.
#[verifier::external_type_specification]
#[verifier::external_body]
pub struct ExJsonError(serde_json::Error);

/// The digit that stands for `nibble`, a number below sixteen, in an escape.
pub open spec fn hex_digit(nibble: u32) -> char {
    seq!['0', '1', '2', '3', '4', '5', '6', '7', '8', '9', 'a', 'b', 'c', 'd', 'e', 'f'][nibble as int]
}

/// How one character stands inside a JSON string literal: the quote, the
/// backslash and the control characters below the space are escaped, and
/// every other character stands for itself.
pub open spec fn json_escape(c: char) -> Seq<char> {
    if c == '"' {
        seq!['\\', '"']
    } else if c == '\\' {
        seq!['\\', '\\']
    } else if c == '\u{8}' {
        seq!['\\', 'b']
    } else if c == '\u{c}' {
        seq!['\\', 'f']
    } else if c == '\n' {
        seq!['\\', 'n']
    } else if c == '\r' {
        seq!['\\', 'r']
    } else if c == '\t' {
        seq!['\\', 't']
    } else if (c as u32) < 0x20 {
        seq!['\\', 'u', '0', '0', hex_digit(c as u32 / 16), hex_digit(c as u32 % 16)]
    } else {
        seq![c]
    }
}

/// A text with every character as it stands inside a JSON string literal.
pub open spec fn json_escaped(text: Seq<char>) -> Seq<char>
    decreases text.len(),
{
    if text.len() == 0 {
        Seq::empty()
    } else {
        json_escaped(text.drop_last()) + json_escape(text.last())
    }
}

/// The JSON string literal for `text`: the escaped text between two quotes.
pub open spec fn json_quoted(text: Seq<char>) -> Seq<char> {
    seq!['"'] + json_escaped(text) + seq!['"']
}

/// A text without a quote, a backslash or a control character below the
/// space stands in its literal as it is.
pub proof fn lemma_plain_text_is_not_escaped(text: Seq<char>)
    requires
        forall|i: int| 0 <= i < text.len() ==> json_escape(#[trigger] text[i]) == seq![text[i]],
    ensures
        json_escaped(text) == text,
    decreases text.len(),
{
    if text.len() > 0 {
        lemma_plain_text_is_not_escaped(text.drop_last());
        assert(text.drop_last() + seq![text.last()] =~= text);
    }
}

/// What `serde_json` reads from `bytes` as a JSON object whose members are
/// all strings: the members as pairs of name and text, in the order of their
/// names, a name that stands twice counted once with its last text; `None`
/// where the bytes are no such object.
pub uninterp spec fn json_fields(bytes: Seq<u8>) -> Option<Seq<(Seq<char>, Seq<char>)>>;

/// What `serde_json` reads from `bytes` as a JSON object whose members are
/// all objects of strings: each member as its name and its own members, in
/// the order of the names, a name that stands twice counted once with its
/// last value; `None` where the bytes are no such object.
pub uninterp spec fn json_sections(bytes: Seq<u8>) -> Option<
    Seq<(Seq<char>, Seq<(Seq<char>, Seq<char>)>)>,
>;

/// Writes `text` as a JSON string literal.
///
/// Trusted: this is `serde_json::to_string` at the type `str`. It writes a
/// quote, the text and a quote; in the text it replaces the quote and the
/// backslash by a backslash and the character, the backspace, form feed,
/// line feed, carriage return and tab by a backslash and `b`, `f`, `n`, `r`,
/// `t`, and any other character below the space by `\u00` and its two
/// hexadecimal digits in lower case; every other character it writes as it
/// is. The call cannot fail: a string slice serialises without a map key or
/// an impl that may refuse, into a byte vector that takes every write.
#[verifier::external_body]
fn quote(text: &str) -> (out: Result<String, serde_json::Error>)
    ensures
        out is Ok,
        out matches Ok(quoted) ==> quoted@ == json_quoted(text@),
{
    serde_json::to_string(text)
}

/// Reads `bytes` as a JSON object of strings.
///
/// Trusted: this is `serde_json::from_slice` at the type
/// `BTreeMap<String, String>`, whose entries are handed out in the map's own
/// order. The outcome is a function of the bytes alone.
#[verifier::external_body]
fn parse_fields(bytes: &[u8]) -> (out: Result<Vec<(String, String)>, serde_json::Error>)
    ensures
        out is Ok <==> json_fields(bytes@) is Some,
        out matches Ok(fields) ==> json_fields(bytes@) == Some(fields.deep_view()),
{
    let object: std::collections::BTreeMap<String, String> = serde_json::from_slice(bytes)?;
    Ok(object.into_iter().collect())
}

/// Reads `bytes` as a JSON object of objects of strings.
///
/// Trusted: this is `serde_json::from_slice` at the type
/// `BTreeMap<String, BTreeMap<String, String>>`, whose entries are handed out
/// in the maps' own order. The outcome is a function of the bytes alone.
#[verifier::external_body]
fn parse_sections(bytes: &[u8]) -> (out: Result<
    Vec<(String, Vec<(String, String)>)>,
    serde_json::Error,
>)
    ensures
        out is Ok <==> json_sections(bytes@) is Some,
        out matches Ok(sections) ==> json_sections(bytes@) == Some(sections.deep_view()),
{
    let object: std::collections::BTreeMap<String, std::collections::BTreeMap<String, String>> =
        serde_json::from_slice(bytes)?;
    Ok(object.into_iter().map(|(name, members)| (name, members.into_iter().collect())).collect())
}

/// The frame of a message: an object with the members `from`, `to` and
/// `msg`, in that order and without white space.
pub open spec fn message_text(message: MessageView) -> Seq<char> {
    "{\"from\":"@ + json_quoted(message.from) + ",\"to\":"@ + json_quoted(message.to)
        + ",\"msg\":"@ + json_quoted(message.msg) + "}"@
}

/// The frame of a connect value: an object with the members `connect_type`,
/// the direction's word as a string, and `username`.
pub open spec fn connect_text(connect: ConnectView) -> Seq<char> {
    "{\"connect_type\":\""@ + connect.connect_type.word() + "\",\"username\":"@ + json_quoted(
        connect.username,
    ) + "}"@
}

/// The frame of a request: an object with one member, named after the
/// request's kind, that holds the request's own frame.
pub open spec fn request_text(request: RequestView) -> Seq<char> {
    match request {
        RequestView::Connect(connect) => "{\"Connect\":"@ + connect_text(connect) + "}"@,
        RequestView::Message(message) => "{\"Message\":"@ + message_text(message) + "}"@,
        RequestView::Close(username) => "{\"Close\":"@ + json_quoted(username) + "}"@,
    }
}

/// Appends the JSON string literal for `text` to `frame`.
fn push_quoted(frame: &mut String, text: &str)
    ensures
        final(frame)@ == old(frame)@ + json_quoted(text@),
{
    match quote(text) {
        Ok(quoted) => frame.append(quoted.as_str()),
        Err(_) => {},
    }
}

/// Appends the frame of `message` to `frame`.
fn push_message(frame: &mut String, message: &Message)
    ensures
        final(frame)@ == old(frame)@ + message_text(message@),
{
    frame.append("{\"from\":");
    push_quoted(frame, message.from.as_str());
    frame.append(",\"to\":");
    push_quoted(frame, message.to.as_str());
    frame.append(",\"msg\":");
    push_quoted(frame, message.msg.as_str());
    frame.append("}");
}

/// Appends the frame of `connect` to `frame`.
fn push_connect(frame: &mut String, connect: &Connect)
    ensures
        final(frame)@ == old(frame)@ + connect_text(connect@),
{
    frame.append("{\"connect_type\":\"");
    let word = connect.connect_type.to_string();
    frame.append(word.as_str());
    frame.append("\",\"username\":");
    push_quoted(frame, connect.username.as_str());
    frame.append("}");
}

/// The frame in which the relay hands `message` to its recipient.
pub fn message_to_string(message: &Message) -> (frame: String)
    ensures
        frame@ == message_text(message@),
{
    let mut frame = String::new();
    push_message(&mut frame, message);
    frame
}

/// The frame in which a client sends `request` to the relay.
pub fn to_string(request: &ClientRequest) -> (frame: String)
    ensures
        frame@ == request_text(request@),
{
    let mut frame = String::new();
    match request {
        ClientRequest::Connect(connect) => {
            frame.append("{\"Connect\":");
            push_connect(&mut frame, connect);
        },
        ClientRequest::Message(message) => {
            frame.append("{\"Message\":");
            push_message(&mut frame, message);
        },
        ClientRequest::Close(username) => {
            frame.append("{\"Close\":");
            push_quoted(&mut frame, username.as_str());
        },
    }
    frame.append("}");
    frame
}

/// The text that the first member named `key` holds, if there is one.
pub open spec fn field(fields: Seq<(Seq<char>, Seq<char>)>, key: Seq<char>) -> Option<Seq<char>>
    decreases fields.len(),
{
    if fields.len() == 0 {
        None
    } else if fields[0].0 == key {
        Some(fields[0].1)
    } else {
        field(fields.drop_first(), key)
    }
}

/// The message that an object of strings stands for: it needs the members
/// `from`, `to` and `msg`, and any other member is passed over.
pub open spec fn message_of(fields: Seq<(Seq<char>, Seq<char>)>) -> Option<MessageView> {
    match (field(fields, "from"@), field(fields, "to"@), field(fields, "msg"@)) {
        (Some(from), Some(to), Some(msg)) => Some(MessageView { from, to, msg }),
        _ => None,
    }
}

/// The direction that a word stands for.
pub open spec fn connect_type_of(word: Seq<char>) -> Option<ConnectType> {
    if word == "Read"@ {
        Some(ConnectType::Read)
    } else if word == "Write"@ {
        Some(ConnectType::Write)
    } else {
        None
    }
}

/// The connect value that an object of strings stands for: it needs the
/// member `connect_type` with one of the two directions' words and the member
/// `username`, and any other member is passed over.
pub open spec fn connect_of(fields: Seq<(Seq<char>, Seq<char>)>) -> Option<ConnectView> {
    match (field(fields, "connect_type"@), field(fields, "username"@)) {
        (Some(word), Some(username)) => match connect_type_of(word) {
            Some(connect_type) => Some(ConnectView { connect_type, username }),
            None => None,
        },
        _ => None,
    }
}

/// The request that an object of objects stands for: it has one member,
/// named `Connect` or `Message`, that stands for a value of that kind.
pub open spec fn sectioned_request(
    sections: Seq<(Seq<char>, Seq<(Seq<char>, Seq<char>)>)>,
) -> Option<RequestView> {
    if sections.len() != 1 {
        None
    } else if sections[0].0 == "Connect"@ {
        match connect_of(sections[0].1) {
            Some(connect) => Some(RequestView::Connect(connect)),
            None => None,
        }
    } else if sections[0].0 == "Message"@ {
        match message_of(sections[0].1) {
            Some(message) => Some(RequestView::Message(message)),
            None => None,
        }
    } else {
        None
    }
}

/// The request that an object of strings stands for: it has one member,
/// named `Close`, that holds a username.
pub open spec fn labelled_request(fields: Seq<(Seq<char>, Seq<char>)>) -> Option<RequestView> {
    if fields.len() == 1 && fields[0].0 == "Close"@ {
        Some(RequestView::Close(fields[0].1))
    } else {
        None
    }
}

/// The request that a frame stands for, given what the frame reads as: as an
/// object of objects where it is one, else as an object of strings.
pub open spec fn request_of(
    sections: Option<Seq<(Seq<char>, Seq<(Seq<char>, Seq<char>)>)>>,
    fields: Option<Seq<(Seq<char>, Seq<char>)>>,
) -> Option<RequestView> {
    match sections {
        Some(sections) => sectioned_request(sections),
        None => match fields {
            Some(fields) => labelled_request(fields),
            None => None,
        },
    }
}

/// Whether `found` is what `wanted` describes.
pub open spec fn is_view_of<T: View>(found: Option<T>, wanted: Option<T::V>) -> bool {
    match found {
        Some(value) => wanted == Some(value@),
        None => wanted is None,
    }
}

/// Finds the text of the first member named `key`.
fn lookup<'a>(fields: &'a Vec<(String, String)>, key: &str) -> (found: Option<&'a String>)
    ensures
        match found {
            Some(text) => field(fields.deep_view(), key@) == Some(text@),
            None => field(fields.deep_view(), key@) is None,
        },
{
    let wanted = key.to_owned();
    let ghost all = fields.deep_view();
    let mut i: usize = 0;
    assert(all.skip(0) =~= all);
    while i < fields.len()
        invariant
            i <= fields.len(),
            wanted@ == key@,
            all == fields.deep_view(),
            field(all, key@) == field(all.skip(i as int), key@),
        decreases fields.len() - i,
    {
        assert(all.skip(i as int).drop_first() =~= all.skip(i + 1));
        if fields[i].0 == wanted {
            return Some(&fields[i].1);
        }
        i += 1;
    }
    None
}

/// The message that the members of a JSON object stand for.
pub fn message_from_fields(fields: &Vec<(String, String)>) -> (out: Option<Message>)
    ensures
        is_view_of(out, message_of(fields.deep_view())),
{
    match (lookup(fields, "from"), lookup(fields, "to"), lookup(fields, "msg")) {
        (Some(from), Some(to), Some(msg)) => Some(
            Message { from: from.clone(), to: to.clone(), msg: msg.clone() },
        ),
        _ => None,
    }
}

/// The direction that `word` stands for.
pub fn connect_type_from_word(word: &str) -> (out: Option<ConnectType>)
    ensures
        out == connect_type_of(word@),
{
    let word = word.to_owned();
    if word == "Read".to_owned() {
        Some(ConnectType::Read)
    } else if word == "Write".to_owned() {
        Some(ConnectType::Write)
    } else {
        None
    }
}

/// The connect value that the members of a JSON object stand for.
pub fn connect_from_fields(fields: &Vec<(String, String)>) -> (out: Option<Connect>)
    ensures
        is_view_of(out, connect_of(fields.deep_view())),
{
    match (lookup(fields, "connect_type"), lookup(fields, "username")) {
        (Some(word), Some(username)) => match connect_type_from_word(word.as_str()) {
            Some(connect_type) => Some(Connect { connect_type, username: username.clone() }),
            None => None,
        },
        _ => None,
    }
}

/// The request that a JSON object of objects stands for.
pub fn request_from_sections(sections: &Vec<(String, Vec<(String, String)>)>) -> (out: Option<
    ClientRequest,
>)
    ensures
        is_view_of(out, sectioned_request(sections.deep_view())),
{
    if sections.len() != 1 {
        return None;
    }
    if sections[0].0 == "Connect".to_owned() {
        match connect_from_fields(&sections[0].1) {
            Some(connect) => Some(ClientRequest::Connect(connect)),
            None => None,
        }
    } else if sections[0].0 == "Message".to_owned() {
        match message_from_fields(&sections[0].1) {
            Some(message) => Some(ClientRequest::Message(message)),
            None => None,
        }
    } else {
        None
    }
}

/// The request that a JSON object of strings stands for.
pub fn request_from_fields(fields: &Vec<(String, String)>) -> (out: Option<ClientRequest>)
    ensures
        is_view_of(out, labelled_request(fields.deep_view())),
{
    if fields.len() != 1 {
        return None;
    }
    if fields[0].0 == "Close".to_owned() {
        Some(ClientRequest::Close(fields[0].1.clone()))
    } else {
        None
    }
}

/// Reads a frame as a message: `MalformedPayload` exactly where the bytes are
/// not a JSON object of strings that stands for one.
///
/// The frame is one JSON object and nothing behind it. Its members may come
/// in any order and with white space between them. It must have the members
/// `from`, `to` and `msg`; a further member is passed over if it holds a
/// string, and makes the frame malformed if it holds anything else. A member
/// that stands twice counts with its last text. An array in place of the
/// object is malformed.
pub fn message_from_slice(buf: &[u8]) -> (out: Result<Message, RelayError>)
    ensures
        match out {
            Ok(message) => json_fields(buf@) matches Some(fields) && message_of(fields) == Some(
                message@,
            ),
            Err(error) => error == RelayError::MalformedPayload && !(json_fields(buf@) matches Some(
                fields,
            ) && message_of(fields) is Some),
        },
{
    match parse_fields(buf) {
        Ok(fields) => match message_from_fields(&fields) {
            Some(message) => Ok(message),
            None => Err(RelayError::MalformedPayload),
        },
        Err(_) => Err(RelayError::MalformedPayload),
    }
}

/// Reads a frame as a request: `MalformedPayload` exactly where the bytes
/// stand for none.
///
/// The frame is one JSON object and nothing behind it, with one member that
/// is named after the request's kind: `Connect` or `Message` with an object
/// of strings, or `Close` with a string. White space may stand between the
/// parts. The members of the inner object may come in any order; it must
/// have the members of its kind, with `Read` or `Write` as the
/// `connect_type`; a further member is passed over if it holds a string, and
/// makes the frame malformed if it holds anything else. A member that stands
/// twice counts with its last value. An array in place of an object, and a
/// direction written as an object, are malformed.
pub fn from_slice(buf: &[u8]) -> (out: Result<ClientRequest, RelayError>)
    ensures
        match out {
            Ok(request) => request_of(json_sections(buf@), json_fields(buf@)) == Some(request@),
            Err(error) => error == RelayError::MalformedPayload && request_of(
                json_sections(buf@),
                json_fields(buf@),
            ) is None,
        },
{
    let found = match parse_sections(buf) {
        Ok(sections) => request_from_sections(&sections),
        Err(_) => match parse_fields(buf) {
            Ok(fields) => request_from_fields(&fields),
            Err(_) => None,
        },
    };
    match found {
        Some(request) => Ok(request),
        None => Err(RelayError::MalformedPayload),
    }
}

} // verus!
