//! Protocol message kinds and their wire tags.

use vstd::prelude::*;
use crate::json::{Json, JsonNumber, member, find_member, text_of_json, to_json_text};
use crate::text::text_eq;

verus! {

/// Largest number of bytes read as one message.
pub const MSG_SIZE: usize = 4096;

pub const TEXT_MESSAGE_IDENTIFIER: &'static str = "Text";

pub const REQUEST_CLIENT_ID_IDENTIFIER: &'static str = "RequestClientID";

pub const REQUEST_CLIENT_ID_RESPONSE_IDENTIFIER: &'static str = "RequestClientIDResponse";

pub const LOGIN_STATUS_IDENTIFIER: &'static str = "LoginStatus";

pub const REQUEST_JOIN_GAME_IDENTIFIER: &'static str = "RequestJoinGame";

pub const REQUEST_JOIN_GAME_RESPONSE_IDENTIFIER: &'static str = "RequestJoinGameResponse";

/// The kinds of message the protocol knows.
#[derive(Clone, Copy, Debug, PartialEq, Eq, Structural)]
pub enum MessageKind {
    Text,
    RequestClientId,
    RequestClientIdResponse,
    LoginStatus,
    RequestJoinGame,
    RequestJoinGameResponse,
}

/// The wire tag of each kind.
pub open spec fn kind_tag(k: MessageKind) -> Seq<char> {
    match k {
        MessageKind::Text => TEXT_MESSAGE_IDENTIFIER@,
        MessageKind::RequestClientId => REQUEST_CLIENT_ID_IDENTIFIER@,
        MessageKind::RequestClientIdResponse => REQUEST_CLIENT_ID_RESPONSE_IDENTIFIER@,
        MessageKind::LoginStatus => LOGIN_STATUS_IDENTIFIER@,
        MessageKind::RequestJoinGame => REQUEST_JOIN_GAME_IDENTIFIER@,
        MessageKind::RequestJoinGameResponse => REQUEST_JOIN_GAME_RESPONSE_IDENTIFIER@,
    }
}

/// The kind whose tag is `t`, if any.
pub open spec fn kind_of_tag(t: Seq<char>) -> Option<MessageKind> {
    if t == TEXT_MESSAGE_IDENTIFIER@ {
        Some(MessageKind::Text)
    } else if t == REQUEST_CLIENT_ID_IDENTIFIER@ {
        Some(MessageKind::RequestClientId)
    } else if t == REQUEST_CLIENT_ID_RESPONSE_IDENTIFIER@ {
        Some(MessageKind::RequestClientIdResponse)
    } else if t == LOGIN_STATUS_IDENTIFIER@ {
        Some(MessageKind::LoginStatus)
    } else if t == REQUEST_JOIN_GAME_IDENTIFIER@ {
        Some(MessageKind::RequestJoinGame)
    } else if t == REQUEST_JOIN_GAME_RESPONSE_IDENTIFIER@ {
        Some(MessageKind::RequestJoinGameResponse)
    } else {
        None
    }
}

/// The six tags are pairwise distinct.
pub proof fn lemma_tags_distinct()
    ensures
        forall|a: MessageKind, b: MessageKind| kind_tag(a) == kind_tag(b) ==> a == b,
{
    reveal_strlit("Text");
    reveal_strlit("RequestClientID");
    reveal_strlit("RequestClientIDResponse");
    reveal_strlit("LoginStatus");
    reveal_strlit("RequestJoinGame");
    reveal_strlit("RequestJoinGameResponse");
    assert(TEXT_MESSAGE_IDENTIFIER@.len() == 4);
    assert(REQUEST_CLIENT_ID_IDENTIFIER@.len() == 15);
    assert(REQUEST_CLIENT_ID_RESPONSE_IDENTIFIER@.len() == 23);
    assert(LOGIN_STATUS_IDENTIFIER@.len() == 11);
    assert(REQUEST_JOIN_GAME_IDENTIFIER@.len() == 15);
    assert(REQUEST_JOIN_GAME_RESPONSE_IDENTIFIER@.len() == 23);
    assert(REQUEST_CLIENT_ID_IDENTIFIER@[7] != REQUEST_JOIN_GAME_IDENTIFIER@[7]);
    assert(REQUEST_CLIENT_ID_RESPONSE_IDENTIFIER@[7] != REQUEST_JOIN_GAME_RESPONSE_IDENTIFIER@[7]);
}

/// Reading back the tag of a kind gives that kind.
pub proof fn lemma_tag_round_trip(k: MessageKind)
    ensures
        kind_of_tag(kind_tag(k)) == Some(k),
{
    lemma_tags_distinct();
    assert(kind_tag(MessageKind::Text) == TEXT_MESSAGE_IDENTIFIER@);
    assert(kind_tag(MessageKind::RequestClientId) == REQUEST_CLIENT_ID_IDENTIFIER@);
    assert(kind_tag(MessageKind::RequestClientIdResponse) == REQUEST_CLIENT_ID_RESPONSE_IDENTIFIER@);
    assert(kind_tag(MessageKind::LoginStatus) == LOGIN_STATUS_IDENTIFIER@);
    assert(kind_tag(MessageKind::RequestJoinGame) == REQUEST_JOIN_GAME_IDENTIFIER@);
}

impl MessageKind {
    /// The tag written on the wire for this kind.
    pub fn tag(&self) -> (r: &'static str)
        ensures
            r@ == kind_tag(*self),
    {
        match self {
            MessageKind::Text => TEXT_MESSAGE_IDENTIFIER,
            MessageKind::RequestClientId => REQUEST_CLIENT_ID_IDENTIFIER,
            MessageKind::RequestClientIdResponse => REQUEST_CLIENT_ID_RESPONSE_IDENTIFIER,
            MessageKind::LoginStatus => LOGIN_STATUS_IDENTIFIER,
            MessageKind::RequestJoinGame => REQUEST_JOIN_GAME_IDENTIFIER,
            MessageKind::RequestJoinGameResponse => REQUEST_JOIN_GAME_RESPONSE_IDENTIFIER,
        }
    }
}

/// General communication between the two ends.
#[derive(Clone, Debug, PartialEq, Eq)]
pub struct TextMessage {
    pub text: String,
}

/// Asks a client to identify itself.
#[derive(Clone, Copy, Debug, PartialEq, Eq, Structural)]
pub struct RequestClientID;

/// A client's answer to `RequestClientID`.
#[derive(Clone, Debug, PartialEq, Eq)]
pub struct RequestClientIDResponse {
    pub id: String,
}

/// Whether a login went through.
#[derive(Clone, Copy, Debug, PartialEq, Eq, Structural)]
pub struct LoginStatus {
    pub success: bool,
}

/// Asks to be placed in a game.
#[derive(Clone, Copy, Debug, PartialEq, Eq, Structural)]
pub struct RequestJoinGame;

/// How many more players the game being joined waits for.
#[derive(Clone, Copy, Debug, PartialEq, Eq, Structural)]
pub struct RequestJoinGameResponse {
    pub waiting_for: u32,
}

impl TextMessage {
    pub fn new(text: String) -> (r: TextMessage)
        ensures
            r.text == text,
    {
        TextMessage { text }
    }
}

/// A message of any kind.
#[derive(Clone, Debug, PartialEq, Eq)]
pub enum Message {
    Text(TextMessage),
    RequestClientId(RequestClientID),
    RequestClientIdResponse(RequestClientIDResponse),
    LoginStatus(LoginStatus),
    RequestJoinGame(RequestJoinGame),
    RequestJoinGameResponse(RequestJoinGameResponse),
}

pub open spec fn message_kind(m: Message) -> MessageKind {
    match m {
        Message::Text(_) => MessageKind::Text,
        Message::RequestClientId(_) => MessageKind::RequestClientId,
        Message::RequestClientIdResponse(_) => MessageKind::RequestClientIdResponse,
        Message::LoginStatus(_) => MessageKind::LoginStatus,
        Message::RequestJoinGame(_) => MessageKind::RequestJoinGame,
        Message::RequestJoinGameResponse(_) => MessageKind::RequestJoinGameResponse,
    }
}

/// The message of kind `k` that the payload `data` holds, if it holds one:
/// a record kind needs an object with its field at the right type, and a kind
/// without fields needs `null`.
pub open spec fn decode_data(k: MessageKind, data: Json) -> Option<Message> {
    match k {
        MessageKind::Text => match member(data, "text"@) {
            Some(Json::Str(t)) => Some(Message::Text(TextMessage { text: t })),
            _ => None,
        },
        MessageKind::RequestClientId => match data {
            Json::Null => Some(Message::RequestClientId(RequestClientID)),
            _ => None,
        },
        MessageKind::RequestClientIdResponse => match member(data, "id"@) {
            Some(Json::Str(t)) => Some(Message::RequestClientIdResponse(RequestClientIDResponse { id: t })),
            _ => None,
        },
        MessageKind::LoginStatus => match member(data, "success"@) {
            Some(Json::Bool(b)) => Some(Message::LoginStatus(LoginStatus { success: b })),
            _ => None,
        },
        MessageKind::RequestJoinGame => match data {
            Json::Null => Some(Message::RequestJoinGame(RequestJoinGame)),
            _ => None,
        },
        MessageKind::RequestJoinGameResponse => match member(data, "waiting_for"@) {
            Some(Json::Number(JsonNumber::Unsigned(n))) => if n <= u32::MAX {
                Some(Message::RequestJoinGameResponse(RequestJoinGameResponse { waiting_for: n as u32 }))
            } else {
                None
            },
            _ => None,
        },
    }
}

/// The tag of an envelope `j`: its member `msg_type`, when that is a string.
pub open spec fn envelope_tag(j: Json) -> Option<Seq<char>> {
    match member(j, "msg_type"@) {
        Some(Json::Str(t)) => Some(t@),
        _ => None,
    }
}

/// The message that the envelope `j` carries: its tag names a known kind and
/// its member `data` decodes as that kind.
pub open spec fn decode_envelope(j: Json) -> Option<Message> {
    match envelope_tag(j) {
        Some(t) => match kind_of_tag(t) {
            Some(k) => match member(j, "data"@) {
                Some(d) => decode_data(k, d),
                None => None,
            },
            None => None,
        },
        None => None,
    }
}

/// `data` is the payload written for `m`: a one-member object for a record
/// kind, `null` for a kind without fields.
pub open spec fn is_data_of(m: Message, data: Json) -> bool {
    match m {
        Message::Text(t) => data matches Json::Object(f)
            && f@.len() == 1 && f@[0].0@ == "text"@ && f@[0].1 == Json::Str(t.text),
        Message::RequestClientId(_) => data == Json::Null,
        Message::RequestClientIdResponse(r) => data matches Json::Object(f)
            && f@.len() == 1 && f@[0].0@ == "id"@ && f@[0].1 == Json::Str(r.id),
        Message::LoginStatus(l) => data matches Json::Object(f)
            && f@.len() == 1 && f@[0].0@ == "success"@ && f@[0].1 == Json::Bool(l.success),
        Message::RequestJoinGame(_) => data == Json::Null,
        Message::RequestJoinGameResponse(r) => data matches Json::Object(f)
            && f@.len() == 1 && f@[0].0@ == "waiting_for"@
            && f@[0].1 == Json::Number(JsonNumber::Unsigned(r.waiting_for as u64)),
    }
}

/// `j` is the envelope written for `m`: an object whose members are
/// `msg_type`, the tag of the kind of `m`, and `data`, its payload.
pub open spec fn is_envelope_of(m: Message, j: Json) -> bool {
    match j {
        Json::Object(f) => {
            &&& f@.len() == 2
            &&& f@[0].0@ == "msg_type"@
            &&& f@[0].1 matches Json::Str(t) && t@ == kind_tag(message_kind(m))
            &&& f@[1].0@ == "data"@
            &&& is_data_of(m, f@[1].1)
        },
        _ => false,
    }
}

fn one_member(key: &str, value: Json) -> (r: Json)
    ensures
        r matches Json::Object(f) && f@.len() == 1 && f@[0].0@ == key@ && f@[0].1 == value,
{
    let mut fields: Vec<(String, Json)> = Vec::new();
    fields.push((key.to_string(), value));
    Json::Object(fields)
}

impl Message {
    /// The kind of this message.
    pub fn kind(&self) -> (r: MessageKind)
        ensures
            r == message_kind(*self),
    {
        match self {
            Message::Text(_) => MessageKind::Text,
            Message::RequestClientId(_) => MessageKind::RequestClientId,
            Message::RequestClientIdResponse(_) => MessageKind::RequestClientIdResponse,
            Message::LoginStatus(_) => MessageKind::LoginStatus,
            Message::RequestJoinGame(_) => MessageKind::RequestJoinGame,
            Message::RequestJoinGameResponse(_) => MessageKind::RequestJoinGameResponse,
        }
    }

    /// The payload of this message.
    pub fn to_data(&self) -> (r: Json)
        ensures
            is_data_of(*self, r),
    {
        match self {
            Message::Text(t) => one_member("text", Json::Str(t.text.clone())),
            Message::RequestClientId(_) => Json::Null,
            Message::RequestClientIdResponse(r) => one_member("id", Json::Str(r.id.clone())),
            Message::LoginStatus(l) => one_member("success", Json::Bool(l.success)),
            Message::RequestJoinGame(_) => Json::Null,
            Message::RequestJoinGameResponse(r) => one_member(
                "waiting_for",
                Json::Number(JsonNumber::Unsigned(r.waiting_for as u64)),
            ),
        }
    }

    /// The envelope of this message as JSON text, as serde_json writes it.
    pub fn to_json_string(&self) -> (r: String)
        ensures
            exists|j: Json| is_envelope_of(*self, j) && r@ == text_of_json(j),
    {
        let j = self.to_envelope();
        to_json_text(&j)
    }

    /// The envelope `{"msg_type": <tag>, "data": <payload>}` of this message.
    pub fn to_envelope(&self) -> (r: Json)
        ensures
            is_envelope_of(*self, r),
    {
        let kind = self.kind();
        let mut fields: Vec<(String, Json)> = Vec::new();
        fields.push(("msg_type".to_string(), Json::Str(kind.tag().to_string())));
        fields.push(("data".to_string(), self.to_data()));
        Json::Object(fields)
    }
}

impl MessageKind {
    /// The kind whose tag is `t`, if any.
    pub fn from_tag(t: &str) -> (r: Option<MessageKind>)
        ensures
            r == kind_of_tag(t@),
    {
        if text_eq(t, TEXT_MESSAGE_IDENTIFIER) {
            Some(MessageKind::Text)
        } else if text_eq(t, REQUEST_CLIENT_ID_IDENTIFIER) {
            Some(MessageKind::RequestClientId)
        } else if text_eq(t, REQUEST_CLIENT_ID_RESPONSE_IDENTIFIER) {
            Some(MessageKind::RequestClientIdResponse)
        } else if text_eq(t, LOGIN_STATUS_IDENTIFIER) {
            Some(MessageKind::LoginStatus)
        } else if text_eq(t, REQUEST_JOIN_GAME_IDENTIFIER) {
            Some(MessageKind::RequestJoinGame)
        } else if text_eq(t, REQUEST_JOIN_GAME_RESPONSE_IDENTIFIER) {
            Some(MessageKind::RequestJoinGameResponse)
        } else {
            None
        }
    }
}

/// The message of kind `kind` that the payload `data` holds, if it holds one.
pub fn decode_payload(kind: MessageKind, data: &Json) -> (r: Option<Message>)
    ensures
        r == decode_data(kind, *data),
{
    match kind {
        MessageKind::Text => match data.get("text") {
            Some(Json::Str(t)) => Some(Message::Text(TextMessage { text: t.clone() })),
            _ => None,
        },
        MessageKind::RequestClientId => match data {
            Json::Null => Some(Message::RequestClientId(RequestClientID)),
            _ => None,
        },
        MessageKind::RequestClientIdResponse => match data.get("id") {
            Some(Json::Str(t)) => Some(
                Message::RequestClientIdResponse(RequestClientIDResponse { id: t.clone() }),
            ),
            _ => None,
        },
        MessageKind::LoginStatus => match data.get("success") {
            Some(Json::Bool(b)) => Some(Message::LoginStatus(LoginStatus { success: *b })),
            _ => None,
        },
        MessageKind::RequestJoinGame => match data {
            Json::Null => Some(Message::RequestJoinGame(RequestJoinGame)),
            _ => None,
        },
        MessageKind::RequestJoinGameResponse => match data.get("waiting_for") {
            Some(Json::Number(JsonNumber::Unsigned(n))) => if *n <= u32::MAX as u64 {
                Some(
                    Message::RequestJoinGameResponse(
                        RequestJoinGameResponse { waiting_for: *n as u32 },
                    ),
                )
            } else {
                None
            },
            _ => None,
        },
    }
}

/// Whether `j` is an envelope with the tag `id`: it has a string
/// `msg_type` equal to `id` and a `data` member.
pub fn is_type(j: &Json, id: &str) -> (r: bool)
    ensures
        r == (envelope_tag(*j) == Some(id@) && member(*j, "data"@) is Some),
{
    match j.get("msg_type") {
        Some(Json::Str(t)) => text_eq(t.as_str(), id) && j.get("data").is_some(),
        _ => false,
    }
}

/// The message that the envelope `j` carries, if it carries a known one.
pub fn decode_message(j: &Json) -> (r: Option<Message>)
    ensures
        r == decode_envelope(*j),
{
    match j.get("msg_type") {
        Some(Json::Str(t)) => match MessageKind::from_tag(t.as_str()) {
            Some(kind) => match j.get("data") {
                Some(d) => decode_payload(kind, d),
                None => None,
            },
            None => None,
        },
        _ => None,
    }
}

/// A decoded envelope keeps its pairing of tag and kind: the message it
/// gives is of the kind its tag names, so writing that message again gives
/// the same tag.
pub proof fn lemma_decoded_kind_matches_tag(j: Json)
    requires
        decode_envelope(j) is Some,
    ensures
        envelope_tag(j) == Some(kind_tag(message_kind(decode_envelope(j)->Some_0))),
{
}

/// Decoding the envelope written for a message gives back that message, for
/// every kind.
pub proof fn lemma_envelope_round_trip(m: Message, j: Json)
    requires
        is_envelope_of(m, j),
    ensures
        envelope_tag(j) == Some(kind_tag(message_kind(m))),
        decode_envelope(j) == Some(m),
{
    reveal_strlit("msg_type");
    reveal_strlit("data");
    reveal_strlit("text");
    reveal_strlit("id");
    reveal_strlit("success");
    reveal_strlit("waiting_for");
    lemma_tag_round_trip(message_kind(m));
    let f = j->Object_0@;
    assert(f.drop_first()[0] == f[1]);
    assert(f.drop_first().len() == 1);
    assert("msg_type"@.len() == 8);
    assert("data"@.len() == 4);
    assert(f[0].0@ != "data"@);
    assert(find_member(f.drop_first(), "data"@) == Some(f[1].1));
    assert(member(j, "data"@) == Some(f[1].1));
    match m {
        Message::Text(t) => {
            let g = f[1].1->Object_0@;
            assert(g[0].0@ == "text"@);
        },
        Message::RequestClientIdResponse(r) => {
            let g = f[1].1->Object_0@;
            assert(g[0].0@ == "id"@);
        },
        Message::LoginStatus(l) => {
            let g = f[1].1->Object_0@;
            assert(g[0].0@ == "success"@);
        },
        Message::RequestJoinGameResponse(r) => {
            let g = f[1].1->Object_0@;
            assert(g[0].0@ == "waiting_for"@);
        },
        _ => {},
    }
}

} // verus!
