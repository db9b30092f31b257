use multiplayer::handler::{
    message_len, message_text, read_json, read_message, receive, receive_json, DefaultHandler,
    Handler, TryClone,
};
use multiplayer::json::{Json, JsonNumber};
use multiplayer::message::{
    decode_message, decode_payload, is_type, LoginStatus, Message, MessageKind, RequestClientID,
    RequestClientIDResponse, RequestJoinGame, RequestJoinGameResponse, TextMessage, MSG_SIZE,
};

fn obj(fields: Vec<(&str, Json)>) -> Json {
    Json::Object(fields.into_iter().map(|(k, v)| (k.to_string(), v)).collect())
}

fn envelope(tag: &str, data: Json) -> Json {
    obj(vec![("msg_type", Json::Str(tag.to_string())), ("data", data)])
}

fn text_envelope(text: &str) -> Json {
    envelope("Text", obj(vec![("text", Json::Str(text.to_string()))]))
}

#[derive(Default)]
struct Recorder {
    texts: Vec<String>,
    others: usize,
}

impl TryClone for Recorder {
    fn try_clone(&self) -> std::io::Result<Recorder> {
        Ok(Recorder { texts: self.texts.clone(), others: self.others })
    }
}

impl Handler for Recorder {
    fn handle_text_msg(&mut self, msg: TextMessage) {
        self.texts.push(msg.text);
    }
    fn handle_request_client_id(&mut self, _msg: RequestClientID) {
        self.others += 1;
    }
    fn handle_request_client_id_response(&mut self, _msg: RequestClientIDResponse) {
        self.others += 1;
    }
    fn handle_login_status(&mut self, _msg: LoginStatus) {
        self.others += 1;
    }
    fn handle_request_join_game(&mut self, _msg: RequestJoinGame) {
        self.others += 1;
    }
    fn handle_request_join_game_response(&mut self, _msg: RequestJoinGameResponse) {
        self.others += 1;
    }
}

fn all_messages() -> Vec<Message> {
    vec![
        Message::Text(TextMessage::new("hello".to_string())),
        Message::RequestClientId(RequestClientID),
        Message::RequestClientIdResponse(RequestClientIDResponse { id: "alice".to_string() }),
        Message::LoginStatus(LoginStatus { success: true }),
        Message::LoginStatus(LoginStatus { success: false }),
        Message::RequestJoinGame(RequestJoinGame),
        Message::RequestJoinGameResponse(RequestJoinGameResponse { waiting_for: 3 }),
        Message::RequestJoinGameResponse(RequestJoinGameResponse { waiting_for: u32::MAX }),
    ]
}

#[test]
fn tags_are_the_wire_literals() {
    assert_eq!(MessageKind::Text.tag(), "Text");
    assert_eq!(MessageKind::RequestClientId.tag(), "RequestClientID");
    assert_eq!(MessageKind::RequestClientIdResponse.tag(), "RequestClientIDResponse");
    assert_eq!(MessageKind::LoginStatus.tag(), "LoginStatus");
    assert_eq!(MessageKind::RequestJoinGame.tag(), "RequestJoinGame");
    assert_eq!(MessageKind::RequestJoinGameResponse.tag(), "RequestJoinGameResponse");
}

#[test]
fn tag_lookup_round_trips_and_rejects_unknown() {
    for k in [
        MessageKind::Text,
        MessageKind::RequestClientId,
        MessageKind::RequestClientIdResponse,
        MessageKind::LoginStatus,
        MessageKind::RequestJoinGame,
        MessageKind::RequestJoinGameResponse,
    ] {
        assert_eq!(MessageKind::from_tag(k.tag()), Some(k));
    }
    assert_eq!(MessageKind::from_tag("text"), None);
    assert_eq!(MessageKind::from_tag(""), None);
    assert_eq!(MessageKind::from_tag("Bogus"), None);
}

#[test]
fn envelope_round_trip_for_every_kind() {
    for m in all_messages() {
        let j = m.to_envelope();
        assert!(is_type(&j, m.kind().tag()));
        assert_eq!(decode_message(&j), Some(m));
    }
}

#[test]
fn envelope_layout_of_text_message() {
    let m = Message::Text(TextMessage::new("hi".to_string()));
    assert_eq!(m.to_envelope(), text_envelope("hi"));
}

#[test]
fn unit_kinds_carry_null() {
    assert_eq!(Message::RequestClientId(RequestClientID).to_data(), Json::Null);
    assert_eq!(Message::RequestJoinGame(RequestJoinGame).to_data(), Json::Null);
}

#[test]
fn payload_decoding_checks_field_types() {
    let wrong = obj(vec![("text", Json::Bool(true))]);
    assert_eq!(decode_payload(MessageKind::Text, &wrong), None);
    let missing = obj(vec![("other", Json::Str("x".to_string()))]);
    assert_eq!(decode_payload(MessageKind::Text, &missing), None);
    let extra = obj(vec![
        ("other", Json::Null),
        ("text", Json::Str("x".to_string())),
    ]);
    assert_eq!(
        decode_payload(MessageKind::Text, &extra),
        Some(Message::Text(TextMessage::new("x".to_string())))
    );
    assert_eq!(decode_payload(MessageKind::RequestJoinGame, &obj(vec![])), None);
    let too_big = obj(vec![(
        "waiting_for",
        Json::Number(JsonNumber::Unsigned(u32::MAX as u64 + 1)),
    )]);
    assert_eq!(decode_payload(MessageKind::RequestJoinGameResponse, &too_big), None);
    let negative = obj(vec![("waiting_for", Json::Number(JsonNumber::Signed(-1)))]);
    assert_eq!(decode_payload(MessageKind::RequestJoinGameResponse, &negative), None);
}

#[test]
fn first_member_with_a_key_wins() {
    let j = obj(vec![
        ("text", Json::Str("first".to_string())),
        ("text", Json::Str("second".to_string())),
    ]);
    assert_eq!(j.get("text"), Some(&Json::Str("first".to_string())));
    assert_eq!(Json::Null.get("text"), None);
}

#[test]
fn text_message_reaches_only_the_text_handler() {
    let mut h = Recorder::default();
    let r = receive_json(&mut h, &text_envelope("hi"));
    assert_eq!(r, Some(Message::Text(TextMessage::new("hi".to_string()))));
    assert_eq!(h.texts, vec!["hi".to_string()]);
    assert_eq!(h.others, 0);
}

#[test]
fn unknown_tag_reaches_no_handler() {
    let mut h = Recorder::default();
    let j = envelope("Teleport", obj(vec![("text", Json::Str("hi".to_string()))]));
    assert_eq!(receive_json(&mut h, &j), None);
    assert!(h.texts.is_empty());
    assert_eq!(h.others, 0);
}

#[test]
fn malformed_envelopes_reach_no_handler() {
    let mut h = Recorder::default();
    let no_tag = obj(vec![("data", Json::Null)]);
    let number_tag = obj(vec![
        ("msg_type", Json::Number(JsonNumber::Unsigned(1))),
        ("data", Json::Null),
    ]);
    let no_data = obj(vec![("msg_type", Json::Str("RequestJoinGame".to_string()))]);
    for j in [no_tag, number_tag, no_data, Json::Null, Json::Array(vec![])] {
        assert_eq!(receive_json(&mut h, &j), None);
    }
    assert!(h.texts.is_empty());
    assert_eq!(h.others, 0);
}

#[test]
fn each_kind_reaches_its_handler() {
    let mut h = Recorder::default();
    for m in all_messages() {
        receive_json(&mut h, &m.to_envelope());
    }
    assert_eq!(h.texts, vec!["hello".to_string()]);
    assert_eq!(h.others, all_messages().len() - 1);
}

#[test]
fn default_handler_ignores_everything() {
    let mut h = DefaultHandler;
    assert_eq!(
        receive_json(&mut h, &text_envelope("hi")),
        Some(Message::Text(TextMessage::new("hi".to_string())))
    );
    assert!(h.try_clone().is_ok());
}

#[test]
fn is_type_compares_the_tag() {
    let j = envelope("RequestClientIDResponse", obj(vec![("id", Json::Str("a".to_string()))]));
    assert!(is_type(&j, "RequestClientIDResponse"));
    assert!(!is_type(&j, "RequestClientID"));
    assert!(!is_type(&Json::Null, "RequestClientID"));
}

#[test]
fn is_type_needs_a_payload() {
    let no_data = obj(vec![("msg_type", Json::Str("RequestClientIDResponse".to_string()))]);
    assert!(!is_type(&no_data, "RequestClientIDResponse"));
    let null_data = envelope("RequestClientID", Json::Null);
    assert!(is_type(&null_data, "RequestClientID"));
}

#[test]
fn buffer_text_stops_at_first_zero() {
    let mut buff = vec![0u8; MSG_SIZE];
    buff[..5].copy_from_slice(b"hello");
    assert_eq!(message_len(&buff), 5);
    assert_eq!(message_text(&buff), Some("hello".to_string()));
    let mut gap = b"ab".to_vec();
    gap.push(0);
    gap.extend_from_slice(b"cd");
    assert_eq!(message_text(&gap), Some("ab".to_string()));
}

#[test]
fn buffer_text_edges() {
    assert_eq!(message_text(&vec![]), Some(String::new()));
    assert_eq!(message_text(&vec![0u8; 8]), Some(String::new()));
    let full = b"abc".to_vec();
    assert_eq!(message_len(&full), 3);
    assert_eq!(message_text(&full), Some("abc".to_string()));
    let accented = "h\u{e9}".as_bytes().to_vec();
    assert_eq!(message_text(&accented), Some("h\u{e9}".to_string()));
}

#[test]
fn buffer_text_rejects_invalid_utf8() {
    assert_eq!(message_text(&vec![0xff, 0xfe, 0]), None);
    assert_eq!(message_text(&vec![b'a', 0xc3]), None);
}

fn padded(text: &str) -> Vec<u8> {
    let mut buff = vec![0u8; MSG_SIZE];
    buff[..text.len()].copy_from_slice(text.as_bytes());
    buff
}

#[test]
fn envelope_text_as_serde_json_writes_it() {
    let m = Message::Text(TextMessage::new("hi".to_string()));
    assert_eq!(m.to_json_string(), r#"{"data":{"text":"hi"},"msg_type":"Text"}"#);
    let r = Message::RequestClientId(RequestClientID);
    assert_eq!(r.to_json_string(), r#"{"data":null,"msg_type":"RequestClientID"}"#);
}

#[test]
fn text_envelope_in_a_buffer_reaches_the_text_handler() {
    let buff = padded(r#"{"msg_type":"Text","data":{"text":"hi"}}"#);
    let mut h = Recorder::default();
    assert_eq!(
        receive(&mut h, &buff),
        Some(Message::Text(TextMessage::new("hi".to_string())))
    );
    assert_eq!(h.texts, vec!["hi".to_string()]);
    assert_eq!(h.others, 0);
}

#[test]
fn every_kind_survives_the_wire() {
    for m in all_messages() {
        let buff = padded(&m.to_json_string());
        assert_eq!(read_message(&buff), Some(m));
    }
}

#[test]
fn wire_numbers_and_malformed_text() {
    let buff = padded(r#"{"msg_type":"RequestJoinGameResponse","data":{"waiting_for":3}}"#);
    assert_eq!(
        read_message(&buff),
        Some(Message::RequestJoinGameResponse(RequestJoinGameResponse { waiting_for: 3 }))
    );
    assert_eq!(read_json(&padded("{not json")), None);
    assert_eq!(read_json(&padded("-4")), Some(Json::Number(JsonNumber::Signed(-4))));
    assert_eq!(read_message(&padded(r#"{"msg_type":"Text"}"#)), None);
    let mut h = Recorder::default();
    assert_eq!(receive(&mut h, &vec![0xff, 0]), None);
    assert_eq!(h.others, 0);
}
