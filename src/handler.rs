//! The message router: turns a read buffer into text, and hands a decoded
//! envelope to the callback registered for its kind.

use vstd::prelude::*;
use vstd::utf8::{valid_utf8, decode_utf8};
use crate::json::{Json, json_of_text, parse_json};
use crate::message::{
    decode_envelope, decode_message, LoginStatus, Message, RequestClientID,
    RequestClientIDResponse, RequestJoinGame, RequestJoinGameResponse, TextMessage,
};

verus! {

/// `std::io::Error`, the error of a failed duplication, carried as it is.
#[verifier::external_type_specification]
#[verifier::external_body]
pub struct ExIoError(std::io::Error);

/// A handler that can be duplicated for another job.
pub trait TryClone: core::marker::Sized {
    fn try_clone(&self) -> std::io::Result<Self>;
}

/// `next` is what handing `m` to the callback of its kind makes of `h`.
pub open spec fn handled<H: Handler>(h: H, m: Message, next: H) -> bool {
    match m {
        Message::Text(t) => h.text_handled(t, next),
        Message::RequestClientId(t) => h.request_client_id_handled(t, next),
        Message::RequestClientIdResponse(t) => h.request_client_id_response_handled(t, next),
        Message::LoginStatus(t) => h.login_status_handled(t, next),
        Message::RequestJoinGame(t) => h.request_join_game_handled(t, next),
        Message::RequestJoinGameResponse(t) => h.request_join_game_response_handled(t, next),
    }
}

/// Callbacks for each kind of message. Each callback's effect on the
/// handler is stated by the spec function of the same kind, which leaves the
/// handler unchanged unless the implementer states otherwise; a handler that
/// does not care about a kind drops it with a callback that does nothing
/// (see `DefaultHandler`).
pub trait Handler: TryClone {
    /// `next` is what handling the text message `msg` makes of `self`.
    open spec fn text_handled(&self, msg: TextMessage, next: Self) -> bool {
        next == *self
    }

    open spec fn request_client_id_handled(&self, msg: RequestClientID, next: Self) -> bool {
        next == *self
    }

    open spec fn request_client_id_response_handled(
        &self,
        msg: RequestClientIDResponse,
        next: Self,
    ) -> bool {
        next == *self
    }

    open spec fn login_status_handled(&self, msg: LoginStatus, next: Self) -> bool {
        next == *self
    }

    open spec fn request_join_game_handled(&self, msg: RequestJoinGame, next: Self) -> bool {
        next == *self
    }

    open spec fn request_join_game_response_handled(
        &self,
        msg: RequestJoinGameResponse,
        next: Self,
    ) -> bool {
        next == *self
    }

    fn handle_text_msg(&mut self, msg: TextMessage)
        ensures
            old(self).text_handled(msg, *final(self)),;

    fn handle_request_client_id(&mut self, msg: RequestClientID)
        ensures
            old(self).request_client_id_handled(msg, *final(self)),;

    fn handle_request_client_id_response(&mut self, msg: RequestClientIDResponse)
        ensures
            old(self).request_client_id_response_handled(msg, *final(self)),;

    fn handle_login_status(&mut self, msg: LoginStatus)
        ensures
            old(self).login_status_handled(msg, *final(self)),;

    fn handle_request_join_game(&mut self, msg: RequestJoinGame)
        ensures
            old(self).request_join_game_handled(msg, *final(self)),;

    fn handle_request_join_game_response(&mut self, msg: RequestJoinGameResponse)
        ensures
            old(self).request_join_game_response_handled(msg, *final(self)),;

}

/// Decodes the envelope `value` and hands its message to the callback
/// for its kind. An envelope without a string tag, with an unknown tag
/// or with a payload that does not fit its kind reaches no callback and
/// leaves `h` as it was. Returns the message delivered.
pub fn receive_json<H: Handler>(h: &mut H, value: &Json) -> (r: Option<Message>)
    ensures
        r == decode_envelope(*value),
        r is None ==> *final(h) == *old(h),
        r matches Some(m) ==> handled(*old(h), m, *final(h)),
{
    let decoded = decode_message(value);
    match decoded {
        Some(msg) => {
            match &msg {
                Message::Text(m) => h.handle_text_msg(TextMessage { text: m.text.clone() }),
                Message::RequestClientId(m) => h.handle_request_client_id(*m),
                Message::RequestClientIdResponse(m) => h.handle_request_client_id_response(
                    RequestClientIDResponse { id: m.id.clone() },
                ),
                Message::LoginStatus(m) => h.handle_login_status(*m),
                Message::RequestJoinGame(m) => h.handle_request_join_game(*m),
                Message::RequestJoinGameResponse(m) => h.handle_request_join_game_response(*m),
            }
            Some(msg)
        },
        None => None,
    }
}

/// `n` is where the message in `buff` ends: the bytes before it are not zero,
/// and it is the end of the buffer or the place of a zero byte.
pub open spec fn is_message_end(buff: Seq<u8>, n: int) -> bool {
    &&& 0 <= n <= buff.len()
    &&& forall|j: int| 0 <= j < n ==> buff[j] != 0
    &&& (n == buff.len() || buff[n] == 0)
}

/// The length of the message in a read buffer: the buffer is filled with
/// zero bytes after the message.
pub fn message_len(buff: &Vec<u8>) -> (r: usize)
    ensures
        is_message_end(buff@, r as int),
{
    let mut i: usize = 0;
    while i < buff.len() && buff[i] != 0
        invariant
            i <= buff@.len(),
            forall|j: int| 0 <= j < i ==> buff@[j] != 0,
        decreases buff.len() - i,
    {
        i = i + 1;
    }
    i
}

/// Relies on `String::from_utf8`: it accepts exactly the byte strings that
/// are valid UTF-8, and then holds the characters they encode.
#[verifier::external_body]
fn string_from_utf8(bytes: Vec<u8>) -> (r: Option<String>)
    ensures
        r is Some <==> valid_utf8(bytes@),
        r matches Some(s) ==> s@ == decode_utf8(bytes@),
{
    String::from_utf8(bytes).ok()
}

/// The text of the message in a read buffer: the bytes before the first zero
/// byte, decoded as UTF-8. `None` when those bytes are not valid UTF-8.
pub fn message_text(buff: &Vec<u8>) -> (r: Option<String>)
    ensures
        forall|n: int| is_message_end(buff@, n) ==> {
            &&& (r is Some <==> valid_utf8(buff@.take(n)))
            &&& (r matches Some(s) ==> s@ == decode_utf8(buff@.take(n)))
        },
{
    let n = message_len(buff);
    let mut bytes: Vec<u8> = Vec::new();
    let mut i: usize = 0;
    while i < n
        invariant
            n <= buff@.len(),
            i <= n,
            bytes@ == buff@.take(i as int),
        decreases n - i,
    {
        bytes.push(buff[i]);
        assert(buff@.take(i + 1) =~= buff@.take(i as int).push(buff@[i as int]));
        i = i + 1;
    }
    proof {
        assert forall|m: int| is_message_end(buff@, m) implies m == n as int by {
            if m < n {
                assert(buff@[m] != 0);
            } else if m > n {
                assert(buff@[n as int] != 0);
            }
        }
    }
    string_from_utf8(bytes)
}

/// The JSON value that a read buffer holds: the bytes before the first zero
/// byte, at `n`, are UTF-8 and their text is JSON.
pub open spec fn json_of_buffer(buff: Seq<u8>, n: int) -> Option<Json> {
    if valid_utf8(buff.take(n)) {
        json_of_text(decode_utf8(buff.take(n)))
    } else {
        None
    }
}

/// The message that a read buffer carries: it holds a JSON value, and that
/// value is an envelope of a known kind.
pub open spec fn message_of_buffer(buff: Seq<u8>, n: int) -> Option<Message> {
    match json_of_buffer(buff, n) {
        Some(j) => decode_envelope(j),
        None => None,
    }
}

/// The JSON value in a read buffer. Bytes that are not UTF-8 and text that
/// is not JSON give `None`.
pub fn read_json(buff: &Vec<u8>) -> (r: Option<Json>)
    ensures
        forall|n: int| is_message_end(buff@, n) ==> r == json_of_buffer(buff@, n),
{
    match message_text(buff) {
        Some(text) => parse_json(text.as_str()),
        None => None,
    }
}

/// Reads the message in a read buffer. Bytes that are not UTF-8, text that
/// is not JSON, and a value that is not an envelope of a known kind all give
/// `None`.
pub fn read_message(buff: &Vec<u8>) -> (r: Option<Message>)
    ensures
        forall|n: int| is_message_end(buff@, n) ==> r == message_of_buffer(buff@, n),
{
    match read_json(buff) {
        Some(j) => decode_message(&j),
        None => None,
    }
}

/// Reads the message in a read buffer and hands it to the callback of `h`
/// for its kind. A buffer without a known message reaches no callback and
/// leaves `h` as it was.
pub fn receive<H: Handler>(h: &mut H, buff: &Vec<u8>) -> (r: Option<Message>)
    ensures
        forall|n: int| is_message_end(buff@, n) ==> r == message_of_buffer(buff@, n),
        r is None ==> *final(h) == *old(h),
        r matches Some(m) ==> handled(*old(h), m, *final(h)),
{
    match read_json(buff) {
        Some(j) => receive_json(h, &j),
        None => None,
    }
}

/// The handler that ignores every message.
#[derive(Clone, Copy, Debug)]
pub struct DefaultHandler;

impl TryClone for DefaultHandler {
    fn try_clone(&self) -> std::io::Result<DefaultHandler> {
        Ok(DefaultHandler)
    }
}

impl Handler for DefaultHandler {
    fn handle_text_msg(&mut self, msg: TextMessage) {
    }

    fn handle_request_client_id(&mut self, msg: RequestClientID) {
    }

    fn handle_request_client_id_response(&mut self, msg: RequestClientIDResponse) {
    }

    fn handle_login_status(&mut self, msg: LoginStatus) {
    }

    fn handle_request_join_game(&mut self, msg: RequestJoinGame) {
    }

    fn handle_request_join_game_response(&mut self, msg: RequestJoinGameResponse) {
    }
}

} // verus!
