//! The playing side's decisions: what a typed line sends, and what a login
//! status leads to.

use vstd::prelude::*;
use crate::message::{Message, RequestJoinGame, TextMessage};
use crate::text::has_prefix;

verus! {

/// Where the playing side stands.
#[derive(Clone, Copy, Debug, PartialEq, Eq, Structural)]
pub enum HostClientState {
    Waiting,
    InQueue,
    InGame,
}

/// What a line typed by the player asks for.
#[derive(Clone, Debug, PartialEq, Eq)]
pub enum Command {
    /// Ask to be placed in a game.
    Join,
    /// Log out; nothing is sent.
    Quit,
    /// Send the line as a text message.
    Say(String),
}

/// A line starting with `/join` asks to join a game, one starting with
/// `/quit` logs out, and any other line is said as it is.
pub fn parse_command(line: String) -> (r: Command)
    ensures
        has_prefix_spec(line@, "/join"@) ==> r is Join,
        !has_prefix_spec(line@, "/join"@) && has_prefix_spec(line@, "/quit"@) ==> r is Quit,
        !has_prefix_spec(line@, "/join"@) && !has_prefix_spec(line@, "/quit"@) ==> r == Command::Say(line),
{
    if has_prefix(line.as_str(), "/join") {
        Command::Join
    } else if has_prefix(line.as_str(), "/quit") {
        Command::Quit
    } else {
        Command::Say(line)
    }
}

/// `s` begins with `p`.
pub open spec fn has_prefix_spec(s: Seq<char>, p: Seq<char>) -> bool {
    p.len() <= s.len() && s.subrange(0, p.len() as int) == p
}

/// The message a command sends, if any.
pub fn command_message(c: Command) -> (r: Option<Message>)
    ensures
        c is Join ==> r == Some(Message::RequestJoinGame(RequestJoinGame)),
        c is Quit ==> r is None,
        c matches Command::Say(t) ==> r == Some(Message::Text(TextMessage { text: t })),
{
    match c {
        Command::Join => Some(Message::RequestJoinGame(RequestJoinGame)),
        Command::Quit => None,
        Command::Say(t) => Some(Message::Text(TextMessage::new(t))),
    }
}

/// What the playing side does on a login status.
#[derive(Clone, Copy, Debug, PartialEq, Eq, Structural)]
pub enum LoginAction {
    /// Start reading the player's lines.
    StartInput,
    /// Close the connection.
    Shutdown,
}

/// A successful login starts reading input; a failed one closes the
/// connection.
pub fn on_login_status(success: bool) -> (r: LoginAction)
    ensures
        r == (if success { LoginAction::StartInput } else { LoginAction::Shutdown }),
{
    if success {
        LoginAction::StartInput
    } else {
        LoginAction::Shutdown
    }
}

} // verus!
