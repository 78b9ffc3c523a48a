//! The echo session of the socket: what is answered to each message.

use vstd::prelude::*;
use vstd::string::*;
use crate::id::generate_unique_id;

verus! {

/// A message of the socket.
#[derive(Clone, Debug)]
pub enum Message {
    Text(String),
    Binary(Vec<u8>),
    Ping(Vec<u8>),
    Pong(Vec<u8>),
    Close,
}

/// What the session does about a message.
#[derive(Debug)]
pub enum Reaction {
    /// Send this message and go on.
    Send(Message),
    /// Go on without an answer.
    Ignore,
    /// End the session.
    Stop,
}

/// The greeting of a client.
pub open spec fn welcome_text(client_id: Seq<char>) -> Seq<char> {
    "Your client ID: "@ + client_id
}

/// The echo of a text.
pub open spec fn echo_text(text: Seq<char>) -> Seq<char> {
    "You said: "@ + text
}

/// The identifier of a client: nine characters, minted against the
/// identifiers in use, or `unknown_client` where none was minted.
pub fn client_id(existing_ids: &Vec<String>) -> (id: String)
    ensures
        existing_ids.len() == 0 ==> crate::id::is_well_formed_id(id@, 9),
        crate::id::is_well_formed_id(id@, 9) && !crate::id::holds_id(existing_ids@, id@) || id@
            == "unknown_client"@,
{
    match generate_unique_id(9, existing_ids) {
        Some(id) => id,
        None => "unknown_client".to_owned(),
    }
}

/// The greeting that is sent to a client first.
pub fn welcome(client_id: &str) -> (message: Message)
    ensures
        message matches Message::Text(text) && text@ == welcome_text(client_id@),
{
    Message::Text("Your client ID: ".to_owned().concat(client_id))
}

/// What the session does about a message: a text is echoed with `You said: `
/// in front, bytes are echoed as they are, a ping is answered with a pong of
/// the same bytes, a pong is ignored, and a close ends the session.
pub fn handle_socket(message: Message) -> (reaction: Reaction)
    ensures
        match message {
            Message::Text(text) => reaction matches Reaction::Send(Message::Text(echo))
                && echo@ == echo_text(text@),
            Message::Binary(bytes) => reaction matches Reaction::Send(Message::Binary(echo))
                && echo@ == bytes@,
            Message::Ping(bytes) => reaction matches Reaction::Send(Message::Pong(echo)) && echo@
                == bytes@,
            Message::Pong(_) => reaction is Ignore,
            Message::Close => reaction is Stop,
        },
{
    match message {
        Message::Text(text) => Reaction::Send(
            Message::Text("You said: ".to_owned().concat(text.as_str())),
        ),
        Message::Binary(bytes) => Reaction::Send(Message::Binary(bytes)),
        Message::Ping(bytes) => Reaction::Send(Message::Pong(bytes)),
        Message::Pong(_) => Reaction::Ignore,
        Message::Close => Reaction::Stop,
    }
}

/// Whether the session goes on after an answer was sent, or could not be
/// sent.
pub fn goes_on(reaction: &Reaction, sent: bool) -> (on: bool)
    ensures
        on == match reaction {
            Reaction::Send(_) => sent,
            Reaction::Ignore => true,
            Reaction::Stop => false,
        },
{
    match reaction {
        Reaction::Send(_) => sent,
        Reaction::Ignore => true,
        Reaction::Stop => false,
    }
}

} // verus!
