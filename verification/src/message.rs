//! The envelopes that travel between a connection and the server.

use vstd::prelude::*;
use vstd::string::*;
use crate::store::SharedState;

verus! {

/// What a client sends.
#[derive(Debug)]
#[allow(inconsistent_fields)]
pub enum ClientMessage {
    /// Claims `data` as the connection's display name.
    SetName { data: String },
    /// Adds `data` to the counter kept under the connection's name.
    AddCount { data: u64 },
    /// Says `data` to the other connections.
    SendMessage { data: String },
}

/// What the server sends.
#[derive(Debug)]
pub enum ServerMessage {
    /// The shared counters as they stood when the message was made.
    UpdateState { new_state: SharedState },
    /// A line for the client's log.
    Log { message: String },
    /// Chat text with the name of the connection that said it.
    ChatMessage { message: String, username: String },
}

/// A client envelope as a plain value.
#[allow(inconsistent_fields)]
pub enum ClientMessageView {
    SetName { data: Seq<char> },
    AddCount { data: nat },
    SendMessage { data: Seq<char> },
}

/// A server envelope as a plain value.
pub enum ServerMessageView {
    UpdateState { new_state: Map<Seq<char>, nat> },
    Log { message: Seq<char> },
    ChatMessage { message: Seq<char>, username: Seq<char> },
}

impl View for ClientMessage {
    type V = ClientMessageView;

    open spec fn view(&self) -> ClientMessageView {
        match *self {
            ClientMessage::SetName { data } => ClientMessageView::SetName { data: data@ },
            ClientMessage::AddCount { data } => ClientMessageView::AddCount { data: data as nat },
            ClientMessage::SendMessage { data } => ClientMessageView::SendMessage { data: data@ },
        }
    }
}

impl View for ServerMessage {
    type V = ServerMessageView;

    open spec fn view(&self) -> ServerMessageView {
        match *self {
            ServerMessage::UpdateState { new_state } => ServerMessageView::UpdateState {
                new_state: new_state@,
            },
            ServerMessage::Log { message } => ServerMessageView::Log { message: message@ },
            ServerMessage::ChatMessage { message, username } => ServerMessageView::ChatMessage {
                message: message@,
                username: username@,
            },
        }
    }
}

impl Clone for ClientMessage {
    fn clone(&self) -> (copy: ClientMessage)
        ensures
            copy@ == self@,
    {
        match self {
            ClientMessage::SetName { data } => ClientMessage::SetName { data: data.clone() },
            ClientMessage::AddCount { data } => ClientMessage::AddCount { data: *data },
            ClientMessage::SendMessage { data } => ClientMessage::SendMessage {
                data: data.clone(),
            },
        }
    }
}

impl Clone for ServerMessage {
    fn clone(&self) -> (copy: ServerMessage)
        ensures
            copy@ == self@,
    {
        match self {
            ServerMessage::UpdateState { new_state } => ServerMessage::UpdateState {
                new_state: new_state.get_snapshot(),
            },
            ServerMessage::Log { message } => ServerMessage::Log { message: message.clone() },
            ServerMessage::ChatMessage { message, username } => ServerMessage::ChatMessage {
                message: message.clone(),
                username: username.clone(),
            },
        }
    }
}

} // verus!
