//! The protocol's messages.
use vstd::prelude::*;

verus! {

/// A client's name, supplied at login and used as its key in the chatroom.
pub type Username = String;

/// The text of a chat message.
pub type Content = String;

/// The closed set of messages exchanged between clients and the server.
#[derive(Debug, Clone, PartialEq, Eq)]
pub enum ChatrMessage {
    /// Sent by a client that wants to join the chatroom.
    LoginRequest { username: Username },
    /// Sent by the server when the client may join.
    LoginAccepted,
    /// Sent by the server when the client may not join, with the reason.
    LoginRejected { reason: String },
    /// A client's message; the server adds the sender's name.
    SentMessage { content: Content },
    /// A message as the server relays it, tagged with its sender.
    ReceivedMessage { username: Username, content: Content },
    /// Emitted when a user joins.
    UserConnected { username: Username },
    /// Emitted when a user leaves.
    UserDisconnected { username: Username },
    /// Marks the end of a connection.
    Disconnect,
}

/// The mathematical value of a message: its variant and the characters of
/// its fields.
pub enum MessageView {
    LoginRequest { username: Seq<char> },
    LoginAccepted,
    LoginRejected { reason: Seq<char> },
    SentMessage { content: Seq<char> },
    ReceivedMessage { username: Seq<char>, content: Seq<char> },
    UserConnected { username: Seq<char> },
    UserDisconnected { username: Seq<char> },
    Disconnect,
}

impl View for ChatrMessage {
    type V = MessageView;

    open spec fn view(&self) -> MessageView {
        match self {
            ChatrMessage::LoginRequest { username } => MessageView::LoginRequest {
                username: username@,
            },
            ChatrMessage::LoginAccepted => MessageView::LoginAccepted,
            ChatrMessage::LoginRejected { reason } => MessageView::LoginRejected { reason: reason@ },
            ChatrMessage::SentMessage { content } => MessageView::SentMessage { content: content@ },
            ChatrMessage::ReceivedMessage { username, content } => MessageView::ReceivedMessage {
                username: username@,
                content: content@,
            },
            ChatrMessage::UserConnected { username } => MessageView::UserConnected {
                username: username@,
            },
            ChatrMessage::UserDisconnected { username } => MessageView::UserDisconnected {
                username: username@,
            },
            ChatrMessage::Disconnect => MessageView::Disconnect,
        }
    }
}

} // verus!
