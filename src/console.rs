//! The line-oriented client: what a typed line sends, and what an incoming
//! message prints.
use vstd::prelude::*;

use crate::board::{post_for, post_label, BoardPost};
use crate::message::{ChatrMessage, MessageView};

verus! {

/// Unicode's `White_Space` characters, which `char::is_whitespace` accepts.
pub open spec fn is_white_space(c: char) -> bool {
    let u = c as u32;
    ||| u == 0x20
    ||| 0x9 <= u <= 0xd
    ||| u == 0x85
    ||| u == 0xa0
    ||| u == 0x1680
    ||| 0x2000 <= u <= 0x200a
    ||| u == 0x2028
    ||| u == 0x2029
    ||| u == 0x202f
    ||| u == 0x205f
    ||| u == 0x3000
}

/// `s` without its leading white space.
pub open spec fn trim_start(s: Seq<char>) -> Seq<char>
    decreases s.len(),
{
    if s.len() > 0 && is_white_space(s[0]) {
        trim_start(s.drop_first())
    } else {
        s
    }
}

/// `s` without its trailing white space.
pub open spec fn trim_end(s: Seq<char>) -> Seq<char>
    decreases s.len(),
{
    if s.len() > 0 && is_white_space(s.last()) {
        trim_end(s.drop_last())
    } else {
        s
    }
}

/// `s` without leading or trailing white space.
pub open spec fn trimmed(s: Seq<char>) -> Seq<char> {
    trim_end(trim_start(s))
}

/// Relies on `str::trim`: the slice without leading and trailing white
/// space, as Unicode's `White_Space` property defines it.
#[verifier::external_body]
pub(crate) fn trim(s: &str) -> (r: &str)
    ensures
        r@ == trimmed(s@),
{
    s.trim()
}

/// A typed line without its surrounding white space, unless nothing is left.
pub fn nonblank(line: &str) -> (r: Option<String>)
    ensures
        r is None <==> trimmed(line@).len() == 0,
        r matches Some(t) ==> t@ == trimmed(line@),
{
    let t = trim(line);
    if t.is_empty() {
        None
    } else {
        Some(t.to_owned())
    }
}

/// The message that a typed line sends: its text without the surrounding
/// white space; a blank line sends nothing.
pub fn outgoing_line(line: &str) -> (r: Option<ChatrMessage>)
    ensures
        trimmed(line@).len() == 0 ==> r is None,
        trimmed(line@).len() > 0 ==> (r matches Some(m) && m@ == (MessageView::SentMessage {
            content: trimmed(line@),
        })),
{
    match nonblank(line) {
        Some(content) => Some(ChatrMessage::SentMessage { content }),
        None => None,
    }
}

/// What the line client does with a message from the server.
pub enum LineEvent {
    /// Print this line.
    Print(String),
    /// The connection is over.
    Stop,
    /// Nothing to show.
    Skip,
}

/// The line printed for a message from the server: relayed text as
/// `name:text`, presence events as the board shows them; nothing for the rest.
pub open spec fn printed_line(m: MessageView) -> Option<Seq<char>> {
    match m {
        MessageView::ReceivedMessage { username, content } => Some(username + ":"@ + content),
        MessageView::UserConnected { .. } | MessageView::UserDisconnected { .. } => Some(
            post_label(post_for(m)->0),
        ),
        _ => None,
    }
}

/// Prints relayed text and presence events, stops at `Disconnect`, and
/// skips everything else.
pub fn incoming_line(msg: ChatrMessage) -> (r: LineEvent)
    ensures
        match printed_line(msg@) {
            Some(line) => (r matches LineEvent::Print(l) && l@ == line),
            None => if msg@ is Disconnect {
                r is Stop
            } else {
                r is Skip
            },
        },
{
    match msg {
        ChatrMessage::Disconnect => LineEvent::Stop,
        ChatrMessage::ReceivedMessage { username, content } => LineEvent::Print(
            username.concat(":").concat(content.as_str()),
        ),
        other => match BoardPost::from_message(other) {
            Some(post) => LineEvent::Print(post.list_item()),
            None => LineEvent::Skip,
        },
    }
}

} // verus!
