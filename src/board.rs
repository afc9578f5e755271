//! The message board of the terminal front end: the events that the server
//! relayed, in the order they came.
use vstd::prelude::*;

use crate::message::{ChatrMessage, Content, MessageView, Username};

verus! {

/// One line of the board.
#[derive(Debug)]
pub enum BoardPost {
    Message { username: Username, content: Content },
    Connected(Username),
    Disconnected(Username),
}

/// A post, with the characters of its fields.
pub enum PostView {
    Message { username: Seq<char>, content: Seq<char> },
    Connected(Seq<char>),
    Disconnected(Seq<char>),
}

impl View for BoardPost {
    type V = PostView;

    open spec fn view(&self) -> PostView {
        match self {
            BoardPost::Message { username, content } => PostView::Message {
                username: username@,
                content: content@,
            },
            BoardPost::Connected(u) => PostView::Connected(u@),
            BoardPost::Disconnected(u) => PostView::Disconnected(u@),
        }
    }
}

/// The text of a post: `name: text`, `name connected` or `name disconnected`.
pub open spec fn post_label(p: PostView) -> Seq<char> {
    match p {
        PostView::Message { username, content } => username + ": "@ + content,
        PostView::Connected(u) => u + " connected"@,
        PostView::Disconnected(u) => u + " disconnected"@,
    }
}

/// The post that a message from the server puts on the board, if any.
pub open spec fn post_for(m: MessageView) -> Option<PostView> {
    match m {
        MessageView::ReceivedMessage { username, content } => Some(
            PostView::Message { username, content },
        ),
        MessageView::UserConnected { username } => Some(PostView::Connected(username)),
        MessageView::UserDisconnected { username } => Some(PostView::Disconnected(username)),
        _ => None,
    }
}

impl BoardPost {
    /// The text of the post.
    pub fn list_item(&self) -> (r: String)
        ensures
            r@ == post_label(self@),
    {
        match self {
            BoardPost::Message { username, content } => username.clone().concat(": ").concat(
                content.as_str(),
            ),
            BoardPost::Connected(u) => u.clone().concat(" connected"),
            BoardPost::Disconnected(u) => u.clone().concat(" disconnected"),
        }
    }

    /// Whether the post reports a presence change (drawn apart from messages).
    pub fn is_presence(&self) -> (r: bool)
        ensures
            r == !(self@ is Message),
    {
        match self {
            BoardPost::Message { .. } => false,
            _ => true,
        }
    }

    /// The post for a message from the server: relayed text and presence
    /// events have one, nothing else does.
    pub fn from_message(msg: ChatrMessage) -> (r: Option<BoardPost>)
        ensures
            match r {
                Some(p) => post_for(msg@) == Some(p@),
                None => post_for(msg@) is None,
            },
    {
        match msg {
            ChatrMessage::ReceivedMessage { username, content } => Some(
                BoardPost::Message { username, content },
            ),
            ChatrMessage::UserConnected { username } => Some(BoardPost::Connected(username)),
            ChatrMessage::UserDisconnected { username } => Some(BoardPost::Disconnected(username)),
            _ => None,
        }
    }
}

/// The posts of a list of posts.
pub open spec fn posts_of(v: Seq<BoardPost>) -> Seq<PostView> {
    v.map_values(|p: BoardPost| p@)
}

/// The board: posts in the order they arrived.
#[derive(Debug)]
pub struct MessageBoard {
    messages: Vec<BoardPost>,
}

impl View for MessageBoard {
    type V = Seq<PostView>;

    closed spec fn view(&self) -> Seq<PostView> {
        posts_of(self.messages@)
    }
}

impl MessageBoard {
    /// An empty board.
    pub fn new() -> (r: MessageBoard)
        ensures
            r@ == Seq::<PostView>::empty(),
    {
        let r = MessageBoard { messages: Vec::new() };
        assert(r@ =~= Seq::<PostView>::empty());
        r
    }

    fn push(&mut self, post: BoardPost)
        ensures
            final(self)@ == old(self)@.push(post@),
    {
        let ghost before = self.messages@;
        self.messages.push(post);
        assert(posts_of(self.messages@) =~= posts_of(before).push(post@));
    }

    pub fn user_disconnected(&mut self, username: Username)
        ensures
            final(self)@ == old(self)@.push(PostView::Disconnected(username@)),
    {
        self.push(BoardPost::Disconnected(username));
    }

    pub fn user_connected(&mut self, username: Username)
        ensures
            final(self)@ == old(self)@.push(PostView::Connected(username@)),
    {
        self.push(BoardPost::Connected(username));
    }

    pub fn post_message(&mut self, username: Username, content: Content)
        ensures
            final(self)@ == old(self)@.push(PostView::Message { username: username@, content: content@ }),
    {
        self.push(BoardPost::Message { username, content });
    }

    /// The posts, oldest first.
    pub fn posts(&self) -> (r: &Vec<BoardPost>)
        ensures
            posts_of(r@) == self@,
    {
        &self.messages
    }
}

impl Default for MessageBoard {
    fn default() -> (r: MessageBoard)
        ensures
            r@ == Seq::<PostView>::empty(),
    {
        MessageBoard::new()
    }
}

} // verus!
