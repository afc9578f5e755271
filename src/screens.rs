//! The state of the terminal front end's two screens: the login form and
//! the chat screen. Drawing them is left to the caller.
use vstd::prelude::*;

use crate::board::{post_for, MessageBoard, PostView};
use crate::message::{ChatrMessage, MessageView};
use crate::text_box::{edit, Key, TextBox, TitledTextBox};

verus! {

/// A button with a label.
#[derive(Debug)]
pub struct Button {
    text: String,
    selected: bool,
}

impl Button {
    /// The label.
    pub closed spec fn label(&self) -> Seq<char> {
        self.text@
    }

    /// Whether the button has the focus.
    pub closed spec fn is_selected(&self) -> bool {
        self.selected
    }

    /// A button without the focus.
    pub fn new(text: &str) -> (r: Button)
        ensures
            r.label() == text@,
            !r.is_selected(),
    {
        Button { text: text.to_owned(), selected: false }
    }

    pub fn unselect(&mut self)
        ensures
            final(self).label() == old(self).label(),
            !final(self).is_selected(),
    {
        self.selected = false;
    }

    pub fn select(&mut self)
        ensures
            final(self).label() == old(self).label(),
            final(self).is_selected(),
    {
        self.selected = true;
    }

    /// The label, for drawing.
    pub fn text(&self) -> (r: &str)
        ensures
            r@ == self.label(),
    {
        self.text.as_str()
    }

    /// Whether the button has the focus.
    pub fn selected(&self) -> (r: bool)
        ensures
            r == self.is_selected(),
    {
        self.selected
    }
}

/// The item below `i` among the form's three, wrapping to the top.
pub open spec fn item_below(i: nat) -> nat {
    if i + 1 == 3 {
        0
    } else {
        i + 1
    }
}

/// The item above `i` among the form's three, wrapping to the bottom.
pub open spec fn item_above(i: nat) -> nat {
    if i == 0 {
        2
    } else {
        (i - 1) as nat
    }
}

/// Whether a key may go into an input of `len` characters: a full input
/// takes no more characters.
pub open spec fn fits(len: nat, key: Key) -> bool {
    key is Char ==> len < u16::MAX
}

/// The login form: a name, a host, and a submit button, one of which has
/// the focus (0, 1 and 2, top to bottom).
#[derive(Debug)]
pub struct LoginFlow {
    username: TitledTextBox,
    host: TitledTextBox,
    submit_button: Button,
    exit: bool,
    selected_item: u8,
}

impl LoginFlow {
    pub closed spec fn username_box(&self) -> TitledTextBox {
        self.username
    }

    pub closed spec fn host_box(&self) -> TitledTextBox {
        self.host
    }

    pub closed spec fn button(&self) -> Button {
        self.submit_button
    }

    /// Whether the form is done.
    pub closed spec fn is_done(&self) -> bool {
        self.exit
    }

    /// Which item has the focus.
    pub closed spec fn focus(&self) -> nat {
        self.selected_item as nat
    }

    /// Exactly the item with the focus is drawn selected.
    pub open spec fn focus_shown(&self) -> bool {
        &&& self.username_box().is_selected() == (self.focus() == 0)
        &&& self.username_box().input().is_selected() == (self.focus() == 0)
        &&& self.username_box().input().cursor_inverted() == (self.focus() == 0)
        &&& self.host_box().is_selected() == (self.focus() == 1)
        &&& self.host_box().input().is_selected() == (self.focus() == 1)
        &&& self.host_box().input().cursor_inverted() == (self.focus() == 1)
        &&& self.button().is_selected() == (self.focus() == 2)
    }

    pub open spec fn wf(&self) -> bool {
        &&& self.focus() < 3
        &&& self.username_box().wf()
        &&& self.host_box().wf()
    }

    /// The two inputs' texts are kept.
    pub open spec fn texts_kept(&self, other: &LoginFlow) -> bool {
        &&& self.username_box().input().text() == other.username_box().input().text()
        &&& self.host_box().input().text() == other.host_box().input().text()
    }

    /// Ends the form.
    pub fn exit(&mut self)
        ensures
            final(self).is_done(),
            final(self).focus() == old(self).focus(),
            final(self).username_box() == old(self).username_box(),
            final(self).host_box() == old(self).host_box(),
            final(self).button() == old(self).button(),
    {
        self.exit = true;
    }

    /// Whether the form is done.
    pub fn done(&self) -> (r: bool)
        ensures
            r == self.is_done(),
    {
        self.exit
    }

    /// Shows the focus on the item that has it.
    pub fn set_selection(&mut self)
        requires
            old(self).wf(),
        ensures
            final(self).wf(),
            final(self).focus_shown(),
            final(self).focus() == old(self).focus(),
            final(self).is_done() == old(self).is_done(),
            final(self).texts_kept(old(self)),
    {
        if self.selected_item == 0 {
            self.username.select();
            self.host.unselect();
            self.submit_button.unselect();
        } else if self.selected_item == 1 {
            self.username.unselect();
            self.host.select();
            self.submit_button.unselect();
        } else {
            self.username.unselect();
            self.host.unselect();
            self.submit_button.select();
        }
    }

    /// Moves the focus down, from the button back to the top.
    pub fn select_down(&mut self)
        requires
            old(self).wf(),
        ensures
            final(self).wf(),
            final(self).focus_shown(),
            final(self).focus() == item_below(old(self).focus()),
            final(self).is_done() == old(self).is_done(),
            final(self).texts_kept(old(self)),
    {
        self.selected_item = self.selected_item + 1;
        if self.selected_item == 3 {
            self.selected_item = 0;
        }
        self.set_selection();
    }

    /// Moves the focus up, from the top to the button.
    pub fn select_up(&mut self)
        requires
            old(self).wf(),
        ensures
            final(self).wf(),
            final(self).focus_shown(),
            final(self).focus() == item_above(old(self).focus()),
            final(self).is_done() == old(self).is_done(),
            final(self).texts_kept(old(self)),
    {
        if self.selected_item == 0 {
            self.selected_item = 2;
        } else {
            self.selected_item = self.selected_item - 1;
        }
        self.set_selection();
    }

    /// Enter on the button submits the form; elsewhere it moves down.
    pub fn on_enter(&mut self)
        requires
            old(self).wf(),
        ensures
            final(self).wf(),
            final(self).texts_kept(old(self)),
            old(self).focus() == 2 ==> final(self).is_done() && final(self).focus() == 2,
            old(self).focus() != 2 ==> final(self).focus() == item_below(old(self).focus())
                && final(self).is_done() == old(self).is_done() && final(self).focus_shown(),
    {
        if self.selected_item == 2 {
            self.exit()
        } else {
            self.select_down()
        }
    }

    /// Handles one key press. Up, down and enter move the focus or submit;
    /// any other key goes to the name input when it has the focus and to the
    /// host input otherwise. Control-q quits, which the result reports.
    pub fn handle_key(&mut self, key: Key, control: bool) -> (quit: bool)
        requires
            old(self).wf(),
        ensures
            final(self).wf(),
            quit == (control && key == Key::Char('q')),
            control ==> *final(self) == *old(self),
            !control && key == Key::Up ==> final(self).focus() == item_above(old(self).focus())
                && final(self).texts_kept(old(self)),
            !control && key == Key::Down ==> final(self).focus() == item_below(old(self).focus())
                && final(self).texts_kept(old(self)),
            !control && key == Key::Enter ==> final(self).texts_kept(old(self)) && (if old(self).focus()
                == 2 {
                final(self).is_done()
            } else {
                final(self).focus() == item_below(old(self).focus())
            }),
            !control && key != Key::Up && key != Key::Down && key != Key::Enter ==> {
                let target = if old(self).focus() == 0 {
                    old(self).username_box()
                } else {
                    old(self).host_box()
                };
                let after = if old(self).focus() == 0 {
                    final(self).username_box()
                } else {
                    final(self).host_box()
                };
                let other_before = if old(self).focus() == 0 {
                    old(self).host_box()
                } else {
                    old(self).username_box()
                };
                let other_after = if old(self).focus() == 0 {
                    final(self).host_box()
                } else {
                    final(self).username_box()
                };
                &&& final(self).focus() == old(self).focus()
                &&& other_after == other_before
                &&& (after.input().text(), after.input().cursor_pos()) == if fits(
                    target.input().text().len(),
                    key,
                ) {
                    edit(target.input().text(), target.input().cursor_pos(), key)
                } else {
                    (target.input().text(), target.input().cursor_pos())
                }
            },
    {
        if control {
            return match key {
                Key::Char(c) => c == 'q',
                _ => false,
            };
        }
        match key {
            Key::Up => self.select_up(),
            Key::Down => self.select_down(),
            Key::Enter => self.on_enter(),
            other => {
                if self.selected_item == 0 {
                    let full = match other {
                        Key::Char(_) => self.username.text_box().len() >= 65535,
                        _ => false,
                    };
                    if !full {
                        self.username.handle_key_code(other);
                    }
                } else {
                    let full = match other {
                        Key::Char(_) => self.host.text_box().len() >= 65535,
                        _ => false,
                    };
                    if !full {
                        self.host.handle_key_code(other);
                    }
                }
            },
        }
        false
    }

    /// Hands out the name and the host typed, and empties both inputs.
    pub fn verify(&mut self) -> (r: (String, String))
        requires
            old(self).wf(),
        ensures
            final(self).wf(),
            r.0@ == old(self).username_box().input().text(),
            r.1@ == old(self).host_box().input().text(),
            final(self).username_box().input().text() == Seq::<char>::empty(),
            final(self).host_box().input().text() == Seq::<char>::empty(),
            final(self).focus() == old(self).focus(),
            final(self).is_done() == old(self).is_done(),
    {
        let user = self.username.take_buffer();
        let host = self.host.take_buffer();
        (user, host)
    }

    /// The name input, for drawing.
    pub fn username(&self) -> (r: &TitledTextBox)
        ensures
            *r == self.username_box(),
    {
        &self.username
    }

    /// The host input, for drawing.
    pub fn host(&self) -> (r: &TitledTextBox)
        ensures
            *r == self.host_box(),
    {
        &self.host
    }

    /// The submit button, for drawing.
    pub fn submit_button(&self) -> (r: &Button)
        ensures
            *r == self.button(),
    {
        &self.submit_button
    }
}

impl Default for LoginFlow {
    /// The form as it opens: empty inputs, the focus on the name.
    fn default() -> (r: LoginFlow)
        ensures
            r.wf(),
            r.focus() == 0,
            r.focus_shown(),
            !r.is_done(),
            r.username_box().input().text() == Seq::<char>::empty(),
            r.host_box().input().text() == Seq::<char>::empty(),
    {
        let mut user_text = TextBox::new();
        user_text.select();
        LoginFlow {
            username: TitledTextBox::new(user_text, "username", true),
            host: TitledTextBox::title("host"),
            exit: false,
            selected_item: 0,
            submit_button: Button::new("Submit"),
        }
    }
}

/// The chat screen: the board, the input line, and whether to leave.
#[derive(Debug)]
pub struct App {
    message_board: MessageBoard,
    buffer: TextBox,
    exit: bool,
}

impl App {
    pub closed spec fn board(&self) -> Seq<PostView> {
        self.message_board@
    }

    pub closed spec fn input(&self) -> TextBox {
        self.buffer
    }

    pub closed spec fn is_done(&self) -> bool {
        self.exit
    }

    pub open spec fn wf(&self) -> bool {
        self.input().wf()
    }

    /// Asks to leave the chat screen.
    pub fn exit(&mut self)
        ensures
            final(self).is_done(),
            final(self).board() == old(self).board(),
            final(self).input() == old(self).input(),
    {
        self.exit = true;
    }

    /// Whether the chat screen is to close.
    pub fn done(&self) -> (r: bool)
        ensures
            r == self.is_done(),
    {
        self.exit
    }

    /// Takes the typed line out of the input: the message to send, unless
    /// the line is empty.
    pub fn send_message(&mut self) -> (r: Option<ChatrMessage>)
        requires
            old(self).wf(),
        ensures
            final(self).wf(),
            final(self).input().text() == Seq::<char>::empty(),
            final(self).board() == old(self).board(),
            final(self).is_done() == old(self).is_done(),
            old(self).input().text().len() == 0 ==> r is None,
            old(self).input().text().len() > 0 ==> (r matches Some(m) && m@
                == (MessageView::SentMessage { content: old(self).input().text() })),
    {
        let msg = self.buffer.take_buffer();
        if msg.as_str().is_empty() {
            None
        } else {
            Some(ChatrMessage::SentMessage { content: msg })
        }
    }

    /// Handles one key press: enter sends the typed line (if any), other
    /// keys edit it, control-q leaves. Returns the message to send.
    pub fn on_key(&mut self, key: Key, control: bool) -> (r: Option<ChatrMessage>)
        requires
            old(self).wf(),
        ensures
            final(self).wf(),
            final(self).board() == old(self).board(),
            control ==> r is None && final(self).input() == old(self).input() && final(self).is_done()
                == (old(self).is_done() || key == Key::Char('q')),
            !control && key == Key::Enter ==> (if old(self).input().text().len() == 0 {
                r is None && final(self).input() == old(self).input()
            } else {
                (r matches Some(m) && m@ == (MessageView::SentMessage {
                    content: old(self).input().text(),
                })) && final(self).input().text() == Seq::<char>::empty()
            }),
            !control && key != Key::Enter ==> r is None && (final(self).input().text(),
                final(self).input().cursor_pos()) == (if fits(old(self).input().text().len(), key) {
                edit(old(self).input().text(), old(self).input().cursor_pos(), key)
            } else {
                (old(self).input().text(), old(self).input().cursor_pos())
            }),
    {
        if control {
            match key {
                Key::Char(c) => {
                    if c == 'q' {
                        self.exit();
                    }
                },
                _ => {},
            }
            return None;
        }
        match key {
            Key::Enter => {
                if !self.buffer.is_empty() {
                    self.send_message()
                } else {
                    None
                }
            },
            other => {
                let full = match other {
                    Key::Char(_) => self.buffer.len() >= 65535,
                    _ => false,
                };
                if !full {
                    self.buffer.handle_key_code(other);
                }
                None
            },
        }
    }

    /// Handles a message from the server: relayed text and presence events go
    /// on the board; `Disconnect` closes the screen; nothing else shows.
    pub fn on_server_message(&mut self, msg: ChatrMessage)
        ensures
            final(self).input() == old(self).input(),
            final(self).board() == match post_for(msg@) {
                Some(p) => old(self).board().push(p),
                None => old(self).board(),
            },
            final(self).is_done() == (old(self).is_done() || msg@ is Disconnect),
    {
        match msg {
            ChatrMessage::ReceivedMessage { username, content } => self.message_board.post_message(
                username,
                content,
            ),
            ChatrMessage::UserConnected { username } => self.message_board.user_connected(username),
            ChatrMessage::UserDisconnected { username } => self.message_board.user_disconnected(
                username,
            ),
            ChatrMessage::Disconnect => self.exit(),
            _ => {},
        }
    }

    /// The board, for drawing.
    pub fn message_board(&self) -> (r: &MessageBoard)
        ensures
            r@ == self.board(),
    {
        &self.message_board
    }

    /// The input line, for drawing.
    pub fn buffer(&self) -> (r: &TextBox)
        ensures
            *r == self.input(),
    {
        &self.buffer
    }
}

impl Default for App {
    /// An empty board and input.
    fn default() -> (r: App)
        ensures
            r.wf(),
            r.board() == Seq::<PostView>::empty(),
            r.input().text() == Seq::<char>::empty(),
            !r.is_done(),
    {
        App { message_board: MessageBoard::new(), buffer: TextBox::new(), exit: false }
    }
}

} // verus!
