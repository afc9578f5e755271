//! A one-line text input: the characters typed so far, a cursor among them,
//! and whether the input has the focus.
use vstd::prelude::*;

verus! {

/// A key that a text input reacts to; every other key is `Other`.
#[derive(Debug, Clone, Copy, PartialEq, Eq)]
pub enum Key {
    Char(char),
    Backspace,
    Delete,
    Left,
    Right,
    Up,
    Down,
    Enter,
    Other,
}

/// Relies on `String`'s `FromIterator<char>`: the string made of exactly
/// these characters, in order.
#[verifier::external_body]
fn string_of_chars(chars: &Vec<char>) -> (r: String)
    ensures
        r@ == chars@,
{
    chars.iter().collect()
}

/// The little square that shows where text goes in and comes out.
#[derive(Debug)]
pub struct Cursor {
    position: u16,
    inverted: bool,
}

impl Cursor {
    /// Its position, counted in characters.
    pub closed spec fn pos(&self) -> nat {
        self.position as nat
    }

    /// Whether it is drawn inverted (its input has the focus).
    pub closed spec fn is_inverted(&self) -> bool {
        self.inverted
    }

    /// A cursor at the start, not inverted.
    pub fn new() -> (r: Cursor)
        ensures
            r.pos() == 0,
            !r.is_inverted(),
    {
        Cursor { position: 0, inverted: false }
    }

    pub fn unselect(&mut self)
        ensures
            final(self).pos() == old(self).pos(),
            !final(self).is_inverted(),
    {
        self.inverted = false;
    }

    pub fn select(&mut self)
        ensures
            final(self).pos() == old(self).pos(),
            final(self).is_inverted(),
    {
        self.inverted = true;
    }

    /// One character to the right.
    pub fn forward(&mut self)
        requires
            old(self).pos() < u16::MAX,
        ensures
            final(self).pos() == old(self).pos() + 1,
            final(self).is_inverted() == old(self).is_inverted(),
    {
        self.position = self.position + 1;
    }

    /// One character to the left, stopping at the start.
    pub fn backward(&mut self)
        ensures
            final(self).pos() == if old(self).pos() == 0 {
                0
            } else {
                old(self).pos() - 1
            },
            final(self).is_inverted() == old(self).is_inverted(),
    {
        if self.position != 0 {
            self.position = self.position - 1;
        }
    }

    pub fn position(&self) -> (r: usize)
        ensures
            r == self.pos(),
    {
        self.position as usize
    }

    /// Back to the start.
    pub fn reset(&mut self)
        ensures
            final(self).pos() == 0,
            final(self).is_inverted() == old(self).is_inverted(),
    {
        self.position = 0;
    }
}

/// The text and cursor after a key, from `text` with the cursor at `pos`.
pub open spec fn edit(text: Seq<char>, pos: nat, key: Key) -> (Seq<char>, nat) {
    match key {
        Key::Char(c) => (text.insert(pos as int, c), pos + 1),
        Key::Backspace => if text.len() > 0 && pos > 0 {
            (text.remove(pos - 1), (pos - 1) as nat)
        } else {
            (text, pos)
        },
        Key::Delete => if pos < text.len() {
            (text.remove(pos as int), pos)
        } else {
            (text, pos)
        },
        Key::Left => (
            text,
            if pos == 0 {
                0
            } else {
                (pos - 1) as nat
            },
        ),
        Key::Right => (
            text,
            if pos < text.len() {
                pos + 1
            } else {
                pos
            },
        ),
        _ => (text, pos),
    }
}

/// A one-line text input.
#[derive(Debug)]
pub struct TextBox {
    buffer: Vec<char>,
    cursor: Cursor,
    selected: bool,
}

impl TextBox {
    /// The characters typed so far.
    pub closed spec fn text(&self) -> Seq<char> {
        self.buffer@
    }

    /// Where the cursor stands, in characters.
    pub closed spec fn cursor_pos(&self) -> nat {
        self.cursor.pos()
    }

    /// Whether the input has the focus.
    pub closed spec fn is_selected(&self) -> bool {
        self.selected
    }

    /// Whether the cursor shows the focus.
    pub closed spec fn cursor_inverted(&self) -> bool {
        self.cursor.is_inverted()
    }

    /// The cursor stands within the text, whose length the cursor can count.
    pub open spec fn wf(&self) -> bool {
        &&& self.cursor_pos() <= self.text().len()
        &&& self.text().len() <= u16::MAX
    }

    /// An empty input without the focus.
    pub fn new() -> (r: TextBox)
        ensures
            r.wf(),
            r.text() == Seq::<char>::empty(),
            r.cursor_pos() == 0,
            !r.is_selected(),
            !r.cursor_inverted(),
    {
        TextBox { buffer: Vec::new(), cursor: Cursor::new(), selected: false }
    }

    pub fn unselect(&mut self)
        ensures
            final(self).text() == old(self).text(),
            final(self).cursor_pos() == old(self).cursor_pos(),
            !final(self).is_selected(),
            !final(self).cursor_inverted(),
    {
        self.selected = false;
        self.cursor.unselect();
    }

    pub fn select(&mut self)
        ensures
            final(self).text() == old(self).text(),
            final(self).cursor_pos() == old(self).cursor_pos(),
            final(self).is_selected(),
            final(self).cursor_inverted(),
    {
        self.selected = true;
        self.cursor.select();
    }

    pub fn is_empty(&mut self) -> (r: bool)
        ensures
            r == (old(self).text().len() == 0),
            *final(self) == *old(self),
    {
        self.buffer.len() == 0
    }

    /// The number of characters typed.
    pub fn len(&self) -> (r: usize)
        ensures
            r == self.text().len(),
    {
        self.buffer.len()
    }

    /// Hands out the text and leaves the input empty, cursor at the start.
    pub fn take_buffer(&mut self) -> (r: String)
        ensures
            r@ == old(self).text(),
            final(self).wf(),
            final(self).text() == Seq::<char>::empty(),
            final(self).cursor_pos() == 0,
            final(self).is_selected() == old(self).is_selected(),
            final(self).cursor_inverted() == old(self).cursor_inverted(),
    {
        self.cursor.reset();
        let r = string_of_chars(&self.buffer);
        self.buffer = Vec::new();
        r
    }

    /// The text as a string.
    pub fn contents(&self) -> (r: String)
        ensures
            r@ == self.text(),
    {
        string_of_chars(&self.buffer)
    }

    /// The cursor's position, in characters.
    pub fn cursor_position(&self) -> (r: usize)
        ensures
            r == self.cursor_pos(),
    {
        self.cursor.position()
    }

    /// Whether the input has the focus.
    pub fn selected(&self) -> (r: bool)
        ensures
            r == self.is_selected(),
    {
        self.selected
    }

    /// Edits the text for one key: a character goes in at the cursor,
    /// backspace removes the one before it, delete the one under it, and the
    /// arrows move the cursor within the text.
    pub fn handle_key_code(&mut self, key: Key)
        requires
            old(self).wf(),
            key is Char ==> old(self).text().len() < u16::MAX,
        ensures
            final(self).wf(),
            (final(self).text(), final(self).cursor_pos()) == edit(
                old(self).text(),
                old(self).cursor_pos(),
                key,
            ),
            final(self).is_selected() == old(self).is_selected(),
            final(self).cursor_inverted() == old(self).cursor_inverted(),
    {
        match key {
            Key::Char(c) => {
                if self.cursor.position() == self.buffer.len() {
                    self.buffer.push(c);
                    self.cursor.forward();
                } else {
                    self.buffer.insert(self.cursor.position(), c);
                    self.cursor.forward();
                }
                assert(self.buffer@ =~= old(self).text().insert(old(self).cursor_pos() as int, c));
            },
            Key::Backspace => {
                if self.buffer.len() != 0 {
                    if self.cursor.position() == self.buffer.len() {
                        let ghost before = self.buffer@;
                        if self.buffer.pop().is_some() {
                            self.cursor.backward();
                        }
                        assert(self.buffer@ =~= before.remove(before.len() - 1));
                    } else if self.cursor.position() != 0 {
                        self.buffer.remove(self.cursor.position() - 1);
                        self.cursor.backward();
                    }
                }
            },
            Key::Delete => {
                if self.buffer.len() != 0 && self.cursor.position() != self.buffer.len() {
                    self.buffer.remove(self.cursor.position());
                }
            },
            Key::Left => self.cursor.backward(),
            Key::Right => {
                if self.cursor.position() < self.buffer.len() {
                    self.cursor.forward()
                }
            },
            _ => {},
        }
    }
}

impl Default for TextBox {
    fn default() -> (r: TextBox)
        ensures
            r.wf(),
            r.text() == Seq::<char>::empty(),
            r.cursor_pos() == 0,
            !r.is_selected(),
    {
        TextBox::new()
    }
}

/// A text input with a title, and whether the pair has the focus.
#[derive(Debug)]
pub struct TitledTextBox {
    text_box: TextBox,
    title: String,
    selected: bool,
}

impl TitledTextBox {
    /// The input inside.
    pub closed spec fn input(&self) -> TextBox {
        self.text_box
    }

    /// The title.
    pub closed spec fn title_view(&self) -> Seq<char> {
        self.title@
    }

    /// Whether the titled input has the focus.
    pub closed spec fn is_selected(&self) -> bool {
        self.selected
    }

    pub open spec fn wf(&self) -> bool {
        self.input().wf()
    }

    pub fn new(text_box: TextBox, title: &str, selected: bool) -> (r: TitledTextBox)
        ensures
            r.input() == text_box,
            r.title_view() == title@,
            r.is_selected() == selected,
    {
        TitledTextBox { text_box, title: title.to_owned(), selected }
    }

    /// An empty titled input without the focus.
    pub fn title(title: &str) -> (r: TitledTextBox)
        ensures
            r.wf(),
            r.input().text() == Seq::<char>::empty(),
            r.input().cursor_pos() == 0,
            !r.input().is_selected(),
            !r.input().cursor_inverted(),
            r.title_view() == title@,
            !r.is_selected(),
    {
        TitledTextBox { text_box: TextBox::new(), title: title.to_owned(), selected: false }
    }

    /// Hands out the input's text and empties it.
    pub fn take_buffer(&mut self) -> (r: String)
        ensures
            r@ == old(self).input().text(),
            final(self).wf(),
            final(self).input().text() == Seq::<char>::empty(),
            final(self).input().is_selected() == old(self).input().is_selected(),
            final(self).title_view() == old(self).title_view(),
            final(self).is_selected() == old(self).is_selected(),
    {
        self.text_box.take_buffer()
    }

    pub fn unselect(&mut self)
        ensures
            final(self).input().text() == old(self).input().text(),
            final(self).input().cursor_pos() == old(self).input().cursor_pos(),
            !final(self).input().is_selected(),
            !final(self).input().cursor_inverted(),
            final(self).title_view() == old(self).title_view(),
            !final(self).is_selected(),
    {
        self.selected = false;
        self.text_box.unselect();
    }

    pub fn select(&mut self)
        ensures
            final(self).input().text() == old(self).input().text(),
            final(self).input().cursor_pos() == old(self).input().cursor_pos(),
            final(self).input().is_selected(),
            final(self).input().cursor_inverted(),
            final(self).title_view() == old(self).title_view(),
            final(self).is_selected(),
    {
        self.selected = true;
        self.text_box.select();
    }

    /// Passes a key to the input.
    pub fn handle_key_code(&mut self, key: Key)
        requires
            old(self).wf(),
            key is Char ==> old(self).input().text().len() < u16::MAX,
        ensures
            final(self).wf(),
            (final(self).input().text(), final(self).input().cursor_pos()) == edit(
                old(self).input().text(),
                old(self).input().cursor_pos(),
                key,
            ),
            final(self).input().is_selected() == old(self).input().is_selected(),
            final(self).title_view() == old(self).title_view(),
            final(self).is_selected() == old(self).is_selected(),
    {
        self.text_box.handle_key_code(key);
    }

    /// The input inside, for drawing.
    pub fn text_box(&self) -> (r: &TextBox)
        ensures
            *r == self.input(),
    {
        &self.text_box
    }

    /// The title, for drawing.
    pub fn title_text(&self) -> (r: &str)
        ensures
            r@ == self.title_view(),
    {
        self.title.as_str()
    }

    /// Whether the titled input has the focus.
    pub fn selected(&self) -> (r: bool)
        ensures
            r == self.is_selected(),
    {
        self.selected
    }
}

} // verus!
