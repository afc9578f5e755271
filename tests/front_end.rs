use chatr::board::{BoardPost, MessageBoard};
use chatr::console::{incoming_line, nonblank, outgoing_line, LineEvent};
use chatr::screens::{App, Button, LoginFlow};
use chatr::text_box::{Cursor, Key, TextBox, TitledTextBox};
use chatr::ChatrMessage;

fn s(x: &str) -> String {
    x.to_string()
}

fn typed(text: &str) -> TextBox {
    let mut tb = TextBox::new();
    for c in text.chars() {
        tb.handle_key_code(Key::Char(c));
    }
    tb
}

#[test]
fn cursor_moves_and_stops_at_start() {
    let mut c = Cursor::new();
    c.forward();
    c.forward();
    assert_eq!(c.position(), 2);
    c.backward();
    c.backward();
    c.backward();
    assert_eq!(c.position(), 0);
    c.forward();
    c.reset();
    assert_eq!(c.position(), 0);
    c.select();
    c.unselect();
}

#[test]
fn typing_inserts_at_the_cursor() {
    let mut tb = typed("ac");
    tb.handle_key_code(Key::Left);
    tb.handle_key_code(Key::Char('b'));
    assert_eq!(tb.contents(), "abc");
    assert_eq!(tb.cursor_position(), 2);
    tb.handle_key_code(Key::Right);
    tb.handle_key_code(Key::Right);
    assert_eq!(tb.cursor_position(), 3);
    tb.handle_key_code(Key::Char('é'));
    assert_eq!(tb.contents(), "abcé");
    assert_eq!(tb.len(), 4);
}

#[test]
fn backspace_and_delete_edit_around_the_cursor() {
    let mut tb = typed("abcd");
    tb.handle_key_code(Key::Backspace);
    assert_eq!(tb.contents(), "abc");
    tb.handle_key_code(Key::Left);
    tb.handle_key_code(Key::Backspace);
    assert_eq!(tb.contents(), "ac");
    assert_eq!(tb.cursor_position(), 1);
    tb.handle_key_code(Key::Delete);
    assert_eq!(tb.contents(), "a");
    tb.handle_key_code(Key::Delete);
    assert_eq!(tb.contents(), "a");
    tb.handle_key_code(Key::Left);
    tb.handle_key_code(Key::Backspace);
    assert_eq!(tb.contents(), "a");
    tb.handle_key_code(Key::Other);
    assert_eq!(tb.contents(), "a");
}

#[test]
fn take_buffer_empties_the_input() {
    let mut tb = typed("hello");
    assert!(!tb.is_empty());
    assert_eq!(tb.take_buffer(), "hello");
    assert!(tb.is_empty());
    assert_eq!(tb.cursor_position(), 0);
    assert_eq!(TextBox::default().len(), 0);
}

#[test]
fn titled_box_passes_keys_and_focus() {
    let mut t = TitledTextBox::title("host");
    assert_eq!(t.title_text(), "host");
    assert!(!t.selected());
    t.select();
    assert!(t.selected() && t.text_box().selected());
    t.handle_key_code(Key::Char('x'));
    assert_eq!(t.take_buffer(), "x");
    t.unselect();
    assert!(!t.selected() && !t.text_box().selected());
    let n = TitledTextBox::new(typed("q"), "name", true);
    assert!(n.selected());
    assert_eq!(n.text_box().contents(), "q");
}

#[test]
fn board_posts_read_as_lines() {
    let mut board = MessageBoard::default();
    board.post_message(s("alice"), s("hi"));
    board.user_connected(s("bob"));
    board.user_disconnected(s("bob"));
    let lines: Vec<String> = board.posts().iter().map(|p| p.list_item()).collect();
    assert_eq!(lines, vec![s("alice: hi"), s("bob connected"), s("bob disconnected")]);
    assert!(!board.posts()[0].is_presence());
    assert!(board.posts()[1].is_presence());
    assert!(BoardPost::from_message(ChatrMessage::LoginAccepted).is_none());
}

#[test]
fn login_form_cycles_focus() {
    let mut lf = LoginFlow::default();
    assert!(lf.username().selected());
    lf.select_down();
    assert!(lf.host().selected() && !lf.username().selected());
    lf.select_down();
    assert!(lf.submit_button().selected() && !lf.host().selected());
    lf.select_down();
    assert!(lf.username().selected() && !lf.submit_button().selected());
    lf.select_up();
    assert!(lf.submit_button().selected());
    lf.on_enter();
    assert!(lf.done());
}

#[test]
fn login_form_collects_name_and_host() {
    let mut lf = LoginFlow::default();
    for c in "alice".chars() {
        assert!(!lf.handle_key(Key::Char(c), false));
    }
    lf.handle_key(Key::Enter, false);
    for c in "localhost:1999".chars() {
        lf.handle_key(Key::Char(c), false);
    }
    lf.handle_key(Key::Backspace, false);
    lf.handle_key(Key::Down, false);
    assert!(!lf.done());
    lf.handle_key(Key::Enter, false);
    assert!(lf.done());
    assert_eq!(lf.verify(), (s("alice"), s("localhost:199")));
    assert!(lf.handle_key(Key::Char('q'), true));
    assert!(!lf.handle_key(Key::Char('x'), true));
}

#[test]
fn button_focus() {
    let mut b = Button::new("Submit");
    assert_eq!(b.text(), "Submit");
    assert!(!b.selected());
    b.select();
    assert!(b.selected());
    b.unselect();
    assert!(!b.selected());
}

#[test]
fn chat_screen_sends_typed_lines() {
    let mut app = App::default();
    assert_eq!(app.on_key(Key::Enter, false), None);
    for c in "hey".chars() {
        assert_eq!(app.on_key(Key::Char(c), false), None);
    }
    assert_eq!(app.on_key(Key::Enter, false), Some(ChatrMessage::SentMessage { content: s("hey") }));
    assert!(app.buffer().contents().is_empty());
    assert_eq!(app.send_message(), None);
    assert_eq!(app.on_key(Key::Char('q'), true), None);
    assert!(app.done());
}

#[test]
fn chat_screen_shows_server_events() {
    let mut app = App::default();
    app.on_server_message(ChatrMessage::UserConnected { username: s("bob") });
    app.on_server_message(ChatrMessage::ReceivedMessage { username: s("bob"), content: s("yo") });
    app.on_server_message(ChatrMessage::LoginAccepted);
    let lines: Vec<String> = app.message_board().posts().iter().map(|p| p.list_item()).collect();
    assert_eq!(lines, vec![s("bob connected"), s("bob: yo")]);
    assert!(!app.done());
    app.on_server_message(ChatrMessage::Disconnect);
    assert!(app.done());
}

#[test]
fn typed_lines_are_trimmed() {
    assert_eq!(
        outgoing_line("  hello there \n"),
        Some(ChatrMessage::SentMessage { content: s("hello there") })
    );
    assert_eq!(outgoing_line(" \t\n"), None);
    assert_eq!(outgoing_line(""), None);
    assert_eq!(nonblank("\u{3000}bob\u{a0}"), Some(s("bob")));
}

#[test]
fn incoming_lines_print_name_colon_text() {
    let print = incoming_line(ChatrMessage::ReceivedMessage { username: s("a"), content: s("b") });
    assert!(matches!(print, LineEvent::Print(l) if l == "a:b"));
    assert!(matches!(incoming_line(ChatrMessage::Disconnect), LineEvent::Stop));
    assert!(matches!(incoming_line(ChatrMessage::LoginAccepted), LineEvent::Skip));
    assert!(matches!(
        incoming_line(ChatrMessage::SentMessage { content: s("x") }),
        LineEvent::Skip
    ));
    let joined = incoming_line(ChatrMessage::UserConnected { username: s("c") });
    assert!(matches!(joined, LineEvent::Print(l) if l == "c connected"));
    let left = incoming_line(ChatrMessage::UserDisconnected { username: s("c") });
    assert!(matches!(left, LineEvent::Print(l) if l == "c disconnected"));
}
