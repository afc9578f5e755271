use chatr::chatroom::{admin_command, AdminMsg, Chatroom, Dispatch};
use chatr::connection::ConnectionReader;
use chatr::frame::encode_frame;
use chatr::login::{
    interpret_login_reply, process_client_login, BanList, ClientLoginResult, LoginFlowResult,
};
use chatr::codec::DecodeError;
use chatr::ChatrMessage;

fn s(x: &str) -> String {
    x.to_string()
}

/// Each client's handle is its slot in `outboxes`; delivery appends there.
struct Room {
    room: Chatroom<usize>,
    outboxes: Vec<Vec<ChatrMessage>>,
}

impl Room {
    fn new() -> Room {
        Room { room: Chatroom::new(), outboxes: Vec::new() }
    }

    fn process(&mut self, cmd: AdminMsg<usize>) -> Dispatch<usize> {
        let d = self.room.handle_admin(cmd);
        let targets: Vec<usize> =
            d.recipients.iter().map(|u| *self.room.handle_of(u).unwrap()).collect();
        for h in targets {
            self.outboxes[h].push(d.message.clone());
        }
        d
    }

    fn login(&mut self, name: &str, banned: &BanList) -> (Option<ChatrMessage>, Option<usize>) {
        let result = process_client_login(Some(ChatrMessage::LoginRequest { username: s(name) }), banned);
        let reply = result.reply();
        let slot = self.outboxes.len();
        match result.registration(slot) {
            Some(cmd) => {
                self.outboxes.push(Vec::new());
                self.process(cmd);
                (reply, Some(slot))
            }
            None => (reply, None),
        }
    }

    fn from_client(&mut self, name: &str, msg: ChatrMessage) {
        if let Some(cmd) = admin_command(s(name), msg) {
            self.process(cmd);
        }
    }
}

#[test]
fn add_broadcasts_to_everyone_including_newcomer() {
    let mut r = Room::new();
    let none = BanList::new();
    let (_, a) = r.login("alice", &none);
    let (_, b) = r.login("bob", &none);
    let (a, b) = (a.unwrap(), b.unwrap());
    assert_eq!(
        r.outboxes[a],
        vec![
            ChatrMessage::UserConnected { username: s("alice") },
            ChatrMessage::UserConnected { username: s("bob") },
        ]
    );
    assert_eq!(r.outboxes[b], vec![ChatrMessage::UserConnected { username: s("bob") }]);
    assert_eq!(r.room.usernames(), vec![s("alice"), s("bob")]);
}

#[test]
fn every_registered_client_gets_each_event_once_in_order() {
    let mut r = Room::new();
    let none = BanList::new();
    let (_, a) = r.login("alice", &none);
    let (_, b) = r.login("bob", &none);
    r.from_client("alice", ChatrMessage::SentMessage { content: s("1") });
    r.from_client("bob", ChatrMessage::SentMessage { content: s("2") });
    let (_, c) = r.login("carol", &none);
    r.from_client("alice", ChatrMessage::Disconnect);
    r.from_client("carol", ChatrMessage::SentMessage { content: s("3") });
    let rm = |u: &str, c: &str| ChatrMessage::ReceivedMessage { username: s(u), content: s(c) };
    assert_eq!(
        r.outboxes[b.unwrap()],
        vec![
            ChatrMessage::UserConnected { username: s("bob") },
            rm("alice", "1"),
            rm("bob", "2"),
            ChatrMessage::UserConnected { username: s("carol") },
            ChatrMessage::UserDisconnected { username: s("alice") },
            rm("carol", "3"),
        ]
    );
    assert_eq!(
        r.outboxes[a.unwrap()],
        vec![
            ChatrMessage::UserConnected { username: s("alice") },
            ChatrMessage::UserConnected { username: s("bob") },
            rm("alice", "1"),
            rm("bob", "2"),
            ChatrMessage::UserConnected { username: s("carol") },
        ]
    );
    assert_eq!(
        r.outboxes[c.unwrap()],
        vec![
            ChatrMessage::UserConnected { username: s("carol") },
            ChatrMessage::UserDisconnected { username: s("alice") },
            rm("carol", "3"),
        ]
    );
}

#[test]
fn scenario_alice_message_reaches_bob() {
    let mut r = Room::new();
    let none = BanList::new();
    let (reply, a) = r.login("alice", &none);
    assert_eq!(reply, Some(ChatrMessage::LoginAccepted));
    let (_, b) = r.login("bob", &none);
    let mut alice_reader = ConnectionReader::new();
    let step = alice_reader.on_bytes(&encode_frame(&ChatrMessage::SentMessage { content: s("hi") }));
    for m in step.forward {
        r.from_client("alice", m);
    }
    let hi = ChatrMessage::ReceivedMessage { username: s("alice"), content: s("hi") };
    assert_eq!(r.outboxes[b.unwrap()].last(), Some(&hi));
    assert_eq!(r.outboxes[a.unwrap()].last(), Some(&hi));
}

#[test]
fn scenario_alice_disconnect_reaches_bob() {
    let mut r = Room::new();
    let none = BanList::new();
    r.login("alice", &none);
    let (_, b) = r.login("bob", &none);
    let mut alice_reader = ConnectionReader::new();
    let step = alice_reader.on_closed();
    assert!(step.cancel);
    for m in step.forward {
        r.from_client("alice", m);
    }
    assert_eq!(
        r.outboxes[b.unwrap()].last(),
        Some(&ChatrMessage::UserDisconnected { username: s("alice") })
    );
    assert!(!r.room.contains(&s("alice")));
    assert_eq!(r.room.len(), 1);
}

#[test]
fn scenario_banned_name_is_rejected() {
    let mut r = Room::new();
    let banned = BanList::from_names(vec![s("eve")]);
    r.login("bob", &banned);
    let before = r.room.len();
    let (reply, slot) = r.login("eve", &banned);
    match reply {
        Some(ChatrMessage::LoginRejected { reason }) => assert!(reason.contains("eve")),
        other => panic!("unexpected reply {other:?}"),
    }
    assert_eq!(slot, None);
    assert_eq!(r.room.len(), before);
    assert!(!r.room.contains(&s("eve")));
}

#[test]
fn rejected_reason_is_exact() {
    let banned = BanList::from_names(vec![s("eve"), s("mallory")]);
    assert!(banned.is_banned(&s("mallory")));
    assert!(!banned.is_banned(&s("bob")));
    match process_client_login(Some(ChatrMessage::LoginRequest { username: s("eve") }), &banned) {
        ClientLoginResult::Reject(reason) => assert_eq!(reason, "eve is not allowed"),
        _ => panic!("eve must be rejected"),
    }
}

#[test]
fn accepted_new_name_grows_registry_by_one() {
    let mut r = Room::new();
    let none = BanList::new();
    r.login("alice", &none);
    let before = r.room.len();
    let (reply, slot) = r.login("bob", &none);
    assert_eq!(reply, Some(ChatrMessage::LoginAccepted));
    assert!(slot.is_some());
    assert_eq!(r.room.len(), before + 1);
}

#[test]
fn other_first_message_is_a_protocol_violation() {
    let none = BanList::new();
    let result = process_client_login(Some(ChatrMessage::SentMessage { content: s("hi") }), &none);
    assert_eq!(
        result.reply(),
        Some(ChatrMessage::LoginRejected { reason: s("expected a login request") })
    );
    assert!(result.registration(0usize).is_none());
}

#[test]
fn closing_before_login_is_dropped_silently() {
    let none = BanList::new();
    let closed = process_client_login(None, &none);
    assert!(matches!(closed, ClientLoginResult::Closed));
    assert_eq!(closed.reply(), None);
    let left = process_client_login(Some(ChatrMessage::Disconnect), &none);
    assert_eq!(left.reply(), None);
    assert!(left.registration(0usize).is_none());
}

#[test]
fn duplicate_name_replaces_the_earlier_session() {
    let mut room: Chatroom<u32> = Chatroom::new();
    assert_eq!(room.add_new_client(s("alice"), 1), None);
    assert_eq!(room.add_new_client(s("bob"), 2), None);
    assert_eq!(room.add_new_client(s("alice"), 3), Some(1));
    assert_eq!(room.len(), 2);
    assert_eq!(room.handle_of(&s("alice")), Some(&3));
    assert_eq!(room.usernames(), vec![s("alice"), s("bob")]);
    let d = room.handle_admin(AdminMsg::AddClient(s("bob"), 4));
    assert_eq!(d.released, Some(2));
    assert_eq!(d.message, ChatrMessage::UserConnected { username: s("bob") });
}

#[test]
fn remove_hands_back_the_handle() {
    let mut room: Chatroom<u32> = Chatroom::new();
    room.add_new_client(s("alice"), 7);
    room.add_new_client(s("bob"), 8);
    let d = room.handle_admin(AdminMsg::RemoveClient(s("alice")));
    assert_eq!(d.released, Some(7));
    assert_eq!(d.recipients, vec![s("bob")]);
    assert_eq!(d.message, ChatrMessage::UserDisconnected { username: s("alice") });
    assert_eq!(room.remove_client(&s("nobody")), None);
    let d = room.handle_admin(AdminMsg::DispatchMsg(s("bob"), s("x")));
    assert_eq!(d.released, None);
    assert_eq!(d.recipients, vec![s("bob")]);
    assert_eq!(Chatroom::<u32>::dispatch_msg(s("bob"), s("x")), d.message);
}

#[test]
fn only_text_and_disconnect_reach_the_dispatcher() {
    assert!(matches!(
        admin_command::<u8>(s("a"), ChatrMessage::SentMessage { content: s("t") }),
        Some(AdminMsg::DispatchMsg(u, c)) if u == "a" && c == "t"
    ));
    assert!(matches!(
        admin_command::<u8>(s("a"), ChatrMessage::Disconnect),
        Some(AdminMsg::RemoveClient(u)) if u == "a"
    ));
    assert!(admin_command::<u8>(s("a"), ChatrMessage::LoginAccepted).is_none());
    assert!(admin_command::<u8>(s("a"), ChatrMessage::UserConnected { username: s("a") }).is_none());
}

#[test]
fn client_reads_the_login_reply() {
    let ok = interpret_login_reply(s("alice"), Some(Ok(ChatrMessage::LoginAccepted)));
    assert!(matches!(ok, Ok(LoginFlowResult::Accept(u)) if u == "alice"));
    let no = interpret_login_reply(
        s("eve"),
        Some(Ok(ChatrMessage::LoginRejected { reason: s("eve is not allowed") })),
    );
    assert!(matches!(no, Ok(LoginFlowResult::Reject(r)) if r == "eve is not allowed"));
    let gone = interpret_login_reply(s("a"), Some(Ok(ChatrMessage::Disconnect)));
    assert!(matches!(gone, Ok(LoginFlowResult::Reject(r)) if r == "recv disconnect"));
    let odd = interpret_login_reply(s("a"), Some(Ok(ChatrMessage::SentMessage { content: s("x") })));
    assert!(matches!(odd, Ok(LoginFlowResult::Reject(r)) if r == "unreasonable msg"));
    let bad = interpret_login_reply(s("a"), Some(Err(DecodeError)));
    assert!(matches!(bad, Err(DecodeError)));
    let none = interpret_login_reply(s("a"), None);
    assert!(matches!(none, Ok(LoginFlowResult::Reject(r)) if r == "0 bytes on login"));
}

#[test]
fn ban_list_parses_comma_separated_names() {
    let banned = BanList::parse(" eve, mallory ,\ttrudy\n");
    assert!(banned.is_banned(&s("eve")));
    assert!(banned.is_banned(&s("mallory")));
    assert!(banned.is_banned(&s("trudy")));
    assert!(!banned.is_banned(&s(" eve")));
    assert!(!banned.is_banned(&s("bob")));
    let empty_piece = BanList::parse("a,,b");
    assert!(empty_piece.is_banned(&s("")));
    assert!(!BanList::parse("a").is_banned(&s("")));
}
