//! The login handshake: the server's decision on a fresh connection's first
//! message, and the client's reading of the server's answer.
use vstd::prelude::*;

use crate::chatroom::{registry_after, AdminMsg, AdminView};
use crate::codec::DecodeError;
use crate::console::{trim, trimmed};
use crate::message::{ChatrMessage, MessageView, Username};

verus! {

/// The names that may not join.
///
/// They sit in a `Vec` rather than a `HashSet`: vstd's specification of
/// `HashSet` says nothing provable for `String` elements, while a scan of a
/// `Vec` gives `is_banned` an exact contract.
pub struct BanList {
    names: Vec<Username>,
}

impl View for BanList {
    type V = Seq<Seq<char>>;

    closed spec fn view(&self) -> Seq<Seq<char>> {
        self.names@.map_values(|s: Username| s@)
    }
}

/// The pieces of `s` between commas, in order. An empty text is one empty
/// piece, and a comma at either end leaves an empty piece there.
pub open spec fn split_commas(s: Seq<char>) -> Seq<Seq<char>>
    decreases s.len(),
{
    if s.len() == 0 {
        seq![Seq::empty()]
    } else {
        let rest = split_commas(s.drop_first());
        if s[0] == ',' {
            seq![Seq::<char>::empty()] + rest
        } else {
            rest.update(0, seq![s[0]] + rest[0])
        }
    }
}

/// Relies on `str::split` with a `char` pattern: the pieces between the
/// separators, in order, each copied into a `String`.
#[verifier::external_body]
fn split_on_commas(s: &str) -> (r: Vec<String>)
    ensures
        r@.map_values(|p: String| p@) == split_commas(s@),
{
    s.split(',').map(String::from).collect()
}

impl BanList {
    /// The list written as names separated by commas, each name without its
    /// surrounding white space.
    pub fn parse(list: &str) -> (r: BanList)
        ensures
            r@ == split_commas(list@).map_values(|p: Seq<char>| trimmed(p)),
    {
        let pieces = split_on_commas(list);
        let ghost want = split_commas(list@).map_values(|p: Seq<char>| trimmed(p));
        let mut names: Vec<Username> = Vec::new();
        let mut i: usize = 0;
        while i < pieces.len()
            invariant
                i <= pieces@.len(),
                pieces@.map_values(|p: String| p@) == split_commas(list@),
                want == split_commas(list@).map_values(|p: Seq<char>| trimmed(p)),
                names@.map_values(|s: Username| s@) == want.subrange(0, i as int),
            decreases pieces@.len() - i,
        {
            let t = trim(pieces[i].as_str());
            let ghost before = names@;
            names.push(t.to_owned());
            assert(pieces@.map_values(|p: String| p@)[i as int] == pieces@[i as int]@);
            assert(names@.map_values(|s: Username| s@) =~= before.map_values(|s: Username| s@).push(
                want[i as int],
            ));
            i = i + 1;
            assert(want.subrange(0, i as int) =~= want.subrange(0, i - 1).push(want[i - 1]));
        }
        assert(want.subrange(0, i as int) =~= want);
        BanList { names }
    }

    /// A list that bans nobody.
    pub fn new() -> (r: BanList)
        ensures
            r@ == Seq::<Seq<char>>::empty(),
    {
        let r = BanList { names: Vec::new() };
        assert(r@ =~= Seq::<Seq<char>>::empty());
        r
    }

    /// A list that bans the given names.
    pub fn from_names(names: Vec<Username>) -> (r: BanList)
        ensures
            r@ == names@.map_values(|s: Username| s@),
    {
        BanList { names }
    }

    /// Whether a name is banned.
    pub fn is_banned(&self, username: &Username) -> (r: bool)
        ensures
            r == self@.contains(username@),
    {
        let mut i: usize = 0;
        while i < self.names.len()
            invariant
                i <= self.names@.len(),
                forall|j: int| 0 <= j < i ==> self@[j] != username@,
            decreases self.names@.len() - i,
        {
            if self.names[i] == *username {
                assert(self@[i as int] == username@);
                return true;
            }
            i = i + 1;
        }
        false
    }
}

/// The server's decision on a connection that has not logged in yet.
pub enum ClientLoginResult {
    /// The client may join under this name.
    Accept(Username),
    /// The client may not join, for this reason.
    Reject(String),
    /// The peer went away (or its first record was unreadable, which ends the
    /// connection the same way) before a request arrived: the connection is
    /// dropped without an answer.
    Closed,
}

/// A login decision, with the characters of its fields.
pub enum LoginDecision {
    Accept(Seq<char>),
    Reject(Seq<char>),
    Closed,
}

impl View for ClientLoginResult {
    type V = LoginDecision;

    open spec fn view(&self) -> LoginDecision {
        match self {
            ClientLoginResult::Accept(u) => LoginDecision::Accept(u@),
            ClientLoginResult::Reject(r) => LoginDecision::Reject(r@),
            ClientLoginResult::Closed => LoginDecision::Closed,
        }
    }
}

/// The words after a banned name in the reason given for turning it away.
pub open spec fn not_allowed_suffix() -> Seq<char> {
    " is not allowed"@
}

/// The reason given to a client that opens with anything but a login request.
pub open spec fn protocol_violation_reason() -> Seq<char> {
    "expected a login request"@
}

/// The decision on a connection's first message (`None`: none arrived).
pub open spec fn login_decision(first: Option<MessageView>, banned: Seq<Seq<char>>) -> LoginDecision {
    match first {
        None => LoginDecision::Closed,
        Some(MessageView::Disconnect) => LoginDecision::Closed,
        Some(MessageView::LoginRequest { username }) => if banned.contains(username) {
            LoginDecision::Reject(username + not_allowed_suffix())
        } else {
            LoginDecision::Accept(username)
        },
        Some(_) => LoginDecision::Reject(protocol_violation_reason()),
    }
}

/// The answer that the server sends for a decision, if any.
pub open spec fn login_reply(d: LoginDecision) -> Option<MessageView> {
    match d {
        LoginDecision::Accept(_) => Some(MessageView::LoginAccepted),
        LoginDecision::Reject(reason) => Some(MessageView::LoginRejected { reason }),
        LoginDecision::Closed => None,
    }
}

/// The registry after a decision: only an accepted client is added.
pub open spec fn registry_after_login(names: Seq<Seq<char>>, d: LoginDecision) -> Seq<Seq<char>> {
    match d {
        LoginDecision::Accept(u) => registry_after(names, AdminView::AddClient(u)),
        _ => names,
    }
}

/// Decides on a fresh connection from its first message.
pub fn process_client_login(first: Option<ChatrMessage>, banned: &BanList) -> (r: ClientLoginResult)
    ensures
        r@ == login_decision(
            match first {
                Some(m) => Some(m@),
                None => None,
            },
            banned@,
        ),
{
    match first {
        None => ClientLoginResult::Closed,
        Some(ChatrMessage::Disconnect) => ClientLoginResult::Closed,
        Some(ChatrMessage::LoginRequest { username }) => {
            if banned.is_banned(&username) {
                ClientLoginResult::Reject(username.concat(" is not allowed"))
            } else {
                ClientLoginResult::Accept(username)
            }
        },
        Some(_) => ClientLoginResult::Reject(String::from_str("expected a login request")),
    }
}

impl ClientLoginResult {
    /// The answer to send to the client before anything else.
    pub fn reply(&self) -> (r: Option<ChatrMessage>)
        ensures
            match r {
                Some(m) => login_reply(self@) == Some(m@),
                None => login_reply(self@) is None,
            },
    {
        match self {
            ClientLoginResult::Accept(_) => Some(ChatrMessage::LoginAccepted),
            ClientLoginResult::Reject(reason) => Some(
                ChatrMessage::LoginRejected { reason: reason.clone() },
            ),
            ClientLoginResult::Closed => None,
        }
    }

    /// The command that registers an accepted client with the dispatcher,
    /// reachable through `handle`; nothing for any other decision.
    pub fn registration<H>(self, handle: H) -> (r: Option<AdminMsg<H>>)
        ensures
            match self@ {
                LoginDecision::Accept(u) => (r matches Some(AdminMsg::AddClient(name, h)) && name@
                    == u && h == handle),
                _ => r is None,
            },
    {
        match self {
            ClientLoginResult::Accept(username) => Some(AdminMsg::AddClient(username, handle)),
            _ => None,
        }
    }
}

/// A banned name always gets `LoginRejected` and leaves the registry as it
/// was; a name that is neither banned nor registered gets `LoginAccepted` and
/// adds exactly one entry.
pub proof fn lemma_login_registry(names: Seq<Seq<char>>, banned: Seq<Seq<char>>, username: Seq<char>)
    ensures
        ({
            let d = login_decision(Some(MessageView::LoginRequest { username }), banned);
            &&& banned.contains(username) ==> (login_reply(d) matches Some(
                MessageView::LoginRejected { .. },
            )) && registry_after_login(names, d) == names
            &&& !banned.contains(username) && !names.contains(username) ==> login_reply(d) == Some(
                MessageView::LoginAccepted,
            ) && registry_after_login(names, d).len() == names.len() + 1
        }),
{
}

/// How a client's login attempt ended.
pub enum LoginFlowResult {
    /// Accepted under this name.
    Accept(String),
    /// Refused, for this reason.
    Reject(String),
}

/// The server's answer to a login request, as the client reads it (`None`:
/// the connection closed first). An unreadable answer is an error of its
/// own; every readable answer but `LoginAccepted` is a refusal with a reason.
pub fn interpret_login_reply(username: Username, reply: Option<Result<ChatrMessage, DecodeError>>) -> (r:
    Result<LoginFlowResult, DecodeError>)
    ensures
        match reply {
            Some(Ok(ChatrMessage::LoginAccepted)) => (r matches Ok(LoginFlowResult::Accept(u)) && u@
                == username@),
            Some(Ok(ChatrMessage::LoginRejected { reason })) => (r matches Ok(
                LoginFlowResult::Reject(why),
            ) && why@ == reason@),
            Some(Ok(ChatrMessage::Disconnect)) => (r matches Ok(LoginFlowResult::Reject(why)) && why@
                == "recv disconnect"@),
            Some(Ok(_)) => (r matches Ok(LoginFlowResult::Reject(why)) && why@ == "unreasonable msg"@),
            Some(Err(_)) => r is Err,
            None => (r matches Ok(LoginFlowResult::Reject(why)) && why@ == "0 bytes on login"@),
        },
{
    match reply {
        Some(Ok(ChatrMessage::LoginAccepted)) => Ok(LoginFlowResult::Accept(username)),
        Some(Ok(ChatrMessage::LoginRejected { reason })) => Ok(LoginFlowResult::Reject(reason)),
        Some(Ok(ChatrMessage::Disconnect)) => Ok(
            LoginFlowResult::Reject(String::from_str("recv disconnect")),
        ),
        Some(Ok(_)) => Ok(LoginFlowResult::Reject(String::from_str("unreasonable msg"))),
        Some(Err(e)) => Err(e),
        None => Ok(LoginFlowResult::Reject(String::from_str("0 bytes on login"))),
    }
}

} // verus!
