//! The chatroom dispatcher: the registry of connected clients and the
//! broadcast that each admin command produces.
use vstd::prelude::*;

use crate::message::{ChatrMessage, Content, MessageView, Username};

verus! {

/// An instruction to the dispatcher. `H` is how the caller reaches a client
/// (its outbound channel and cancellation handle).
pub enum AdminMsg<H> {
    /// Register a client that has just logged in.
    AddClient(Username, H),
    /// Take a client out of the registry.
    RemoveClient(Username),
    /// Relay a client's message to everyone.
    DispatchMsg(Username, Content),
}

/// An admin command without its handle.
pub enum AdminView {
    AddClient(Seq<char>),
    RemoveClient(Seq<char>),
    DispatchMsg(Seq<char>, Seq<char>),
}

impl<H> View for AdminMsg<H> {
    type V = AdminView;

    open spec fn view(&self) -> AdminView {
        match self {
            AdminMsg::AddClient(u, _) => AdminView::AddClient(u@),
            AdminMsg::RemoveClient(u) => AdminView::RemoveClient(u@),
            AdminMsg::DispatchMsg(u, c) => AdminView::DispatchMsg(u@, c@),
        }
    }
}

/// The registered names after a command. A name that is already registered
/// keeps its place when added again (its handle is replaced).
pub open spec fn registry_after(names: Seq<Seq<char>>, cmd: AdminView) -> Seq<Seq<char>> {
    match cmd {
        AdminView::AddClient(u) => if names.contains(u) {
            names
        } else {
            names.push(u)
        },
        AdminView::RemoveClient(u) => if names.contains(u) {
            names.remove(names.index_of(u))
        } else {
            names
        },
        AdminView::DispatchMsg(_, _) => names,
    }
}

/// The message that a command broadcasts.
pub open spec fn event_message(cmd: AdminView) -> MessageView {
    match cmd {
        AdminView::AddClient(u) => MessageView::UserConnected { username: u },
        AdminView::RemoveClient(u) => MessageView::UserDisconnected { username: u },
        AdminView::DispatchMsg(u, c) => MessageView::ReceivedMessage { username: u, content: c },
    }
}

/// The names of a list of strings.
pub open spec fn names_of(v: Seq<String>) -> Seq<Seq<char>> {
    v.map_values(|s: String| s@)
}

/// Each registered name other than `u` keeps the handle it had.
pub open spec fn others_keep_handles<H>(
    before_names: Seq<Seq<char>>,
    before_handles: Seq<H>,
    after_names: Seq<Seq<char>>,
    after_handles: Seq<H>,
    u: Seq<char>,
) -> bool {
    forall|v: Seq<char>|
        v != u && #[trigger] after_names.contains(v) ==> before_names.contains(v)
            && after_handles[after_names.index_of(v)] == before_handles[before_names.index_of(v)]
}

proof fn lemma_index_of_unique(s: Seq<Seq<char>>, v: Seq<char>, k: int)
    requires
        s.no_duplicates(),
        0 <= k < s.len(),
        s[k] == v,
    ensures
        s.index_of(v) == k,
{
    let j = s.index_of(v);
    assert(0 <= j < s.len() && s[j] == v);
}

/// What processing one command produced: the message to broadcast, the
/// clients to send it to, in registry order, and the handle of a client that
/// left the registry or was replaced in it, which the caller shuts down.
pub struct Dispatch<H> {
    pub message: ChatrMessage,
    pub recipients: Vec<Username>,
    pub released: Option<H>,
}

/// The registry of connected clients, in the order they joined. A client is
/// in it exactly while it is to receive broadcasts.
///
/// The entries sit in a `Vec`, each name at most once (`wf`), not in a
/// `HashMap`: a hash map is walked in an order that each process seeds, so
/// broadcasts would reach clients in no fixed order, and vstd's specification
/// of `HashMap` says nothing provable for `String` keys.
pub struct Chatroom<H> {
    clients: Vec<(Username, H)>,
}

impl<H> Chatroom<H> {
    /// The registered names, in registry order.
    pub closed spec fn names(&self) -> Seq<Seq<char>> {
        self.clients@.map_values(|e: (Username, H)| e.0@)
    }

    /// The handles, in the same order as the names.
    pub closed spec fn handles(&self) -> Seq<H> {
        self.clients@.map_values(|e: (Username, H)| e.1)
    }

    /// Each name is registered at most once.
    pub open spec fn wf(&self) -> bool {
        &&& self.names().no_duplicates()
        &&& self.handles().len() == self.names().len()
    }

    /// An empty registry.
    pub fn new() -> (r: Self)
        ensures
            r.wf(),
            r.names() == Seq::<Seq<char>>::empty(),
    {
        let r = Chatroom { clients: Vec::new() };
        assert(r.names() =~= Seq::<Seq<char>>::empty());
        r
    }

    /// The number of registered clients.
    pub fn len(&self) -> (r: usize)
        ensures
            r == self.names().len(),
    {
        self.clients.len()
    }

    /// Where a name stands in the registry.
    fn position(&self, username: &Username) -> (r: Option<usize>)
        requires
            self.wf(),
        ensures
            r is None <==> !self.names().contains(username@),
            r matches Some(i) ==> i < self.names().len() && self.names()[i as int] == username@
                && self.names().index_of(username@) == i,
    {
        let mut i: usize = 0;
        while i < self.clients.len()
            invariant
                self.wf(),
                i <= self.clients@.len(),
                forall|j: int| 0 <= j < i ==> self.names()[j] != username@,
            decreases self.clients@.len() - i,
        {
            if self.clients[i].0 == *username {
                let ghost n = self.names();
                assert(n[i as int] == username@);
                assert(n.index_of(username@) == i as int) by {
                    let k = n.index_of(username@);
                    assert(0 <= k < n.len() && n[k] == username@);
                }
                return Some(i);
            }
            i = i + 1;
        }
        assert forall|k: int| 0 <= k < self.names().len() implies self.names()[k] != username@ by {}
        None
    }

    /// Whether a name is registered.
    pub fn contains(&self, username: &Username) -> (r: bool)
        requires
            self.wf(),
        ensures
            r == self.names().contains(username@),
    {
        self.position(username).is_some()
    }

    /// The handle registered under a name.
    pub fn handle_of(&self, username: &Username) -> (r: Option<&H>)
        requires
            self.wf(),
        ensures
            r is None <==> !self.names().contains(username@),
            r matches Some(h) ==> *h == self.handles()[self.names().index_of(username@)],
    {
        match self.position(username) {
            Some(i) => Some(&self.clients[i].1),
            None => None,
        }
    }

    /// Registers a client under its name. A client already registered under
    /// that name is replaced in place, and its handle is handed back.
    pub fn add_new_client(&mut self, username: Username, handle: H) -> (r: Option<H>)
        requires
            old(self).wf(),
        ensures
            final(self).wf(),
            final(self).names() == registry_after(old(self).names(), AdminView::AddClient(username@)),
            final(self).handles()[final(self).names().index_of(username@)] == handle,
            others_keep_handles(
                old(self).names(),
                old(self).handles(),
                final(self).names(),
                final(self).handles(),
                username@,
            ),
            r is Some <==> old(self).names().contains(username@),
            r matches Some(h) ==> h == old(self).handles()[old(self).names().index_of(username@)],
    {
        let ghost n0 = self.names();
        let ghost h0 = self.handles();
        let ghost u = username@;
        match self.position(&username) {
            Some(i) => {
                let (_, previous) = self.clients.remove(i);
                self.clients.insert(i, (username, handle));
                assert(self.names() =~= n0);
                assert(self.handles() =~= h0.update(i as int, handle));
                assert forall|v: Seq<char>| v != u && #[trigger] self.names().contains(v) implies n0.contains(
                    v,
                ) && self.handles()[self.names().index_of(v)] == h0[n0.index_of(v)] by {
                    let k = n0.index_of(v);
                    assert(0 <= k < n0.len() && n0[k] == v);
                    assert(k != i);
                }
                Some(previous)
            },
            None => {
                self.clients.push((username, handle));
                let ghost n = self.names();
                assert(n =~= n0.push(username@));
                assert(self.handles() =~= h0.push(handle));
                assert(n.no_duplicates()) by {
                    lemma_registry_after_unique(n0, AdminView::AddClient(u));
                }
                proof {
                    lemma_index_of_unique(n, u, n0.len() as int);
                    assert forall|v: Seq<char>| v != u && #[trigger] n.contains(v) implies n0.contains(
                        v,
                    ) && self.handles()[n.index_of(v)] == h0[n0.index_of(v)] by {
                        let k = n.index_of(v);
                        assert(0 <= k < n.len() && n[k] == v);
                        assert(k < n0.len());
                        assert(n0[k] == v);
                        lemma_index_of_unique(n0, v, k);
                    }
                }
                None
            },
        }
    }

    /// Takes a client out of the registry and hands back its handle.
    pub fn remove_client(&mut self, username: &Username) -> (r: Option<H>)
        requires
            old(self).wf(),
        ensures
            final(self).wf(),
            final(self).names() == registry_after(old(self).names(), AdminView::RemoveClient(username@)),
            others_keep_handles(
                old(self).names(),
                old(self).handles(),
                final(self).names(),
                final(self).handles(),
                username@,
            ),
            r is Some <==> old(self).names().contains(username@),
            r matches Some(h) ==> h == old(self).handles()[old(self).names().index_of(username@)],
    {
        let ghost n0 = self.names();
        let ghost h0 = self.handles();
        let ghost u = username@;
        match self.position(username) {
            Some(i) => {
                let (_, h) = self.clients.remove(i);
                let ghost n = self.names();
                assert(n =~= n0.remove(i as int));
                assert(self.handles() =~= h0.remove(i as int));
                assert(n.no_duplicates()) by {
                    lemma_registry_after_unique(n0, AdminView::RemoveClient(u));
                }
                proof {
                    assert forall|v: Seq<char>| v != u && #[trigger] n.contains(v) implies n0.contains(
                        v,
                    ) && self.handles()[n.index_of(v)] == h0[n0.index_of(v)] by {
                        let k = n.index_of(v);
                        assert(0 <= k < n.len() && n[k] == v);
                        let k0 = if k < i {
                            k
                        } else {
                            k + 1
                        };
                        assert(n0[k0] == v);
                        lemma_index_of_unique(n0, v, k0);
                    }
                }
                Some(h)
            },
            None => {
                assert forall|v: Seq<char>| v != u && #[trigger] self.names().contains(v) implies n0.contains(
                    v,
                ) && self.handles()[self.names().index_of(v)] == h0[n0.index_of(v)] by {}
                None
            },
        }
    }

    /// The message that relays a client's text to everyone.
    pub fn dispatch_msg(username: Username, content: Content) -> (r: ChatrMessage)
        ensures
            r@ == event_message(AdminView::DispatchMsg(username@, content@)),
    {
        ChatrMessage::ReceivedMessage { username, content }
    }

    /// The registered names, in registry order.
    pub fn usernames(&self) -> (r: Vec<Username>)
        ensures
            names_of(r@) == self.names(),
    {
        let mut out: Vec<Username> = Vec::new();
        let mut i: usize = 0;
        while i < self.clients.len()
            invariant
                i <= self.clients@.len(),
                names_of(out@) == self.names().subrange(0, i as int),
            decreases self.clients@.len() - i,
        {
            let name = self.clients[i].0.clone();
            assert(name@ == self.names()[i as int]);
            let ghost prev = out@;
            out.push(name);
            assert(out@ == prev.push(name));
            assert(names_of(out@) =~= names_of(prev).push(name@));
            i = i + 1;
            assert(names_of(out@) =~= self.names().subrange(0, i as int));
        }
        assert(self.names().subrange(0, i as int) =~= self.names());
        out
    }

    /// Processes one admin command: updates the registry, and says what to
    /// broadcast to whom. Adding inserts before the broadcast, so the new
    /// client hears of itself; removing deletes first, so the client that
    /// left does not; a relayed message goes to everyone, its sender too.
    pub fn handle_admin(&mut self, cmd: AdminMsg<H>) -> (r: Dispatch<H>)
        requires
            old(self).wf(),
        ensures
            final(self).wf(),
            final(self).names() == registry_after(old(self).names(), cmd@),
            r.message@ == event_message(cmd@),
            names_of(r.recipients@) == final(self).names(),
            r.released is Some <==> match cmd@ {
                AdminView::DispatchMsg(_, _) => false,
                AdminView::AddClient(u) | AdminView::RemoveClient(u) => old(self).names().contains(u),
            },
            match cmd@ {
                AdminView::DispatchMsg(_, _) => final(self).handles() == old(self).handles(),
                AdminView::AddClient(u) | AdminView::RemoveClient(u) => {
                    &&& others_keep_handles(
                        old(self).names(),
                        old(self).handles(),
                        final(self).names(),
                        final(self).handles(),
                        u,
                    )
                    &&& r.released matches Some(h) ==> h
                        == old(self).handles()[old(self).names().index_of(u)]
                },
            },
            cmd matches AdminMsg::AddClient(u, h) ==> final(self).handles()[
                final(self).names().index_of(u@)] == h,
    {
        let (message, released) = match cmd {
            AdminMsg::AddClient(username, handle) => {
                let m = ChatrMessage::UserConnected { username: username.clone() };
                let released = self.add_new_client(username, handle);
                (m, released)
            },
            AdminMsg::RemoveClient(username) => {
                let released = self.remove_client(&username);
                (ChatrMessage::UserDisconnected { username }, released)
            },
            AdminMsg::DispatchMsg(username, content) => {
                (Self::dispatch_msg(username, content), None)
            },
        };
        let recipients = self.usernames();
        Dispatch { message, recipients, released }
    }
}

/// How many entries of `s` are `u`.
pub open spec fn occurrences(s: Seq<Seq<char>>, u: Seq<char>) -> nat
    decreases s.len(),
{
    if s.len() == 0 {
        0
    } else {
        occurrences(s.drop_last(), u) + if s.last() == u {
            1nat
        } else {
            0nat
        }
    }
}

/// What client `u` receives while the dispatcher works through `cmds`,
/// starting from the registry `names`: after each command, one copy of its
/// message for every recipient entry under `u`.
pub open spec fn inbox(u: Seq<char>, names: Seq<Seq<char>>, cmds: Seq<AdminView>) -> Seq<
    MessageView,
>
    decreases cmds.len(),
{
    if cmds.len() == 0 {
        Seq::empty()
    } else {
        let next = registry_after(names, cmds[0]);
        Seq::new(occurrences(next, u), |i: int| event_message(cmds[0])) + inbox(
            u,
            next,
            cmds.drop_first(),
        )
    }
}

/// The messages of the commands whose processing found `u` registered, in
/// the order the commands were processed.
pub open spec fn registered_events(u: Seq<char>, names: Seq<Seq<char>>, cmds: Seq<AdminView>) -> Seq<
    MessageView,
>
    decreases cmds.len(),
{
    if cmds.len() == 0 {
        Seq::empty()
    } else {
        let next = registry_after(names, cmds[0]);
        (if next.contains(u) {
            seq![event_message(cmds[0])]
        } else {
            Seq::empty()
        }) + registered_events(u, next, cmds.drop_first())
    }
}

proof fn lemma_occurrences_unique(s: Seq<Seq<char>>, u: Seq<char>)
    requires
        s.no_duplicates(),
    ensures
        occurrences(s, u) == if s.contains(u) {
            1nat
        } else {
            0nat
        },
    decreases s.len(),
{
    if s.len() > 0 {
        let d = s.drop_last();
        assert(d.no_duplicates());
        lemma_occurrences_unique(d, u);
        if s.last() == u {
            assert(!d.contains(u)) by {
                if d.contains(u) {
                    let k = choose|k: int| 0 <= k < d.len() && d[k] == u;
                    assert(s[k] == s[s.len() - 1]);
                }
            }
        } else {
            assert(s.contains(u) == d.contains(u)) by {
                if s.contains(u) {
                    let k = choose|k: int| 0 <= k < s.len() && s[k] == u;
                    assert(d[k] == u);
                }
            }
        }
    }
}

/// Processing a command keeps every name registered at most once.
pub proof fn lemma_registry_after_unique(names: Seq<Seq<char>>, cmd: AdminView)
    requires
        names.no_duplicates(),
    ensures
        registry_after(names, cmd).no_duplicates(),
{
    match cmd {
        AdminView::AddClient(u) => {
            if !names.contains(u) {
                let n = names.push(u);
                assert forall|i: int, j: int|
                    0 <= i < n.len() && 0 <= j < n.len() && i != j implies n[i] != n[j] by {
                    if i == names.len() as int {
                        assert(n[j] == names[j]);
                    } else if j == names.len() as int {
                        assert(n[i] == names[i]);
                    }
                }
            }
        },
        AdminView::RemoveClient(u) => {
            if names.contains(u) {
                let k = names.index_of(u);
                let n = names.remove(k);
                assert forall|i: int, j: int|
                    0 <= i < n.len() && 0 <= j < n.len() && i != j implies n[i] != n[j] by {
                    let i2 = if i < k {
                        i
                    } else {
                        i + 1
                    };
                    let j2 = if j < k {
                        j
                    } else {
                        j + 1
                    };
                    assert(n[i] == names[i2] && n[j] == names[j2]);
                }
            }
        },
        AdminView::DispatchMsg(_, _) => {},
    }
}

/// Total order: whatever commands the dispatcher processes, each client
/// receives exactly one message for each command that found it registered,
/// none for the others, in the order the commands were processed.
pub proof fn lemma_total_order(u: Seq<char>, names: Seq<Seq<char>>, cmds: Seq<AdminView>)
    requires
        names.no_duplicates(),
    ensures
        inbox(u, names, cmds) == registered_events(u, names, cmds),
    decreases cmds.len(),
{
    if cmds.len() > 0 {
        let next = registry_after(names, cmds[0]);
        lemma_registry_after_unique(names, cmds[0]);
        lemma_occurrences_unique(next, u);
        lemma_total_order(u, next, cmds.drop_first());
        let mine = Seq::new(occurrences(next, u), |i: int| event_message(cmds[0]));
        if next.contains(u) {
            assert(mine =~= seq![event_message(cmds[0])]);
        } else {
            assert(mine =~= Seq::<MessageView>::empty());
        }
    }
}

/// The admin command for a message that a session's reader forwarded,
/// tagged with the session's name: a client's text is relayed, a
/// disconnect takes the client out; nothing else concerns the dispatcher.
pub open spec fn command_for(username: Seq<char>, m: MessageView) -> Option<AdminView> {
    match m {
        MessageView::SentMessage { content } => Some(AdminView::DispatchMsg(username, content)),
        MessageView::Disconnect => Some(AdminView::RemoveClient(username)),
        _ => None,
    }
}

/// Turns a message from a logged-in client into the command for the dispatcher.
pub fn admin_command<H>(username: Username, msg: ChatrMessage) -> (r: Option<AdminMsg<H>>)
    ensures
        match r {
            Some(cmd) => command_for(username@, msg@) == Some(cmd@),
            None => command_for(username@, msg@) is None,
        },
{
    match msg {
        ChatrMessage::SentMessage { content } => Some(AdminMsg::DispatchMsg(username, content)),
        ChatrMessage::Disconnect => Some(AdminMsg::RemoveClient(username)),
        _ => None,
    }
}

} // verus!
