//! Open streams: who is connected, and what is pushed to them.
use vstd::prelude::*;

use crate::server::store::{Link, LinkState, Relay, Write};
#[allow(unused_imports)]
use crate::server::store::{link_of, sound, tokens_sound, AccountView, Store, World};
use crate::table::{Pair, RowTest};

verus! {

/// A message as its recipient gets it.
pub struct OutMessage {
    pub id: String,
    pub sender: String,
    pub body: String,
    pub created_at: i64,
}

/// A message as a plain value.
pub struct OutMessageView {
    pub id: Seq<char>,
    pub sender: Seq<char>,
    pub body: Seq<char>,
    pub created_at: i64,
}

impl View for OutMessage {
    type V = OutMessageView;

    open spec fn view(&self) -> OutMessageView {
        OutMessageView {
            id: self.id@,
            sender: self.sender@,
            body: self.body@,
            created_at: self.created_at,
        }
    }
}

/// How far a message has come.
#[derive(Clone, Copy, Debug, PartialEq, Eq, Structural)]
pub enum ReceiptState {
    Delivered,
    Read,
}

/// Something to push down an open stream.
pub enum Push {
    Message(OutMessage),
    /// The contact list changed; the client should fetch it again.
    ContactsChanged,
    /// A message we sent reached the recipient's device, or was read.
    Receipt { id: String, state: ReceiptState, at: i64 },
}

/// A push as a plain value.
pub enum PushView {
    Message(OutMessageView),
    ContactsChanged,
    Receipt { id: Seq<char>, state: ReceiptState, at: i64 },
}

impl View for Push {
    type V = PushView;

    open spec fn view(&self) -> PushView {
        match self {
            Push::Message(message) => PushView::Message(message@),
            Push::ContactsChanged => PushView::ContactsChanged,
            Push::Receipt { id, state, at } => PushView::Receipt { id: id@, state: *state, at: *at },
        }
    }
}

/// A push and the stream it goes down.
pub struct Notice {
    pub to: String,
    pub listener: u64,
    pub push: Push,
}

/// A notice as a plain value.
pub struct NoticeView {
    pub to: Seq<char>,
    pub listener: u64,
    pub push: PushView,
}

impl View for Notice {
    type V = NoticeView;

    open spec fn view(&self) -> NoticeView {
        NoticeView { to: self.to@, listener: self.listener, push: self.push@ }
    }
}

/// Notices as plain values.
pub open spec fn notices(list: Seq<Notice>) -> Seq<NoticeView> {
    list.map_values(|n: Notice| n@)
}

/// The notice that reaches one account: none where it is not connected.
pub open spec fn notice_to(w: World, to: Seq<char>, push: PushView) -> Seq<NoticeView> {
    if w.live.contains_key(to) {
        seq![NoticeView { to, listener: w.live[to], push }]
    } else {
        Seq::empty()
    }
}

/// Whether everyone in a set is told once, down the stream they hold, and
/// nobody else is.
pub open spec fn told(
    list: Seq<NoticeView>,
    everyone: Set<Seq<char>>,
    live: Map<Seq<char>, u64>,
    push: PushView,
) -> bool {
    &&& forall|i: int|
        0 <= i < list.len() ==> everyone.contains((#[trigger] list[i]).to) && live.contains_key(
            list[i].to,
        ) && list[i].listener == live[list[i].to] && list[i].push == push
    &&& forall|i: int, j: int|
        0 <= i < j < list.len() ==> (#[trigger] list[i]).to != (#[trigger] list[j]).to
    &&& forall|name: Seq<char>| #[trigger]
        everyone.contains(name) ==> exists|i: int|
            0 <= i < list.len() && (#[trigger] list[i]).to == name
}

/// Everyone who is connected and has `user` as an accepted contact, going by
/// the links that `user` holds.
pub open spec fn watchers(w: World, user: Seq<char>) -> Set<Seq<char>> {
    Set::new(
        |peer: Seq<char>|
            link_of(w.store, user, peer) == Some(LinkState::Accepted) && w.live.contains_key(peer),
    )
}

/// The tables once an account was around.
pub open spec fn seen(store: Store, user: Seq<char>, now: i64) -> Store {
    if store.accounts.contains_key(user) {
        Store {
            accounts: store.accounts.insert(
                user,
                AccountView { last_seen: Some(now), ..store.accounts[user] },
            ),
            ..store
        }
    } else {
        store
    }
}

/// The relay once the stream of an account is gone.
pub open spec fn disconnected(w: World, user: Seq<char>, now: i64) -> World {
    World { store: seen(w.store, user, now), live: w.live.remove(user), ..w }
}

/// The relay once an account opened a stream.
pub open spec fn connected(w: World, user: Seq<char>, now: i64) -> World {
    World {
        store: seen(w.store, user, now),
        live: w.live.insert(user, w.next_listener),
        next_listener: if w.next_listener == u64::MAX {
            0
        } else {
            (w.next_listener + 1) as u64
        },
        ..w
    }
}

struct AcceptedBy<'a> {
    owner: &'a str,
}

impl<'a> RowTest<Pair, Link> for AcceptedBy<'a> {
    closed spec fn holds(&self, key: (Seq<char>, Seq<char>), row: Link) -> bool {
        key.0 == self.owner@ && row.state == LinkState::Accepted
    }

    fn test(&self, key: &Pair, row: &Link) -> (yes: bool) {
        crate::text::same_text(&key.first, self.owner) && row.state == LinkState::Accepted
    }
}

/// Replacing an account by one with the same token and an acceptable password
/// hash keeps the tables in order.
pub(crate) proof fn lemma_account_kept(store: Store, user: Seq<char>, row: AccountView)
    requires
        sound(store),
        store.accounts.contains_key(user),
        row.token == store.accounts[user].token,
        crate::password::default_cost(row.password_hash),
    ensures
        sound(Store { accounts: store.accounts.insert(user, row), ..store }),
{
    let after = Store { accounts: store.accounts.insert(user, row), ..store };
    assert forall|o: Seq<char>, p: Seq<char>| true implies #[trigger] link_of(after, o, p)
        == link_of(store, o, p) by {}
    assert(tokens_sound(after.accounts)) by {
        assert forall|a: Seq<char>, b: Seq<char>|
            #![trigger after.accounts[a], after.accounts[b]]
            after.accounts.contains_key(a) && after.accounts.contains_key(b)
                && after.accounts[a].token == after.accounts[b].token implies a == b by {
            let sa = store.accounts[a];
            let sb = store.accounts[b];
        }
    }
    assert forall|o: Seq<char>, p: Seq<char>| #[trigger]
        after.links.contains_key((o, p)) implies o != p && after.accounts.contains_key(o)
        && after.accounts.contains_key(p) by {
        assert(store.links.contains_key((o, p)));
    }
}

impl Relay {
    /// The notice that reaches one account.
    pub(crate) fn notify(&self, to: &str, push: Push) -> (list: Vec<Notice>)
        requires
            self.wf(),
        ensures
            notices(list@) == notice_to(self@, to@, push@),
    {
        let mut list: Vec<Notice> = Vec::new();
        let name = to.to_string();
        if let Some(listener) = self.live.get(&name) {
            list.push(Notice { to: name, listener: *listener, push });
        }
        assert(notices(list@) =~= notice_to(self@, to@, push@));
        list
    }

    /// Nudges everyone who has `user` as an accepted contact. Used whenever
    /// something they can see changes: presence, display name, connecting or
    /// disconnecting.
    pub(crate) fn notify_watchers(&self, user: &str) -> (list: Vec<Notice>)
        requires
            self.wf(),
        ensures
            told(
                notices(list@),
                watchers(self@, user@),
                self@.live,
                PushView::ContactsChanged,
            ),
    {
        let question = AcceptedBy { owner: user };
        let places = self.links.find_where(&question);
        let mut list: Vec<Notice> = Vec::new();
        let mut i: usize = 0;
        while i < places.len()
            invariant
                self.wf(),
                question.owner@ == user@,
                i <= places@.len(),
                forall|p: int|
                    0 <= p < places@.len() ==> (#[trigger] places@[p]) < self.links.rows@.len()
                        && self.links@.contains_key(self.links.rows@[places@[p] as int].0@)
                        && self.links@[self.links.rows@[places@[p] as int].0@]
                        == self.links.rows@[places@[p] as int].1@ && question.holds(
                        self.links.rows@[places@[p] as int].0@,
                        self.links.rows@[places@[p] as int].1@,
                    ),
                forall|p: int, q: int|
                    0 <= p < q < places@.len() ==> self.links.rows@[(
                    #[trigger] places@[p]) as int].0@ != self.links.rows@[(
                    #[trigger] places@[q]) as int].0@,
                forall|p: int|
                    0 <= p < list@.len() ==> watchers(self@, user@).contains(
                        (#[trigger] list@[p]).to@,
                    ) && self@.live.contains_key(list@[p].to@) && list@[p].listener
                        == self@.live[list@[p].to@] && list@[p].push == Push::ContactsChanged,
                forall|p: int|
                    0 <= p < list@.len() ==> exists|q: int|
                        0 <= q < i && self.links.rows@[(#[trigger] places@[q]) as int].0@.1 == (
                        #[trigger] list@[p]).to@,
                forall|p: int, q: int|
                    0 <= p < q < list@.len() ==> (#[trigger] list@[p]).to@ != (
                    #[trigger] list@[q]).to@,
                forall|q: int|
                    0 <= q < i && self@.live.contains_key(
                        self.links.rows@[(#[trigger] places@[q]) as int].0@.1,
                    ) ==> exists|p: int|
                        0 <= p < list@.len() && (#[trigger] list@[p]).to@
                            == self.links.rows@[places@[q] as int].0@.1,
            decreases places@.len() - i,
        {
            let at: usize = places[i];
            let ghost was = list@;
            let ghost key = self.links.rows@[at as int].0@;
            let peer = self.links.rows[at].0.second.clone();
            proof {
                assert(question.holds(key, self.links.rows@[at as int].1@));
                assert(link_of(self@.store, user@, key.1) == Some(LinkState::Accepted));
                if exists|p: int| 0 <= p < list@.len() && (#[trigger] list@[p]).to@ == key.1 {
                    let p = choose|p: int| 0 <= p < list@.len() && (#[trigger] list@[p]).to@ == key.1;
                    let q = choose|q: int|
                        0 <= q < i && self.links.rows@[(#[trigger] places@[q]) as int].0@.1
                            == list@[p].to@;
                    assert(question.holds(
                        self.links.rows@[places@[q] as int].0@,
                        self.links.rows@[places@[q] as int].1@,
                    ));
                    assert(self.links.rows@[places@[q] as int].0@ != key);
                    assert(false);
                }
            }
            match self.live.get(&peer) {
                Some(listener) => {
                    list.push(Notice { to: peer, listener: *listener, push: Push::ContactsChanged });
                },
                None => {},
            }
            i = i + 1;
            proof {
                assert forall|p: int| 0 <= p < list@.len() implies exists|q: int|
                    0 <= q < i && self.links.rows@[(#[trigger] places@[q]) as int].0@.1 == (
                    #[trigger] list@[p]).to@ by {
                    if p < was.len() {
                        assert(list@[p] == was[p]);
                        let q = choose|q: int|
                            0 <= q < i - 1 && self.links.rows@[(
                            #[trigger] places@[q]) as int].0@.1 == was[p].to@;
                        assert(self.links.rows@[places@[q] as int].0@.1 == list@[p].to@);
                    } else {
                        assert(self.links.rows@[places@[i - 1] as int].0@.1 == list@[p].to@);
                    }
                }
                assert forall|q: int|
                    0 <= q < i && self@.live.contains_key(
                        self.links.rows@[(#[trigger] places@[q]) as int].0@.1,
                    ) implies exists|p: int|
                    0 <= p < list@.len() && (#[trigger] list@[p]).to@
                        == self.links.rows@[places@[q] as int].0@.1 by {
                    if q < i - 1 {
                        let p = choose|p: int|
                            0 <= p < was.len() && (#[trigger] was[p]).to@
                                == self.links.rows@[places@[q] as int].0@.1;
                        assert(list@[p] == was[p]);
                    } else {
                        assert(list@[was.len() as int].to@
                            == self.links.rows@[places@[q] as int].0@.1);
                    }
                }
            }
        }
        proof {
            let seen = notices(list@);
            assert forall|p: int| 0 <= p < seen.len() implies #[trigger] seen[p] == list@[p]@ by {}
            assert forall|name: Seq<char>| #[trigger]
                watchers(self@, user@).contains(name) implies exists|p: int|
                0 <= p < seen.len() && (#[trigger] seen[p]).to == name by {
                let key = (user@, name);
                assert(self.links@.contains_key(key));
                assert(question.holds(key, self.links@[key]));
                let q = choose|q: int|
                    0 <= q < places@.len() && self.links.rows@[(#[trigger] places@[q]) as int].0@
                        == key;
                let p = choose|p: int|
                    0 <= p < list@.len() && (#[trigger] list@[p]).to@
                        == self.links.rows@[places@[q] as int].0@.1;
                assert(seen[p].to == name);
            }
        }
        list
    }

    /// Records that the account was connected at this instant, so a contact who
    /// is offline can still be shown when they were last around.
    pub(crate) fn touch_last_seen(&mut self, user: &str, now: i64)
        requires
            old(self).wf(),
        ensures
            final(self).wf(),
            final(self)@ == (World { store: seen(old(self)@.store, user@, now), ..old(self)@ }),
    {
        let name = user.to_string();
        let row = match self.accounts.get(&name) {
            Some(account) => {
                let mut row = account.copy();
                row.last_seen = Some(now);
                row
            },
            None => {
                return;
            },
        };
        proof {
            lemma_account_kept(self@.store, user@, row@);
        }
        self.write(Write::PutAccount { username: name, row });
    }

    /// Drops the stream of an account, if it holds one.
    pub(crate) fn drop_stream(&mut self, user: &str, now: i64) -> (dropped: (Option<u64>, Vec<Notice>))
        requires
            old(self).wf(),
        ensures
            final(self).wf(),
            old(self)@.live.contains_key(user@) ==> {
                &&& dropped.0 == Some(old(self)@.live[user@])
                &&& final(self)@ == disconnected(old(self)@, user@, now)
                &&& told(
                    notices(dropped.1@),
                    watchers(final(self)@, user@),
                    final(self)@.live,
                    PushView::ContactsChanged,
                )
            },
            !old(self)@.live.contains_key(user@) ==> {
                &&& dropped.0 is None
                &&& final(self)@ == old(self)@
                &&& dropped.1@.len() == 0
            },
    {
        let name = user.to_string();
        let listener: u64 = match self.live.get(&name) {
            Some(listener) => *listener,
            None => {
                return (None, Vec::new());
            },
        };
        self.live.remove(&name);
        self.touch_last_seen(user, now);
        let list = self.notify_watchers(user);
        (Some(listener), list)
    }

    /// Removes a stream's entry when the client disconnects, unless a newer
    /// connection for the same account has replaced it.
    pub fn close_stream(&mut self, user: &str, listener: u64, now: i64) -> (list: Vec<Notice>)
        requires
            old(self).wf(),
        ensures
            final(self).wf(),
            old(self)@.live.contains_key(user@) && old(self)@.live[user@] == listener ==> {
                &&& final(self)@ == disconnected(old(self)@, user@, now)
                &&& told(
                    notices(list@),
                    watchers(final(self)@, user@),
                    final(self)@.live,
                    PushView::ContactsChanged,
                )
            },
            !(old(self)@.live.contains_key(user@) && old(self)@.live[user@] == listener) ==> {
                &&& final(self)@ == old(self)@
                &&& list@.len() == 0
            },
    {
        let name = user.to_string();
        let mine = match self.live.get(&name) {
            Some(held) => *held == listener,
            None => false,
        };
        if !mine {
            return Vec::new();
        }
        let (_dropped, list) = self.drop_stream(user, now);
        list
    }
}

} // verus!
