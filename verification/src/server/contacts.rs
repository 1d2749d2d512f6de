//! Contacts. Every link is stored from both sides so each account can be listed
//! on its own: one sees "outgoing" while the other sees "incoming", and both
//! flip to "accepted" together.
use vstd::prelude::*;

use crate::server::errors::ApiError;
#[allow(unused_imports)]
use crate::server::limits::{judged, passes};
use crate::server::limits::{HOUR, MAX_CONTACT_REQUESTS_PER_HOUR, MAX_UNKNOWN_LOOKUPS_PER_HOUR};
#[allow(unused_imports)]
use crate::server::live::{notice_to, notices, NoticeView, PushView};
use crate::server::live::{Notice, Push};
use crate::server::sessions::AuthUser;
#[allow(unused_imports)]
use crate::server::sessions::is_verified;
use crate::server::store::{Link, LinkState, Presence, Relay, Write};
#[allow(unused_imports)]
use crate::server::store::{fits_together, link_of, sound, without_messages_from, Store, World};
#[allow(unused_imports)]
use crate::table::is_listing;
use crate::table::{Pair, RowTest, Timed};
#[allow(unused_imports)]
use crate::text::lowercased;
use crate::text::{join2, lowercase, same_text};

verus! {

impl LinkState {
    /// How a state is written.
    pub open spec fn spec_text(self) -> Seq<char> {
        match self {
            LinkState::Incoming => "incoming"@,
            LinkState::Outgoing => "outgoing"@,
            LinkState::Accepted => "accepted"@,
            LinkState::Blocked => "blocked"@,
        }
    }

    /// The state as it is written.
    pub fn text(&self) -> (text: &'static str)
        ensures
            text@ == self.spec_text(),
    {
        match self {
            LinkState::Incoming => "incoming",
            LinkState::Outgoing => "outgoing",
            LinkState::Accepted => "accepted",
            LinkState::Blocked => "blocked",
        }
    }
}

/// The state that a text names.
pub open spec fn state_named(text: Seq<char>) -> Option<LinkState> {
    if text == "incoming"@ {
        Some(LinkState::Incoming)
    } else if text == "outgoing"@ {
        Some(LinkState::Outgoing)
    } else if text == "accepted"@ {
        Some(LinkState::Accepted)
    } else if text == "blocked"@ {
        Some(LinkState::Blocked)
    } else {
        None
    }
}

/// The state that a text names.
pub fn read_link_state(text: &str) -> (state: Option<LinkState>)
    ensures
        state == state_named(text@),
{
    if same_text(text, "incoming") {
        Some(LinkState::Incoming)
    } else if same_text(text, "outgoing") {
        Some(LinkState::Outgoing)
    } else if same_text(text, "accepted") {
        Some(LinkState::Accepted)
    } else if same_text(text, "blocked") {
        Some(LinkState::Blocked)
    } else {
        None
    }
}

/// Every state of a link reads back as it was written.
pub proof fn link_states_read_back(state: LinkState)
    ensures
        state_named(state.spec_text()) == Some(state),
{
    reveal_strlit("incoming");
    reveal_strlit("outgoing");
    reveal_strlit("accepted");
    reveal_strlit("blocked");
    assert("incoming"@[0] == 'i' && "outgoing"@[0] == 'o' && "accepted"@[0] == 'a' && "blocked"@[0]
        == 'b');
}

impl Timed for Link {
    open spec fn moment(row: Link) -> i64 {
        row.created_at
    }

    fn time(&self) -> (at: i64) {
        self.created_at
    }
}

/// The tables with one side of a link in a new state. A link keeps the moment
/// at which it was made.
pub open spec fn link_set(
    store: Store,
    owner: Seq<char>,
    peer: Seq<char>,
    state: LinkState,
    now: i64,
) -> Store {
    Store {
        links: store.links.insert(
            (owner, peer),
            Link {
                state,
                created_at: if store.links.contains_key((owner, peer)) {
                    store.links[(owner, peer)].created_at
                } else {
                    now
                },
            },
        ),
        ..store
    }
}

/// The tables without one side of a link.
pub open spec fn link_dropped(store: Store, owner: Seq<char>, peer: Seq<char>) -> Store {
    Store { links: store.links.remove((owner, peer)), ..store }
}

/// Why a contact request is refused, if so. Two separate budgets: the wide one
/// caps spamming people who do exist; the tight one caps misses, which is what
/// walking a dictionary of usernames looks like.
pub open spec fn request_refusal(w: World, me: Seq<char>, peer: Seq<char>, now: i64) -> Option<
    ApiError,
> {
    let counted = judged(w, "contact:"@ + me, MAX_CONTACT_REQUESTS_PER_HOUR, HOUR, now);
    if peer == me {
        Some(ApiError::SelfContact)
    } else if !passes(w, "contact:"@ + me, MAX_CONTACT_REQUESTS_PER_HOUR, HOUR, now) {
        Some(ApiError::RateLimited)
    } else if !is_verified(w.store, peer) {
        if passes(counted, "contact-miss:"@ + me, MAX_UNKNOWN_LOOKUPS_PER_HOUR, HOUR, now) {
            Some(ApiError::NotFound)
        } else {
            Some(ApiError::RateLimited)
        }
    } else if link_of(w.store, peer, me) == Some(LinkState::Blocked) {
        None
    } else {
        match link_of(w.store, me, peer) {
            Some(LinkState::Accepted) => Some(ApiError::AlreadyContacts),
            Some(LinkState::Outgoing) => Some(ApiError::RequestPending),
            _ => None,
        }
    }
}

/// What a contact request comes to. If the peer already asked, it is an
/// acceptance, so the two directions cannot deadlock.
pub open spec fn request_result(store: Store, me: Seq<char>, peer: Seq<char>) -> LinkState {
    if link_of(store, peer, me) != Some(LinkState::Blocked) && link_of(store, me, peer) == Some(
        LinkState::Incoming,
    ) {
        LinkState::Accepted
    } else {
        LinkState::Outgoing
    }
}

/// The relay after a contact request. Someone who blocked us must not learn that
/// we tried: the attempt is recorded on our side only, and stays pending.
pub open spec fn after_request(w: World, me: Seq<char>, peer: Seq<char>, now: i64) -> World {
    let counted = judged(w, "contact:"@ + me, MAX_CONTACT_REQUESTS_PER_HOUR, HOUR, now);
    if peer == me {
        w
    } else if request_refusal(w, me, peer, now) is Some {
        if passes(w, "contact:"@ + me, MAX_CONTACT_REQUESTS_PER_HOUR, HOUR, now) && !is_verified(
            w.store,
            peer,
        ) {
            judged(counted, "contact-miss:"@ + me, MAX_UNKNOWN_LOOKUPS_PER_HOUR, HOUR, now)
        } else {
            counted
        }
    } else if link_of(w.store, peer, me) == Some(LinkState::Blocked) {
        World { store: link_set(w.store, me, peer, LinkState::Outgoing, now), ..counted }
    } else {
        let state = request_result(w.store, me, peer);
        let theirs = if state == LinkState::Accepted {
            LinkState::Accepted
        } else {
            LinkState::Incoming
        };
        World {
            store: link_set(link_set(w.store, me, peer, state, now), peer, me, theirs, now),
            ..counted
        }
    }
}

/// The relay once a request was accepted.
pub open spec fn after_accept(w: World, me: Seq<char>, peer: Seq<char>, now: i64) -> World {
    World {
        store: link_set(
            link_set(w.store, me, peer, LinkState::Accepted, now),
            peer,
            me,
            LinkState::Accepted,
            now,
        ),
        ..w
    }
}

/// Why a block is refused, if so.
pub open spec fn block_refusal(store: Store, me: Seq<char>, peer: Seq<char>) -> Option<ApiError> {
    if peer == me {
        Some(ApiError::SelfBlock)
    } else if !store.accounts.contains_key(peer) {
        Some(ApiError::Internal)
    } else {
        None
    }
}

/// The relay once a peer was blocked. Their side of the link goes entirely: the
/// block should look like the contact simply disappeared. Anything already
/// queued from them is dropped too.
pub open spec fn after_block(w: World, me: Seq<char>, peer: Seq<char>, now: i64) -> World {
    let linked = link_dropped(link_set(w.store, me, peer, LinkState::Blocked, now), peer, me);
    World {
        store: Store {
            messages: without_messages_from(linked.messages, me, peer),
            ..linked
        },
        ..w
    }
}

/// The relay once a link is gone from both sides.
pub open spec fn after_removal(w: World, me: Seq<char>, peer: Seq<char>) -> World {
    World { store: link_dropped(link_dropped(w.store, me, peer), peer, me), ..w }
}

/// Whether somebody may see the presence of an account.
pub open spec fn may_see(store: Store, viewer: Seq<char>, name: Seq<char>) -> bool {
    viewer == name || link_of(store, name, viewer) == Some(LinkState::Accepted)
}

/// The presence of an account as somebody sees it: the one it chose while it is
/// connected, and nothing (that is, offline) otherwise, or to a stranger.
pub open spec fn presence_of(w: World, viewer: Seq<char>, name: Seq<char>) -> Option<Presence> {
    if w.live.contains_key(name) && w.store.accounts.contains_key(name) && may_see(
        w.store,
        viewer,
        name,
    ) {
        Some(w.store.accounts[name].status)
    } else {
        None
    }
}

/// One line of a contact list.
pub struct Contact {
    pub username: String,
    pub state: LinkState,
    pub alias: String,
    /// Nothing while they are offline.
    pub status: Option<Presence>,
    /// Only meaningful while they are away.
    pub last_seen: Option<i64>,
}

/// A line of a contact list as a plain value.
pub struct ContactView {
    pub username: Seq<char>,
    pub state: LinkState,
    pub alias: Seq<char>,
    pub status: Option<Presence>,
    pub last_seen: Option<i64>,
}

impl View for Contact {
    type V = ContactView;

    open spec fn view(&self) -> ContactView {
        ContactView {
            username: self.username@,
            state: self.state,
            alias: self.alias@,
            status: self.status,
            last_seen: self.last_seen,
        }
    }
}

/// How a peer appears on somebody's contact list.
pub open spec fn contact_line(w: World, me: Seq<char>, peer: Seq<char>) -> ContactView {
    ContactView {
        username: peer,
        state: w.store.links[(me, peer)].state,
        alias: w.store.accounts[peer].alias,
        status: presence_of(w, me, peer),
        last_seen: if w.live.contains_key(peer) || !may_see(w.store, me, peer) {
            None
        } else {
            w.store.accounts[peer].last_seen
        },
    }
}

/// Whether a list is the contact list of an account: each peer once, the oldest
/// link first.
pub open spec fn is_contact_list(list: Seq<Contact>, w: World, me: Seq<char>) -> bool {
    &&& forall|i: int|
        0 <= i < list.len() ==> w.store.links.contains_key((me, (#[trigger] list[i])@.username))
            && list[i]@ == contact_line(w, me, list[i]@.username)
    &&& forall|i: int, j: int|
        0 <= i < j < list.len() ==> (#[trigger] list[i])@.username != (
        #[trigger] list[j])@.username && w.store.links[(me, list[i]@.username)].created_at
            <= w.store.links[(me, list[j]@.username)].created_at
    &&& forall|peer: Seq<char>| #[trigger]
        w.store.links.contains_key((me, peer)) ==> exists|i: int|
            0 <= i < list.len() && (#[trigger] list[i])@.username == peer
}

/// What became of a link, and who is told.
pub struct Linked {
    pub state: LinkState,
    pub notices: Vec<Notice>,
}

/// Singles out the links of one account.
struct OwnedBy<'a> {
    owner: &'a str,
}

impl<'a> RowTest<Pair, Link> for OwnedBy<'a> {
    closed spec fn holds(&self, key: (Seq<char>, Seq<char>), row: Link) -> bool {
        key.0 == self.owner@
    }

    fn test(&self, key: &Pair, row: &Link) -> (yes: bool) {
        same_text(&key.first, self.owner)
    }
}

/// Changing the link between two accounts keeps the tables in order, as long as
/// its two sides fit together.
proof fn lemma_link_changed(before: Store, after: Store, me: Seq<char>, peer: Seq<char>)
    requires
        sound(before),
        me != peer,
        before.accounts.contains_key(me),
        before.accounts.contains_key(peer),
        after == (Store { links: after.links, ..before }),
        forall|o: Seq<char>, p: Seq<char>|
            (o, p) != (me, peer) && (o, p) != (peer, me) ==> (
            #[trigger] after.links.contains_key((o, p)) == before.links.contains_key((o, p))
                && after.links[(o, p)] == before.links[(o, p)]),
        fits_together(link_of(after, me, peer), link_of(after, peer, me)),
        fits_together(link_of(after, peer, me), link_of(after, me, peer)),
    ensures
        sound(after),
{
    assert forall|o: Seq<char>, p: Seq<char>| fits_together(
        #[trigger] link_of(after, o, p),
        link_of(after, p, o),
    ) by {
        assert(fits_together(link_of(before, o, p), link_of(before, p, o)));
        if (o, p) != (me, peer) && (o, p) != (peer, me) {
            assert(after.links.contains_key((o, p)) == before.links.contains_key((o, p)));
            assert((p, o) != (me, peer) && (p, o) != (peer, me));
            assert(after.links.contains_key((p, o)) == before.links.contains_key((p, o)));
        }
    }
    assert forall|o: Seq<char>, p: Seq<char>| #[trigger]
        after.links.contains_key((o, p)) implies o != p && after.accounts.contains_key(o)
        && after.accounts.contains_key(p) by {
        if (o, p) != (me, peer) && (o, p) != (peer, me) {
            assert(before.links.contains_key((o, p)));
        }
    }
}

impl Relay {
    /// How one account stands to another.
    pub fn link_state(&self, owner: &str, peer: &str) -> (state: Option<LinkState>)
        requires
            self.tables_wf(),
        ensures
            state == link_of(self@.store, owner@, peer@),
    {
        match self.links.get(&Pair::of(owner, peer)) {
            Some(link) => Some(link.state),
            None => None,
        }
    }

    /// Puts one side of a link in a new state.
    fn set_link(&mut self, owner: &str, peer: &str, state: LinkState, now: i64)
        requires
            old(self).tables_wf(),
        ensures
            final(self).tables_wf(),
            final(self)@ == (World {
                store: link_set(old(self)@.store, owner@, peer@, state, now),
                ..old(self)@
            }),
            final(self).decoy == old(self).decoy,
    {
        let created_at: i64 = match self.links.get(&Pair::of(owner, peer)) {
            Some(link) => link.created_at,
            None => now,
        };
        self.write(
            Write::PutLink {
                owner: owner.to_string(),
                peer: peer.to_string(),
                row: Link { state, created_at },
            },
        );
    }

    /// Drops one side of a link.
    fn drop_link(&mut self, owner: &str, peer: &str)
        requires
            old(self).tables_wf(),
        ensures
            final(self).tables_wf(),
            final(self)@ == (World {
                store: link_dropped(old(self)@.store, owner@, peer@),
                ..old(self)@
            }),
            final(self).decoy == old(self).decoy,
    {
        self.write(Write::DropLink { owner: owner.to_string(), peer: peer.to_string() });
    }

    /// Whether there is a verified account of that name.
    pub(crate) fn has_verified(&self, name: &String) -> (yes: bool)
        requires
            self.wf(),
        ensures
            yes == is_verified(self@.store, name@),
    {
        match self.accounts.get(name) {
            Some(account) => account.verified,
            None => false,
        }
    }

    /// Sends a contact request.
    pub fn request_contact(&mut self, me: &AuthUser, peer: &str, now: i64) -> (reply: Result<
        Linked,
        ApiError,
    >)
        requires
            old(self).wf(),
            old(self)@.store.accounts.contains_key(me.username@),
        ensures
            final(self).wf(),
            final(self)@ == after_request(old(self)@, me.username@, lowercased(peer@), now),
            match request_refusal(old(self)@, me.username@, lowercased(peer@), now) {
                Some(e) => reply == Err::<Linked, ApiError>(e),
                None => {
                    let name = lowercased(peer@);
                    let store = old(self)@.store;
                    &&& reply is Ok
                    &&& reply->Ok_0.state == request_result(store, me.username@, name)
                    &&& notices(reply->Ok_0.notices@) == (if link_of(store, name, me.username@)
                        == Some(LinkState::Blocked) {
                        Seq::<NoticeView>::empty()
                    } else {
                        notice_to(old(self)@, name, PushView::ContactsChanged)
                    })
                },
            },
    {
        let name = lowercase(peer);
        if same_text(&name, &me.username) {
            return Err(ApiError::SelfContact);
        }
        let key = join2("contact:", &me.username);
        if !self.pass(&key, MAX_CONTACT_REQUESTS_PER_HOUR, HOUR, now) {
            return Err(ApiError::RateLimited);
        }
        if !self.has_verified(&name) {
            let misses = join2("contact-miss:", &me.username);
            if !self.pass(&misses, MAX_UNKNOWN_LOOKUPS_PER_HOUR, HOUR, now) {
                return Err(ApiError::RateLimited);
            }
            return Err(ApiError::NotFound);
        }
        let ghost counted = self@;
        let ghost mine = me.username@;
        let ghost theirs = name@;
        let held = self.link_state(&me.username, &name);
        let reverse = self.link_state(&name, &me.username);
        proof {
            assert(fits_together(
                link_of(counted.store, mine, theirs),
                link_of(counted.store, theirs, mine),
            ));
        }
        let blocked = match reverse {
            Some(LinkState::Blocked) => true,
            _ => false,
        };
        if blocked {
            self.set_link(&me.username, &name, LinkState::Outgoing, now);
            proof {
                lemma_link_changed(counted.store, self@.store, mine, theirs);
            }
            let notices: Vec<Notice> = Vec::new();
            assert(crate::server::live::notices(notices@) =~= Seq::<NoticeView>::empty());
            return Ok(Linked { state: LinkState::Outgoing, notices });
        }
        let state = match held {
            Some(LinkState::Accepted) => {
                return Err(ApiError::AlreadyContacts);
            },
            Some(LinkState::Outgoing) => {
                return Err(ApiError::RequestPending);
            },
            // They asked first: this is an acceptance.
            Some(LinkState::Incoming) => LinkState::Accepted,
            _ => LinkState::Outgoing,
        };
        let answer = match state {
            LinkState::Accepted => LinkState::Accepted,
            _ => LinkState::Incoming,
        };
        self.set_link(&me.username, &name, state, now);
        self.set_link(&name, &me.username, answer, now);
        proof {
            lemma_link_changed(counted.store, self@.store, mine, theirs);
        }
        let notices = self.notify(&name, Push::ContactsChanged);
        Ok(Linked { state, notices })
    }

    /// Accepts a pending incoming request.
    pub fn accept_contact(&mut self, me: &AuthUser, peer: &str, now: i64) -> (reply: Result<
        Linked,
        ApiError,
    >)
        requires
            old(self).wf(),
        ensures
            final(self).wf(),
            link_of(old(self)@.store, me.username@, lowercased(peer@)) != Some(
                LinkState::Incoming,
            ) ==> reply == Err::<Linked, ApiError>(ApiError::NoRequest) && final(self)@ == old(
                self,
            )@,
            link_of(old(self)@.store, me.username@, lowercased(peer@)) == Some(LinkState::Incoming)
                ==> {
                &&& reply is Ok
                &&& reply->Ok_0.state == LinkState::Accepted
                &&& notices(reply->Ok_0.notices@) == notice_to(
                    old(self)@,
                    lowercased(peer@),
                    PushView::ContactsChanged,
                )
                &&& final(self)@ == after_accept(old(self)@, me.username@, lowercased(peer@), now)
            },
    {
        let name = lowercase(peer);
        let ghost before = self@;
        let ghost mine = me.username@;
        let waiting = match self.link_state(&me.username, &name) {
            Some(LinkState::Incoming) => true,
            _ => false,
        };
        if !waiting {
            return Err(ApiError::NoRequest);
        }
        assert(before.store.links.contains_key((mine, name@)));
        self.set_link(&me.username, &name, LinkState::Accepted, now);
        self.set_link(&name, &me.username, LinkState::Accepted, now);
        proof {
            lemma_link_changed(before.store, self@.store, mine, name@);
        }
        let notices = self.notify(&name, Push::ContactsChanged);
        Ok(Linked { state: LinkState::Accepted, notices })
    }

    /// Blocks a peer: they stop being a contact, cannot message us, and a
    /// request from them never reaches us. Unblocking is removing the contact.
    pub fn block_contact(&mut self, me: &AuthUser, peer: &str, now: i64) -> (reply: Result<
        Linked,
        ApiError,
    >)
        requires
            old(self).wf(),
            old(self)@.store.accounts.contains_key(me.username@),
        ensures
            final(self).wf(),
            match block_refusal(old(self)@.store, me.username@, lowercased(peer@)) {
                Some(e) => reply == Err::<Linked, ApiError>(e) && final(self)@ == old(self)@,
                None => {
                    &&& reply is Ok
                    &&& reply->Ok_0.state == LinkState::Blocked
                    &&& notices(reply->Ok_0.notices@) == notice_to(
                        old(self)@,
                        lowercased(peer@),
                        PushView::ContactsChanged,
                    )
                    &&& final(self)@ == after_block(
                        old(self)@,
                        me.username@,
                        lowercased(peer@),
                        now,
                    )
                },
            },
    {
        let name = lowercase(peer);
        if same_text(&name, &me.username) {
            return Err(ApiError::SelfBlock);
        }
        // A link can only name accounts that exist.
        if !self.accounts.has(&name) {
            return Err(ApiError::Internal);
        }
        let ghost before = self@;
        let ghost mine = me.username@;
        self.set_link(&me.username, &name, LinkState::Blocked, now);
        self.drop_link(&name, &me.username);
        let ghost linked = self@;
        proof {
            lemma_link_changed(before.store, linked.store, mine, name@);
        }
        self.write(
            Write::DropMessagesFrom { recipient: me.username.clone(), sender: name.clone() },
        );
        proof {
            lemma_fewer_messages(linked.store, self@.store);
        }
        let notices = self.notify(&name, Push::ContactsChanged);
        Ok(Linked { state: LinkState::Blocked, notices })
    }

    /// Rejects a request, cancels one we sent, removes an existing contact, or
    /// lifts a block.
    pub fn remove_contact(&mut self, me: &AuthUser, peer: &str) -> (list: Vec<Notice>)
        requires
            old(self).wf(),
        ensures
            final(self).wf(),
            final(self)@ == after_removal(old(self)@, me.username@, lowercased(peer@)),
            notices(list@) == notice_to(
                old(self)@,
                lowercased(peer@),
                PushView::ContactsChanged,
            ),
    {
        let name = lowercase(peer);
        let ghost before = self@;
        let ghost mine = me.username@;
        self.drop_link(&me.username, &name);
        self.drop_link(&name, &me.username);
        proof {
            lemma_link_gone(before.store, mine, name@);
        }
        self.notify(&name, Push::ContactsChanged)
    }

    /// The presence of an account as somebody sees it.
    pub(crate) fn seen_presence(&self, viewer: &str, name: &String) -> (status: Option<Presence>)
        requires
            self.wf(),
        ensures
            status == presence_of(self@, viewer@, name@),
    {
        if !self.live.has(name) || !self.is_visible(viewer, name) {
            return None;
        }
        match self.accounts.get(name) {
            Some(account) => Some(account.status),
            None => None,
        }
    }

    /// Whether somebody may see the presence of an account.
    pub(crate) fn is_visible(&self, viewer: &str, name: &str) -> (yes: bool)
        requires
            self.wf(),
        ensures
            yes == may_see(self@.store, viewer@, name@),
    {
        if same_text(viewer, name) {
            return true;
        }
        match self.link_state(name, viewer) {
            Some(LinkState::Accepted) => true,
            _ => false,
        }
    }

    /// The caller's contact list: accepted contacts and pending requests in both
    /// directions, with alias and current presence.
    pub fn list_contacts(&self, me: &AuthUser) -> (list: Vec<Contact>)
        requires
            self.wf(),
        ensures
            is_contact_list(list@, self@, me.username@),
    {
        let question = OwnedBy { owner: &me.username };
        let places = self.links.list_where(&question);
        let ghost links = self.links.at_places(places@);
        let mut list: Vec<Contact> = Vec::new();
        let mut i: usize = 0;
        while i < places.len()
            invariant
                self.wf(),
                i <= places@.len(),
                question.owner@ == me.username@,
                links == self.links.at_places(places@),
                forall|j: int|
                    0 <= j < places@.len() ==> (#[trigger] places@[j]) < self.links.rows@.len(),
                is_listing(
                    links,
                    self.links@,
                    |k: (Seq<char>, Seq<char>), r: Link| question.holds(k, r),
                    |r: Link| Link::moment(r),
                ),
                list@.len() == i,
                forall|j: int|
                    0 <= j < i ==> (#[trigger] list@[j])@ == contact_line(
                        self@,
                        me.username@,
                        links[j].0.1,
                    ),
            decreases places@.len() - i,
        {
            let at: usize = places[i];
            let peer = self.links.rows[at].0.second.clone();
            let state = self.links.rows[at].1.state;
            proof {
                let link = links[i as int];
                assert(link.0 == self.links.rows@[at as int].0@);
                assert(self.links@.contains_key(link.0));
                assert(question.holds(link.0, link.1));
                assert(self@.store.links.contains_key((me.username@, peer@)));
            }
            let connected = self.live.has(&peer);
            let status = self.seen_presence(&me.username, &peer);
            let visible = self.is_visible(&me.username, &peer);
            match self.accounts.get(&peer) {
                Some(account) => {
                    let last_seen = if connected || !visible {
                        None
                    } else {
                        account.last_seen
                    };
                    list.push(
                        Contact {
                            username: peer,
                            state,
                            alias: account.alias.clone(),
                            status,
                            last_seen,
                        },
                    );
                },
                None => {
                    assert(false);
                },
            }
            i = i + 1;
        }
        proof {
            let mine = me.username@;
            assert forall|i: int| 0 <= i < list@.len() implies self@.store.links.contains_key(
                (mine, (#[trigger] list@[i])@.username),
            ) && list@[i]@.username == links[i].0.1 && links[i].0 == (mine, links[i].0.1) by {
                assert(self.links@.contains_key(links[i].0));
                assert(question.holds(links[i].0, links[i].1));
            }
            assert forall|i: int, j: int| 0 <= i < j < list@.len() implies (
            #[trigger] list@[i])@.username != (#[trigger] list@[j])@.username
                && self@.store.links[(mine, list@[i]@.username)].created_at
                <= self@.store.links[(mine, list@[j]@.username)].created_at by {
                assert(links[i].0 != links[j].0);
                assert(Link::moment(links[i].1) <= Link::moment(links[j].1));
            }
            assert forall|peer: Seq<char>| #[trigger]
                self@.store.links.contains_key((mine, peer)) implies exists|i: int|
                0 <= i < list@.len() && (#[trigger] list@[i])@.username == peer by {
                assert(question.holds((mine, peer), self.links@[(mine, peer)]));
                let i = choose|i: int|
                    0 <= i < links.len() && (#[trigger] links[i]).0 == (mine, peer);
                assert(list@[i]@.username == peer);
            }
        }
        list
    }
}

/// Removing a link from both sides keeps the tables in order.
proof fn lemma_link_gone(store: Store, me: Seq<char>, peer: Seq<char>)
    requires
        sound(store),
    ensures
        sound(link_dropped(link_dropped(store, me, peer), peer, me)),
{
    let after = link_dropped(link_dropped(store, me, peer), peer, me);
    assert forall|o: Seq<char>, p: Seq<char>| fits_together(
        #[trigger] link_of(after, o, p),
        link_of(after, p, o),
    ) by {
        assert(fits_together(link_of(store, o, p), link_of(store, p, o)));
    }
    assert forall|o: Seq<char>, p: Seq<char>| #[trigger]
        after.links.contains_key((o, p)) implies o != p && after.accounts.contains_key(o)
        && after.accounts.contains_key(p) by {
        assert(store.links.contains_key((o, p)));
    }
}

/// Dropping messages keeps the tables in order.
pub(crate) proof fn lemma_fewer_messages(before: Store, after: Store)
    requires
        sound(before),
        after == (Store { messages: after.messages, ..before }),
        forall|id: Seq<char>| #[trigger]
            after.messages.contains_key(id) ==> before.messages.contains_key(id)
                && after.messages[id] == before.messages[id],
    ensures
        sound(after),
{
    assert forall|o: Seq<char>, p: Seq<char>| true implies #[trigger] link_of(after, o, p)
        == link_of(before, o, p) by {}
    assert forall|o: Seq<char>, p: Seq<char>| fits_together(
        #[trigger] link_of(after, o, p),
        link_of(after, p, o),
    ) by {
        assert(fits_together(link_of(before, o, p), link_of(before, p, o)));
    }
}

} // verus!
