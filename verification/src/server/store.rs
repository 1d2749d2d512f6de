//! What the relay keeps: its tables, and the journal of what was written to
//! them, which whoever runs the relay carries over to disk.
use vstd::prelude::*;

#[allow(unused_imports)]
use crate::password::default_cost;
use crate::password::hash_password;
#[allow(unused_imports)]
use crate::ratelimit::AttemptsView;
use crate::ratelimit::RateLimiter;
#[allow(unused_imports)]
use crate::table::without_where;
use crate::table::{Pair, RowTest, Table, TableKey};
#[allow(unused_imports)]
use crate::text::{lemma_ascii_bytes, text_in};
use crate::text::copy_text;

verus! {

/// Presence a user can choose. Being reachable at all is derived from the live
/// streams, so "offline" is reported, never set.
#[derive(Clone, Copy, Debug, PartialEq, Eq, Structural)]
pub enum Presence {
    Online,
    Away,
    Busy,
}

/// How one account stands to another.
#[derive(Clone, Copy, Debug, PartialEq, Eq, Structural)]
pub enum LinkState {
    /// The other one asked.
    Incoming,
    /// This one asked.
    Outgoing,
    /// The two are contacts.
    Accepted,
    /// This one wants nothing from the other.
    Blocked,
}

/// What a one-time prekey is made for.
#[derive(Clone, Copy, Debug, PartialEq, Eq, Structural)]
pub enum PrekeyKind {
    Ec,
    Kyber,
}

/// An account.
pub struct Account {
    pub alias: String,
    pub email: String,
    pub password_hash: String,
    pub verified: bool,
    pub verify_code: Option<String>,
    pub verify_expires: Option<i64>,
    pub verify_attempts: i64,
    pub status: Presence,
    pub last_seen: Option<i64>,
    pub reset_code: Option<String>,
    pub reset_expires: Option<i64>,
    pub reset_attempts: i64,
    pub token: String,
    pub registration_id: i64,
    pub identity_key: String,
    pub bundle_static: Option<String>,
    pub created_at: i64,
}

/// An account as a plain value.
pub struct AccountView {
    pub alias: Seq<char>,
    pub email: Seq<char>,
    pub password_hash: Seq<char>,
    pub verified: bool,
    pub verify_code: Option<Seq<char>>,
    pub verify_expires: Option<i64>,
    pub verify_attempts: i64,
    pub status: Presence,
    pub last_seen: Option<i64>,
    pub reset_code: Option<Seq<char>>,
    pub reset_expires: Option<i64>,
    pub reset_attempts: i64,
    pub token: Seq<char>,
    pub registration_id: i64,
    pub identity_key: Seq<char>,
    pub bundle_static: Option<Seq<char>>,
    pub created_at: i64,
}

impl View for Account {
    type V = AccountView;

    open spec fn view(&self) -> AccountView {
        AccountView {
            alias: self.alias@,
            email: self.email@,
            password_hash: self.password_hash@,
            verified: self.verified,
            verify_code: text_in(self.verify_code),
            verify_expires: self.verify_expires,
            verify_attempts: self.verify_attempts,
            status: self.status,
            last_seen: self.last_seen,
            reset_code: text_in(self.reset_code),
            reset_expires: self.reset_expires,
            reset_attempts: self.reset_attempts,
            token: self.token@,
            registration_id: self.registration_id,
            identity_key: self.identity_key@,
            bundle_static: text_in(self.bundle_static),
            created_at: self.created_at,
        }
    }
}

impl Account {
    /// The same account again.
    pub fn copy(&self) -> (again: Account)
        ensures
            again@ == self@,
    {
        Account {
            alias: self.alias.clone(),
            email: self.email.clone(),
            password_hash: self.password_hash.clone(),
            verified: self.verified,
            verify_code: copy_text(&self.verify_code),
            verify_expires: self.verify_expires,
            verify_attempts: self.verify_attempts,
            status: self.status,
            last_seen: self.last_seen,
            reset_code: copy_text(&self.reset_code),
            reset_expires: self.reset_expires,
            reset_attempts: self.reset_attempts,
            token: self.token.clone(),
            registration_id: self.registration_id,
            identity_key: self.identity_key.clone(),
            bundle_static: copy_text(&self.bundle_static),
            created_at: self.created_at,
        }
    }
}

/// One side of a link between two accounts.
#[derive(Clone, Copy)]
pub struct Link {
    pub state: LinkState,
    pub created_at: i64,
}

impl View for Link {
    type V = Link;

    open spec fn view(&self) -> Link {
        *self
    }
}

/// A message that waits for its recipient.
pub struct Queued {
    pub sender: String,
    pub recipient: String,
    pub body: String,
    pub created_at: i64,
}

/// A waiting message as a plain value.
pub struct QueuedView {
    pub sender: Seq<char>,
    pub recipient: Seq<char>,
    pub body: Seq<char>,
    pub created_at: i64,
}

impl View for Queued {
    type V = QueuedView;

    open spec fn view(&self) -> QueuedView {
        QueuedView {
            sender: self.sender@,
            recipient: self.recipient@,
            body: self.body@,
            created_at: self.created_at,
        }
    }
}

impl Queued {
    /// The same message again.
    pub fn copy(&self) -> (again: Queued)
        ensures
            again@ == self@,
    {
        Queued {
            sender: self.sender.clone(),
            recipient: self.recipient.clone(),
            body: self.body.clone(),
            created_at: self.created_at,
        }
    }
}

/// Who to tell when a delivered message is read.
pub struct Delivery {
    pub sender: String,
    pub recipient: String,
    pub created_at: i64,
}

/// A delivery as a plain value.
pub struct DeliveryView {
    pub sender: Seq<char>,
    pub recipient: Seq<char>,
    pub created_at: i64,
}

impl View for Delivery {
    type V = DeliveryView;

    open spec fn view(&self) -> DeliveryView {
        DeliveryView {
            sender: self.sender@,
            recipient: self.recipient@,
            created_at: self.created_at,
        }
    }
}

impl Delivery {
    /// The same delivery again.
    pub fn copy(&self) -> (again: Delivery)
        ensures
            again@ == self@,
    {
        Delivery {
            sender: self.sender.clone(),
            recipient: self.recipient.clone(),
            created_at: self.created_at,
        }
    }
}

/// An entry of the client-side encrypted history.
pub struct Archived {
    pub blob: String,
    pub created_at: i64,
}

/// An archived entry as a plain value.
pub struct ArchivedView {
    pub blob: Seq<char>,
    pub created_at: i64,
}

impl View for Archived {
    type V = ArchivedView;

    open spec fn view(&self) -> ArchivedView {
        ArchivedView { blob: self.blob@, created_at: self.created_at }
    }
}

impl Archived {
    /// The same entry again.
    pub fn copy(&self) -> (again: Archived)
        ensures
            again@ == self@,
    {
        Archived { blob: self.blob.clone(), created_at: self.created_at }
    }
}

/// A published one-time prekey.
pub struct Prekey {
    pub username: String,
    pub kind: PrekeyKind,
    pub data: String,
}

/// A one-time prekey as a plain value.
pub struct PrekeyView {
    pub username: Seq<char>,
    pub kind: PrekeyKind,
    pub data: Seq<char>,
}

impl View for Prekey {
    type V = PrekeyView;

    open spec fn view(&self) -> PrekeyView {
        PrekeyView { username: self.username@, kind: self.kind, data: self.data@ }
    }
}

impl Prekey {
    /// The same prekey again.
    pub fn copy(&self) -> (again: Prekey)
        ensures
            again@ == self@,
    {
        Prekey { username: self.username.clone(), kind: self.kind, data: self.data.clone() }
    }
}

/// The tables as plain values. Links and archived entries are found by a pair:
/// owner and peer, account and entry.
pub struct Store {
    pub accounts: Map<Seq<char>, AccountView>,
    pub links: Map<(Seq<char>, Seq<char>), Link>,
    pub messages: Map<Seq<char>, QueuedView>,
    pub deliveries: Map<Seq<char>, DeliveryView>,
    pub archive: Map<(Seq<char>, Seq<char>), ArchivedView>,
    pub prekeys: Map<u64, PrekeyView>,
    pub next_prekey: u64,
}

/// One change to the tables.
#[allow(inconsistent_fields)]
pub enum Write {
    PutAccount { username: String, row: Account },
    PutLink { owner: String, peer: String, row: Link },
    DropLink { owner: String, peer: String },
    PutMessage { id: String, row: Queued },
    DropMessage { id: String },
    /// Everything that waits for one account from another goes.
    DropMessagesFrom { recipient: String, sender: String },
    PutDelivery { id: String, row: Delivery },
    DropDelivery { id: String },
    /// The deliveries from before a moment go.
    PruneDeliveries { before: i64 },
    PutArchive { username: String, id: String, row: Archived },
    DropArchive { username: String, id: String },
    PutPrekey { id: u64, row: Prekey },
    DropPrekey { id: u64 },
    /// All prekeys of an account go.
    DropPrekeysOf { username: String },
}

/// The tables after one change.
pub open spec fn applied(store: Store, write: Write) -> Store {
    match write {
        Write::PutAccount { username, row } => Store {
            accounts: store.accounts.insert(username@, row@),
            ..store
        },
        Write::PutLink { owner, peer, row } => Store {
            links: store.links.insert((owner@, peer@), row),
            ..store
        },
        Write::DropLink { owner, peer } => Store {
            links: store.links.remove((owner@, peer@)),
            ..store
        },
        Write::PutMessage { id, row } => Store {
            messages: store.messages.insert(id@, row@),
            ..store
        },
        Write::DropMessage { id } => Store { messages: store.messages.remove(id@), ..store },
        Write::DropMessagesFrom { recipient, sender } => Store {
            messages: without_messages_from(store.messages, recipient@, sender@),
            ..store
        },
        Write::PutDelivery { id, row } => Store {
            deliveries: store.deliveries.insert(id@, row@),
            ..store
        },
        Write::DropDelivery { id } => Store { deliveries: store.deliveries.remove(id@), ..store },
        Write::PruneDeliveries { before } => Store {
            deliveries: pruned(store.deliveries, before),
            ..store
        },
        Write::PutArchive { username, id, row } => Store {
            archive: store.archive.insert((username@, id@), row@),
            ..store
        },
        Write::DropArchive { username, id } => Store {
            archive: store.archive.remove((username@, id@)),
            ..store
        },
        Write::PutPrekey { id, row } => Store {
            prekeys: store.prekeys.insert(id, row@),
            next_prekey: (id + 1) as u64,
            ..store
        },
        Write::DropPrekey { id } => Store { prekeys: store.prekeys.remove(id), ..store },
        Write::DropPrekeysOf { username } => Store {
            prekeys: without_prekeys_of(store.prekeys, username@),
            ..store
        },
    }
}

/// The waiting messages but for those to one account from another.
pub open spec fn without_messages_from(
    messages: Map<Seq<char>, QueuedView>,
    recipient: Seq<char>,
    sender: Seq<char>,
) -> Map<Seq<char>, QueuedView> {
    without_where(
        messages,
        |id: Seq<char>, m: QueuedView| m.recipient == recipient && m.sender == sender,
    )
}

/// The deliveries that are not from before a moment.
pub open spec fn pruned(deliveries: Map<Seq<char>, DeliveryView>, before: i64) -> Map<
    Seq<char>,
    DeliveryView,
> {
    without_where(deliveries, |id: Seq<char>, d: DeliveryView| d.created_at < before)
}

/// The prekeys but for those of one account.
pub open spec fn without_prekeys_of(prekeys: Map<u64, PrekeyView>, username: Seq<char>) -> Map<
    u64,
    PrekeyView,
> {
    without_where(prekeys, |id: u64, k: PrekeyView| k.username == username)
}

/// The tables after a run of changes.
pub open spec fn replayed(base: Store, journal: Seq<Write>) -> Store
    decreases journal.len(),
{
    if journal.len() == 0 {
        base
    } else {
        applied(replayed(base, journal.drop_last()), journal.last())
    }
}

struct FromTo<'a> {
    recipient: &'a String,
    sender: &'a String,
}

impl<'a> RowTest<String, Queued> for FromTo<'a> {
    closed spec fn holds(&self, key: Seq<char>, row: QueuedView) -> bool {
        row.recipient == self.recipient@ && row.sender == self.sender@
    }

    fn test(&self, key: &String, row: &Queued) -> (yes: bool) {
        row.recipient == *self.recipient && row.sender == *self.sender
    }
}

struct OlderThan {
    before: i64,
}

impl RowTest<String, Delivery> for OlderThan {
    closed spec fn holds(&self, key: Seq<char>, row: DeliveryView) -> bool {
        row.created_at < self.before
    }

    fn test(&self, key: &String, row: &Delivery) -> (yes: bool) {
        row.created_at < self.before
    }
}

struct KeysOf<'a> {
    username: &'a String,
}

impl<'a> RowTest<u64, Prekey> for KeysOf<'a> {
    closed spec fn holds(&self, key: u64, row: PrekeyView) -> bool {
        row.username == self.username@
    }

    fn test(&self, key: &u64, row: &Prekey) -> (yes: bool) {
        row.username == *self.username
    }
}

/// The relay.
pub struct Relay {
    pub accounts: Table<String, Account>,
    pub links: Table<Pair, Link>,
    pub messages: Table<String, Queued>,
    pub deliveries: Table<String, Delivery>,
    pub archive: Table<Pair, Archived>,
    pub prekeys: Table<u64, Prekey>,
    pub next_prekey: u64,
    /// The attempts that count against a budget.
    pub limits: RateLimiter,
    /// The stream that each connected account holds.
    pub live: Table<String, u64>,
    pub next_listener: u64,
    /// A password hash that nobody's password is behind, for names that do not
    /// exist.
    pub decoy: String,
    /// What was written since the journal was last taken.
    pub journal: Vec<Write>,
    /// The tables as they were when the journal was last taken.
    pub base: Ghost<Store>,
}

/// The relay as a plain value.
pub struct World {
    pub store: Store,
    pub hits: Map<Seq<char>, AttemptsView>,
    pub live: Map<Seq<char>, u64>,
    pub next_listener: u64,
}

impl View for Relay {
    type V = World;

    open spec fn view(&self) -> World {
        World {
            store: Store {
                accounts: self.accounts@,
                links: self.links@,
                messages: self.messages@,
                deliveries: self.deliveries@,
                archive: self.archive@,
                prekeys: self.prekeys@,
                next_prekey: self.next_prekey,
            },
            hits: self.limits@,
            live: self.live@,
            next_listener: self.next_listener,
        }
    }
}

/// How one account stands to another, if at all.
pub open spec fn link_of(store: Store, owner: Seq<char>, peer: Seq<char>) -> Option<LinkState> {
    if store.links.contains_key((owner, peer)) {
        Some(store.links[(owner, peer)].state)
    } else {
        None
    }
}

/// Whether the two sides of a link fit together: contacts are contacts on both
/// sides, a request that came in was sent, and whoever is blocked can at most
/// have asked.
pub open spec fn fits_together(mine: Option<LinkState>, theirs: Option<LinkState>) -> bool {
    match mine {
        Some(LinkState::Accepted) => theirs == Some(LinkState::Accepted),
        Some(LinkState::Incoming) => theirs == Some(LinkState::Outgoing),
        Some(LinkState::Outgoing) => theirs == Some(LinkState::Incoming) || theirs == Some(
            LinkState::Blocked,
        ),
        Some(LinkState::Blocked) => theirs is None || theirs == Some(LinkState::Outgoing),
        None => theirs is None || theirs == Some(LinkState::Blocked),
    }
}

/// Whether the links are between two different accounts, and their sides fit
/// together.
pub open spec fn links_sound(store: Store) -> bool {
    &&& forall|o: Seq<char>, p: Seq<char>| #[trigger]
        store.links.contains_key((o, p)) ==> o != p && store.accounts.contains_key(o)
            && store.accounts.contains_key(p)
    &&& forall|o: Seq<char>, p: Seq<char>|
        fits_together(#[trigger] link_of(store, o, p), link_of(store, p, o))
}

/// Whether no two accounts share a token.
pub open spec fn tokens_sound(accounts: Map<Seq<char>, AccountView>) -> bool {
    forall|a: Seq<char>, b: Seq<char>|
        #![trigger accounts[a], accounts[b]]
        accounts.contains_key(a) && accounts.contains_key(b) && accounts[a].token
            == accounts[b].token ==> a == b
}

/// Whether a name could be that of an account.
pub open spec fn is_username(name: Seq<char>) -> bool {
    &&& 0 < name.len() <= 32
    &&& forall|i: int| 0 <= i < name.len() ==> is_username_char(#[trigger] name[i])
}

/// The characters of a username.
pub open spec fn is_username_char(c: char) -> bool {
    ('a' <= c <= 'z') || ('A' <= c <= 'Z') || ('0' <= c <= '9') || c == '_'
}

/// What always holds of the tables.
pub open spec fn sound(store: Store) -> bool {
    &&& links_sound(store)
    &&& tokens_sound(store.accounts)
    &&& forall|u: Seq<char>| #[trigger]
        store.accounts.contains_key(u) ==> is_username(u) && default_cost(
            store.accounts[u].password_hash,
        )
    &&& forall|id: Seq<char>| #[trigger]
        store.messages.contains_key(id) ==> store.accounts.contains_key(
            store.messages[id].recipient,
        )
    &&& forall|u: Seq<char>, id: Seq<char>| #[trigger]
        store.archive.contains_key((u, id)) ==> store.accounts.contains_key(u)
    &&& forall|id: u64| #[trigger]
        store.prekeys.contains_key(id) ==> id < store.next_prekey && store.accounts.contains_key(
            store.prekeys[id].username,
        )
}

impl Relay {
    /// Whether the tables are in order and the journal tells what became of
    /// them since it was last taken.
    pub open spec fn tables_wf(&self) -> bool {
        &&& self.accounts.wf()
        &&& self.links.wf()
        &&& self.messages.wf()
        &&& self.deliveries.wf()
        &&& self.archive.wf()
        &&& self.prekeys.wf()
        &&& self.limits.wf()
        &&& self.live.wf()
        &&& self@.store == replayed(self.base@, self.journal@)
    }

    /// What always holds of a relay.
    pub open spec fn wf(&self) -> bool {
        self.tables_wf() && sound(self@.store) && default_cost(self.decoy@)
    }

    /// A relay without accounts.
    pub fn new() -> (relay: Relay)
        ensures
            relay.wf(),
            relay@ == nothing(),
            relay.journal@.len() == 0,
    {
        proof {
            reveal_strlit("unused");
            lemma_ascii_bytes("unused"@);
        }
        let decoy = match hash_password("unused") {
            Some(decoy) => decoy,
            None => {
                assert(false);
                String::new()
            },
        };
        let relay = Relay {
            accounts: Table::new(),
            links: Table::new(),
            messages: Table::new(),
            deliveries: Table::new(),
            archive: Table::new(),
            prekeys: Table::new(),
            next_prekey: 1,
            limits: RateLimiter::new(),
            live: Table::new(),
            next_listener: 0,
            decoy,
            journal: Vec::new(),
            base: Ghost(nothing().store),
        };
        relay
    }

    /// Makes one change, and notes it in the journal.
    pub(crate) fn write(&mut self, write: Write)
        requires
            old(self).tables_wf(),
            write matches Write::PutPrekey { id, .. } ==> id < u64::MAX,
        ensures
            final(self).tables_wf(),
            final(self)@ == (World { store: applied(old(self)@.store, write), ..old(self)@ }),
            final(self).journal@ == old(self).journal@.push(write),
            final(self).base == old(self).base,
            final(self).decoy == old(self).decoy,
    {
        let ghost was = self@.store;
        match &write {
            Write::PutAccount { username, row } => {
                self.accounts.put(username.clone(), row.copy());
            },
            Write::PutLink { owner, peer, row } => {
                self.links.put(Pair::of(owner, peer), *row);
            },
            Write::DropLink { owner, peer } => {
                self.links.remove(&Pair::of(owner, peer));
            },
            Write::PutMessage { id, row } => {
                self.messages.put(id.clone(), row.copy());
            },
            Write::DropMessage { id } => {
                self.messages.remove(id);
            },
            Write::DropMessagesFrom { recipient, sender } => {
                self.messages.remove_where(&FromTo { recipient, sender });
                assert(self.messages@ =~= without_messages_from(
                    was.messages,
                    recipient@,
                    sender@,
                ));
            },
            Write::PutDelivery { id, row } => {
                self.deliveries.put(id.clone(), row.copy());
            },
            Write::DropDelivery { id } => {
                self.deliveries.remove(id);
            },
            Write::PruneDeliveries { before } => {
                self.deliveries.remove_where(&OlderThan { before: *before });
                assert(self.deliveries@ =~= pruned(was.deliveries, *before));
            },
            Write::PutArchive { username, id, row } => {
                self.archive.put(Pair::of(username, id), row.copy());
            },
            Write::DropArchive { username, id } => {
                self.archive.remove(&Pair::of(username, id));
            },
            Write::PutPrekey { id, row } => {
                self.prekeys.put(*id, row.copy());
                self.next_prekey = *id + 1;
            },
            Write::DropPrekey { id } => {
                self.prekeys.remove(id);
            },
            Write::DropPrekeysOf { username } => {
                self.prekeys.remove_where(&KeysOf { username });
                assert(self.prekeys@ =~= without_prekeys_of(was.prekeys, username@));
            },
        }
        let ghost before = self.journal@;
        self.journal.push(write);
        proof {
            assert(self.journal@.drop_last() =~= before);
            assert(self.journal@.last() == write);
        }
    }

    /// Hands out what was written since the last time.
    pub fn take_writes(&mut self) -> (writes: Vec<Write>)
        requires
            old(self).wf(),
        ensures
            final(self).wf(),
            final(self)@ == old(self)@,
            writes@ == old(self).journal@,
            final(self).journal@.len() == 0,
            final(self).base@ == old(self)@.store,
            replayed(old(self).base@, writes@) == final(self)@.store,
    {
        let mut writes: Vec<Write> = Vec::new();
        writes.append(&mut self.journal);
        self.base = Ghost(self@.store);
        assert(writes@ =~= old(self).journal@);
        writes
    }
}

/// A relay without accounts.
pub open spec fn nothing() -> World {
    World {
        store: Store {
            accounts: Map::empty(),
            links: Map::empty(),
            messages: Map::empty(),
            deliveries: Map::empty(),
            archive: Map::empty(),
            prekeys: Map::empty(),
            next_prekey: 1,
        },
        hits: Map::empty(),
        live: Map::empty(),
        next_listener: 0,
    }
}

/// What was written in two goes is what was written in one: the rows that are
/// handed out, one batch after the other, make up the store.
pub proof fn batches_add_up(base: Store, first: Seq<Write>, second: Seq<Write>)
    ensures
        replayed(base, first + second) == replayed(replayed(base, first), second),
    decreases second.len(),
{
    if second.len() == 0 {
        assert(first + second =~= first);
    } else {
        assert((first + second).drop_last() =~= first + second.drop_last());
        assert((first + second).last() == second.last());
        batches_add_up(base, first, second.drop_last());
    }
}

} // verus!
