//! Published keys: what a device uploads, and what a contact fetches.
#[allow(unused_imports)]
use vstd::utf8::encode_utf8;
use vstd::prelude::*;

#[allow(unused_imports)]
use crate::server::contacts::may_see;
use crate::server::errors::ApiError;
#[allow(unused_imports)]
use crate::server::limits::{judged, passes};
use crate::server::limits::{
    HOUR, MAX_BUNDLE_FETCHES_PER_HOUR, MAX_FIELD_BYTES, MAX_PREKEYS_PER_UPLOAD,
};
#[allow(unused_imports)]
use crate::server::live::lemma_account_kept;
use crate::server::sessions::AuthUser;
use crate::server::store::{Prekey, PrekeyKind, Relay, Write};
#[allow(unused_imports)]
use crate::server::store::{
    fits_together, link_of, sound, without_prekeys_of, AccountView, PrekeyView, Store, World,
};
use crate::table::RowTest;
#[allow(unused_imports)]
use crate::text::{lowercased, text_in};
use crate::text::{byte_len, copy_text, join2, lowercase, same_text};

verus! {

/// A prekey as it is uploaded.
pub struct PrekeyUpload {
    pub kind: String,
    pub data: String,
}

/// What a device publishes.
pub struct UploadKeysRequest {
    /// Opaque JSON: signed prekey, last-resort kyber prekey, signatures.
    pub bundle_static: String,
    pub one_time_prekeys: Vec<PrekeyUpload>,
    /// Present when the device provisioned its identity anew, for example after
    /// logging in on a new device.
    pub identity_key: Option<String>,
    pub registration_id: Option<i64>,
}

/// What a contact needs to start a session.
pub struct Bundle {
    pub registration_id: i64,
    pub identity_key: String,
    pub bundle_static: String,
    pub one_time_prekey: Option<String>,
    pub kyber_prekey: Option<String>,
}

/// The kind of prekey that a text names.
pub open spec fn kind_named(text: Seq<char>) -> Option<PrekeyKind> {
    if text == "ec"@ {
        Some(PrekeyKind::Ec)
    } else if text == "kyber"@ {
        Some(PrekeyKind::Kyber)
    } else {
        None
    }
}

/// Why an upload is refused, if so.
pub open spec fn upload_refusal(store: Store, req: UploadKeysRequest) -> Option<ApiError> {
    let list = req.one_time_prekeys@;
    if list.len() > MAX_PREKEYS_PER_UPLOAD {
        Some(ApiError::TooManyPrekeys)
    } else if encode_utf8(req.bundle_static@).len() > MAX_FIELD_BYTES || (exists|i: int|
        0 <= i < list.len() && encode_utf8((#[trigger] list[i]).data@).len() > MAX_FIELD_BYTES)
        || (req.identity_key is Some && encode_utf8(req.identity_key->0@).len()
        > MAX_FIELD_BYTES) {
        Some(ApiError::InvalidKeys)
    } else if exists|i: int| 0 <= i < list.len() && kind_named((#[trigger] list[i]).kind@) is None {
        Some(ApiError::PrekeyKind)
    } else if store.next_prekey + list.len() > i64::MAX {
        Some(ApiError::Internal)
    } else {
        None
    }
}

/// The tables with some prekeys more, numbered on from the last one.
pub open spec fn prekeys_added(store: Store, me: Seq<char>, list: Seq<PrekeyUpload>) -> Store
    decreases list.len(),
{
    if list.len() == 0 {
        store
    } else {
        let before = prekeys_added(store, me, list.drop_last());
        Store {
            prekeys: before.prekeys.insert(
                before.next_prekey,
                PrekeyView {
                    username: me,
                    kind: kind_named(list.last().kind@)->0,
                    data: list.last().data@,
                },
            ),
            next_prekey: (before.next_prekey + 1) as u64,
            ..before
        }
    }
}

/// The account after an upload: a new identity comes with its registration
/// number or not at all.
pub open spec fn account_published(account: AccountView, req: UploadKeysRequest) -> AccountView {
    let published = AccountView { bundle_static: Some(req.bundle_static@), ..account };
    if req.identity_key is Some && req.registration_id is Some {
        AccountView {
            identity_key: req.identity_key->0@,
            registration_id: req.registration_id->0,
            ..published
        }
    } else {
        published
    }
}

/// The relay after an upload: it replaces every prekey that was published
/// before.
pub open spec fn after_upload(w: World, me: Seq<char>, req: UploadKeysRequest) -> World {
    let store = Store {
        accounts: w.store.accounts.insert(me, account_published(w.store.accounts[me], req)),
        prekeys: without_prekeys_of(w.store.prekeys, me),
        ..w.store
    };
    World { store: prekeys_added(store, me, req.one_time_prekeys@), ..w }
}

/// Whether a prekey belongs to an account and is of a kind.
pub open spec fn is_prekey_of(key: PrekeyView, name: Seq<char>, kind: PrekeyKind) -> bool {
    key.username == name && key.kind == kind
}

/// Whether taking a prekey off the pile of an account gave `got`: one of that
/// kind that was there and now is gone, and nothing only where there was none.
pub open spec fn popped(
    before: Map<u64, PrekeyView>,
    after: Map<u64, PrekeyView>,
    name: Seq<char>,
    kind: PrekeyKind,
    got: Option<Seq<char>>,
) -> bool {
    match got {
        Some(data) => exists|id: u64| #[trigger]
            before.contains_key(id) && is_prekey_of(before[id], name, kind) && before[id].data
                == data && after == before.remove(id),
        None => after == before && forall|id: u64| #[trigger]
            before.contains_key(id) ==> !is_prekey_of(before[id], name, kind),
    }
}

/// Why a bundle is not handed out, if so. A stranger gets the same answer as for
/// a name that does not exist.
pub open spec fn bundle_refusal(w: World, me: Seq<char>, name: Seq<char>, now: i64) -> Option<
    ApiError,
> {
    if !passes(w, "bundle:"@ + me, MAX_BUNDLE_FETCHES_PER_HOUR, HOUR, now) {
        Some(ApiError::RateLimited)
    } else if !w.store.accounts.contains_key(name) || !may_see(w.store, me, name) {
        Some(ApiError::NotFound)
    } else if w.store.accounts[name].bundle_static is None {
        Some(ApiError::NoKeys)
    } else {
        None
    }
}

/// The relay once an attempt to fetch a bundle was counted.
pub open spec fn bundle_judged(w: World, me: Seq<char>, now: i64) -> World {
    judged(w, "bundle:"@ + me, MAX_BUNDLE_FETCHES_PER_HOUR, HOUR, now)
}

/// Whether a bundle is that of an account, its one-time prekeys taken off their
/// piles.
pub open spec fn bundle_handed_out(before: World, after: World, name: Seq<char>, bundle: Bundle) -> bool {
    let account = before.store.accounts[name];
    &&& bundle.registration_id == account.registration_id
    &&& bundle.identity_key@ == account.identity_key
    &&& account.bundle_static == Some(bundle.bundle_static@)
    &&& exists|middle: Map<u64, PrekeyView>|
        #![trigger popped(before.store.prekeys, middle, name, PrekeyKind::Ec, text_in(bundle.one_time_prekey))]
        popped(
            before.store.prekeys,
            middle,
            name,
            PrekeyKind::Ec,
            text_in(bundle.one_time_prekey),
        ) && popped(
            middle,
            after.store.prekeys,
            name,
            PrekeyKind::Kyber,
            text_in(bundle.kyber_prekey),
        )
    &&& after == (World {
        store: Store { prekeys: after.store.prekeys, ..before.store },
        ..before
    })
}

/// Singles out the prekeys of one kind that an account published.
struct OfKind<'a> {
    name: &'a str,
    kind: PrekeyKind,
}

impl<'a> RowTest<u64, Prekey> for OfKind<'a> {
    closed spec fn holds(&self, key: u64, row: PrekeyView) -> bool {
        is_prekey_of(row, self.name@, self.kind)
    }

    fn test(&self, key: &u64, row: &Prekey) -> (yes: bool) {
        row.kind == self.kind && same_text(&row.username, self.name)
    }
}

/// How a kind of prekey is written.
pub open spec fn kind_text(kind: PrekeyKind) -> Seq<char> {
    match kind {
        PrekeyKind::Ec => "ec"@,
        PrekeyKind::Kyber => "kyber"@,
    }
}

/// The kind of prekey as it is written.
pub fn write_kind(kind: PrekeyKind) -> (text: &'static str)
    ensures
        text@ == kind_text(kind),
{
    match kind {
        PrekeyKind::Ec => "ec",
        PrekeyKind::Kyber => "kyber",
    }
}

/// Every kind of prekey reads back as it was written.
pub proof fn kinds_read_back(kind: PrekeyKind)
    ensures
        kind_named(kind_text(kind)) == Some(kind),
{
    reveal_strlit("ec");
    reveal_strlit("kyber");
    assert("ec"@.len() == 2 && "kyber"@.len() == 5);
}

/// The kind of prekey that a text names.
pub fn kind_of(text: &str) -> (kind: Option<PrekeyKind>)
    ensures
        kind == kind_named(text@),
{
    proof {
        reveal_strlit("ec");
        reveal_strlit("kyber");
    }
    if same_text(text, "ec") {
        Some(PrekeyKind::Ec)
    } else if same_text(text, "kyber") {
        Some(PrekeyKind::Kyber)
    } else {
        None
    }
}

/// Fewer prekeys keep the tables in order.
proof fn lemma_fewer_prekeys(before: Store, after: Store)
    requires
        sound(before),
        after == (Store { prekeys: after.prekeys, ..before }),
        forall|id: u64| #[trigger]
            after.prekeys.contains_key(id) ==> before.prekeys.contains_key(id)
                && after.prekeys[id] == before.prekeys[id],
    ensures
        sound(after),
{
    assert forall|o: Seq<char>, p: Seq<char>| fits_together(
        #[trigger] link_of(after, o, p),
        link_of(after, p, o),
    ) by {
        assert(link_of(after, o, p) == link_of(before, o, p));
        assert(fits_together(link_of(before, o, p), link_of(before, p, o)));
    }
}

/// One more prekey of an account keeps the tables in order.
proof fn lemma_prekey_put(before: Store, row: PrekeyView)
    requires
        sound(before),
        before.accounts.contains_key(row.username),
        before.next_prekey < u64::MAX,
    ensures
        sound(
            Store {
                prekeys: before.prekeys.insert(before.next_prekey, row),
                next_prekey: (before.next_prekey + 1) as u64,
                ..before
            },
        ),
{
    let after = Store {
        prekeys: before.prekeys.insert(before.next_prekey, row),
        next_prekey: (before.next_prekey + 1) as u64,
        ..before
    };
    assert forall|o: Seq<char>, p: Seq<char>| fits_together(
        #[trigger] link_of(after, o, p),
        link_of(after, p, o),
    ) by {
        assert(link_of(after, o, p) == link_of(before, o, p));
        assert(fits_together(link_of(before, o, p), link_of(before, p, o)));
    }
    assert forall|id: u64| #[trigger] after.prekeys.contains_key(id) implies id
        < after.next_prekey && after.accounts.contains_key(after.prekeys[id].username) by {
        if id != before.next_prekey {
            assert(before.prekeys.contains_key(id));
        }
    }
}

/// What is wrong with an upload on its own, if anything.
fn fault_in_upload(req: &UploadKeysRequest, next_prekey: u64) -> (fault: Option<ApiError>)
    ensures
        forall|store: Store|
            store.next_prekey == next_prekey ==> fault == #[trigger] upload_refusal(store, *req),
{
    let list = &req.one_time_prekeys;
    if list.len() > MAX_PREKEYS_PER_UPLOAD {
        return Some(ApiError::TooManyPrekeys);
    }
    let mut fits = byte_len(&req.bundle_static) <= MAX_FIELD_BYTES;
    let mut known = true;
    if let Some(key) = &req.identity_key {
        if byte_len(key) > MAX_FIELD_BYTES {
            fits = false;
        }
    }
    let ghost rest_fits = fits;
    let mut i: usize = 0;
    while i < list.len()
        invariant
            i <= list@.len(),
            fits == (rest_fits && forall|j: int|
                0 <= j < i ==> encode_utf8((#[trigger] list@[j]).data@).len() <= MAX_FIELD_BYTES),
            known == (forall|j: int|
                0 <= j < i ==> kind_named((#[trigger] list@[j]).kind@) is Some),
        decreases list@.len() - i,
    {
        if byte_len(&list[i].data) > MAX_FIELD_BYTES {
            fits = false;
            assert(encode_utf8(list@[i as int].data@).len() > MAX_FIELD_BYTES);
        }
        if kind_of(&list[i].kind).is_none() {
            known = false;
            assert(kind_named(list@[i as int].kind@) is None);
        }
        i = i + 1;
    }
    if !fits {
        return Some(ApiError::InvalidKeys);
    }
    if !known {
        return Some(ApiError::PrekeyKind);
    }
    if next_prekey > i64::MAX as u64 || list.len() as u64 > i64::MAX as u64 - next_prekey {
        return Some(ApiError::Internal);
    }
    None
}

impl Relay {
    /// Publishes the keys of a device.
    pub fn upload_keys(&mut self, me: &AuthUser, req: &UploadKeysRequest) -> (refusal: Option<
        ApiError,
    >)
        requires
            old(self).wf(),
            old(self)@.store.accounts.contains_key(me.username@),
        ensures
            final(self).wf(),
            refusal == upload_refusal(old(self)@.store, *req),
            refusal is Some ==> final(self)@ == old(self)@,
            refusal is None ==> final(self)@ == after_upload(old(self)@, me.username@, *req),
    {
        let fault = fault_in_upload(req, self.next_prekey);
        assert(fault == upload_refusal(self@.store, *req));
        if fault.is_some() {
            return fault;
        }
        let ghost before = self@;
        let ghost name = me.username@;
        let mut row = match self.accounts.get(&me.username) {
            Some(account) => account.copy(),
            None => {
                assert(false);
                return None;
            },
        };
        row.bundle_static = Some(req.bundle_static.clone());
        if let Some(identity_key) = &req.identity_key {
            if let Some(registration_id) = req.registration_id {
                row.identity_key = identity_key.clone();
                row.registration_id = registration_id;
            }
        }
        proof {
            lemma_account_kept(self@.store, name, row@);
        }
        self.write(Write::PutAccount { username: me.username.clone(), row });
        let ghost published = self@.store;
        self.write(Write::DropPrekeysOf { username: me.username.clone() });
        proof {
            lemma_fewer_prekeys(published, self@.store);
        }
        let ghost cleared = self@.store;
        let list = &req.one_time_prekeys;
        let mut i: usize = 0;
        assert(list@.take(0) =~= Seq::<PrekeyUpload>::empty());
        while i < list.len()
            invariant
                i <= list@.len(),
                list@ == req.one_time_prekeys@,
                name == me.username@,
                self.wf(),
                forall|j: int|
                    0 <= j < list@.len() ==> kind_named((#[trigger] list@[j]).kind@) is Some,
                self@.store == prekeys_added(cleared, name, list@.take(i as int)),
                self@ == (World { store: self@.store, ..before }),
                self@.store.accounts == cleared.accounts,
                cleared.accounts.contains_key(name),
                self@.store.next_prekey == cleared.next_prekey + i,
                cleared.next_prekey + list@.len() <= i64::MAX,
            decreases list@.len() - i,
        {
            let kind = match kind_of(&list[i].kind) {
                Some(kind) => kind,
                None => {
                    assert(false);
                    PrekeyKind::Ec
                },
            };
            let row = Prekey {
                username: me.username.clone(),
                kind,
                data: list[i].data.clone(),
            };
            let id: u64 = self.next_prekey;
            proof {
                lemma_prekey_put(self@.store, row@);
                assert(list@.take(i + 1).drop_last() =~= list@.take(i as int));
                assert(list@.take(i + 1).last() == list@[i as int]);
            }
            self.write(Write::PutPrekey { id, row });
            i = i + 1;
        }
        assert(list@.take(list@.len() as int) =~= list@);
        None
    }

    /// Takes a one-time prekey off the pile of an account.
    fn pop_prekey(&mut self, name: &str, kind: PrekeyKind) -> (got: Option<String>)
        requires
            old(self).wf(),
        ensures
            final(self).wf(),
            popped(
                old(self)@.store.prekeys,
                final(self)@.store.prekeys,
                name@,
                kind,
                text_in(got),
            ),
            final(self)@ == (World {
                store: Store { prekeys: final(self)@.store.prekeys, ..old(self)@.store },
                ..old(self)@
            }),
    {
        let ghost before = self@.store;
        let question = OfKind { name, kind };
        let places = self.prekeys.find_where(&question);
        if places.len() == 0 {
            proof {
                assert forall|id: u64| #[trigger]
                    before.prekeys.contains_key(id) implies !is_prekey_of(
                    before.prekeys[id],
                    name@,
                    kind,
                ) by {
                    if is_prekey_of(before.prekeys[id], name@, kind) {
                        assert(question.holds(id, self.prekeys@[id]));
                    }
                }
            }
            return None;
        }
        let at: usize = places[0];
        let id: u64 = self.prekeys.rows[at].0;
        let data = self.prekeys.rows[at].1.data.clone();
        proof {
            assert(question.holds(id, self.prekeys@[id]));
            assert(before.prekeys.contains_key(id));
        }
        self.write(Write::DropPrekey { id });
        proof {
            lemma_fewer_prekeys(before, self@.store);
        }
        Some(data)
    }

    /// Hands out what is needed to start a session with an account.
    pub fn fetch_bundle(&mut self, me: &AuthUser, username: &str, now: i64) -> (reply: Result<
        Bundle,
        ApiError,
    >)
        requires
            old(self).wf(),
        ensures
            final(self).wf(),
            match bundle_refusal(old(self)@, me.username@, lowercased(username@), now) {
                Some(e) => reply == Err::<Bundle, ApiError>(e) && final(self)@ == bundle_judged(
                    old(self)@,
                    me.username@,
                    now,
                ),
                None => reply is Ok && bundle_handed_out(
                    bundle_judged(old(self)@, me.username@, now),
                    final(self)@,
                    lowercased(username@),
                    reply->Ok_0,
                ),
            },
    {
        let name = lowercase(username);
        let key = join2("bundle:", &me.username);
        if !self.pass(&key, MAX_BUNDLE_FETCHES_PER_HOUR, HOUR, now) {
            return Err(ApiError::RateLimited);
        }
        let ghost before = self@;
        let visible = self.is_visible(&me.username, &name);
        let (registration_id, identity_key, bundle) = match self.accounts.get(&name) {
            Some(account) => {
                if !visible {
                    return Err(ApiError::NotFound);
                }
                (
                    account.registration_id,
                    account.identity_key.clone(),
                    copy_text(&account.bundle_static),
                )
            },
            None => {
                return Err(ApiError::NotFound);
            },
        };
        let bundle_static = match bundle {
            Some(text) => text,
            None => {
                return Err(ApiError::NoKeys);
            },
        };
        let one_time_prekey = self.pop_prekey(&name, PrekeyKind::Ec);
        let ghost middle = self@.store.prekeys;
        let kyber_prekey = self.pop_prekey(&name, PrekeyKind::Kyber);
        let bundle = Bundle {
            registration_id,
            identity_key,
            bundle_static,
            one_time_prekey,
            kyber_prekey,
        };
        proof {
            assert(popped(
                before.store.prekeys,
                middle,
                name@,
                PrekeyKind::Ec,
                text_in(bundle.one_time_prekey),
            ));
            assert(bundle_handed_out(before, self@, name@, bundle));
        }
        Ok(bundle)
    }
}

} // verus!
