//! What holds of the relay as a whole.
pub mod accounts;
pub mod contacts;
pub mod queue;
#[allow(unused_imports)]
use vstd::utf8::encode_utf8;
use vstd::prelude::*;

#[allow(unused_imports)]
use crate::password::password_checked;
#[allow(unused_imports)]
use crate::server::accounts::{
    registered_account, storing_refusal, token_free, with_account, RegisterRequest,
};
#[allow(unused_imports)]
use crate::server::contacts::{
    after_accept, after_block, after_removal, after_request, presence_of, request_refusal,
    request_result,
};
#[allow(unused_imports)]
use crate::server::keys::{after_upload, bundle_refusal, is_prekey_of, popped, UploadKeysRequest};
#[allow(unused_imports)]
use crate::server::keys::prekeys_added;
#[allow(unused_imports)]
use crate::server::limits::{passes, HOUR, MAX_CONTACT_REQUESTS_PER_HOUR};
#[allow(unused_imports)]
use crate::server::live::OutMessage;
#[allow(unused_imports)]
use crate::server::messages::{
    ack_notices, after_ack, is_backlog, queued, send_refusal, unread_by, waits_for,
};
#[allow(unused_imports)]
use crate::server::sessions::{
    after_reset, after_verification, is_verified, login_passes, login_refusal, reset_failed,
    reset_refusal, speaks_through, taken_over, token_fresh, verification_failed,
    verification_passes, verification_refusal,
};
#[allow(unused_imports)]
use crate::server::store::{
    fits_together, link_of, sound, without_prekeys_of, AccountView, LinkState, PrekeyKind,
    PrekeyView, QueuedView, Store, World,
};
#[allow(unused_imports)]
use crate::text::lowercased;

verus! {

/// A session belongs to one account: no header speaks for two.
pub proof fn a_header_speaks_for_one_account(
    store: Store,
    a: Seq<char>,
    b: Seq<char>,
    header: Seq<char>,
)
    requires
        sound(store),
        speaks_through(store, a, header),
        speaks_through(store, b, header),
    ensures
        a == b,
{
    let n = "Bearer "@.len() as int;
    let ta = store.accounts[a].token;
    let tb = store.accounts[b].token;
    assert(ta =~= header.skip(n));
    assert(tb =~= header.skip(n));
}

/// An account that was not verified can neither authenticate nor log in nor be
/// found.
pub proof fn unverified_accounts_are_shut_out(
    w: World,
    name: Seq<char>,
    header: Seq<char>,
    password: Seq<char>,
    ip: Seq<char>,
    now: i64,
)
    requires
        !is_verified(w.store, name),
    ensures
        !speaks_through(w.store, name, header),
        login_refusal(w, name, password, ip, now) is Some,
{
}

/// Nobody can tell a name that does not exist from a wrong password.
pub proof fn a_login_does_not_tell_which_names_exist(
    w: World,
    known: Seq<char>,
    unknown: Seq<char>,
    password: Seq<char>,
    ip: Seq<char>,
    now: i64,
)
    requires
        w.store.accounts.contains_key(known),
        !w.store.accounts.contains_key(unknown),
        password_checked(w.store.accounts[known].password_hash, encode_utf8(password)) == Some(
            false,
        ),
        login_passes(w, known, ip, now),
        login_passes(w, unknown, ip, now),
    ensures
        login_refusal(w, known, password, ip, now) == login_refusal(w, unknown, password, ip, now),
{
}

/// Registering a name never touches a verified account, nor any account of
/// another name.
pub proof fn registering_leaves_other_accounts_alone(
    w: World,
    req: RegisterRequest,
    hash: Seq<char>,
    token: Seq<char>,
    code: Seq<char>,
    now: i64,
    other: Seq<char>,
)
    requires
        storing_refusal(w, lowercased(req.username@), token) is None,
        w.store.accounts.contains_key(other),
        other != lowercased(req.username@) || w.store.accounts[other].verified,
    ensures
        with_account(
            w,
            lowercased(req.username@),
            registered_account(w.store, req, hash, token, code, now),
        ).store.accounts[other] == w.store.accounts[other],
{
}

/// Whoever registers, and then confirms with the code that was sent, can log in
/// with the password that was chosen.
pub proof fn a_verified_registration_can_log_in(
    w: World,
    req: RegisterRequest,
    hash: Seq<char>,
    token: Seq<char>,
    code: Seq<char>,
    at: i64,
    ip: Seq<char>,
    verified_at: i64,
    login_at: i64,
)
    requires
        storing_refusal(w, lowercased(req.username@), token) is None,
        password_checked(hash, encode_utf8(req.password@)) == Some(true),
        at <= verified_at < at + crate::server::limits::DAY <= i64::MAX,
        ({
            let name = lowercased(req.username@);
            let stored = with_account(
                w,
                name,
                registered_account(w.store, req, hash, token, code, at),
            );
            let confirmed = after_verification(stored, name, code, ip, verified_at);
            verification_passes(stored, name, ip, verified_at) && login_passes(
                confirmed,
                name,
                ip,
                login_at,
            )
        }),
    ensures
        ({
            let name = lowercased(req.username@);
            let stored = with_account(
                w,
                name,
                registered_account(w.store, req, hash, token, code, at),
            );
            let confirmed = after_verification(stored, name, code, ip, verified_at);
            &&& verification_refusal(stored, name, code, ip, verified_at) is None
            &&& is_verified(confirmed.store, name)
            &&& login_refusal(confirmed, name, req.password@, ip, login_at) is None
        }),
{
}

/// The account after so many wrong verification codes.
pub open spec fn after_wrong_codes(account: AccountView, n: nat) -> AccountView
    decreases n,
{
    if n == 0 {
        account
    } else {
        verification_failed(after_wrong_codes(account, (n - 1) as nat))
    }
}

/// The account after so many wrong reset codes.
pub open spec fn after_wrong_resets(account: AccountView, n: nat) -> AccountView
    decreases n,
{
    if n == 0 {
        account
    } else {
        reset_failed(after_wrong_resets(account, (n - 1) as nat))
    }
}

/// Five wrong attempts burn a verification code: from then on even the right one
/// is refused.
pub proof fn five_wrong_codes_burn_the_code(
    w: World,
    name: Seq<char>,
    account: AccountView,
    code: Seq<char>,
    ip: Seq<char>,
    now: i64,
)
    requires
        account.verify_attempts == 0,
        !account.verified,
        w.store.accounts.contains_key(name),
        w.store.accounts[name] == after_wrong_codes(account, 5),
    ensures
        w.store.accounts[name].verify_code is None,
        verification_refusal(w, name, code, ip, now) is Some,
        after_verification(w, name, code, ip, now).store == w.store,
{
    reveal_with_fuel(after_wrong_codes, 6);
}

/// Five wrong attempts burn a reset code.
pub proof fn five_wrong_codes_burn_the_reset(
    w: World,
    name: Seq<char>,
    account: AccountView,
    code: Seq<char>,
    password: Seq<char>,
    ip: Seq<char>,
    now: i64,
)
    requires
        account.reset_attempts == 0,
        w.store.accounts.contains_key(name),
        w.store.accounts[name] == after_wrong_resets(account, 5),
    ensures
        w.store.accounts[name].reset_code is None,
        reset_refusal(w, name, code, password, ip, now) is Some,
{
    reveal_with_fuel(after_wrong_resets, 6);
}

/// An account lives in one place: once a new device took it over, its token
/// authenticates, what authenticated before does not, and no stream is left.
pub proof fn a_new_device_takes_the_account_over(
    w: World,
    name: Seq<char>,
    token: Seq<char>,
    now: i64,
    header: Seq<char>,
    anyone: Seq<char>,
)
    requires
        sound(w.store),
        is_verified(w.store, name),
        token_fresh(w.store.accounts, token),
    ensures
        speaks_through(taken_over(w, name, token, now).store, name, "Bearer "@ + token),
        speaks_through(w.store, name, header) ==> !speaks_through(
            taken_over(w, name, token, now).store,
            anyone,
            header,
        ),
        !taken_over(w, name, token, now).live.contains_key(name),
{
    let after = taken_over(w, name, token, now);
    if speaks_through(w.store, name, header) && speaks_through(after.store, anyone, header) {
        let n = "Bearer "@.len() as int;
        let was = w.store.accounts[name].token;
        let is = after.store.accounts[anyone].token;
        assert(was =~= header.skip(n));
        assert(is =~= header.skip(n));
        if anyone != name {
            assert(w.store.accounts[anyone].token == is);
        }
    }
}

/// A reset evicts whoever had the old session, and lets in whoever has the new
/// password.
pub proof fn a_reset_evicts_and_lets_in(
    w: World,
    name: Seq<char>,
    password: Seq<char>,
    hash: Seq<char>,
    token: Seq<char>,
    header: Seq<char>,
    anyone: Seq<char>,
    ip: Seq<char>,
    now: i64,
)
    requires
        sound(w.store),
        is_verified(w.store, name),
        token_free(w.store.accounts, token, name),
        token != w.store.accounts[name].token,
        password_checked(hash, encode_utf8(password)) == Some(true),
    ensures
        speaks_through(w.store, name, header) ==> !speaks_through(
            after_reset(w, name, hash, token).store,
            anyone,
            header,
        ),
        login_passes(after_reset(w, name, hash, token), name, ip, now) ==> login_refusal(
            after_reset(w, name, hash, token),
            name,
            password,
            ip,
            now,
        ) is None,
{
    let after = after_reset(w, name, hash, token);
    if speaks_through(w.store, name, header) && speaks_through(after.store, anyone, header) {
        let n = "Bearer "@.len() as int;
        let was = w.store.accounts[name].token;
        let is = after.store.accounts[anyone].token;
        assert(was =~= header.skip(n));
        assert(is =~= header.skip(n));
        if anyone != name {
            assert(w.store.accounts[anyone].token == is);
        }
    }
}

/// A message is only ever taken from an accepted contact, and acceptance goes
/// both ways.
pub proof fn only_contacts_can_write(
    w: World,
    me: Seq<char>,
    recipient: Seq<char>,
    body: Seq<char>,
    now: i64,
)
    requires
        sound(w.store),
        send_refusal(w, me, recipient, body, now) is None,
    ensures
        link_of(w.store, recipient, me) == Some(LinkState::Accepted),
        link_of(w.store, me, recipient) == Some(LinkState::Accepted),
        me != recipient,
{
    assert(fits_together(link_of(w.store, recipient, me), link_of(w.store, me, recipient)));
    assert(w.store.links.contains_key((recipient, me)));
}

/// What was sent is what the recipient gets: a queued message is in every
/// backlog of its recipient as it was written, until it is acknowledged, and in
/// nobody else's.
pub proof fn a_queued_message_waits_for_its_recipient(
    w: World,
    id: Seq<char>,
    message: QueuedView,
    reader: Seq<char>,
    list: Seq<OutMessage>,
)
    requires
        is_backlog(list, queued(w, id, message).store.messages, reader),
    ensures
        reader == message.recipient ==> exists|i: int|
            0 <= i < list.len() && (#[trigger] list[i])@.id == id && list[i]@.sender
                == message.sender && list[i]@.body == message.body && list[i]@.created_at
                == message.created_at,
        reader != message.recipient ==> forall|i: int|
            0 <= i < list.len() ==> (#[trigger] list[i])@.id != id,
{
    let messages = queued(w, id, message).store.messages;
    assert(messages.contains_key(id) && messages[id] == message);
    if reader == message.recipient {
        let i = choose|i: int| 0 <= i < list.len() && (#[trigger] list[i])@.id == id;
        assert(list[i]@.id == id);
    }
}

/// A message is deleted as soon as its recipient acknowledges it, readable or
/// not; nobody else can take it off the queue, and no other message goes.
pub proof fn an_acknowledged_message_is_gone(
    w: World,
    me: Seq<char>,
    id: Seq<char>,
    undecryptable: bool,
    now: i64,
    other: Seq<char>,
)
    ensures
        !waits_for(after_ack(w, me, id, undecryptable, now).store, id, me),
        !waits_for(w.store, id, me) ==> after_ack(w, me, id, undecryptable, now) == w,
        other != id && w.store.messages.contains_key(other) ==> after_ack(
            w,
            me,
            id,
            undecryptable,
            now,
        ).store.messages.contains_key(other) && after_ack(
            w,
            me,
            id,
            undecryptable,
            now,
        ).store.messages[other] == w.store.messages[other],
{
}

/// The sender learns nothing of a message that could not be read, and cannot be
/// told later that it was.
pub proof fn an_unreadable_message_leaves_no_receipt(
    w: World,
    me: Seq<char>,
    id: Seq<char>,
    now: i64,
)
    ensures
        ack_notices(w, me, id, true, now).len() == 0,
        after_ack(w, me, id, true, now).store.deliveries == w.store.deliveries,
{
}

/// A delivered message can be reported as read by its recipient, once.
pub proof fn a_delivered_message_can_be_read_once(w: World, me: Seq<char>, id: Seq<char>, now: i64)
    requires
        waits_for(w.store, id, me),
        crate::server::limits::is_clock(now),
    ensures
        unread_by(after_ack(w, me, id, false, now).store, id, me),
        ({
            let store = after_ack(w, me, id, false, now).store;
            !unread_by(Store { deliveries: store.deliveries.remove(id), ..store }, id, me)
        }),
{
}

/// Two requests that cross, or a request and its acceptance, make two accounts
/// contacts of each other.
pub proof fn crossing_requests_make_contacts(
    w: World,
    a: Seq<char>,
    b: Seq<char>,
    first: i64,
    second: i64,
)
    requires
        a != b,
        is_verified(w.store, a),
        is_verified(w.store, b),
        link_of(w.store, a, b) is None,
        link_of(w.store, b, a) is None,
        request_refusal(w, a, b, first) is None,
        passes(
            after_request(w, a, b, first),
            "contact:"@ + b,
            MAX_CONTACT_REQUESTS_PER_HOUR,
            HOUR,
            second,
        ),
    ensures
        ({
            let asked = after_request(w, a, b, first);
            &&& link_of(asked.store, a, b) == Some(LinkState::Outgoing)
            &&& link_of(asked.store, b, a) == Some(LinkState::Incoming)
            &&& request_refusal(asked, b, a, second) is None
            &&& request_result(asked.store, b, a) == LinkState::Accepted
            &&& link_of(after_request(asked, b, a, second).store, a, b) == Some(
                LinkState::Accepted,
            )
            &&& link_of(after_request(asked, b, a, second).store, b, a) == Some(
                LinkState::Accepted,
            )
            &&& link_of(after_accept(asked, b, a, second).store, a, b) == Some(LinkState::Accepted)
            &&& link_of(after_accept(asked, b, a, second).store, b, a) == Some(LinkState::Accepted)
        }),
{
}

/// Removing a contact closes the door for both.
pub proof fn removing_a_contact_closes_the_door(
    w: World,
    me: Seq<char>,
    peer: Seq<char>,
    body: Seq<char>,
    now: i64,
)
    ensures
        link_of(after_removal(w, me, peer).store, me, peer) is None,
        link_of(after_removal(w, me, peer).store, peer, me) is None,
        send_refusal(after_removal(w, me, peer), me, peer, body, now) is Some,
        send_refusal(after_removal(w, me, peer), peer, me, body, now) is Some,
{
}

/// Whoever is blocked cannot write, has nothing left in the blocker's queue,
/// sees the contact gone, and can ask again without it reaching the blocker: the
/// answer is the one that anybody gets who asks for the first time.
pub proof fn a_block_holds_and_does_not_show(
    w: World,
    me: Seq<char>,
    peer: Seq<char>,
    at: i64,
    body: Seq<char>,
    now: i64,
    id: Seq<char>,
)
    requires
        me != peer,
        is_verified(w.store, me),
    ensures
        ({
            let blocked = after_block(w, me, peer, at);
            &&& send_refusal(blocked, peer, me, body, now) is Some
            &&& link_of(blocked.store, peer, me) is None
            &&& waits_for(blocked.store, id, me) ==> blocked.store.messages[id].sender != peer
            &&& passes(blocked, "contact:"@ + peer, MAX_CONTACT_REQUESTS_PER_HOUR, HOUR, now) ==> {
                let asked = after_request(blocked, peer, me, now);
                &&& request_refusal(blocked, peer, me, now) is None
                &&& request_result(blocked.store, peer, me) == LinkState::Outgoing
                &&& link_of(asked.store, me, peer) == Some(LinkState::Blocked)
            }
        }),
{
}

/// A stranger gets the same answer as for a name that does not exist, for a key
/// bundle and for presence.
pub proof fn strangers_learn_nothing(
    w: World,
    me: Seq<char>,
    known: Seq<char>,
    unknown: Seq<char>,
    now: i64,
)
    requires
        me != known,
        link_of(w.store, known, me) != Some(LinkState::Accepted),
        !w.store.accounts.contains_key(unknown),
    ensures
        bundle_refusal(w, me, known, now) == bundle_refusal(w, me, unknown, now),
        presence_of(w, me, known) == presence_of(w, me, unknown),
{
}

/// A one-time prekey is handed out once.
pub proof fn a_prekey_is_handed_out_once(
    before: Map<u64, PrekeyView>,
    after: Map<u64, PrekeyView>,
    name: Seq<char>,
    kind: PrekeyKind,
    got: Option<Seq<char>>,
)
    requires
        popped(before, after, name, kind, got),
        before.dom().finite(),
    ensures
        after.dom().subset_of(before.dom()),
        got is Some ==> after.dom().len() + 1 == before.dom().len(),
        got is None ==> after == before,
{
    if let Some(data) = got {
        let id = choose|id: u64| #[trigger]
            before.contains_key(id) && is_prekey_of(before[id], name, kind) && before[id].data
                == data && after == before.remove(id);
        assert(after.dom() =~= before.dom().remove(id));
    }
}

proof fn lemma_added(store: Store, me: Seq<char>, list: Seq<crate::server::keys::PrekeyUpload>, id: u64)
    requires
        store.next_prekey + list.len() <= u64::MAX,
        prekeys_added(store, me, list).prekeys.contains_key(id),
    ensures
        prekeys_added(store, me, list).next_prekey == store.next_prekey + list.len(),
        id < store.next_prekey ==> store.prekeys.contains_key(id) && prekeys_added(
            store,
            me,
            list,
        ).prekeys[id] == store.prekeys[id],
    decreases list.len(),
{
    if list.len() > 0 {
        lemma_next(store, me, list.drop_last());
        if id < store.next_prekey {
            lemma_added(store, me, list.drop_last(), id);
        }
        lemma_next(store, me, list);
    }
}

proof fn lemma_next(store: Store, me: Seq<char>, list: Seq<crate::server::keys::PrekeyUpload>)
    requires
        store.next_prekey + list.len() <= u64::MAX,
    ensures
        prekeys_added(store, me, list).next_prekey == store.next_prekey + list.len(),
    decreases list.len(),
{
    if list.len() > 0 {
        lemma_next(store, me, list.drop_last());
    }
}

/// An upload replaces every prekey that the account had published before, and
/// leaves those of others alone.
pub proof fn an_upload_replaces_the_prekeys(
    w: World,
    me: Seq<char>,
    req: UploadKeysRequest,
    id: u64,
)
    requires
        sound(w.store),
        w.store.next_prekey + req.one_time_prekeys@.len() <= i64::MAX,
        w.store.prekeys.contains_key(id),
        after_upload(w, me, req).store.prekeys.contains_key(id),
    ensures
        w.store.prekeys[id].username != me,
        after_upload(w, me, req).store.prekeys[id] == w.store.prekeys[id],
{
    let store = Store {
        accounts: after_upload(w, me, req).store.accounts,
        prekeys: without_prekeys_of(w.store.prekeys, me),
        ..w.store
    };
    lemma_accounts_stay(
        Store {
            accounts: w.store.accounts.insert(
                me,
                crate::server::keys::account_published(w.store.accounts[me], req),
            ),
            prekeys: without_prekeys_of(w.store.prekeys, me),
            ..w.store
        },
        me,
        req.one_time_prekeys@,
    );
    lemma_added(store, me, req.one_time_prekeys@, id);
}

proof fn lemma_accounts_stay(store: Store, me: Seq<char>, list: Seq<crate::server::keys::PrekeyUpload>)
    ensures
        prekeys_added(store, me, list).accounts == store.accounts,
    decreases list.len(),
{
    if list.len() > 0 {
        lemma_accounts_stay(store, me, list.drop_last());
    }
}

} // verus!
