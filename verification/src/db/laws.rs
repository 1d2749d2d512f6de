//! What holds of the local store as a whole.
#[allow(unused_imports)]
use vstd::utf8::encode_utf8;
use vstd::prelude::*;

#[allow(unused_imports)]
use crate::db::contacts::{
    contacts_listed, is_contact_cache, names_differ, with_contact, ListedContact,
};
#[allow(unused_imports)]
use crate::db::messages::{
    all_read, conversation, first_known, is_id_list, is_message_list, message_added, rank,
    state_reported, undelivered, unread, with_messages, without_conversation,
};
#[allow(unused_imports)]
use crate::db::meta::{
    account_in, clean_slate, device_in, fields_that_fit, profile_in, profile_written, value_of,
    with_meta, ProfileView,
};
#[allow(unused_imports)]
use crate::db::migrate::{all_readable, marked, sealing_fault, without_old_deletes};
#[allow(unused_imports)]
use crate::db::records::{
    address_of, by_address, by_number, device_number, identity_forgotten, is_highest, own_identity,
    own_number, pinned, session_reset, trusts, with_addresses, with_numbers,
};
#[allow(unused_imports)]
use crate::db::{
    as_read, can_seal, db_replayed, record_behind, sealed_meta, unsealed, AddressStore,
    CachedContactView, DbView, DbWrite, KeyStore, MessageView, Raw, StoredMessage,
};
#[allow(unused_imports)]
use crate::codec::b64_decoded;
#[allow(unused_imports)]
use crate::keystore::{lemma_text_bytes, opened, StorageError};
#[allow(unused_imports)]
use crate::text::{
    decimal, digit, is_digit, joining_undoes_splitting, split_at_char,
    the_last_piece_stands_behind_the_last_cut, written_numbers_read_back,
};

verus! {

proof fn lemma_no_colon(n: nat)
    ensures
        !decimal(n).contains(':'),
    decreases n,
{
    if n >= 10 {
        lemma_no_colon(n / 10);
    }
    assert(is_digit(digit(n % 10)));
    assert forall|i: int| 0 <= i < decimal(n).len() implies decimal(n)[i] != ':' by {
        if n >= 10 && i < decimal(n / 10).len() {
            assert(decimal(n)[i] == decimal(n / 10)[i]);
            assert(decimal(n / 10).contains(decimal(n / 10)[i]));
        }
    }
}

/// No two devices share an address: neither two of one account, nor those of two
/// accounts.
pub proof fn addresses_are_told_apart(a: Seq<char>, d: u32, b: Seq<char>, e: u32)
    requires
        address_of(a, d) == address_of(b, e),
    ensures
        a == b,
        d == e,
{
    let (x, y) = (decimal(d as nat), decimal(e as nat));
    lemma_no_colon(d as nat);
    lemma_no_colon(e as nat);
    reveal_strlit(":");
    assert(address_of(a, d) =~= a.push(':') + x);
    assert(address_of(b, e) =~= b.push(':') + y);
    the_last_piece_stands_behind_the_last_cut(a, ':', x);
    the_last_piece_stands_behind_the_last_cut(b, ':', y);
    let (p, q) = (split_at_char(a, ':'), split_at_char(b, ':'));
    let (l, r) = (p.push(x), q.push(y));
    assert(l == r);
    assert(l.last() == r.last());
    assert(l.drop_last() =~= p);
    assert(r.drop_last() =~= q);
    joining_undoes_splitting(a, ':');
    joining_undoes_splitting(b, ':');
    written_numbers_read_back(d as int);
    written_numbers_read_back(e as int);
}

/// A device number that fits one byte stands for itself, and any other for the
/// first device.
pub proof fn device_numbers_fit_a_byte(device: u32)
    ensures
        1 <= device_number(device) <= 255,
        1 <= device <= 255 ==> device_number(device) == device,
        device == 0 || device > 255 ==> device_number(device) == 1,
{
}

/// What is put into one store of records comes out of that one, and out of no
/// other.
pub proof fn stores_are_kept_apart(
    db: DbView,
    records: Map<Seq<char>, Option<Seq<u8>>>,
    keys: Map<u32, Option<Seq<u8>>>,
)
    ensures
        with_addresses(db, AddressStore::Identities, records).identities == records,
        with_addresses(db, AddressStore::Identities, records).sessions == db.sessions,
        with_addresses(db, AddressStore::Sessions, records).sessions == records,
        with_addresses(db, AddressStore::Sessions, records).identities == db.identities,
        by_address(db, AddressStore::Identities) == db.identities,
        by_address(db, AddressStore::Sessions) == db.sessions,
        by_number(with_numbers(db, KeyStore::Prekeys, keys), KeyStore::Prekeys) == keys,
        by_number(with_numbers(db, KeyStore::SignedPrekeys, keys), KeyStore::SignedPrekeys) == keys,
        by_number(with_numbers(db, KeyStore::KyberPrekeys, keys), KeyStore::KyberPrekeys) == keys,
        with_numbers(db, KeyStore::Prekeys, keys).prekeys == keys,
        with_numbers(db, KeyStore::Prekeys, keys).signed_prekeys == db.signed_prekeys,
        with_numbers(db, KeyStore::Prekeys, keys).kyber_prekeys == db.kyber_prekeys,
        with_numbers(db, KeyStore::SignedPrekeys, keys).signed_prekeys == keys,
        with_numbers(db, KeyStore::SignedPrekeys, keys).prekeys == db.prekeys,
        with_numbers(db, KeyStore::SignedPrekeys, keys).kyber_prekeys == db.kyber_prekeys,
        with_numbers(db, KeyStore::KyberPrekeys, keys).kyber_prekeys == keys,
        with_numbers(db, KeyStore::KyberPrekeys, keys).prekeys == db.prekeys,
        with_numbers(db, KeyStore::KyberPrekeys, keys).signed_prekeys == db.signed_prekeys,
        with_numbers(db, KeyStore::KyberPrekeys, keys).messages == db.messages,
        with_addresses(db, AddressStore::Sessions, records).messages == db.messages,
{
}

/// An identity is pinned at first sight: from then on that key is trusted for that
/// address, and no other key is.
pub proof fn an_identity_is_pinned_at_first_sight(
    db: DbView,
    address: Seq<char>,
    identity: Seq<u8>,
    other: Seq<u8>,
)
    requires
        !db.identities.contains_key(address),
        other != identity,
    ensures
        trusts(db, address, identity),
        trusts(db, address, other),
        ({
            let after = with_addresses(
                db,
                AddressStore::Identities,
                db.identities.insert(address, Some(identity)),
            );
            trusts(after, address, identity) && !trusts(after, address, other)
        }),
{
}

/// The pin of a contact is the record at their address.
pub proof fn a_pin_is_found_at_its_address(db: DbView, remote: Seq<char>, identity: Seq<u8>)
    ensures
        pinned(
            with_addresses(
                db,
                AddressStore::Identities,
                db.identities.insert(address_of(remote, 1), Some(identity)),
            ),
            remote,
            1,
        ) == Some(Some(identity)),
        pinned(
            with_addresses(
                db,
                AddressStore::Identities,
                db.identities.remove(address_of(remote, 1)),
            ),
            remote,
            1,
        ) is None,
{
}

/// A conversation goes whole, and every other one stays as it is.
pub proof fn a_conversation_goes_whole(
    messages: Map<Seq<char>, MessageView>,
    contact: Seq<char>,
    id: Seq<char>,
)
    ensures
        without_conversation(messages, contact).contains_key(id) == (messages.contains_key(id)
            && messages[id].contact != contact),
        without_conversation(messages, contact).contains_key(id) ==> without_conversation(
            messages,
            contact,
        )[id] == messages[id],
        conversation(messages, contact).contains(id) == (messages.contains_key(id)
            && messages[id].contact == contact),
{
}

/// Reading a conversation reads what came from the contact, at that moment, and
/// leaves nothing of it unread.
pub proof fn a_read_conversation_is_read(
    messages: Map<Seq<char>, MessageView>,
    contact: Seq<char>,
    now: i64,
    id: Seq<char>,
)
    requires
        messages.contains_key(id),
    ensures
        all_read(messages, contact, now).contains_key(id),
        !unread(all_read(messages, contact, now)[id], contact),
        messages[id].contact != contact || messages[id].mine || messages[id].state == "read"@
            ==> all_read(messages, contact, now)[id] == messages[id],
        messages[id].contact == contact && !messages[id].mine && messages[id].state != "read"@ ==> {
            let m = all_read(messages, contact, now)[id];
            &&& m.state == "read"@
            &&& m.read_at == Some(now)
            &&& m.delivered_at is Some
            &&& m == (MessageView {
                state: m.state,
                read_at: m.read_at,
                delivered_at: m.delivered_at,
                ..messages[id]
            })
        },
{
    reveal_strlit("read");
    reveal_strlit("delivered");
    assert("read"@[0] == 'r' && "delivered"@[0] == 'd');
}

/// The three states come one after the other: sent, delivered, read. Whatever else
/// is reported counts no more than sent.
pub proof fn states_come_one_after_the_other(state: Seq<char>)
    ensures
        rank("sent"@) < rank("delivered"@) < rank("read"@),
        state != "delivered"@ && state != "read"@ ==> rank(state) == rank("sent"@),
{
    reveal_strlit("sent");
    reveal_strlit("read");
    reveal_strlit("delivered");
    assert("sent"@[0] == 's' && "read"@[0] == 'r' && "delivered"@[0] == 'd');
}

/// A report that comes late or twice changes nothing; one that is new is taken
/// over with its moment, and the moment of the delivery is the first one known.
pub proof fn a_new_report_is_taken_over(m: MessageView, state: Seq<char>, at: i64)
    requires
        state == "delivered"@ || state == "read"@,
    ensures
        state_reported(state_reported(m, state, Some(at)), state, Some(at)) == state_reported(
            m,
            state,
            Some(at),
        ),
        rank(m.state) < rank(state) ==> {
            let after = state_reported(m, state, Some(at));
            &&& after.state == state
            &&& m.delivered_at is None ==> after.delivered_at == Some(at)
            &&& m.delivered_at is Some ==> after.delivered_at == m.delivered_at
            &&& state == "read"@ ==> after.read_at == Some(at)
            &&& state == "delivered"@ ==> after.read_at == m.read_at
            &&& after.id == m.id && after.contact == m.contact && after.mine == m.mine
                && after.kind == m.kind && after.text == m.text && after.created_at == m.created_at
        },
{
    reveal_strlit("read");
    reveal_strlit("delivered");
    assert("read"@[0] == 'r' && "delivered"@[0] == 'd');
}

/// What is owed to a peer is what was sent to them and never acknowledged.
pub proof fn what_is_owed_to_a_peer(m: MessageView, peer: Seq<char>)
    ensures
        undelivered(m, peer) <==> m.contact == peer && m.mine && m.state == "sent"@,
        undelivered(m, peer) ==> !unread(m, peer),
        unread(m, peer) <==> m.contact == peer && !m.mine && m.state != "read"@,
{
}

/// A message that is added is there as it was given.
pub proof fn an_added_message_is_there(messages: Map<Seq<char>, MessageView>, m: MessageView)
    requires
        !messages.contains_key(m.id),
    ensures
        message_added(messages, m).contains_key(m.id),
        message_added(messages, m)[m.id] == m,
{
}

/// A message list holds what was wanted, whole and as it is stored, the oldest
/// first.
pub proof fn a_message_list_is_whole(
    list: Seq<StoredMessage>,
    messages: Map<Seq<char>, MessageView>,
    wanted: spec_fn(MessageView) -> bool,
    i: int,
    j: int,
)
    requires
        is_message_list(list, messages, wanted),
        0 <= i < j < list.len(),
    ensures
        ({
            let m = messages[list[i].id@];
            &&& messages.contains_key(list[i].id@)
            &&& wanted(m)
            &&& list[i].contact@ == m.contact
            &&& list[i].mine == m.mine
            &&& list[i].kind@ == m.kind
            &&& list[i].text@ == m.text
            &&& list[i].state@ == m.state
            &&& list[i].delivered_at == m.delivered_at
            &&& list[i].read_at == m.read_at
            &&& list[i].created_at == m.created_at
        }),
        list[i].created_at <= list[j].created_at,
        list[i].id@ != list[j].id@,
{
    assert(list[i]@ == messages[list[i]@.id]);
    assert(list[i]@.id != list[j]@.id);
}

/// A cached contact is there under the alias and in the state that were given, and
/// nobody else is touched.
pub proof fn a_contact_is_cached_as_given(
    db: DbView,
    username: Seq<char>,
    alias: Seq<char>,
    state: Seq<char>,
    other: Seq<char>,
)
    requires
        other != username,
    ensures
        ({
            let after = with_contact(db, username, alias, state);
            &&& after.contacts.contains_key(username)
            &&& after.contacts[username].alias == alias
            &&& after.contacts[username].state == state
            &&& after.contacts.contains_key(other) == db.contacts.contains_key(other)
            &&& db.contacts.contains_key(other) ==> after.contacts[other] == db.contacts[other]
            &&& after.messages == db.messages && after.avatars == db.avatars && after.meta
                == db.meta
        }),
{
}

/// A list of contacts that replaces the cache is what the cache holds then.
pub proof fn the_cache_holds_the_list(list: Seq<ListedContact>, i: int)
    requires
        names_differ(list),
        0 <= i < list.len(),
    ensures
        contacts_listed(list).contains_key(list[i].username@),
        contacts_listed(list)[list[i].username@].alias == list[i].alias@,
        contacts_listed(list)[list[i].username@].state == list[i].state@,
    decreases list.len(),
{
    let last = list.len() - 1;
    if i < last {
        let front = list.drop_last();
        assert(names_differ(front)) by {
            assert forall|x: int, y: int| 0 <= x < y < front.len() implies (
            #[trigger] front[x]).username@ != (#[trigger] front[y]).username@ by {
                assert(list[x].username@ != list[y].username@);
            }
        }
        the_cache_holds_the_list(front, i);
        assert(list[i].username@ != list[last].username@);
        assert(front[i] == list[i]);
    }
}

/// Nobody is in the cache whom the list does not name.
pub proof fn the_cache_holds_nothing_else(list: Seq<ListedContact>, name: Seq<char>)
    requires
        contacts_listed(list).contains_key(name),
    ensures
        exists|i: int| 0 <= i < list.len() && (#[trigger] list[i]).username@ == name,
    decreases list.len(),
{
    if list.len() > 0 {
        if list.last().username@ == name {
            assert(list[list.len() - 1].username@ == name);
        } else {
            the_cache_holds_nothing_else(list.drop_last(), name);
            let i = choose|i: int|
                0 <= i < list.drop_last().len() && (#[trigger] list.drop_last()[i]).username@
                    == name;
            assert(list[i].username@ == name);
        }
    }
}

/// A clean slate holds nothing but the mark that the store is sealed.
pub proof fn a_clean_slate_holds_nothing(db: DbView, key: Seq<char>, n: u32)
    ensures
        clean_slate(db).meta.contains_key(key) ==> key == "crypto"@ && db.meta.contains_key(key)
            && clean_slate(db).meta[key] == db.meta[key],
        db.meta.contains_key("crypto"@) ==> clean_slate(db).meta.contains_key("crypto"@),
        !clean_slate(db).messages.contains_key(key),
        !clean_slate(db).contacts.contains_key(key),
        !clean_slate(db).avatars.contains_key(key),
        !clean_slate(db).identities.contains_key(key),
        !clean_slate(db).sessions.contains_key(key),
        !clean_slate(db).prekeys.contains_key(n),
        !clean_slate(db).signed_prekeys.contains_key(n),
        !clean_slate(db).kyber_prekeys.contains_key(n),
{
}

/// Everything on record is sealed but the mark itself.
pub proof fn everything_but_the_mark_is_sealed(key: Seq<char>)
    ensures
        sealed_meta(key) <==> key != "crypto"@,
{
}

/// Opening a store drops the instructions to delete that were once kept as
/// messages, and nothing else.
pub proof fn only_old_instructions_go(raw: Raw, id: Seq<char>)
    ensures
        without_old_deletes(raw).messages.contains_key(id) == (raw.messages.contains_key(id)
            && raw.messages[id].kind != "delete"@),
        without_old_deletes(raw).messages.contains_key(id) ==> without_old_deletes(raw).messages[id]
            == raw.messages[id],
        without_old_deletes(raw) == (Raw {
            messages: without_old_deletes(raw).messages,
            ..raw
        }),
{
}

/// Sealing a store marks it, and changes nothing that is read from it.
pub proof fn sealing_marks_the_store(db: DbView, key: Seq<char>)
    requires
        key != "crypto"@,
    ensures
        marked(db).meta.contains_key("crypto"@),
        value_of(marked(db).meta, key) == value_of(db.meta, key),
        marked(db) == (DbView { meta: marked(db).meta, ..db }),
{
}

/// The highest number of a store is one that it holds, and none is higher.
pub proof fn the_highest_number_is_the_highest(
    records: Map<u32, Option<Seq<u8>>>,
    n: u32,
    id: u32,
)
    requires
        is_highest(records, n),
        records.contains_key(id),
    ensures
        records.contains_key(n),
        id <= n,
{
}

/// The numbers and the identity of this device are the ones on record.
pub proof fn a_device_number_reads_back(meta: Map<Seq<char>, Seq<char>>, device: i64, n: u32)
    ensures
        device_in(meta.insert("device_id"@, crate::text::signed_decimal(device as int))) == Some(
            device,
        ),
        own_number(meta.insert("registration_id"@, decimal(n as nat))) == Some(n),
        meta.contains_key("identity_keypair"@) ==> own_identity(meta) == b64_decoded(
            meta["identity_keypair"@],
        ),
        !meta.contains_key("identity_keypair"@) ==> own_identity(meta) is None,
        !meta.contains_key("device_id"@) ==> device_in(meta) is None,
        !meta.contains_key("registration_id"@) ==> own_number(meta) is None,
{
    written_numbers_read_back(device as int);
    written_numbers_read_back(n as int);
}

/// What was written in two goes is what was written in one: the rows that are
/// handed out, one batch after the other, make up the store.
pub proof fn batches_add_up(base: Raw, first: Seq<DbWrite>, second: Seq<DbWrite>)
    ensures
        db_replayed(base, first + second) == db_replayed(db_replayed(base, first), second),
    decreases second.len(),
{
    if second.len() == 0 {
        assert(first + second =~= first);
    } else {
        assert((first + second).drop_last() =~= first + second.drop_last());
        assert((first + second).last() == second.last());
        batches_add_up(base, first, second.drop_last());
    }
}

/// Without a key everything is read as it lies there; with one, the texts, the
/// aliases and the values on record are unsealed, and everything else is read as
/// it lies there.
pub proof fn what_is_unsealed(raw: Raw, key: Seq<u8>, id: Seq<char>)
    ensures
        as_read(None, raw).messages =~= raw.messages,
        as_read(None, raw).contacts =~= raw.contacts,
        as_read(None, raw).avatars =~= raw.avatars,
        as_read(None, raw).meta =~= raw.meta,
        ({
            let db = as_read(Some(key), raw);
            &&& db.messages.dom() == raw.messages.dom()
            &&& db.contacts.dom() == raw.contacts.dom()
            &&& db.avatars.dom() == raw.avatars.dom()
            &&& db.meta.dom() == raw.meta.dom()
            &&& db.identities.dom() == raw.identities.dom()
            &&& db.sessions.dom() == raw.sessions.dom()
            &&& db.seen == raw.seen
            &&& raw.messages.contains_key(id) ==> db.messages[id] == (MessageView {
                text: unsealed(Some(key), raw.messages[id].text),
                ..raw.messages[id]
            })
            &&& raw.contacts.contains_key(id) ==> db.contacts[id].state == raw.contacts[id].state
                && db.contacts[id].alias == unsealed(Some(key), raw.contacts[id].alias)
            &&& raw.avatars.contains_key(id) ==> db.avatars[id] == unsealed(
                Some(key),
                raw.avatars[id],
            )
            &&& raw.meta.contains_key(id) && id != "crypto"@ ==> db.meta[id] == unsealed(
                Some(key),
                raw.meta[id],
            )
            &&& raw.meta.contains_key(id) && id == "crypto"@ ==> db.meta[id] == raw.meta[id]
        }),
{
}

/// What a box holds is what is read, and what is no box is read as it lies there;
/// a record that cannot be opened is none.
pub proof fn a_sealed_value_is_read_as_what_was_sealed(
    key: Seq<u8>,
    stored: Seq<char>,
    text: Seq<char>,
)
    ensures
        opened(key, stored) == Ok::<Seq<u8>, StorageError>(encode_utf8(text)) ==> unsealed(
            Some(key),
            stored,
        ) == text,
        opened(key, stored) is Err ==> unsealed(Some(key), stored) == stored && record_behind(
            Some(key),
            stored,
        ) is None,
        opened(key, stored) is Ok ==> record_behind(Some(key), stored) == Some(
            opened(key, stored)->Ok_0,
        ),
        record_behind(None, stored) == b64_decoded(stored),
        unsealed(None, stored) == stored,
{
    lemma_text_bytes(text);
}

/// A profile fits exactly where each of its four parts can be sealed, and anything
/// can be sealed up to the limit of the cipher.
pub proof fn a_profile_fits_where_its_parts_do(key: Option<Seq<u8>>, p: ProfileView, n: nat)
    ensures
        fields_that_fit(key, p) == 4 <==> can_seal(key, encode_utf8(p.username).len()) && can_seal(
            key,
            encode_utf8(p.alias).len(),
        ) && can_seal(key, encode_utf8(p.server).len()) && can_seal(key, encode_utf8(p.token).len()),
        can_seal(None, n),
        key is Some ==> can_seal(key, n) == (n <= 274_877_906_816),
{
}

/// A store that cannot be sealed is damaged where a record in it cannot be read,
/// and otherwise holds something that is too long.
pub proof fn why_a_store_cannot_be_sealed(raw: Raw, address: Seq<char>, n: u32)
    ensures
        raw.identities.contains_key(address) && b64_decoded(raw.identities[address]) is None
            ==> sealing_fault(raw) == StorageError::Corrupt,
        raw.sessions.contains_key(address) && b64_decoded(raw.sessions[address]) is None
            ==> sealing_fault(raw) == StorageError::Corrupt,
        raw.prekeys.contains_key(n) && b64_decoded(raw.prekeys[n]) is None ==> sealing_fault(raw)
            == StorageError::Corrupt,
        raw.signed_prekeys.contains_key(n) && b64_decoded(raw.signed_prekeys[n]) is None
            ==> sealing_fault(raw) == StorageError::Corrupt,
        raw.kyber_prekeys.contains_key(n) && b64_decoded(raw.kyber_prekeys[n]) is None
            ==> sealing_fault(raw) == StorageError::Corrupt,
        all_readable(raw) ==> sealing_fault(raw) == StorageError::TooLong,
{
}

/// What cannot be opened with a key is told apart from what is no box.
pub proof fn a_wrong_key_is_told_from_damage(key: Seq<u8>, stored: Seq<char>)
    ensures
        crate::sealing::unboxed(key, stored) == Err::<Seq<u8>, crate::sealing::BoxFault>(
            crate::sealing::BoxFault::WrongKey,
        ) ==> opened(key, stored) == Err::<Seq<u8>, StorageError>(StorageError::WrongKey),
        crate::sealing::unboxed(key, stored) == Err::<Seq<u8>, crate::sealing::BoxFault>(
            crate::sealing::BoxFault::Corrupt,
        ) ==> opened(key, stored) == Err::<Seq<u8>, StorageError>(StorageError::Corrupt),
        crate::sealing::unboxed(key, stored) is Ok ==> opened(key, stored) is Ok && opened(
            key,
            stored,
        )->Ok_0 == crate::sealing::unboxed(key, stored)->Ok_0,
{
}

} // verus!
