//! What holds of the commands of the interface, from the first call to the reply.
#[allow(unused_imports)]
use vstd::utf8::encode_utf8;
use vstd::prelude::*;

#[allow(unused_imports)]
use crate::client::commands::{
    begun, picture_parcels, went_on, Call, Command, ContactVerb, Job, Outcome, Parcel, Reply, Turn,
};
#[allow(unused_imports)]
use crate::client::conversations::{after_import, delete_refusal, is_everything, missing_ids};
#[allow(unused_imports)]
use crate::api::{entries_seen, ContactEntry};
#[allow(unused_imports)]
use crate::client::roster::{cache_synced, is_cached_list, names_the_accepted, with_pictures};
#[allow(unused_imports)]
use crate::client::traffic::{identity_accepted, send_refused};
#[allow(unused_imports)]
use crate::client::{
    alias_changed, profile_fits, profile_info, profile_saved, signed_out, status_changed,
    ActorView, ClientFault, PendingView, ProfileInfo,
};
#[allow(unused_imports)]
use crate::db::messages::{all_read, is_id_list, is_message_list, unread};
#[allow(unused_imports)]
use crate::db::meta::{
    account_in, clean_slate, fields_that_fit, lemma_profile_keys, profile_in, profile_written,
    value_of, ProfileView,
};
#[allow(unused_imports)]
use crate::db::{can_seal, DbView, MessageView, StoredMessage};
#[allow(unused_imports)]
use crate::export_json::ExportView;
#[allow(unused_imports)]
use crate::keystore::StorageError;
#[allow(unused_imports)]
use crate::text::{lowercased, text_in, texts, without_trailing};
#[allow(unused_imports)]
use crate::transfer::{export_refusal, imported, TransferError};

verus! {

/// A profile that was written reads back as it was written, and what else is on
/// record stays.
pub proof fn a_profile_reads_back(meta: Map<Seq<char>, Seq<char>>, p: ProfileView, key: Seq<char>)
    requires
        key != "username"@ && key != "alias"@ && key != "server"@ && key != "token"@,
    ensures
        profile_in(profile_written(meta, p, 4)) is Some,
        profile_in(profile_written(meta, p, 4))->0.username == p.username,
        profile_in(profile_written(meta, p, 4))->0.alias == p.alias,
        profile_in(profile_written(meta, p, 4))->0.server == p.server,
        profile_in(profile_written(meta, p, 4))->0.token == p.token,
        account_in(profile_written(meta, p, 4)) == Some((p.username, p.server)),
        value_of(profile_written(meta, p, 4), key) == value_of(meta, key),
{
    lemma_profile_keys();
}

/// The profile that is shown is the one on record, with the presence that was
/// chosen, "online" where none was, and the picture.
pub proof fn the_profile_that_is_shown(meta: Map<Seq<char>, Seq<char>>, p: ProfileView, info: ProfileInfo)
    requires
        profile_info(profile_written(meta, p, 4)) == Some(info@),
    ensures
        info.username@ == p.username,
        info.alias@ == p.alias,
        info.server@ == p.server,
        meta.contains_key("status"@) ==> info.status@ == meta["status"@],
        !meta.contains_key("status"@) ==> info.status@ == "online"@,
        meta.contains_key("avatar"@) ==> info.avatar is Some && info.avatar->0@ == meta["avatar"@],
        !meta.contains_key("avatar"@) ==> info.avatar is None,
{
    lemma_profile_keys();
}

/// Registering asks the relay for what was asked for, on a clean slate.
pub proof fn registering_asks_for_what_was_asked_for(
    a: ActorView,
    server: String,
    username: String,
    alias: String,
    email: String,
    password: String,
    now: i64,
    after: ActorView,
    turn: Turn,
)
    requires
        begun(a, Command::Register { server, username, alias, email, password }, now, after, turn),
    ensures
        turn is Call,
        turn->call is Register,
        turn->call->Register_server@ == without_trailing(server@, '/'),
        turn->call->Register_username@ == lowercased(username@),
        turn->call->Register_alias@ == alias@,
        turn->call->Register_email@ == email@,
        turn->call->Register_password@ == password@,
        after.db.messages.dom() =~= Set::<Seq<char>>::empty(),
        after.db.contacts.dom() =~= Set::<Seq<char>>::empty(),
        after.db.identities.dom() =~= Set::<Seq<char>>::empty(),
        after.db.sessions.dom() =~= Set::<Seq<char>>::empty(),
        profile_in(after.db.meta) is None,
        !after.session,
{
    reveal_strlit("crypto");
    reveal_strlit("username");
    assert("crypto"@.len() == 6 && "username"@.len() == 8);
}

/// From a registration to its confirmation: the code is sent for the name that
/// registered, and once the relay has handed out a session the device is signed in
/// under that name, that alias, at that relay, with that session.
pub proof fn a_registration_ends_signed_in(
    a: ActorView,
    server: String,
    username: String,
    alias: String,
    email: String,
    password: String,
    asked: ActorView,
    first: Turn,
    echoed: Option<String>,
    waiting: ActorView,
    second: Turn,
    code: String,
    tried: ActorView,
    third: Turn,
    token: Option<String>,
    named: ActorView,
    fourth: Turn,
    done: ActorView,
    last: Turn,
    now: i64,
)
    requires
        begun(a, Command::Register { server, username, alias, email, password }, now, asked, first),
        went_on(asked, first->job, Outcome::Text { text: echoed }, waiting, second),
        begun(waiting, Command::Verify { code }, now, tried, third),
        went_on(tried, third->job, Outcome::Text { text: token }, named, fourth),
        went_on(named, fourth->job, Outcome::Done, done, last),
        token is Some,
        can_seal(a.secret, encode_utf8(lowercased(username@)).len()),
        can_seal(a.secret, encode_utf8(alias@).len()),
        can_seal(
            a.secret,
            encode_utf8(without_trailing(without_trailing(server@, '/'), '/')).len(),
        ),
        can_seal(a.secret, encode_utf8(token->0@).len()),
    ensures
        second is Answer,
        second->Answer_reply is Code,
        text_in(second->Answer_reply->Code_code) == text_in(echoed),
        third is Call,
        third->call is Verify,
        third->call->Verify_username@ == lowercased(username@),
        third->call->Verify_code@ == code@,
        fourth is Call,
        fourth->call is PublishKeys,
        last is Answer,
        last->Answer_reply is Nothing,
        done.session,
        done.pending is None,
        profile_in(done.db.meta) is Some,
        profile_in(done.db.meta)->0.username == lowercased(username@),
        profile_in(done.db.meta)->0.alias == alias@,
        profile_in(done.db.meta)->0.server == without_trailing(
            without_trailing(server@, '/'),
            '/',
        ),
        profile_in(done.db.meta)->0.token == token->0@,
{
    lemma_profile_keys();
}

/// A login asks for the session of the name and the password that were given, and
/// what is here goes unless it is of the same account.
pub proof fn a_login_asks_for_what_was_asked_for(
    a: ActorView,
    server: String,
    username: String,
    password: String,
    now: i64,
    after: ActorView,
    turn: Turn,
)
    requires
        begun(a, Command::Login { server, username, password }, now, after, turn),
    ensures
        turn is Call,
        turn->call is Login,
        turn->call->Login_server@ == without_trailing(server@, '/'),
        turn->call->Login_username@ == lowercased(username@),
        turn->call->Login_password@ == password@,
        ({
            let same = a.db.meta.contains_key("username"@) && a.db.meta["username"@] == lowercased(
                username@,
            ) && a.db.meta.contains_key("server"@) && a.db.meta["server"@] == without_trailing(
                server@,
                '/',
            );
            &&& same ==> after == a
            &&& !same ==> after.db.messages.dom() =~= Set::<Seq<char>>::empty()
                && after.db.contacts.dom() =~= Set::<Seq<char>>::empty()
                && after.db.identities.dom() =~= Set::<Seq<char>>::empty() && !after.session
        }),
{
}

/// A login that the relay grants ends signed in: under the name that logged in,
/// the alias that the relay has for it, at that relay, with the session it handed
/// out. A device that is new to the account publishes its keys on the way.
pub proof fn a_login_ends_signed_in(
    a: ActorView,
    server: String,
    username: String,
    password: String,
    asked: ActorView,
    first: Turn,
    token: Option<String>,
    granted: ActorView,
    second: Turn,
    published: ActorView,
    third: Turn,
    alias: Option<String>,
    done: ActorView,
    last: Turn,
    now: i64,
)
    requires
        begun(a, Command::Login { server, username, password }, now, asked, first),
        went_on(asked, first->job, Outcome::Text { text: token }, granted, second),
        if second->call is PublishKeys {
            went_on(granted, second->job, Outcome::Done, published, third)
        } else {
            published == granted && third == second
        },
        went_on(published, third->job, Outcome::Text { text: alias }, done, last),
        token is Some,
        alias is Some,
        can_seal(a.secret, encode_utf8(lowercased(username@)).len()),
        can_seal(a.secret, encode_utf8(alias->0@).len()),
        can_seal(
            a.secret,
            encode_utf8(without_trailing(without_trailing(server@, '/'), '/')).len(),
        ),
        can_seal(a.secret, encode_utf8(token->0@).len()),
    ensures
        second->call is PublishKeys <==> account_in(a.db.meta) != Some(
            (lowercased(username@), without_trailing(server@, '/')),
        ),
        third is Call,
        third->call is FetchProfile,
        third->call->FetchProfile_name@ == lowercased(username@),
        done.session,
        profile_in(done.db.meta) is Some,
        profile_in(done.db.meta)->0.username == lowercased(username@),
        profile_in(done.db.meta)->0.alias == alias->0@,
        profile_in(done.db.meta)->0.server == without_trailing(
            without_trailing(server@, '/'),
            '/',
        ),
        profile_in(done.db.meta)->0.token == token->0@,
        last is Answer,
        last->Answer_reply is Profile,
        last->Answer_reply->info is Some,
        last->Answer_reply->info->0.username@ == lowercased(username@),
        last->Answer_reply->info->0.alias@ == alias->0@,
{
    lemma_profile_keys();
}

/// A connection is opened with the session on record, and only then is the device
/// taken for connected.
pub proof fn a_connection_uses_the_session_on_record(
    a: ActorView,
    now: i64,
    after: ActorView,
    turn: Turn,
    done: ActorView,
    last: Turn,
)
    requires
        begun(a, Command::Connect, now, after, turn),
        profile_in(a.db.meta) is Some,
        went_on(after, turn->job, Outcome::Done, done, last),
    ensures
        turn is Call,
        turn->call is Open,
        turn->call->Open_server@ == a.db.meta["server"@],
        turn->call->Open_token@ == a.db.meta["token"@],
        a.db.meta.contains_key("status"@) ==> turn->call->Open_status is Some
            && turn->call->Open_status->0@ == a.db.meta["status"@],
        !a.db.meta.contains_key("status"@) ==> turn->call->Open_status is None,
        after.session,
        after.connected == a.connected,
        done.connected,
        done.db == a.db,
{
}

/// Logging out ends the session here whether or not the relay can be reached, and
/// keeps the conversations.
pub proof fn a_logout_always_ends_the_session(
    a: ActorView,
    now: i64,
    after: ActorView,
    turn: Turn,
    outcome: Outcome,
    done: ActorView,
    last: Turn,
)
    requires
        begun(a, Command::Logout, now, after, turn),
        a.session ==> went_on(after, turn->job, outcome, done, last),
        !a.session ==> done == after && last == turn,
    ensures
        a.session ==> turn is Call && turn->call is Logout,
        !done.session,
        !done.connected,
        profile_in(done.db.meta) is None,
        done.db.messages == a.db.messages,
        done.db.contacts == a.db.contacts,
        last is Answer,
        last->Answer_reply is Nothing,
{
}

/// Asking for a reset code, and using it, reach the relay as they were asked.
pub proof fn a_reset_asks_for_what_was_asked_for(
    a: ActorView,
    server: String,
    username: String,
    code: String,
    password: String,
    now: i64,
    after: ActorView,
    turn: Turn,
)
    ensures
        begun(a, Command::ForgotPassword { server, username }, now, after, turn) ==> {
            &&& after == a
            &&& turn is Call
            &&& turn->call is ForgotPassword
            &&& turn->call->ForgotPassword_server@ == without_trailing(server@, '/')
            &&& turn->call->ForgotPassword_username@ == lowercased(username@)
        },
        begun(a, Command::ResetPassword { server, username, code, password }, now, after, turn)
            ==> {
            &&& after == a
            &&& turn is Call
            &&& turn->call is ResetPassword
            &&& turn->call->ResetPassword_server@ == without_trailing(server@, '/')
            &&& turn->call->ResetPassword_username@ == lowercased(username@)
            &&& turn->call->ResetPassword_code@ == code@
            &&& turn->call->ResetPassword_password@ == password@
        },
{
}

/// What is to be sent goes out as one message to its recipient, of the kind and
/// with the content that were given.
pub proof fn sending_sends_what_was_given(
    a: ActorView,
    recipient: String,
    kind: String,
    content: String,
    now: i64,
    after: ActorView,
    turn: Turn,
)
    requires
        begun(a, Command::Send { recipient, kind, content }, now, after, turn),
    ensures
        after == a,
        turn is SendOne,
        turn->parcel.to@ == lowercased(recipient@),
        turn->parcel.kind@ == kind@,
        turn->parcel.content@ == content@,
{
}

/// Asking, accepting, removing and blocking reach the relay as what they are, for
/// the contact they are about, and the list is fetched anew afterwards.
pub proof fn a_contact_command_reaches_the_relay(
    a: ActorView,
    verb: ContactVerb,
    username: String,
    now: i64,
    after: ActorView,
    turn: Turn,
    state: Option<String>,
    linked: ActorView,
    next: Turn,
)
    requires
        a.session,
        begun(a, Command::Contact { verb, username }, now, after, turn),
        went_on(after, turn->job, Outcome::Text { text: state }, linked, next),
    ensures
        after == a,
        linked == a,
        turn is Call,
        turn->call is Contact,
        turn->call->Contact_verb == verb,
        turn->call->Contact_name@ == lowercased(username@),
        next is Call,
        next->call is ListContacts,
        next->job is Syncing,
        state is Some ==> next->job->Syncing_state@ == state->0@,
{
}

/// A message is deleted here, that one and no other; for everyone only where it is
/// ours, and then whoever it was sent to is told which one.
pub proof fn deleting_deletes_one_message(
    a: ActorView,
    id: String,
    for_everyone: bool,
    now: i64,
    after: ActorView,
    turn: Turn,
    other: Seq<char>,
)
    requires
        begun(a, Command::DeleteMessage { id, for_everyone }, now, after, turn),
        other != id@,
    ensures
        !a.db.messages.contains_key(id@) || (for_everyone && !a.db.messages[id@].mine) ==> after
            == a && turn is Answer && turn->Answer_reply is Failed,
        a.db.messages.contains_key(id@) && (for_everyone ==> a.db.messages[id@].mine) ==> {
            &&& !after.db.messages.contains_key(id@)
            &&& after.db.messages.contains_key(other) == a.db.messages.contains_key(other)
            &&& a.db.messages.contains_key(other) ==> after.db.messages[other]
                == a.db.messages[other]
            &&& after == (ActorView {
                db: DbView { messages: after.db.messages, ..a.db },
                ..a
            })
            &&& for_everyone ==> turn is SendOne && turn->parcel.to@
                == a.db.messages[id@].contact && turn->parcel.kind@ == "delete"@
                && turn->parcel.content@ == id@
            &&& !for_everyone ==> turn is Answer && turn->Answer_reply is Nothing
        },
{
}

/// Deleting a conversation for everyone withdraws every message of ours in it, and
/// nothing of anybody else's; deleting it here alone withdraws nothing.
pub proof fn withdrawing_is_about_our_messages(
    a: ActorView,
    contact: String,
    for_everyone: bool,
    now: i64,
    after: ActorView,
    turn: Turn,
    id: Seq<char>,
)
    requires
        begun(a, Command::DeleteConversation { contact, for_everyone }, now, after, turn),
    ensures
        after == a,
        turn is Withdraw,
        turn->contact@ == lowercased(contact@),
        !for_everyone ==> turn->Withdraw_parcels@.len() == 0,
        for_everyone ==> {
            let list = turn->Withdraw_parcels@;
            &&& (exists|i: int|
                0 <= i < list.len() && (#[trigger] list[i]).content@ == id) <==> (
            a.db.messages.contains_key(id) && a.db.messages[id].mine && a.db.messages[id].contact
                == lowercased(contact@))
            &&& forall|i: int|
                0 <= i < list.len() ==> (#[trigger] list[i]).to@ == lowercased(contact@)
                    && list[i].kind@ == "delete"@
        },
{
    if for_everyone {
        let list = turn->Withdraw_parcels@;
        let name = lowercased(contact@);
        let ids = choose|ids: Seq<String>| #[trigger]
            crate::client::commands::names_our_messages(ids, a.db.messages, name) && ids.len()
                == list.len() && forall|i: int|
                0 <= i < ids.len() ==> (#[trigger] list[i])@.content == ids[i]@;
        assert forall|i: int| 0 <= i < list.len() implies (#[trigger] list[i]).to@ == name
            && list[i].kind@ == "delete"@ && list[i].content@ == ids[i]@ by {
            assert(list[i]@.to == name);
        }
        if a.db.messages.contains_key(id) && a.db.messages[id].mine && a.db.messages[id].contact
            == name {
            let i = choose|i: int| 0 <= i < ids.len() && (#[trigger] ids[i])@ == id;
            assert(list[i].content@ == id);
        }
        if exists|i: int| 0 <= i < list.len() && (#[trigger] list[i]).content@ == id {
            let i = choose|i: int| 0 <= i < list.len() && (#[trigger] list[i]).content@ == id;
            assert(ids[i]@ == id);
        }
    }
}

/// A picture is kept, and sent to every accepted contact and to nobody else; none
/// takes it away, and the contacts are told with an empty one.
pub proof fn a_picture_goes_to_the_contacts(
    a: ActorView,
    avatar: Option<String>,
    now: i64,
    after: ActorView,
    turn: Turn,
    name: Seq<char>,
)
    requires
        begun(a, Command::SetAvatar { avatar }, now, after, turn),
        avatar is Some ==> can_seal(a.secret, encode_utf8(avatar->0@).len()),
    ensures
        avatar is Some ==> value_of(after.db.meta, "avatar"@) == Some(avatar->0@),
        avatar is None ==> value_of(after.db.meta, "avatar"@) is None,
        turn is Send,
        ({
            let list = turn->Send_parcels@;
            &&& (exists|i: int| 0 <= i < list.len() && (#[trigger] list[i]).to@ == name) <==> (
            a.db.contacts.contains_key(name) && a.db.contacts[name].state == "accepted"@)
            &&& forall|i: int|
                0 <= i < list.len() ==> (#[trigger] list[i]).kind@ == "avatar"@ && (avatar is Some
                    ==> list[i].content@ == avatar->0@) && (avatar is None
                    ==> list[i].content@.len() == 0)
        }),
        after.db.messages == a.db.messages,
        after.db.contacts == a.db.contacts,
{
    let list = turn->Send_parcels@;
    let data = match avatar {
        Some(data) => data@,
        None => Seq::empty(),
    };
    let names = choose|names: Seq<String>| #[trigger]
        names_the_accepted(names, a.db.contacts) && crate::client::commands::parcels_seen(list)
            == picture_parcels(texts(names), data);
    let seen = crate::client::commands::parcels_seen(list);
    assert(seen.len() == list.len());
    assert(picture_parcels(texts(names), data).len() == names.len());
    assert forall|i: int| 0 <= i < list.len() implies (#[trigger] list[i]).to@ == names[i]@
        && list[i].kind@ == "avatar"@ && list[i].content@ == data by {
        assert(seen[i] == list[i]@);
        assert(picture_parcels(texts(names), data)[i].to == texts(names)[i]);
    }
    if a.db.contacts.contains_key(name) && a.db.contacts[name].state == "accepted"@ {
        let i = choose|i: int| 0 <= i < names.len() && (#[trigger] names[i])@ == name;
        assert(list[i].to@ == name);
    }
    if exists|i: int| 0 <= i < list.len() && (#[trigger] list[i]).to@ == name {
        let i = choose|i: int| 0 <= i < list.len() && (#[trigger] list[i]).to@ == name;
        assert(names[i]@ == name);
    }
}

/// Opening a conversation reports exactly what was unread in it, and leaves nothing
/// of it unread; other conversations stay as they were.
pub proof fn reading_reads_one_conversation(
    a: ActorView,
    contact: String,
    now: i64,
    after: ActorView,
    turn: Turn,
    id: Seq<char>,
)
    requires
        a.session,
        begun(a, Command::MarkRead { contact }, now, after, turn),
    ensures
        turn is Call,
        turn->call is MarkRead,
        (exists|i: int|
            0 <= i < turn->call->MarkRead_ids@.len() && (
            #[trigger] turn->call->MarkRead_ids@[i])@ == id) <==> (a.db.messages.contains_key(id)
            && a.db.messages[id].contact == contact@ && !a.db.messages[id].mine
            && a.db.messages[id].state != "read"@),
        after.db.messages.contains_key(id) == a.db.messages.contains_key(id),
        a.db.messages.contains_key(id) && (a.db.messages[id].contact != contact@
            || a.db.messages[id].mine) ==> after.db.messages[id] == a.db.messages[id],
        a.db.messages.contains_key(id) && a.db.messages[id].contact == contact@
            && !a.db.messages[id].mine ==> {
            &&& after.db.messages[id].state == "read"@
            &&& a.db.messages[id].state != "read"@ ==> after.db.messages[id].read_at == Some(now)
            &&& after.db.messages[id].text == a.db.messages[id].text
            &&& after.db.messages[id].kind == a.db.messages[id].kind
        },
{
    reveal_strlit("read");
    reveal_strlit("delivered");
    assert("read"@[0] == 'r' && "delivered"@[0] == 'd');
    let ids = turn->call->MarkRead_ids@;
    if a.db.messages.contains_key(id) && unread(a.db.messages[id], contact@) {
        let i = choose|i: int| 0 <= i < ids.len() && (#[trigger] ids[i])@ == id;
        assert(ids[i]@ == id);
    }
    if exists|i: int| 0 <= i < ids.len() && (#[trigger] ids[i])@ == id {
        let i = choose|i: int| 0 <= i < ids.len() && (#[trigger] ids[i])@ == id;
        assert(unread(a.db.messages[ids[i]@], contact@));
    }
}

/// A conversation is shown whole, the oldest message first, and nothing of any
/// other one.
pub proof fn a_conversation_is_shown_whole(
    a: ActorView,
    contact: String,
    now: i64,
    after: ActorView,
    turn: Turn,
    id: Seq<char>,
    i: int,
    j: int,
)
    requires
        begun(a, Command::History { contact }, now, after, turn),
        a.db.messages.contains_key(id) ==> a.db.messages[id].id == id,
    ensures
        after == a,
        turn is Answer,
        turn->Answer_reply is Messages,
        ({
            let list = turn->Answer_reply->Messages_list@;
            &&& a.db.messages.contains_key(id) && a.db.messages[id].contact == contact@
                ==> exists|i: int| 0 <= i < list.len() && (#[trigger] list[i])@ == a.db.messages[id]
            &&& 0 <= i < list.len() ==> list[i].contact@ == contact@ && a.db.messages.contains_key(
                list[i].id@,
            )
            &&& 0 <= i < j < list.len() ==> list[i].created_at <= list[j].created_at && list[i].id@
                != list[j].id@
        }),
{
    let list = turn->Answer_reply->Messages_list@;
    if a.db.messages.contains_key(id) && a.db.messages[id].contact == contact@ {
        let k = choose|k: int| 0 <= k < list.len() && (#[trigger] list[k])@.id == id;
        assert(list[k]@ == a.db.messages[id]);
    }
    if 0 <= i < list.len() {
        assert(list[i]@.contact == contact@);
    }
    if 0 <= i < j < list.len() {
        assert(list[i]@.id != list[j]@.id);
    }
}

/// A change of the own profile is asked of the relay as it was given, and taken
/// over here once the relay took it.
pub proof fn a_change_of_profile_is_taken_over(
    a: ActorView,
    alias: Option<String>,
    status: Option<String>,
    now: i64,
    after: ActorView,
    turn: Turn,
    done: ActorView,
    last: Turn,
)
    requires
        a.session,
        profile_in(a.db.meta) is Some,
        begun(a, Command::UpdateMe { alias, status }, now, after, turn),
        went_on(after, turn->job, Outcome::Done, done, last),
        a.secret is None,
    ensures
        turn is Call,
        turn->call is UpdateMe,
        text_in(turn->call->UpdateMe_alias) == text_in(alias),
        text_in(turn->call->UpdateMe_status) == text_in(status),
        after == a,
        alias is Some ==> done.db.meta["alias"@] == alias->0@,
        alias is None ==> done.db.meta["alias"@] == a.db.meta["alias"@],
        status is Some ==> value_of(done.db.meta, "status"@) == Some(status->0@),
        status is None ==> value_of(done.db.meta, "status"@) == value_of(a.db.meta, "status"@),
        done.db.meta["username"@] == a.db.meta["username"@],
        done.db.meta["server"@] == a.db.meta["server"@],
        done.db.meta["token"@] == a.db.meta["token"@],
        done.db.messages == a.db.messages,
{
    lemma_profile_keys();
}

/// Accepting a contact's new key settles the dispute, and the contact is told to
/// rebuild the session.
pub proof fn accepting_a_key_rebuilds_the_session(
    a: ActorView,
    contact: String,
    now: i64,
    after: ActorView,
    turn: Turn,
)
    requires
        begun(a, Command::AcceptIdentity { contact }, now, after, turn),
    ensures
        !after.disputed.contains_key(lowercased(contact@)),
        turn is Send,
        turn->Send_parcels@.len() == 1,
        turn->Send_parcels@[0].to@ == lowercased(contact@),
        turn->Send_parcels@[0].kind@ == "rekey"@,
        turn->Send_parcels@[0].content@ == ""@,
{
    let seen = crate::client::commands::parcels_seen(turn->Send_parcels@);
    assert(seen.len() == 1);
    assert(seen[0] == turn->Send_parcels@[0]@);
}

/// What was exported can be imported with the same password, and adds every
/// message that is not here yet.
pub proof fn an_export_can_be_imported(
    a: ActorView,
    password: String,
    now: i64,
    after: ActorView,
    turn: Turn,
    b: ActorView,
    bytes: Vec<u8>,
    again: String,
    merged: ActorView,
    reply: Turn,
)
    requires
        begun(a, Command::ExportConversations { password }, now, after, turn),
        turn is Answer,
        turn->Answer_reply is File,
        bytes@ == turn->Answer_reply->bytes@,
        again@ == password@,
        begun(b, Command::ImportConversations { bytes, password: again }, now, merged, reply),
    ensures
        after == a,
        exists|e: ExportView| #[trigger]
            is_everything(e, a.db, now) && merged == after_import(b, e) && reply is Answer
                && reply->Answer_reply is Count && reply->Answer_reply->n == missing_ids(
                b.secret,
                b.db.messages,
                e.messages,
            ).len(),
{
    let e = choose|e: ExportView| #[trigger]
        is_everything(e, a.db, now) && match export_refusal(
            encode_utf8(crate::export_json::export_json(e)),
            password@,
        ) {
            Some(fault) => crate::client::commands::refused(turn, fault.spec_message()),
            None => turn->Answer_reply is File && imported(turn->Answer_reply->bytes@, password@)
                == Ok::<ExportView, TransferError>(e),
        };
    assert(is_everything(e, a.db, now));
}

/// The list that the relay sends is the list that is shown, with the pictures that
/// are kept here; where the relay cannot be reached the cached one is shown.
pub proof fn the_contacts_that_are_shown(
    a: ActorView,
    now: i64,
    asked: ActorView,
    turn: Turn,
    list: Vec<ContactEntry>,
    code: String,
    after: ActorView,
    last: Turn,
    i: int,
)
    requires
        begun(a, Command::Contacts, now, asked, turn),
    ensures
        a.session ==> turn is Call && turn->call is ListContacts && asked == a,
        !a.session ==> turn is Answer && turn->Answer_reply is Contacts && is_cached_list(
            turn->Answer_reply->Contacts_list@,
            a.db,
        ),
        a.session && went_on(asked, turn->job, Outcome::Entries { list }, after, last) && 0 <= i
            < list@.len() ==> {
            let shown = last->Send_reply->Contacts_list@;
            &&& last is Send
            &&& last->Send_reply is Contacts
            &&& shown.len() == list@.len()
            &&& shown[i].username@ == list@[i].username@
            &&& shown[i].alias@ == list@[i].alias@
            &&& shown[i].state@ == list@[i].state@
            &&& shown[i].status@ == list@[i].status@
            &&& shown[i].last_seen == list@[i].last_seen
            &&& a.db.avatars.contains_key(list@[i].username@) ==> shown[i].avatar is Some
                && shown[i].avatar->0@ == a.db.avatars[list@[i].username@]
            &&& !a.db.avatars.contains_key(list@[i].username@) ==> shown[i].avatar is None
            &&& cache_synced(a, after, entries_seen(list@))
        },
        a.session && went_on(asked, turn->job, Outcome::Failed { code }, after, last) ==> after == a
            && last is Answer && last->Answer_reply is Contacts && is_cached_list(
            last->Answer_reply->Contacts_list@,
            a.db,
        ),
{
    if a.session && went_on(asked, turn->job, Outcome::Entries { list }, after, last) && 0 <= i
        < list@.len() {
        let shown = last->Send_reply->Contacts_list@;
        let seen = entries_seen(shown);
        assert(seen == with_pictures(a.db, entries_seen(list@)));
        assert(seen.len() == list@.len());
        assert(seen[i] == shown[i]@);
        assert(entries_seen(list@)[i] == list@[i]@);
    }
}

/// A contact command ends with the state that the relay reported.
pub proof fn a_contact_command_ends_with_its_state(
    a: ActorView,
    state: String,
    outcome: Outcome,
    after: ActorView,
    last: Turn,
)
    requires
        went_on(a, Job::Syncing { state }, outcome, after, last),
    ensures
        outcome is Entries ==> last is Send && last->Send_reply is State
            && last->Send_reply->State_state@ == state@ && cache_synced(
            a,
            after,
            entries_seen(outcome->list@),
        ),
        !(outcome is Entries) ==> after == a && last is Answer && last->Answer_reply is State
            && last->Answer_reply->State_state@ == state@,
{
}

/// What the relay refuses is told with its reason.
pub proof fn a_refusal_is_told_with_its_reason(
    a: ActorView,
    job: Job,
    code: String,
    after: ActorView,
    last: Turn,
)
    requires
        went_on(a, job, Outcome::Failed { code }, after, last),
        !(job is LoggingOut || job is Reading || job is Syncing || job is Listing
            || job is Refreshing),
    ensures
        last is Answer,
        last->Answer_reply is Failed,
        last->Answer_reply->Failed_code@ == code@,
        after == a,
{
}

/// The profile is told as it is on record, and none where there is none.
pub proof fn the_profile_is_told(a: ActorView, now: i64, after: ActorView, turn: Turn)
    requires
        begun(a, Command::LoadProfile, now, after, turn),
    ensures
        after == a,
        turn is Answer,
        turn->Answer_reply is Profile,
        turn->Answer_reply->info is Some == profile_in(a.db.meta) is Some,
        turn->Answer_reply->info is Some ==> {
            let info = turn->Answer_reply->info->0;
            &&& info.username@ == a.db.meta["username"@]
            &&& info.alias@ == a.db.meta["alias"@]
            &&& info.server@ == a.db.meta["server"@]
        },
{
}

/// An answer of a kind that was not asked for is a failure, and changes nothing.
pub proof fn an_unexpected_answer_is_a_failure(
    a: ActorView,
    job: Job,
    outcome: Outcome,
    after: ActorView,
    last: Turn,
)
    requires
        went_on(a, job, outcome, after, last),
        (job is Registering || job is Verifying || job is LoggingIn || job is NamingLogin
            || job is AskingForCode) && (outcome is Done || outcome is Entries) || (
        job is PublishingVerified || job is PublishingLogin || job is Resetting || job is Opening
            || job is Updating) && (outcome is Text || outcome is Entries),
    ensures
        after == a,
        last is Answer,
        last->Answer_reply is Failed,
        last->Answer_reply->Failed_code@ == "request_failed"@,
{
}

} // verus!
