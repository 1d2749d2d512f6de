//! What the interface can ask of the client, and what that takes: an answer at
//! once, a call to the relay, or messages to be sent.
#[allow(unused_imports)]
use vstd::utf8::encode_utf8;
use vstd::prelude::*;

use crate::api::ContactEntry;
#[allow(unused_imports)]
use crate::api::{entries_seen, ContactEntryView};
#[allow(unused_imports)]
use crate::client::conversations::{after_import, delete_refusal, is_everything, missing_ids};
#[allow(unused_imports)]
use crate::client::roster::{
    cache_synced, fresh_names, is_cached_list, names_the_accepted, with_pictures,
};
#[allow(unused_imports)]
use crate::client::traffic::identity_accepted;
#[allow(unused_imports)]
use crate::client::{
    alias_changed, event_seen, profile_fits, profile_info, profile_saved, signed_out,
    status_changed, ActorView, ClientEventView, PendingView,
};
use crate::client::{Actor, ClientEvent, ClientFault, ProfileInfo};
#[allow(unused_imports)]
use crate::db::messages::{
    all_read, is_id_list, is_message_list, unread, with_messages, without_conversation,
};
#[allow(unused_imports)]
use crate::db::messages::conversation;
#[allow(unused_imports)]
use crate::db::meta::{account_in, clean_slate, profile_in, value_of, with_meta, ProfileView};
#[allow(unused_imports)]
use crate::db::{can_seal, DbView, MessageView};
use crate::db::StoredMessage;
#[allow(unused_imports)]
use crate::export_json::{export_json, ExportView};
use crate::keystore::StorageError;
#[allow(unused_imports)]
use crate::text::{lowercased, text_in, texts, without_trailing};
use crate::text::{copy_text, lowercase, text_ref, trim_trailing};
#[allow(unused_imports)]
use crate::transfer::{export_refusal, imported, TransferError};

verus! {

/// What can be done about a contact.
#[derive(Clone, Copy, Debug, PartialEq, Eq, Structural)]
pub enum ContactVerb {
    Request,
    Accept,
    Remove,
    Block,
}

/// What the interface asks for.
#[allow(inconsistent_fields)]
pub enum Command {
    LoadProfile,
    Register { server: String, username: String, alias: String, email: String, password: String },
    Verify { code: String },
    Login { server: String, username: String, password: String },
    ForgotPassword { server: String, username: String },
    ResetPassword { server: String, username: String, code: String, password: String },
    /// Packs every conversation into an encrypted file.
    ExportConversations { password: String },
    /// Merges an exported file into this device's conversations.
    ImportConversations { bytes: Vec<u8>, password: String },
    /// Accepts a contact's new identity key after the user was shown that it
    /// changed and said it was really them.
    AcceptIdentity { contact: String },
    /// Ends the session, here and on the server. Conversations stay.
    Logout,
    Connect,
    Send { recipient: String, kind: String, content: String },
    Contact { verb: ContactVerb, username: String },
    DeleteMessage { id: String, for_everyone: bool },
    Contacts,
    DeleteConversation { contact: String, for_everyone: bool },
    SetAvatar { avatar: Option<String> },
    History { contact: String },
    MarkRead { contact: String },
    UpdateMe { alias: Option<String>, status: Option<String> },
}

/// A message to be sent.
pub struct Parcel {
    pub to: String,
    pub kind: String,
    pub content: String,
}

/// A message to be sent, as a plain value.
pub struct ParcelView {
    pub to: Seq<char>,
    pub kind: Seq<char>,
    pub content: Seq<char>,
}

impl View for Parcel {
    type V = ParcelView;

    open spec fn view(&self) -> ParcelView {
        ParcelView { to: self.to@, kind: self.kind@, content: self.content@ }
    }
}

/// Messages to be sent, as plain values.
pub open spec fn parcels_seen(list: Seq<Parcel>) -> Seq<ParcelView> {
    list.map_values(|p: Parcel| p@)
}

/// A call to the relay.
#[allow(inconsistent_fields)]
pub enum Call {
    Register { server: String, username: String, alias: String, email: String, password: String },
    Verify { username: String, code: String },
    PublishKeys,
    Login { server: String, username: String, password: String },
    FetchProfile { name: String },
    ForgotPassword { server: String, username: String },
    ResetPassword { server: String, username: String, code: String, password: String },
    Logout,
    /// Opens the stream, and asserts the chosen presence again.
    Open { server: String, token: String, status: Option<String> },
    Contact { verb: ContactVerb, name: String },
    ListContacts,
    MarkRead { ids: Vec<String> },
    UpdateMe { alias: Option<String>, status: Option<String> },
}

/// What waits for a call.
#[allow(inconsistent_fields)]
pub enum Job {
    Registering { server: String, username: String, alias: String },
    Verifying,
    PublishingVerified { token: String },
    LoggingIn { server: String, username: String, same_account: bool },
    PublishingLogin { server: String, username: String, token: String },
    NamingLogin { server: String, username: String, token: String },
    AskingForCode,
    Resetting,
    LoggingOut,
    Opening,
    Linking { verb: ContactVerb },
    /// The contact list, after a contact changed.
    Syncing { state: String },
    /// The contact list, for the interface.
    Listing,
    /// The contact list, because it changed.
    Refreshing,
    Reading,
    Updating { alias: Option<String>, status: Option<String> },
}

/// What came of a call.
pub enum Outcome {
    Failed { code: String },
    Done,
    /// A text that came back: a token, a code, a name or a state.
    Text { text: Option<String> },
    Entries { list: Vec<ContactEntry> },
}

/// What the interface is answered.
#[allow(inconsistent_fields)]
pub enum Reply {
    Nothing,
    Profile { info: Option<ProfileInfo> },
    Code { code: Option<String> },
    File { bytes: Vec<u8> },
    Count { n: usize },
    Messages { list: Vec<StoredMessage> },
    Contacts { list: Vec<ContactEntry> },
    State { state: String },
    Failed { code: String },
}

/// How a command goes on.
#[allow(inconsistent_fields)]
pub enum Turn {
    /// It is answered.
    Answer { reply: Reply },
    /// The relay is called, and the job goes on with what comes of it.
    Call { job: Job, call: Call },
    /// Messages are sent, whatever comes of each, and then it is answered.
    Send { parcels: Vec<Parcel>, reply: Reply },
    /// One message is sent, and what comes of it is the answer.
    SendOne { parcel: Parcel },
    /// Messages are sent, whatever comes of each, and then a conversation is
    /// deleted here.
    Withdraw { parcels: Vec<Parcel>, contact: String },
}

/// Whether a command was refused with a code.
pub open spec fn refused(turn: Turn, code: Seq<char>) -> bool {
    turn is Answer && turn->Answer_reply is Failed && turn->Answer_reply->Failed_code@ == code
}

/// Whether a command is done, with nothing to say.
pub open spec fn done(turn: Turn) -> bool {
    turn is Answer && turn->Answer_reply is Nothing
}

/// Our picture, for everyone on a list.
pub open spec fn picture_parcels(names: Seq<Seq<char>>, avatar: Seq<char>) -> Seq<ParcelView> {
    names.map_values(|name: Seq<char>| ParcelView { to: name, kind: "avatar"@, content: avatar })
}

/// Our picture, for those who have just become accepted: nothing where we have
/// none.
pub open spec fn shared_picture(db: DbView, entries: Seq<ContactEntryView>) -> Seq<ParcelView> {
    match value_of(db.meta, "avatar"@) {
        Some(avatar) => picture_parcels(fresh_names(db, entries), avatar),
        None => Seq::empty(),
    }
}

/// A plain message.
pub open spec fn parcel(to: Seq<char>, kind: Seq<char>, content: Seq<char>) -> ParcelView {
    ParcelView { to, kind, content }
}

/// Whether a list names each of our own messages of a conversation, once.
pub open spec fn names_our_messages(
    ids: Seq<String>,
    messages: Map<Seq<char>, MessageView>,
    contact: Seq<char>,
) -> bool {
    is_id_list(ids, messages, |m: MessageView| m.contact == contact && m.mine)
}

/// Whether a command that needs no more than a look is answered right.
pub open spec fn look_answered(
    a: ActorView,
    command: Command,
    now: i64,
    after: ActorView,
    turn: Turn,
) -> bool {
    match command {
        Command::LoadProfile => {
            &&& after == a
            &&& turn is Answer
            &&& turn->Answer_reply is Profile
            &&& match turn->Answer_reply->info {
                Some(info) => profile_info(a.db.meta) == Some(info@),
                None => profile_info(a.db.meta) is None,
            }
        },
        Command::ExportConversations { password } => {
            &&& after == a
            &&& turn is Answer
            &&& exists|e: ExportView| #[trigger]
                is_everything(e, a.db, now) && match export_refusal(
                    encode_utf8(export_json(e)),
                    password@,
                ) {
                    Some(fault) => refused(turn, fault.spec_message()),
                    None => turn->Answer_reply is File && imported(
                        turn->Answer_reply->bytes@,
                        password@,
                    ) == Ok::<ExportView, TransferError>(e),
                }
        },
        Command::ImportConversations { bytes, password } => match imported(bytes@, password@) {
            Err(fault) => after == a && refused(turn, fault.spec_message()),
            Ok(e) => {
                &&& after == after_import(a, e)
                &&& turn is Answer
                &&& turn->Answer_reply is Count
                &&& turn->Answer_reply->n == missing_ids(
                    a.secret,
                    a.db.messages,
                    e.messages,
                ).len()
            },
        },
        Command::History { contact } => {
            &&& after == a
            &&& turn is Answer
            &&& turn->Answer_reply is Messages
            &&& is_message_list(
                turn->Answer_reply->Messages_list@,
                a.db.messages,
                |m: MessageView| m.contact == contact@,
            )
        },
        _ => false,
    }
}

/// Whether a command of an account goes on right.
pub open spec fn account_begun(
    a: ActorView,
    command: Command,
    after: ActorView,
    turn: Turn,
) -> bool {
    match command {
        Command::Register { server, username, alias, email, password } => {
            let host = without_trailing(server@, '/');
            let name = lowercased(username@);
            &&& after == (ActorView { db: clean_slate(a.db), session: false, ..a })
            &&& turn is Call
            &&& turn->job matches Job::Registering { server: s, username: u, alias: n }
            &&& s@ == host && u@ == name && n@ == alias@
            &&& turn->call matches Call::Register {
                server: s,
                username: u,
                alias: n,
                email: m,
                password: p,
            }
            &&& s@ == host && u@ == name && n@ == alias@ && m@ == email@ && p@ == password@
        },
        Command::Verify { code } => after == a && match a.pending {
            None => refused(turn, ClientFault::NoPending.spec_message()),
            Some(p) => {
                &&& turn is Call
                &&& turn->job is Verifying
                &&& turn->call matches Call::Verify { username: u, code: c }
                &&& u@ == p.username && c@ == code@
            },
        },
        Command::Login { server, username, password } => {
            let host = without_trailing(server@, '/');
            let name = lowercased(username@);
            let same = account_in(a.db.meta) == Some((name, host));
            &&& after == (if same {
                a
            } else {
                ActorView { db: clean_slate(a.db), session: false, ..a }
            })
            &&& turn is Call
            &&& turn->job matches Job::LoggingIn { server: s, username: u, same_account }
            &&& s@ == host && u@ == name && same_account == same
            &&& turn->call matches Call::Login { server: s, username: u, password: p }
            &&& s@ == host && u@ == name && p@ == password@
        },
        Command::ForgotPassword { server, username } => {
            &&& after == a
            &&& turn is Call
            &&& turn->job is AskingForCode
            &&& turn->call matches Call::ForgotPassword { server: s, username: u }
            &&& s@ == without_trailing(server@, '/') && u@ == lowercased(username@)
        },
        Command::ResetPassword { server, username, code, password } => {
            &&& after == a
            &&& turn is Call
            &&& turn->job is Resetting
            &&& turn->call matches Call::ResetPassword {
                server: s,
                username: u,
                code: c,
                password: p,
            }
            &&& s@ == without_trailing(server@, '/') && u@ == lowercased(username@) && c@ == code@
                && p@ == password@
        },
        Command::Logout => if a.session {
            after == a && turn is Call && turn->job is LoggingOut && turn->call is Logout
        } else {
            after == signed_out(a) && done(turn)
        },
        Command::Connect => match profile_in(a.db.meta) {
            None => after == a && refused(turn, ClientFault::NoAccount.spec_message()),
            Some(p) => {
                &&& after == (ActorView { session: true, ..a })
                &&& turn is Call
                &&& turn->job is Opening
                &&& turn->call matches Call::Open { server: s, token: t, status: p2 }
                &&& s@ == p.server && t@ == p.token && text_in(p2) == value_of(
                    a.db.meta,
                    "status"@,
                )
            },
        },
        Command::UpdateMe { alias, status } => {
            &&& after == a
            &&& if a.session {
                &&& turn is Call
                &&& turn->job matches Job::Updating { alias: n, status: s }
                &&& text_in(n) == text_in(alias) && text_in(s) == text_in(status)
                &&& turn->call matches Call::UpdateMe { alias: n, status: s }
                &&& text_in(n) == text_in(alias) && text_in(s) == text_in(status)
            } else {
                refused(turn, ClientFault::NoSession.spec_message())
            }
        },
        _ => false,
    }
}

/// Whether a command about a contact or a message goes on right.
pub open spec fn contact_begun(
    a: ActorView,
    command: Command,
    now: i64,
    after: ActorView,
    turn: Turn,
) -> bool {
    match command {
        Command::AcceptIdentity { contact } => {
            let name = lowercased(contact@);
            &&& after == identity_accepted(a, name)
            &&& turn is Send
            &&& parcels_seen(turn->Send_parcels@) == seq![parcel(name, "rekey"@, ""@)]
            &&& turn->Send_reply is Nothing
        },
        Command::Send { recipient, kind, content } => {
            &&& after == a
            &&& turn is SendOne
            &&& turn->parcel@ == parcel(lowercased(recipient@), kind@, content@)
        },
        Command::Contact { verb, username } => {
            &&& after == a
            &&& if a.session {
                &&& turn is Call
                &&& turn->job matches Job::Linking { verb: v }
                &&& v == verb
                &&& turn->call matches Call::Contact { verb: w, name: n }
                &&& w == verb && n@ == lowercased(username@)
            } else {
                refused(turn, ClientFault::NoSession.spec_message())
            }
        },
        Command::DeleteMessage { id, for_everyone } => match delete_refusal(
            a.db,
            id@,
            for_everyone,
        ) {
            Some(fault) => after == a && refused(turn, fault.spec_message()),
            None => {
                &&& after == (ActorView {
                    db: with_messages(a.db, a.db.messages.remove(id@)),
                    ..a
                })
                &&& if for_everyone {
                    turn is SendOne && turn->parcel@ == parcel(
                        a.db.messages[id@].contact,
                        "delete"@,
                        id@,
                    )
                } else {
                    done(turn)
                }
            },
        },
        Command::Contacts => {
            &&& after == a
            &&& if a.session {
                turn is Call && turn->job is Listing && turn->call is ListContacts
            } else {
                turn is Answer && turn->Answer_reply is Contacts && is_cached_list(
                    turn->Answer_reply->Contacts_list@,
                    a.db,
                )
            }
        },
        Command::DeleteConversation { contact, for_everyone } => {
            let name = lowercased(contact@);
            &&& after == a
            &&& turn is Withdraw
            &&& turn->contact@ == name
            &&& forall|i: int|
                0 <= i < turn->Withdraw_parcels@.len() ==> (
                #[trigger] turn->Withdraw_parcels@[i])@.to == name
                    && turn->Withdraw_parcels@[i]@.kind == "delete"@
            &&& if for_everyone {
                exists|ids: Seq<String>| #[trigger]
                    names_our_messages(ids, a.db.messages, name) && ids.len() == turn->Withdraw_parcels@.len() && forall|i: int|
                        0 <= i < ids.len() ==> (#[trigger] turn->Withdraw_parcels@[i])@.content
                            == ids[i]@
            } else {
                turn->Withdraw_parcels@.len() == 0
            }
        },
        Command::SetAvatar { avatar } => if avatar is Some && !can_seal(
            a.secret,
            encode_utf8(avatar->0@).len(),
        ) {
            after == a && refused(turn, StorageError::TooLong.spec_message())
        } else {
            let picture = match avatar {
                Some(data) => data@,
                None => Seq::empty(),
            };
            &&& after == (ActorView {
                db: with_meta(
                    a.db,
                    match avatar {
                        Some(data) => a.db.meta.insert("avatar"@, data@),
                        None => a.db.meta.remove("avatar"@),
                    },
                ),
                ..a
            })
            &&& turn is Send
            &&& turn->Send_reply is Nothing
            &&& exists|names: Seq<String>| #[trigger]
                names_the_accepted(names, a.db.contacts) && parcels_seen(turn->Send_parcels@)
                    == picture_parcels(texts(names), picture)
        },
        Command::MarkRead { contact } => if a.session {
            &&& after == (ActorView {
                db: with_messages(a.db, all_read(a.db.messages, contact@, now)),
                ..a
            })
            &&& turn is Call
            &&& turn->job is Reading
            &&& turn->call matches Call::MarkRead { ids }
            &&& is_id_list(ids@, a.db.messages, |m: MessageView| unread(m, contact@))
        } else {
            after == a && refused(turn, ClientFault::NoSession.spec_message())
        },
        _ => false,
    }
}

/// Whether a command goes on right.
pub open spec fn begun(
    a: ActorView,
    command: Command,
    now: i64,
    after: ActorView,
    turn: Turn,
) -> bool {
    look_answered(a, command, now, after, turn) || account_begun(a, command, after, turn)
        || contact_begun(a, command, now, after, turn)
}

/// A refusal.
fn refuse(code: &str) -> (turn: Turn)
    ensures
        refused(turn, code@),
{
    Turn::Answer { reply: Reply::Failed { code: code.to_string() } }
}

/// Nothing to say.
fn finished_quietly() -> (turn: Turn)
    ensures
        done(turn),
{
    Turn::Answer { reply: Reply::Nothing }
}

/// One message.
fn one_parcel(to: &str, kind: &str, content: &str) -> (list: Vec<Parcel>)
    ensures
        parcels_seen(list@) == seq![parcel(to@, kind@, content@)],
{
    let mut list: Vec<Parcel> = Vec::new();
    list.push(
        Parcel { to: to.to_string(), kind: kind.to_string(), content: content.to_string() },
    );
    assert(parcels_seen(list@) =~= seq![parcel(to@, kind@, content@)]);
    list
}

/// Our picture, for everyone on a list.
fn pictures_for(names: &Vec<String>, avatar: &str) -> (list: Vec<Parcel>)
    ensures
        parcels_seen(list@) == picture_parcels(texts(names@), avatar@),
{
    let mut list: Vec<Parcel> = Vec::new();
    let mut i: usize = 0;
    while i < names.len()
        invariant
            i <= names@.len(),
            list@.len() == i,
            forall|j: int|
                0 <= j < i ==> (#[trigger] list@[j])@ == parcel(names@[j]@, "avatar"@, avatar@),
        decreases names@.len() - i,
    {
        list.push(
            Parcel {
                to: names[i].clone(),
                kind: "avatar".to_string(),
                content: avatar.to_string(),
            },
        );
        i = i + 1;
    }
    assert(parcels_seen(list@) =~= picture_parcels(texts(names@), avatar@));
    list
}

impl Actor {
    /// Takes up a command that needs no more than a look.
    fn begin_look(&mut self, command: Command, now: i64) -> (turn: Turn)
        requires
            old(self).wf(),
            command is LoadProfile || command is ExportConversations
                || command is ImportConversations || command is History,
        ensures
            final(self).wf(),
            look_answered(old(self)@, command, now, final(self)@, turn),
    {
        match command {
            Command::LoadProfile => Turn::Answer {
                reply: Reply::Profile { info: self.load_profile() },
            },
            Command::ExportConversations { password } => {
                let file = self.export_conversations(&password, now);
                let ghost e = choose|e: ExportView| #[trigger]
                    is_everything(e, self@.db, now) && match export_refusal(
                        encode_utf8(export_json(e)),
                        password@,
                    ) {
                        Some(fault) => file == Err::<Vec<u8>, TransferError>(fault),
                        None => file is Ok && imported(file->Ok_0@, password@) == Ok::<
                            ExportView,
                            TransferError,
                        >(e),
                    };
                assert(is_everything(e, self@.db, now));
                match file {
                    Ok(bytes) => Turn::Answer { reply: Reply::File { bytes } },
                    Err(e) => refuse(e.message()),
                }
            },
            Command::ImportConversations { bytes, password } => {
                match self.import_conversations(bytes.as_slice(), &password) {
                    Ok(n) => Turn::Answer { reply: Reply::Count { n } },
                    Err(e) => refuse(e.message()),
                }
            },
            Command::History { contact } => Turn::Answer {
                reply: Reply::Messages { list: self.db.history(&contact) },
            },
            _ => {
                assert(false);
                finished_quietly()
            },
        }
    }

    /// Takes up a command of the account.
    fn begin_account(&mut self, command: Command) -> (turn: Turn)
        requires
            old(self).wf(),
            command is Register || command is Verify || command is Login
                || command is ForgotPassword || command is ResetPassword || command is Logout
                || command is Connect || command is UpdateMe,
        ensures
            final(self).wf(),
            account_begun(old(self)@, command, final(self)@, turn),
    {
        match command {
            Command::Register { server, username, alias, email, password } => {
                self.begin_register();
                let host = trim_trailing(&server, '/');
                let name = lowercase(&username);
                Turn::Call {
                    job: Job::Registering {
                        server: host.clone(),
                        username: name.clone(),
                        alias: alias.clone(),
                    },
                    call: Call::Register { server: host, username: name, alias, email, password },
                }
            },
            Command::Verify { code } => match &self.pending {
                None => refuse(ClientFault::NoPending.message()),
                Some(pending) => Turn::Call {
                    job: Job::Verifying,
                    call: Call::Verify { username: pending.username.clone(), code },
                },
            },
            Command::Login { server, username, password } => {
                let host = trim_trailing(&server, '/');
                let name = lowercase(&username);
                let same_account = self.begin_login(&server, &name);
                Turn::Call {
                    job: Job::LoggingIn {
                        server: host.clone(),
                        username: name.clone(),
                        same_account,
                    },
                    call: Call::Login { server: host, username: name, password },
                }
            },
            Command::ForgotPassword { server, username } => Turn::Call {
                job: Job::AskingForCode,
                call: Call::ForgotPassword {
                    server: trim_trailing(&server, '/'),
                    username: lowercase(&username),
                },
            },
            Command::ResetPassword { server, username, code, password } => Turn::Call {
                job: Job::Resetting,
                call: Call::ResetPassword {
                    server: trim_trailing(&server, '/'),
                    username: lowercase(&username),
                    code,
                    password,
                },
            },
            Command::Logout => {
                if self.session {
                    Turn::Call { job: Job::LoggingOut, call: Call::Logout }
                } else {
                    self.logout();
                    finished_quietly()
                }
            },
            Command::Connect => match self.begin_connect() {
                Err(fault) => refuse(fault.message()),
                Ok(account) => {
                    let (profile, status) = account;
                    Turn::Call {
                        job: Job::Opening,
                        call: Call::Open {
                            server: profile.server,
                            token: profile.token,
                            status,
                        },
                    }
                },
            },
            Command::UpdateMe { alias, status } => {
                if self.session {
                    Turn::Call {
                        job: Job::Updating {
                            alias: copy_text(&alias),
                            status: copy_text(&status),
                        },
                        call: Call::UpdateMe { alias, status },
                    }
                } else {
                    refuse(ClientFault::NoSession.message())
                }
            },
            _ => {
                assert(false);
                finished_quietly()
            },
        }
    }

    /// The instructions that withdraw our messages of a conversation.
    fn withdrawal_parcels(&self, contact: &str) -> (list: Vec<Parcel>)
        requires
            self.wf(),
        ensures
            forall|i: int|
                0 <= i < list@.len() ==> (#[trigger] list@[i])@.to == contact@ && list@[i]@.kind
                    == "delete"@,
            exists|ids: Seq<String>| #[trigger]
                names_our_messages(ids, self@.db.messages, contact@) && ids.len() == list@.len() && forall|i: int|
                    0 <= i < ids.len() ==> (#[trigger] list@[i])@.content == ids[i]@,
    {
        let ids = self.withdrawals(contact);
        let mut list: Vec<Parcel> = Vec::new();
        let mut i: usize = 0;
        while i < ids.len()
            invariant
                i <= ids@.len(),
                list@.len() == i,
                forall|j: int|
                    0 <= j < i ==> (#[trigger] list@[j])@ == parcel(
                        contact@,
                        "delete"@,
                        ids@[j]@,
                    ),
            decreases ids@.len() - i,
        {
            list.push(
                Parcel {
                    to: contact.to_string(),
                    kind: "delete".to_string(),
                    content: ids[i].clone(),
                },
            );
            i = i + 1;
        }
        assert(names_our_messages(ids@, self@.db.messages, contact@));
        list
    }

    /// Takes up a command about a contact or a message.
    fn begin_contact(&mut self, command: Command, now: i64) -> (turn: Turn)
        requires
            old(self).wf(),
            command is AcceptIdentity || command is Send || command is Contact
                || command is DeleteMessage || command is Contacts || command is DeleteConversation
                || command is SetAvatar || command is MarkRead,
        ensures
            final(self).wf(),
            contact_begun(old(self)@, command, now, final(self)@, turn),
    {
        match command {
            Command::AcceptIdentity { contact } => {
                let name = lowercase(&contact);
                self.accept_identity(&name);
                // Nudge the conversation back to life under the new key.
                Turn::Send { parcels: one_parcel(&name, "rekey", ""), reply: Reply::Nothing }
            },
            Command::Send { recipient, kind, content } => Turn::SendOne {
                parcel: Parcel { to: lowercase(&recipient), kind, content },
            },
            Command::Contact { verb, username } => {
                if self.session {
                    Turn::Call {
                        job: Job::Linking { verb },
                        call: Call::Contact { verb, name: lowercase(&username) },
                    }
                } else {
                    refuse(ClientFault::NoSession.message())
                }
            },
            Command::DeleteMessage { id, for_everyone } => match self.delete_message(
                &id,
                for_everyone,
            ) {
                Err(fault) => refuse(fault.message()),
                Ok(Some(contact)) => Turn::SendOne {
                    parcel: Parcel { to: contact, kind: "delete".to_string(), content: id },
                },
                Ok(None) => finished_quietly(),
            },
            Command::Contacts => {
                if self.session {
                    Turn::Call { job: Job::Listing, call: Call::ListContacts }
                } else {
                    Turn::Answer { reply: Reply::Contacts { list: self.cached_contacts() } }
                }
            },
            Command::DeleteConversation { contact, for_everyone } => {
                let name = lowercase(&contact);
                let parcels = if for_everyone {
                    self.withdrawal_parcels(&name)
                } else {
                    Vec::new()
                };
                Turn::Withdraw { parcels, contact: name }
            },
            Command::SetAvatar { avatar } => {
                let picture = match &avatar {
                    Some(data) => Some(data.as_str()),
                    None => None,
                };
                match self.set_avatar(picture) {
                    Err(fault) => refuse(fault.message()),
                    Ok(names) => {
                        let empty = "";
                        proof {
                            reveal_strlit("");
                            assert(""@ =~= Seq::<char>::empty());
                            assert(names_the_accepted(names@, old(self)@.db.contacts));
                        }
                        let content = match picture {
                            Some(data) => data,
                            None => empty,
                        };
                        Turn::Send {
                            parcels: pictures_for(&names, content),
                            reply: Reply::Nothing,
                        }
                    },
                }
            },
            Command::MarkRead { contact } => match self.mark_read(&contact, now) {
                Err(fault) => refuse(fault.message()),
                Ok(ids) => Turn::Call { job: Job::Reading, call: Call::MarkRead { ids } },
            },
            _ => {
                assert(false);
                finished_quietly()
            },
        }
    }

    /// Takes up a command. Names of accounts are matched in lowercase, but for the
    /// conversations of this device, which are asked for by the names they have.
    pub fn begin(&mut self, command: Command, now: i64) -> (turn: Turn)
        requires
            old(self).wf(),
        ensures
            final(self).wf(),
            begun(old(self)@, command, now, final(self)@, turn),
    {
        let look = match &command {
            Command::LoadProfile => true,
            Command::ExportConversations { .. } => true,
            Command::ImportConversations { .. } => true,
            Command::History { .. } => true,
            _ => false,
        };
        let contact = match &command {
            Command::AcceptIdentity { .. } => true,
            Command::Send { .. } => true,
            Command::Contact { .. } => true,
            Command::DeleteMessage { .. } => true,
            Command::Contacts => true,
            Command::DeleteConversation { .. } => true,
            Command::SetAvatar { .. } => true,
            Command::MarkRead { .. } => true,
            _ => false,
        };
        if look {
            self.begin_look(command, now)
        } else if contact {
            self.begin_contact(command, now)
        } else {
            self.begin_account(command)
        }
    }
}

/// A text that came back, the empty one where none did.
pub open spec fn text_or_empty(text: Option<String>) -> Seq<char> {
    match text {
        Some(text) => text@,
        None => Seq::empty(),
    }
}

/// Whether a job that logs in or signs up goes on right.
pub open spec fn account_went_on(
    a: ActorView,
    job: Job,
    outcome: Outcome,
    after: ActorView,
    turn: Turn,
) -> bool {
    match (job, outcome) {
        (Job::Registering { server, username, alias }, Outcome::Text { text }) => {
            &&& after == (ActorView {
                pending: Some(
                    PendingView {
                        username: username@,
                        alias: alias@,
                        server: without_trailing(server@, '/'),
                    },
                ),
                ..a
            })
            &&& turn is Answer
            &&& turn->Answer_reply is Code
            &&& text_in(turn->Answer_reply->Code_code) == text_in(text)
        },
        (Job::Verifying, Outcome::Text { text }) => {
            &&& after == a
            &&& turn is Call
            &&& turn->call is PublishKeys
            &&& turn->job matches Job::PublishingVerified { token }
            &&& token@ == text_or_empty(text)
        },
        (Job::PublishingVerified { token }, Outcome::Done) => match a.pending {
            None => after == a && refused(turn, ClientFault::NoPending.spec_message()),
            Some(p) => {
                let profile = ProfileView {
                    username: p.username,
                    alias: p.alias,
                    server: p.server,
                    token: token@,
                };
                let saved = ActorView { pending: None, ..profile_saved(a, profile) };
                if profile_fits(a, profile) {
                    after == (ActorView { session: true, ..saved }) && done(turn)
                } else {
                    after == saved && refused(turn, StorageError::TooLong.spec_message())
                }
            },
        },
        (Job::LoggingIn { server, username, same_account }, Outcome::Text { text }) => {
            &&& after == a
            &&& turn is Call
            &&& if same_account {
                &&& turn->call matches Call::FetchProfile { name: n }
                &&& n@ == username@
                &&& turn->job matches Job::NamingLogin { server: s, username: u, token: t }
                &&& s@ == server@ && u@ == username@ && t@ == text_or_empty(text)
            } else {
                &&& turn->call is PublishKeys
                &&& turn->job matches Job::PublishingLogin { server: s, username: u, token: t }
                &&& s@ == server@ && u@ == username@ && t@ == text_or_empty(text)
            }
        },
        (Job::PublishingLogin { server, username, token }, Outcome::Done) => {
            &&& after == a
            &&& turn is Call
            &&& turn->call matches Call::FetchProfile { name: n }
            &&& n@ == username@
            &&& turn->job matches Job::NamingLogin { server: s, username: u, token: t }
            &&& s@ == server@ && u@ == username@ && t@ == token@
        },
        (Job::NamingLogin { server, username, token }, Outcome::Text { text }) => {
            let profile = ProfileView {
                username: username@,
                alias: text_or_empty(text),
                server: without_trailing(server@, '/'),
                token: token@,
            };
            let saved = profile_saved(a, profile);
            if profile_fits(a, profile) {
                &&& after == (ActorView { session: true, ..saved })
                &&& turn is Answer
                &&& turn->Answer_reply is Profile
                &&& turn->Answer_reply->info is Some
                &&& profile_info(after.db.meta) == Some(turn->Answer_reply->info->0@)
            } else {
                after == saved && refused(turn, StorageError::TooLong.spec_message())
            }
        },
        (Job::AskingForCode, Outcome::Text { text }) => {
            &&& after == a
            &&& turn is Answer
            &&& turn->Answer_reply is Code
            &&& text_in(turn->Answer_reply->Code_code) == text_in(text)
        },
        (Job::Resetting, Outcome::Done) => after == a && done(turn),
        (Job::Opening, Outcome::Done) => after == (ActorView { connected: true, ..a }) && done(
            turn,
        ),
        (Job::Updating { alias, status }, Outcome::Done) => after == status_changed(
            alias_changed(a, text_in(alias)),
            text_in(status),
        ) && done(turn),
        _ => false,
    }
}

/// Whether an outcome is of the form that a job waits for.
pub open spec fn expects(job: Job, outcome: Outcome) -> bool {
    match job {
        Job::Registering { .. } => outcome is Text,
        Job::Verifying => outcome is Text,
        Job::PublishingVerified { .. } => outcome is Done,
        Job::LoggingIn { .. } => outcome is Text,
        Job::PublishingLogin { .. } => outcome is Done,
        Job::NamingLogin { .. } => outcome is Text,
        Job::AskingForCode => outcome is Text,
        Job::Resetting => outcome is Done,
        Job::Opening => outcome is Done,
        Job::Updating { .. } => outcome is Done,
        _ => true,
    }
}

/// The state of a link that came back.
pub open spec fn state_in(outcome: Outcome) -> Seq<char> {
    match outcome {
        Outcome::Text { text } => text_or_empty(text),
        _ => Seq::empty(),
    }
}

/// Whether a job that waits for the contact list goes on right. A list that cannot
/// be had is no reason to fail: the cache keeps the app usable.
pub open spec fn list_went_on(
    a: ActorView,
    job: Job,
    outcome: Outcome,
    after: ActorView,
    turn: Turn,
) -> bool {
    match (job, outcome) {
        (Job::Syncing { state }, Outcome::Entries { list }) => {
            &&& cache_synced(a, after, entries_seen(list@))
            &&& turn is Send
            &&& parcels_seen(turn->Send_parcels@) == shared_picture(a.db, entries_seen(list@))
            &&& turn->Send_reply matches Reply::State { state: s }
            &&& s@ == state@
        },
        (Job::Syncing { state }, _) => {
            &&& after == a
            &&& turn is Answer
            &&& turn->Answer_reply matches Reply::State { state: s }
            &&& s@ == state@
        },
        (Job::Listing, Outcome::Entries { list }) => {
            &&& cache_synced(a, after, entries_seen(list@))
            &&& turn is Send
            &&& parcels_seen(turn->Send_parcels@) == shared_picture(a.db, entries_seen(list@))
            &&& turn->Send_reply matches Reply::Contacts { list: l }
            &&& entries_seen(l@) == with_pictures(a.db, entries_seen(list@))
        },
        (Job::Listing, _) => {
            &&& after == a
            &&& turn is Answer
            &&& turn->Answer_reply matches Reply::Contacts { list: l }
            &&& is_cached_list(l@, a.db)
        },
        (Job::Refreshing, Outcome::Entries { list }) => {
            &&& cache_synced(a, after, entries_seen(list@))
            &&& turn is Send
            &&& parcels_seen(turn->Send_parcels@) == shared_picture(a.db, entries_seen(list@))
            &&& turn->Send_reply is Nothing
        },
        (Job::Refreshing, _) => after == a && done(turn),
        _ => false,
    }
}

/// Whether a job goes on right, given what came of its call.
pub open spec fn went_on(
    a: ActorView,
    job: Job,
    outcome: Outcome,
    after: ActorView,
    turn: Turn,
) -> bool {
    match job {
        // Being unable to reach the server is not a reason to leave the user
        // signed in on their own machine.
        Job::LoggingOut => after == signed_out(a) && done(turn),
        // A failed receipt is not worth failing the read for.
        Job::Reading => after == a && done(turn),
        Job::Linking { .. } => after == a && match outcome {
            Outcome::Failed { code } => refused(turn, code@),
            _ => {
                &&& turn is Call
                &&& turn->call is ListContacts
                &&& turn->job matches Job::Syncing { state }
                &&& state@ == state_in(outcome)
            },
        },
        Job::Syncing { .. } => list_went_on(a, job, outcome, after, turn),
        Job::Listing => list_went_on(a, job, outcome, after, turn),
        Job::Refreshing => list_went_on(a, job, outcome, after, turn),
        _ => match outcome {
            Outcome::Failed { code } => after == a && refused(turn, code@),
            _ => if expects(job, outcome) {
                account_went_on(a, job, outcome, after, turn)
            } else {
                after == a && refused(turn, "request_failed"@)
            },
        },
    }
}

/// A text that came back, the empty one where none did.
fn or_empty(text: Option<String>) -> (found: String)
    ensures
        found@ == text_or_empty(text),
{
    match text {
        Some(text) => text,
        None => {
            let none = String::new();
            assert(none@ =~= Seq::<char>::empty());
            none
        },
    }
}

impl Actor {
    /// Our picture, for those who have just become accepted.
    fn share_picture(&self, names: &Vec<String>) -> (list: Vec<Parcel>)
        requires
            self.wf(),
        ensures
            parcels_seen(list@) == match value_of(self@.db.meta, "avatar"@) {
                Some(avatar) => picture_parcels(texts(names@), avatar),
                None => Seq::empty(),
            },
    {
        match self.own_avatar() {
            Some(avatar) => pictures_for(names, &avatar),
            None => {
                let list: Vec<Parcel> = Vec::new();
                assert(parcels_seen(list@) =~= Seq::<ParcelView>::empty());
                list
            },
        }
    }

    /// Goes on with a job that waits for the contact list.
    fn finish_list(&mut self, job: Job, outcome: Outcome) -> (turn: Turn)
        requires
            old(self).wf(),
            job is Syncing || job is Listing || job is Refreshing,
        ensures
            final(self).wf(),
            list_went_on(old(self)@, job, outcome, final(self)@, turn),
    {
        match outcome {
            Outcome::Entries { list } => {
                let ghost before = self@;
                let ghost entries = entries_seen(list@);
                let (shown, fresh) = self.sync_contacts(list);
                let parcels = self.share_picture(&fresh);
                assert(parcels_seen(parcels@) == shared_picture(before.db, entries));
                match job {
                    Job::Syncing { state } => Turn::Send {
                        parcels,
                        reply: Reply::State { state },
                    },
                    Job::Listing => Turn::Send { parcels, reply: Reply::Contacts { list: shown } },
                    _ => Turn::Send { parcels, reply: Reply::Nothing },
                }
            },
            _ => match job {
                Job::Syncing { state } => Turn::Answer { reply: Reply::State { state } },
                Job::Listing => Turn::Answer {
                    reply: Reply::Contacts { list: self.cached_contacts() },
                },
                _ => finished_quietly(),
            },
        }
    }

    /// Goes on with a job of the account, once its call worked.
    fn finish_account(&mut self, job: Job, outcome: Outcome) -> (turn: Turn)
        requires
            old(self).wf(),
            expects(job, outcome),
            !(job is LoggingOut || job is Reading || job is Linking || job is Syncing
                || job is Listing || job is Refreshing),
        ensures
            final(self).wf(),
            account_went_on(old(self)@, job, outcome, final(self)@, turn),
    {
        let text = match outcome {
            Outcome::Text { text } => text,
            _ => None,
        };
        match job {
            Job::Registering { server, username, alias } => {
                self.registered(&server, &username, &alias);
                Turn::Answer { reply: Reply::Code { code: text } }
            },
            Job::Verifying => Turn::Call {
                job: Job::PublishingVerified { token: or_empty(text) },
                call: Call::PublishKeys,
            },
            Job::PublishingVerified { token } => match self.verified(&token) {
                Ok(_) => finished_quietly(),
                Err(fault) => refuse(fault.message()),
            },
            Job::LoggingIn { server, username, same_account } => {
                let token = or_empty(text);
                if same_account {
                    let name = username.clone();
                    Turn::Call {
                        job: Job::NamingLogin { server, username, token },
                        call: Call::FetchProfile { name },
                    }
                } else {
                    // Fresh keys for this device; publishing them also updates our
                    // identity on the server.
                    Turn::Call {
                        job: Job::PublishingLogin { server, username, token },
                        call: Call::PublishKeys,
                    }
                }
            },
            Job::PublishingLogin { server, username, token } => {
                let name = username.clone();
                Turn::Call {
                    job: Job::NamingLogin { server, username, token },
                    call: Call::FetchProfile { name },
                }
            },
            Job::NamingLogin { server, username, token } => {
                let alias = or_empty(text);
                match self.logged_in(&server, &username, &alias, &token) {
                    Ok(info) => Turn::Answer { reply: Reply::Profile { info: Some(info) } },
                    Err(fault) => refuse(fault.message()),
                }
            },
            Job::AskingForCode => Turn::Answer { reply: Reply::Code { code: text } },
            Job::Resetting => finished_quietly(),
            Job::Opening => {
                self.set_connected(true);
                finished_quietly()
            },
            Job::Updating { alias, status } => {
                self.profile_changed(text_ref(&alias), text_ref(&status));
                finished_quietly()
            },
            _ => {
                assert(false);
                finished_quietly()
            },
        }
    }

    /// Goes on with a job, given what came of its call.
    pub fn finish(&mut self, job: Job, outcome: Outcome) -> (turn: Turn)
        requires
            old(self).wf(),
        ensures
            final(self).wf(),
            went_on(old(self)@, job, outcome, final(self)@, turn),
    {
        match job {
            Job::LoggingOut => {
                self.logout();
                finished_quietly()
            },
            Job::Reading => finished_quietly(),
            Job::Linking { .. } => match outcome {
                Outcome::Failed { code } => refuse(&code),
                Outcome::Text { text } => Turn::Call {
                    job: Job::Syncing { state: or_empty(text) },
                    call: Call::ListContacts,
                },
                _ => Turn::Call {
                    job: Job::Syncing { state: or_empty(None) },
                    call: Call::ListContacts,
                },
            },
            Job::Syncing { .. } | Job::Listing | Job::Refreshing => self.finish_list(job, outcome),
            _ => {
                let fits = match (&job, &outcome) {
                    (_, Outcome::Failed { code }) => {
                        return refuse(code);
                    },
                    (Job::Registering { .. }, Outcome::Text { .. }) => true,
                    (Job::Verifying, Outcome::Text { .. }) => true,
                    (Job::PublishingVerified { .. }, Outcome::Done) => true,
                    (Job::LoggingIn { .. }, Outcome::Text { .. }) => true,
                    (Job::PublishingLogin { .. }, Outcome::Done) => true,
                    (Job::NamingLogin { .. }, Outcome::Text { .. }) => true,
                    (Job::AskingForCode, Outcome::Text { .. }) => true,
                    (Job::Resetting, Outcome::Done) => true,
                    (Job::Opening, Outcome::Done) => true,
                    (Job::Updating { .. }, Outcome::Done) => true,
                    _ => false,
                };
                if fits {
                    self.finish_account(job, outcome)
                } else {
                    refuse("request_failed")
                }
            },
        }
    }

    /// Deletes a conversation here, once our messages were withdrawn.
    pub fn withdrawn(&mut self, contact: &str) -> (reply: Reply)
        requires
            old(self).wf(),
        ensures
            final(self).wf(),
            final(self)@ == (ActorView {
                db: with_messages(
                    old(self)@.db,
                    without_conversation(old(self)@.db.messages, contact@),
                ),
                ..old(self)@
            }),
            reply is Count && reply->n == conversation(old(self)@.db.messages, contact@).len(),
    {
        Reply::Count { n: self.delete_conversation(contact) }
    }

    /// The contact list changed on the server: it is fetched anew, where there is a
    /// session, and the interface is told.
    pub fn contacts_changed(&self) -> (refresh: (Option<(Job, Call)>, Option<ClientEvent>))
        requires
            self.wf(),
        ensures
            refresh.0 is Some == self@.session,
            refresh.0 matches Some(work) ==> work.0 is Refreshing && work.1 is ListContacts,
            event_seen(refresh.1) == (if self@.connected {
                Some(ClientEventView::ContactsChanged)
            } else {
                None
            }),
    {
        let work = if self.session {
            Some((Job::Refreshing, Call::ListContacts))
        } else {
            None
        };
        let event = if self.connected {
            Some(ClientEvent::ContactsChanged)
        } else {
            None
        };
        (work, event)
    }
}

/// However a command fails on the way to the server, what this device holds stays
/// as it was, but for a logout, which signs out all the same.
pub proof fn a_failed_call_changes_nothing(
    a: ActorView,
    job: Job,
    code: String,
    after: ActorView,
    turn: Turn,
)
    requires
        went_on(a, job, Outcome::Failed { code }, after, turn),
        !(job is LoggingOut),
    ensures
        after == a,
{
}

} // verus!
