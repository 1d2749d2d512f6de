//! The client: what it decides, step by step. Whoever runs it talks to the relay
//! and to the encryption engine in between, and hands back what came of it.
#[allow(unused_imports)]
use vstd::utf8::encode_utf8;
use vstd::prelude::*;

#[allow(unused_imports)]
use crate::db::meta::{
    account_in, clean_slate, lemma_profile_keys, profile_in, value_of, with_meta, ProfileView,
};
#[allow(unused_imports)]
use crate::db::meta::{fields_that_fit, profile_written};
use crate::db::meta::Profile;
#[allow(unused_imports)]
use crate::db::{can_seal, DbView};
use crate::db::LocalDb;
use crate::keystore::StorageError;
use crate::table::Table;
#[allow(unused_imports)]
use crate::text::{has_prefix, text_at, text_in, without_trailing};
use crate::text::{byte_len, same_text, starts_with, trim_trailing};

pub mod commands;
pub mod conversations;
pub mod errand;
pub mod laws;
pub mod roster;
pub mod traffic;

verus! {

/// The kind of a conversation entry that nobody wrote: a note that the contact's
/// key changed, kept alongside the messages it sits between.
pub const KEY_CHANGED: &'static str = "keychange";

/// Largest profile picture we will accept from a contact, as a data URL.
pub const MAX_AVATAR_BYTES: usize = 524_288;

/// How long to wait before rebuilding the session with the same contact again.
pub const REPAIR_INTERVAL_MS: i64 = 60_000;

/// An account has one device, and it is this one.
pub const THE_DEVICE: u32 = 1;

/// A decrypted incoming message, ready for display.
pub struct DecryptedMessage {
    pub id: String,
    pub sender: String,
    /// "text" or "image" (image content is a data URL).
    pub kind: String,
    pub text: String,
    pub created_at: i64,
}

/// What the interface is told about.
pub enum ClientEvent {
    Message(DecryptedMessage),
    /// The other side deleted a message for everyone.
    MessageDeleted { id: String },
    /// A message was sent again after rebuilding a session, so it now travels
    /// under a different identifier.
    MessageResent { old_id: String, new_id: String },
    /// The contact list changed (a request arrived, was accepted, …).
    ContactsChanged,
    /// One of our messages was delivered or read.
    Receipt { id: String, state: String, at: i64 },
    /// A contact is publishing an identity key that is not the one we pinned.
    /// Nothing is sent to them and nothing of theirs is read until the person
    /// using the app decides which it was.
    IdentityChanged {
        id: String,
        contact: String,
        /// Fingerprints of the key we trusted and the one being offered, to be
        /// read out over some other channel and compared.
        known: String,
        published: String,
        at: i64,
    },
}

/// What the interface is told about, as a plain value.
pub enum ClientEventView {
    Message {
        id: Seq<char>,
        sender: Seq<char>,
        kind: Seq<char>,
        text: Seq<char>,
        created_at: i64,
    },
    MessageDeleted { id: Seq<char> },
    MessageResent { old_id: Seq<char>, new_id: Seq<char> },
    ContactsChanged,
    Receipt { id: Seq<char>, state: Seq<char>, at: i64 },
    IdentityChanged {
        id: Seq<char>,
        contact: Seq<char>,
        known: Seq<char>,
        published: Seq<char>,
        at: i64,
    },
}

impl View for ClientEvent {
    type V = ClientEventView;

    open spec fn view(&self) -> ClientEventView {
        match self {
            ClientEvent::Message(m) => ClientEventView::Message {
                id: m.id@,
                sender: m.sender@,
                kind: m.kind@,
                text: m.text@,
                created_at: m.created_at,
            },
            ClientEvent::MessageDeleted { id } => ClientEventView::MessageDeleted { id: id@ },
            ClientEvent::MessageResent { old_id, new_id } => ClientEventView::MessageResent {
                old_id: old_id@,
                new_id: new_id@,
            },
            ClientEvent::ContactsChanged => ClientEventView::ContactsChanged,
            ClientEvent::Receipt { id, state, at } => ClientEventView::Receipt {
                id: id@,
                state: state@,
                at: *at,
            },
            ClientEvent::IdentityChanged { id, contact, known, published, at } =>
                ClientEventView::IdentityChanged {
                id: id@,
                contact: contact@,
                known: known@,
                published: published@,
                at: *at,
            },
        }
    }
}

/// An event that may be there, as a plain value.
pub open spec fn event_seen(event: Option<ClientEvent>) -> Option<ClientEventView> {
    match event {
        Some(event) => Some(event@),
        None => None,
    }
}

/// The locally stored account, as reported to the interface.
pub struct ProfileInfo {
    pub username: String,
    pub alias: String,
    pub server: String,
    /// Presence the user last chose on this device.
    pub status: String,
    /// Our own profile picture as a data URL, kept locally and sent to contacts
    /// encrypted.
    pub avatar: Option<String>,
}

/// The account as reported to the interface, as a plain value.
pub struct ProfileInfoView {
    pub username: Seq<char>,
    pub alias: Seq<char>,
    pub server: Seq<char>,
    pub status: Seq<char>,
    pub avatar: Option<Seq<char>>,
}

impl View for ProfileInfo {
    type V = ProfileInfoView;

    open spec fn view(&self) -> ProfileInfoView {
        ProfileInfoView {
            username: self.username@,
            alias: self.alias@,
            server: self.server@,
            status: self.status@,
            avatar: text_in(self.avatar),
        }
    }
}

/// Why the client cannot do what it was asked.
#[derive(Clone, Copy, Debug, PartialEq, Eq, Structural)]
pub enum ClientFault {
    /// There is no session.
    NoSession,
    /// There is no session to send through.
    LogInFirst,
    /// The contact's key changed, and nobody has said whether it is really them.
    IdentityChanged,
    /// There is no such message.
    MessageNotFound,
    /// The message is not ours to withdraw.
    NotYourMessage,
    /// There is nothing to verify.
    NoPending,
    /// There is no account on this device.
    NoAccount,
    /// What was pasted is not a picture.
    NotAPicture,
    /// The local data cannot be read or written.
    Storage(StorageError),
}

impl ClientFault {
    /// What is said of each fault.
    pub open spec fn spec_message(self) -> Seq<char> {
        match self {
            ClientFault::NoSession => "no_session"@,
            ClientFault::LogInFirst => "no session; log in first"@,
            ClientFault::IdentityChanged => "identity_changed"@,
            ClientFault::MessageNotFound => "message_not_found"@,
            ClientFault::NotYourMessage => "not_your_message"@,
            ClientFault::NoPending => "no pending registration"@,
            ClientFault::NoAccount => "no account on this device"@,
            ClientFault::NotAPicture => "El contenido pegado no es una imagen"@,
            ClientFault::Storage(e) => e.spec_message(),
        }
    }

    /// What is said of the fault.
    pub fn message(&self) -> (text: &'static str)
        ensures
            text@ == self.spec_message(),
    {
        match self {
            ClientFault::NoSession => "no_session",
            ClientFault::LogInFirst => "no session; log in first",
            ClientFault::IdentityChanged => "identity_changed",
            ClientFault::MessageNotFound => "message_not_found",
            ClientFault::NotYourMessage => "not_your_message",
            ClientFault::NoPending => "no pending registration",
            ClientFault::NoAccount => "no account on this device",
            ClientFault::NotAPicture => "El contenido pegado no es una imagen",
            ClientFault::Storage(e) => e.message(),
        }
    }
}

/// Whether a string is a picture we are willing to show: an inline image, and not
/// too large.
pub open spec fn picture(data_url: Seq<char>) -> bool {
    has_prefix(data_url, "data:image/"@) && encode_utf8(data_url).len() <= MAX_AVATAR_BYTES
}

/// Whether a string is a picture we are willing to show.
///
/// A profile picture arrives from the contact, and the interface hands it straight
/// to the webview. Anything but an inline image would be fetched from wherever it
/// points, which turns the picture into a beacon.
pub fn is_picture(data_url: &str) -> (yes: bool)
    ensures
        yes == picture(data_url@),
{
    starts_with(data_url, "data:image/") && byte_len(data_url) <= MAX_AVATAR_BYTES
}

/// Whether a string can be sent as an image.
pub fn check_image(data_url: &str) -> (fault: Option<ClientFault>)
    ensures
        fault == (if has_prefix(data_url@, "data:image/"@) {
            None
        } else {
            Some(ClientFault::NotAPicture)
        }),
{
    if starts_with(data_url, "data:image/") {
        None
    } else {
        Some(ClientFault::NotAPicture)
    }
}

/// Whether a kind of message is an instruction for the other device rather than
/// something a person wrote.
pub open spec fn control(kind: Seq<char>) -> bool {
    kind == "delete"@ || kind == "rekey"@ || kind == "avatar"@
}

/// Whether a kind of message is an instruction for the other device. They travel
/// as ordinary encrypted messages so the server cannot tell them apart, but they
/// belong in no conversation.
pub fn is_control(kind: &str) -> (yes: bool)
    ensures
        yes == control(kind@),
{
    same_text(kind, "delete") || same_text(kind, "rekey") || same_text(kind, "avatar")
}

/// Account created but not yet verified: keys exist locally, no token yet.
pub struct Pending {
    pub username: String,
    pub alias: String,
    pub server: String,
}

/// An account that waits for its code, as a plain value.
pub struct PendingView {
    pub username: Seq<char>,
    pub alias: Seq<char>,
    pub server: Seq<char>,
}

impl View for Pending {
    type V = PendingView;

    open spec fn view(&self) -> PendingView {
        PendingView { username: self.username@, alias: self.alias@, server: self.server@ }
    }
}

/// The client.
pub struct Actor {
    pub db: LocalDb,
    pub pending: Option<Pending>,
    /// Whether there is a session.
    pub session: bool,
    /// Whether the interface listens.
    pub connected: bool,
    /// When we last rebuilt the session with each contact, so a backlog of
    /// unreadable messages does not trigger one repair per message.
    pub repairs: Table<String, i64>,
    /// Contacts whose published identity does not match the one we pinned, and
    /// which key they are offering.
    pub disputed: Table<String, String>,
}

/// The client as a plain value.
pub struct ActorView {
    pub db: DbView,
    pub secret: Option<Seq<u8>>,
    pub pending: Option<PendingView>,
    pub session: bool,
    pub connected: bool,
    pub repairs: Map<Seq<char>, i64>,
    pub disputed: Map<Seq<char>, Seq<char>>,
}

impl View for Actor {
    type V = ActorView;

    open spec fn view(&self) -> ActorView {
        ActorView {
            db: self.db@,
            secret: self.db.secret(),
            pending: match self.pending {
                Some(pending) => Some(pending@),
                None => None,
            },
            session: self.session,
            connected: self.connected,
            repairs: self.repairs@,
            disputed: self.disputed@,
        }
    }
}

/// The account as reported to the interface, where this device holds one.
pub open spec fn profile_info(meta: Map<Seq<char>, Seq<char>>) -> Option<ProfileInfoView> {
    match profile_in(meta) {
        Some(p) => Some(
            ProfileInfoView {
                username: p.username,
                alias: p.alias,
                server: p.server,
                status: match value_of(meta, "status"@) {
                    Some(status) => status,
                    None => "online"@,
                },
                avatar: value_of(meta, "avatar"@),
            },
        ),
        None => None,
    }
}

/// The client once a profile was saved, as far as its fields could be sealed.
pub open spec fn profile_saved(a: ActorView, p: ProfileView) -> ActorView {
    ActorView {
        db: with_meta(
            a.db,
            profile_written(a.db.meta, p, fields_that_fit(a.secret, p)),
        ),
        ..a
    }
}

/// Whether every field of a profile can be sealed.
pub open spec fn profile_fits(a: ActorView, p: ProfileView) -> bool {
    fields_that_fit(a.secret, p) == 4
}

impl Actor {
    /// What always holds of the client.
    pub open spec fn wf(&self) -> bool {
        self.db.wf() && self.repairs.wf() && self.disputed.wf()
    }

    /// A client over a local database.
    pub fn new(db: LocalDb) -> (actor: Actor)
        requires
            db.wf(),
        ensures
            actor.wf(),
            actor@ == (ActorView {
                db: db@,
                secret: db.secret(),
                pending: None,
                session: false,
                connected: false,
                repairs: Map::empty(),
                disputed: Map::empty(),
            }),
    {
        Actor {
            db,
            pending: None,
            session: false,
            connected: false,
            repairs: Table::new(),
            disputed: Table::new(),
        }
    }

    /// The account stored on this device, if any.
    pub fn load_profile(&self) -> (info: Option<ProfileInfo>)
        requires
            self.wf(),
        ensures
            match info {
                Some(info) => profile_info(self@.db.meta) == Some(info@),
                None => profile_info(self@.db.meta) is None,
            },
    {
        let status = match self.db.meta_get("status") {
            Some(status) => status,
            None => "online".to_string(),
        };
        let avatar = self.db.meta_get("avatar");
        match self.db.profile() {
            Some(p) => Some(
                ProfileInfo {
                    username: p.username,
                    alias: p.alias,
                    server: p.server,
                    status,
                    avatar,
                },
            ),
            None => None,
        }
    }

    /// A new account means a clean slate on this device.
    pub fn begin_register(&mut self)
        requires
            old(self).wf(),
        ensures
            final(self).wf(),
            final(self)@ == (ActorView {
                db: clean_slate(old(self)@.db),
                session: false,
                ..old(self)@
            }),
    {
        self.db.clear_all();
        self.session = false;
    }

    /// The server took the registration: it waits for its code.
    pub fn registered(&mut self, server: &str, username: &str, alias: &str)
        requires
            old(self).wf(),
        ensures
            final(self).wf(),
            final(self)@ == (ActorView {
                pending: Some(
                    PendingView {
                        username: username@,
                        alias: alias@,
                        server: without_trailing(server@, '/'),
                    },
                ),
                ..old(self)@
            }),
    {
        self.pending = Some(
            Pending {
                username: username.to_string(),
                alias: alias.to_string(),
                server: trim_trailing(server, '/'),
            },
        );
    }

    /// The server took the code: the account is saved, and there is a session.
    pub fn verified(&mut self, token: &str) -> (done: Result<(), ClientFault>)
        requires
            old(self).wf(),
        ensures
            final(self).wf(),
            match old(self)@.pending {
                None => done == Err::<(), ClientFault>(ClientFault::NoPending) && final(self)@
                    == old(self)@,
                Some(p) => {
                    let profile = ProfileView {
                        username: p.username,
                        alias: p.alias,
                        server: p.server,
                        token: token@,
                    };
                    let saved = profile_saved(old(self)@, profile);
                    if profile_fits(old(self)@, profile) {
                        done is Ok && final(self)@ == (ActorView {
                            pending: None,
                            session: true,
                            ..saved
                        })
                    } else {
                        done == Err::<(), ClientFault>(ClientFault::Storage(StorageError::TooLong))
                            && final(self)@ == (ActorView { pending: None, ..saved })
                    }
                },
            },
    {
        let pending = match self.pending.take() {
            Some(pending) => pending,
            None => {
                return Err(ClientFault::NoPending);
            },
        };
        let profile = Profile {
            username: pending.username,
            alias: pending.alias,
            server: pending.server,
            token: token.to_string(),
        };
        match self.db.save_profile(&profile) {
            Ok(_) => {
                self.session = true;
                Ok(())
            },
            Err(e) => Err(ClientFault::Storage(e)),
        }
    }

    /// Whether this device already belongs to the account, which is not the same
    /// as it holding a session: signing out drops the token but keeps the
    /// conversations, and signing back in must find them. Any other account finds
    /// a clean slate.
    pub fn begin_login(&mut self, server: &str, username: &str) -> (same_account: bool)
        requires
            old(self).wf(),
        ensures
            final(self).wf(),
            same_account == (account_in(old(self)@.db.meta) == Some(
                (username@, without_trailing(server@, '/')),
            )),
            same_account ==> final(self)@ == old(self)@,
            !same_account ==> final(self)@ == (ActorView {
                db: clean_slate(old(self)@.db),
                session: false,
                ..old(self)@
            }),
    {
        let host = trim_trailing(server, '/');
        let same_account = match self.db.account() {
            Some(account) => same_text(&account.0, username) && same_text(&account.1, &host),
            None => false,
        };
        if !same_account {
            self.db.clear_all();
            self.session = false;
        }
        same_account
    }

    /// The server let us in: the account is saved, and there is a session.
    pub fn logged_in(&mut self, server: &str, username: &str, alias: &str, token: &str) -> (info:
        Result<ProfileInfo, ClientFault>)
        requires
            old(self).wf(),
        ensures
            final(self).wf(),
            ({
                let profile = ProfileView {
                    username: username@,
                    alias: alias@,
                    server: without_trailing(server@, '/'),
                    token: token@,
                };
                let saved = profile_saved(old(self)@, profile);
                if profile_fits(old(self)@, profile) {
                    &&& info is Ok
                    &&& final(self)@ == (ActorView { session: true, ..saved })
                    &&& profile_info(final(self)@.db.meta) == Some(info->Ok_0@)
                    &&& info->Ok_0.username@ == username@
                    &&& info->Ok_0.alias@ == alias@
                } else {
                    info is Err && info->Err_0 == ClientFault::Storage(StorageError::TooLong)
                        && final(self)@ == saved
                }
            }),
    {
        proof {
            lemma_profile_keys();
        }
        let profile = Profile {
            username: username.to_string(),
            alias: alias.to_string(),
            server: trim_trailing(server, '/'),
            token: token.to_string(),
        };
        match self.db.save_profile(&profile) {
            Ok(_) => {},
            Err(e) => {
                return Err(ClientFault::Storage(e));
            },
        }
        self.session = true;
        match self.load_profile() {
            Some(info) => Ok(info),
            None => {
                assert(false);
                Err(ClientFault::NoAccount)
            },
        }
    }

    /// Ends the session. The conversations on this device stay where they are:
    /// the server holds no copy, so wiping them would be destroying the only one
    /// there is.
    pub fn logout(&mut self)
        requires
            old(self).wf(),
        ensures
            final(self).wf(),
            final(self)@ == signed_out(old(self)@),
    {
        self.session = false;
        self.connected = false;
        self.pending = None;
        self.disputed = Table::new();
        self.repairs = Table::new();
        self.db.forget_token();
    }

    /// Takes up the stored account: there is a session from here on. Hands out
    /// the account, and the presence to assert again, since the server only
    /// reports it while a stream is open.
    pub fn begin_connect(&mut self) -> (account: Result<(Profile, Option<String>), ClientFault>)
        requires
            old(self).wf(),
        ensures
            final(self).wf(),
            match profile_in(old(self)@.db.meta) {
                Some(profile) => {
                    &&& account is Ok
                    &&& account->Ok_0.0@ == profile
                    &&& text_in(account->Ok_0.1) == value_of(old(self)@.db.meta, "status"@)
                    &&& final(self)@ == (ActorView { session: true, ..old(self)@ })
                },
                None => account is Err && account->Err_0 == ClientFault::NoAccount && final(self)@
                    == old(self)@,
            },
    {
        match self.db.profile() {
            Some(profile) => {
                self.session = true;
                Ok((profile, self.db.meta_get("status")))
            },
            None => Err(ClientFault::NoAccount),
        }
    }

    /// The stream is open, and the interface listens; or it is closed.
    pub fn set_connected(&mut self, connected: bool)
        requires
            old(self).wf(),
        ensures
            final(self).wf(),
            final(self)@ == (ActorView { connected, ..old(self)@ }),
    {
        self.connected = connected;
    }

    /// The server took a change of our own profile: keeps the locally stored one
    /// in step. What cannot be sealed is left as it was.
    pub fn profile_changed(&mut self, alias: Option<&str>, status: Option<&str>)
        requires
            old(self).wf(),
        ensures
            final(self).wf(),
            final(self)@ == status_changed(
                alias_changed(old(self)@, text_at(alias)),
                text_at(status),
            ),
    {
        if let Some(alias) = alias {
            if let Some(profile) = self.db.profile() {
                let renamed = Profile {
                    username: profile.username,
                    alias: alias.to_string(),
                    server: profile.server,
                    token: profile.token,
                };
                let _ = self.db.save_profile(&renamed);
            }
        }
        if let Some(status) = status {
            proof {
                lemma_profile_keys();
            }
            let _ = self.db.meta_set("status", status);
        }
    }
}

/// The client once its display name changed.
pub open spec fn alias_changed(a: ActorView, alias: Option<Seq<char>>) -> ActorView {
    match (alias, profile_in(a.db.meta)) {
        (Some(alias), Some(p)) => profile_saved(a, ProfileView { alias, ..p }),
        _ => a,
    }
}

/// The client once its presence changed.
pub open spec fn status_changed(a: ActorView, status: Option<Seq<char>>) -> ActorView {
    match status {
        Some(status) => if can_seal(a.secret, encode_utf8(status).len()) {
            ActorView { db: with_meta(a.db, a.db.meta.insert("status"@, status)), ..a }
        } else {
            a
        },
        None => a,
    }
}

/// The client once it signed out.
pub open spec fn signed_out(a: ActorView) -> ActorView {
    ActorView {
        db: with_meta(a.db, a.db.meta.remove("token"@)),
        pending: None,
        session: false,
        connected: false,
        repairs: Map::empty(),
        disputed: Map::empty(),
        ..a
    }
}

/// Signing out keeps every conversation, every contact and every pinned key, and
/// signing back in to the same account finds them.
pub proof fn signing_out_keeps_the_conversations(a: ActorView)
    ensures
        signed_out(a).db.messages == a.db.messages,
        signed_out(a).db.contacts == a.db.contacts,
        signed_out(a).db.avatars == a.db.avatars,
        signed_out(a).db.identities == a.db.identities,
        signed_out(a).db.sessions == a.db.sessions,
        account_in(signed_out(a).db.meta) == account_in(a.db.meta),
        profile_in(signed_out(a).db.meta) is None,
{
    lemma_profile_keys();
}

} // verus!
