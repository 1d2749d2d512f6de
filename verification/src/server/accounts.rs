//! Registration.
#[allow(unused_imports)]
use vstd::utf8::encode_utf8;
use vstd::prelude::*;

use crate::password::hash_password;
#[allow(unused_imports)]
use crate::password::{default_cost, password_checked, password_hashed};
use crate::random::{new_code, new_token};
#[allow(unused_imports)]
use crate::random::zero_padded;
#[allow(unused_imports)]
use crate::codec::b64url_encoded;
use crate::server::errors::ApiError;
#[allow(unused_imports)]
use crate::server::limits::{is_clock, judged_by_both, passes_both};
use crate::server::limits::{DAY, HOUR, MAX_ALIAS_BYTES, MAX_FIELD_BYTES};
use crate::server::store::{Account, Presence, Relay, Write};
#[allow(unused_imports)]
use crate::server::store::{
    is_username, is_username_char, link_of, sound, tokens_sound, AccountView, Store, World,
};
use crate::table::RowTest;
use crate::text::{byte_len, chars_of, contains_char, join2, lowercase, same_text};
#[allow(unused_imports)]
use crate::text::lowercased;

verus! {

/// What a new account is made of.
pub struct RegisterRequest {
    pub username: String,
    pub alias: String,
    pub email: String,
    pub password: String,
    pub registration_id: i64,
    pub identity_key: String,
}

/// The budget that registrations from one address count against.
pub open spec fn registration_ip_key(ip: Seq<char>) -> Seq<char> {
    "reg-ip:"@ + ip
}

/// The budget that registrations with one email address count against.
pub open spec fn registration_mail_key(email: Seq<char>) -> Seq<char> {
    "reg-mail:"@ + lowercased(email)
}

/// Whether a password can be taken.
pub open spec fn password_fault(password: Seq<char>) -> Option<ApiError> {
    if encode_utf8(password).len() < 8 {
        Some(ApiError::WeakPassword)
    } else if encode_utf8(password).len() > 1024 {
        Some(ApiError::PasswordTooLong)
    } else {
        None
    }
}

/// What is wrong with a registration, if anything, first things first.
pub open spec fn registration_fault(req: RegisterRequest) -> Option<ApiError> {
    if !is_username(lowercased(req.username@)) {
        Some(ApiError::InvalidUsername)
    } else if encode_utf8(req.alias@).len() > MAX_ALIAS_BYTES {
        Some(ApiError::AliasTooLong)
    } else if !req.email@.contains('@') || encode_utf8(req.email@).len() > 254 {
        Some(ApiError::InvalidEmail)
    } else if password_fault(req.password@) is Some {
        password_fault(req.password@)
    } else if encode_utf8(req.identity_key@).len() > MAX_FIELD_BYTES {
        Some(ApiError::InvalidRegistration)
    } else {
        None
    }
}

/// Why a registration is not admitted, if so: too many of them come from the
/// same source or name the same address, or something is wrong with it.
pub open spec fn registration_refusal(
    w: World,
    req: RegisterRequest,
    ip: Seq<char>,
    now: i64,
) -> Option<ApiError> {
    if !passes_both(
        w,
        registration_ip_key(ip),
        5,
        registration_mail_key(req.email@),
        3,
        HOUR,
        now,
    ) {
        Some(ApiError::RateLimited)
    } else {
        registration_fault(req)
    }
}

/// The relay once a registration was judged.
pub open spec fn registration_judged(w: World, req: RegisterRequest, ip: Seq<char>, now: i64) -> World {
    judged_by_both(
        w,
        registration_ip_key(ip),
        5,
        registration_mail_key(req.email@),
        3,
        HOUR,
        now,
    )
}

/// Whether no other account has a token.
pub open spec fn token_free(
    accounts: Map<Seq<char>, AccountView>,
    token: Seq<char>,
    username: Seq<char>,
) -> bool {
    forall|u: Seq<char>| #[trigger]
        accounts.contains_key(u) && u != username ==> accounts[u].token != token
}

/// The account that a registration makes: a fresh one, or an unverified
/// leftover with a fresh code and keys.
pub open spec fn registered_account(
    store: Store,
    req: RegisterRequest,
    hash: Seq<char>,
    token: Seq<char>,
    code: Seq<char>,
    now: i64,
) -> AccountView {
    let username = lowercased(req.username@);
    let ground = if store.accounts.contains_key(username) {
        store.accounts[username]
    } else {
        AccountView {
            alias: req.alias@,
            email: req.email@,
            password_hash: hash,
            verified: false,
            verify_code: Some(code),
            verify_expires: Some((now + DAY) as i64),
            verify_attempts: 0,
            status: Presence::Online,
            last_seen: None,
            reset_code: None,
            reset_expires: None,
            reset_attempts: 0,
            token,
            registration_id: req.registration_id,
            identity_key: req.identity_key@,
            bundle_static: None,
            created_at: now,
        }
    };
    AccountView {
        alias: req.alias@,
        email: req.email@,
        password_hash: hash,
        verify_code: Some(code),
        verify_expires: Some((now + DAY) as i64),
        verify_attempts: 0,
        token,
        registration_id: req.registration_id,
        identity_key: req.identity_key@,
        ..ground
    }
}

/// The tables with one account put in its place.
pub open spec fn with_account(w: World, username: Seq<char>, row: AccountView) -> World {
    World { store: Store { accounts: w.store.accounts.insert(username, row), ..w.store }, ..w }
}

/// Why an admitted registration cannot be stored, if so.
pub open spec fn storing_refusal(w: World, username: Seq<char>, token: Seq<char>) -> Option<ApiError> {
    if w.store.accounts.contains_key(username) && w.store.accounts[username].verified {
        Some(ApiError::UsernameTaken)
    } else if !token_free(w.store.accounts, token, username) {
        Some(ApiError::Internal)
    } else {
        None
    }
}

/// Singles out the other accounts that have a token.
struct HasToken<'a> {
    token: &'a str,
    but: &'a str,
}

impl<'a> RowTest<String, Account> for HasToken<'a> {
    closed spec fn holds(&self, key: Seq<char>, row: AccountView) -> bool {
        row.token == self.token@ && key != self.but@
    }

    fn test(&self, key: &String, row: &Account) -> (yes: bool) {
        same_text(&row.token, self.token) && !same_text(key, self.but)
    }
}

/// Putting an account in its place keeps the tables in order, as long as nobody
/// else has its token.
pub(crate) proof fn lemma_account_put(store: Store, user: Seq<char>, row: AccountView)
    requires
        sound(store),
        is_username(user),
        default_cost(row.password_hash),
        token_free(store.accounts, row.token, user),
    ensures
        sound(Store { accounts: store.accounts.insert(user, row), ..store }),
{
    let after = Store { accounts: store.accounts.insert(user, row), ..store };
    assert forall|o: Seq<char>, p: Seq<char>| true implies #[trigger] link_of(after, o, p)
        == link_of(store, o, p) by {}
    assert(tokens_sound(after.accounts)) by {
        assert forall|a: Seq<char>, b: Seq<char>|
            #![trigger after.accounts[a], after.accounts[b]]
            after.accounts.contains_key(a) && after.accounts.contains_key(b)
                && after.accounts[a].token == after.accounts[b].token implies a == b by {
            let sa = store.accounts[a];
            let sb = store.accounts[b];
            if a != user {
                assert(store.accounts.contains_key(a));
            }
            if b != user {
                assert(store.accounts.contains_key(b));
            }
        }
    }
    assert forall|o: Seq<char>, p: Seq<char>| #[trigger]
        after.links.contains_key((o, p)) implies o != p && after.accounts.contains_key(o)
        && after.accounts.contains_key(p) by {
        assert(store.links.contains_key((o, p)));
    }
    assert forall|u: Seq<char>| #[trigger] after.accounts.contains_key(u) implies is_username(u)
        && default_cost(after.accounts[u].password_hash) by {
        if u != user {
            assert(store.accounts.contains_key(u));
        }
    }
}

/// Whether a name could be that of an account.
pub(crate) fn usable_username(name: &str) -> (yes: bool)
    ensures
        yes == is_username(name@),
{
    let chars = chars_of(name);
    if chars.len() == 0 || chars.len() > 32 {
        return false;
    }
    let mut i: usize = 0;
    while i < chars.len()
        invariant
            chars@ == name@,
            i <= chars@.len(),
            0 < chars@.len() <= 32,
            forall|j: int| 0 <= j < i ==> is_username_char(#[trigger] name@[j]),
        decreases chars@.len() - i,
    {
        let c: char = chars[i];
        let fine = ('a' <= c && c <= 'z') || ('A' <= c && c <= 'Z') || ('0' <= c && c <= '9')
            || c == '_';
        if !fine {
            assert(!is_username_char(name@[i as int]));
            return false;
        }
        i = i + 1;
    }
    true
}

/// What is wrong with a password, if anything.
pub(crate) fn fault_in_password(password: &str) -> (fault: Option<ApiError>)
    ensures
        fault == password_fault(password@),
{
    if byte_len(password) < 8 {
        Some(ApiError::WeakPassword)
    } else if byte_len(password) > 1024 {
        Some(ApiError::PasswordTooLong)
    } else {
        None
    }
}

/// What is wrong with a registration, if anything.
pub fn fault_in_registration(req: &RegisterRequest) -> (fault: Option<ApiError>)
    ensures
        fault == registration_fault(*req),
{
    // Usernames are case-insensitive: stored and matched in lowercase.
    let username = lowercase(&req.username);
    if !usable_username(&username) {
        return Some(ApiError::InvalidUsername);
    }
    if byte_len(&req.alias) > MAX_ALIAS_BYTES {
        return Some(ApiError::AliasTooLong);
    }
    if !contains_char(&req.email, '@') || byte_len(&req.email) > 254 {
        return Some(ApiError::InvalidEmail);
    }
    let fault = fault_in_password(&req.password);
    if fault.is_some() {
        return fault;
    }
    if byte_len(&req.identity_key) > MAX_FIELD_BYTES {
        return Some(ApiError::InvalidRegistration);
    }
    None
}

/// A registration that was stored, and the code to send to its address.
pub struct Registered {
    pub username: String,
    pub email: String,
    pub code: String,
}

impl Relay {
    /// Judges a registration. Throttled by source and by target address:
    /// registration both creates rows and makes the server send mail, so it is
    /// an abuse vector twice over.
    pub fn admit_registration(&mut self, req: &RegisterRequest, ip: &str, now: i64) -> (refusal:
        Option<ApiError>)
        requires
            old(self).wf(),
        ensures
            final(self).wf(),
            refusal == registration_refusal(old(self)@, *req, ip@, now),
            final(self)@ == registration_judged(old(self)@, *req, ip@, now),
            final(self).journal@ == old(self).journal@,
    {
        let by_ip = join2("reg-ip:", ip);
        let by_mail = join2("reg-mail:", &lowercase(&req.email));
        if !self.pass_both(&by_ip, 5, &by_mail, 3, HOUR, now) {
            return Some(ApiError::RateLimited);
        }
        fault_in_registration(req)
    }

    /// Whether no other account has a token.
    pub(crate) fn is_token_free(&self, token: &str, username: &str) -> (yes: bool)
        requires
            self.tables_wf(),
        ensures
            yes == token_free(self@.store.accounts, token@, username@),
    {
        let question = HasToken { token, but: username };
        let places = self.accounts.find_where(&question);
        proof {
            let accounts = self@.store.accounts;
            if places@.len() > 0 {
                let key = self.accounts.rows@[places@[0] as int].0@;
                assert(question.holds(key, accounts[key]));
                assert(accounts.contains_key(key));
            } else {
                assert forall|u: Seq<char>| #[trigger]
                    accounts.contains_key(u) && u != username@ implies accounts[u].token
                    != token@ by {
                    if accounts[u].token == token@ {
                        assert(question.holds(u, accounts[u]));
                    }
                }
            }
        }
        places.len() == 0
    }

    /// Stores an admitted registration with what was drawn for it: a hash of
    /// its password, a session token and a verification code.
    pub fn store_registration(
        &mut self,
        req: &RegisterRequest,
        hash: String,
        token: String,
        code: String,
        now: i64,
    ) -> (refusal: Option<ApiError>)
        requires
            old(self).wf(),
            is_clock(now),
            is_username(lowercased(req.username@)),
            default_cost(hash@),
        ensures
            final(self).wf(),
            refusal == storing_refusal(old(self)@, lowercased(req.username@), token@),
            refusal is Some ==> final(self)@ == old(self)@,
            refusal is None ==> final(self)@ == with_account(
                old(self)@,
                lowercased(req.username@),
                registered_account(old(self)@.store, *req, hash@, token@, code@, now),
            ),
    {
        let username = lowercase(&req.username);
        let row = match self.accounts.get(&username) {
            Some(account) => {
                if account.verified {
                    return Some(ApiError::UsernameTaken);
                }
                // Unverified leftover: allow registering again.
                let mut row = account.copy();
                row.alias = req.alias.clone();
                row.email = req.email.clone();
                row.password_hash = hash;
                row.verify_code = Some(code);
                row.verify_expires = Some(now + DAY);
                row.verify_attempts = 0;
                row.token = token;
                row.registration_id = req.registration_id;
                row.identity_key = req.identity_key.clone();
                row
            },
            None => Account {
                alias: req.alias.clone(),
                email: req.email.clone(),
                password_hash: hash,
                verified: false,
                verify_code: Some(code),
                verify_expires: Some(now + DAY),
                verify_attempts: 0,
                status: Presence::Online,
                last_seen: None,
                reset_code: None,
                reset_expires: None,
                reset_attempts: 0,
                token,
                registration_id: req.registration_id,
                identity_key: req.identity_key.clone(),
                bundle_static: None,
                created_at: now,
            },
        };
        if !self.is_token_free(&row.token, &username) {
            return Some(ApiError::Internal);
        }
        proof {
            lemma_account_put(self@.store, username@, row@);
        }
        self.write(Write::PutAccount { username, row });
        None
    }

    /// Registers an account, which stays pending until it is verified.
    pub fn register(&mut self, req: &RegisterRequest, ip: &str, now: i64) -> (reply: Result<
        Registered,
        ApiError,
    >)
        requires
            old(self).wf(),
            is_clock(now),
        ensures
            final(self).wf(),
            registration_refusal(old(self)@, *req, ip@, now) matches Some(e) ==> reply == Err::<
                Registered,
                ApiError,
            >(e) && final(self)@ == registration_judged(old(self)@, *req, ip@, now),
            registration_refusal(old(self)@, *req, ip@, now) is None ==> exists|
                hash: Seq<char>,
                token: Seq<char>,
                code: Seq<char>,
            | #[trigger]
                registered(old(self)@, final(self)@, *req, ip@, now, hash, token, code, reply),
    {
        let ghost start = self@;
        if let Some(refusal) = self.admit_registration(req, ip, now) {
            return Err(refusal);
        }
        let hash = match hash_password(&req.password) {
            Some(hash) => hash,
            None => {
                assert(false);
                return Err(ApiError::Internal);
            },
        };
        let token = new_token();
        let code = new_code();
        let sent = code.clone();
        let ghost h = hash@;
        let ghost t = token@;
        let refusal = self.store_registration(req, hash, token, code, now);
        let reply = match refusal {
            Some(refusal) => Err(refusal),
            None => Ok(
                Registered {
                    username: lowercase(&req.username),
                    email: req.email.clone(),
                    code: sent,
                },
            ),
        };
        assert(registered(start, self@, *req, ip@, now, h, t, sent@, reply));
        reply
    }
}

/// What an admitted registration comes to, given what was drawn for it.
pub open spec fn registered(
    before: World,
    after: World,
    req: RegisterRequest,
    ip: Seq<char>,
    now: i64,
    hash: Seq<char>,
    token: Seq<char>,
    code: Seq<char>,
    reply: Result<Registered, ApiError>,
) -> bool {
    let username = lowercased(req.username@);
    let judged = registration_judged(before, req, ip, now);
    &&& password_checked(hash, encode_utf8(req.password@)) == Some(true)
    &&& exists|salt: Seq<u8>|
        salt.len() == 16 && #[trigger] password_hashed(encode_utf8(req.password@), salt) == Some(
            hash,
        )
    &&& exists|raw: Seq<u8>| raw.len() == 32 && token == #[trigger] b64url_encoded(raw)
    &&& exists|n: nat| n < 1_000_000 && code == #[trigger] zero_padded(n, 6)
    &&& match storing_refusal(judged, username, token) {
        Some(e) => reply == Err::<Registered, ApiError>(e) && after == judged,
        None => reply is Ok && reply->Ok_0.username@ == username && reply->Ok_0.email@
            == req.email@ && reply->Ok_0.code@ == code && after == with_account(
            judged,
            username,
            registered_account(judged.store, req, hash, token, code, now),
        ),
    }
}

} // verus!
