//! Verification, sessions and password recovery.
#[allow(unused_imports)]
use vstd::utf8::encode_utf8;
use vstd::prelude::*;

#[allow(unused_imports)]
use crate::codec::b64url_encoded;
use crate::password::{check_password, hash_password};
#[allow(unused_imports)]
use crate::password::{default_cost, password_checked, password_hashed};
#[allow(unused_imports)]
use crate::random::zero_padded;
use crate::random::{new_code, new_token};
use crate::server::accounts::fault_in_password;
#[allow(unused_imports)]
use crate::server::accounts::{lemma_account_put, password_fault, token_free, with_account};
use crate::server::errors::ApiError;
#[allow(unused_imports)]
use crate::server::limits::{is_clock, judged_by_both, passes_both};
use crate::server::limits::{HOUR, MAX_VERIFY_ATTEMPTS, QUARTER_HOUR};
use crate::server::live::Notice;
#[allow(unused_imports)]
use crate::server::live::{disconnected, lemma_account_kept, notices, told, watchers, PushView};
use crate::server::store::{Account, Relay, Write};
#[allow(unused_imports)]
use crate::server::store::{AccountView, Store, World};
use crate::table::RowTest;
use crate::text::{constant_time_eq, join2, lowercase, same_text, strip_prefix};
#[allow(unused_imports)]
use crate::text::{lowercased, text_in};

verus! {

/// Whether a code is the one that was sent out, and still good.
pub open spec fn code_holds(
    stored: Option<Seq<char>>,
    expires: Option<i64>,
    given: Seq<char>,
    now: i64,
) -> bool {
    stored == Some(given) && expires is Some && expires->0 > now
}

/// Checks a code without giving away where it differs.
fn is_code_good(stored: &Option<String>, expires: Option<i64>, given: &str, now: i64) -> (yes: bool)
    ensures
        yes == code_holds(text_in(*stored), expires, given@, now),
{
    let same = match stored {
        Some(stored) => constant_time_eq(stored, given),
        None => false,
    };
    let in_time = match expires {
        Some(at) => at > now,
        None => false,
    };
    same && in_time
}

/// Whether a verification attempt is within its budgets.
pub open spec fn verification_passes(w: World, name: Seq<char>, ip: Seq<char>, now: i64) -> bool {
    passes_both(w, "verify:"@ + name, 5, "verify-ip:"@ + ip, 20, QUARTER_HOUR, now)
}

/// The relay once a verification attempt was counted.
pub open spec fn verification_judged(w: World, name: Seq<char>, ip: Seq<char>, now: i64) -> World {
    judged_by_both(w, "verify:"@ + name, 5, "verify-ip:"@ + ip, 20, QUARTER_HOUR, now)
}

/// Why a verification is refused, if so.
pub open spec fn verification_refusal(
    w: World,
    name: Seq<char>,
    code: Seq<char>,
    ip: Seq<char>,
    now: i64,
) -> Option<ApiError> {
    if !verification_passes(w, name, ip, now) {
        Some(ApiError::RateLimited)
    } else if !w.store.accounts.contains_key(name) {
        Some(ApiError::NotFound)
    } else {
        let account = w.store.accounts[name];
        if account.verified {
            Some(ApiError::AlreadyVerified)
        } else if account.verify_attempts >= MAX_VERIFY_ATTEMPTS || !code_holds(
            account.verify_code,
            account.verify_expires,
            code,
            now,
        ) {
            Some(ApiError::InvalidCode)
        } else {
            None
        }
    }
}

/// The account after a wrong verification code: the code is burned once the
/// budget is spent.
pub open spec fn verification_failed(account: AccountView) -> AccountView {
    AccountView {
        verify_attempts: (account.verify_attempts + 1) as i64,
        verify_code: if account.verify_attempts + 1 >= MAX_VERIFY_ATTEMPTS {
            None
        } else {
            account.verify_code
        },
        ..account
    }
}

/// The account after the right verification code.
pub open spec fn verification_done(account: AccountView) -> AccountView {
    AccountView { verified: true, verify_code: None, verify_attempts: 0, ..account }
}

/// The relay after a verification attempt.
pub open spec fn after_verification(
    w: World,
    name: Seq<char>,
    code: Seq<char>,
    ip: Seq<char>,
    now: i64,
) -> World {
    let judged = verification_judged(w, name, ip, now);
    let account = w.store.accounts[name];
    match verification_refusal(w, name, code, ip, now) {
        None => with_account(judged, name, verification_done(account)),
        Some(ApiError::InvalidCode) if account.verify_attempts < MAX_VERIFY_ATTEMPTS =>
            with_account(judged, name, verification_failed(account)),
        Some(_) => judged,
    }
}

/// Whether a login attempt is within its budgets.
pub open spec fn login_passes(w: World, name: Seq<char>, ip: Seq<char>, now: i64) -> bool {
    passes_both(w, "login:"@ + name, 10, "login-ip:"@ + ip, 30, QUARTER_HOUR, now)
}

/// The relay once a login attempt was counted.
pub open spec fn login_judged(w: World, name: Seq<char>, ip: Seq<char>, now: i64) -> World {
    judged_by_both(w, "login:"@ + name, 10, "login-ip:"@ + ip, 30, QUARTER_HOUR, now)
}

/// Why a login is refused, if so. An unknown name and a wrong password get the
/// same answer.
pub open spec fn login_refusal(
    w: World,
    name: Seq<char>,
    password: Seq<char>,
    ip: Seq<char>,
    now: i64,
) -> Option<ApiError> {
    if !login_passes(w, name, ip, now) {
        Some(ApiError::RateLimited)
    } else if !w.store.accounts.contains_key(name) {
        Some(ApiError::InvalidCredentials)
    } else {
        let account = w.store.accounts[name];
        match password_checked(account.password_hash, encode_utf8(password)) {
            None => Some(ApiError::Internal),
            Some(false) => Some(ApiError::InvalidCredentials),
            Some(true) => if account.verified {
                None
            } else {
                Some(ApiError::NotVerified)
            },
        }
    }
}

/// The relay after a login attempt: one that succeeds clears the attempts that
/// counted against its name.
pub open spec fn after_login(
    w: World,
    name: Seq<char>,
    password: Seq<char>,
    ip: Seq<char>,
    now: i64,
) -> World {
    let judged = login_judged(w, name, ip, now);
    if login_refusal(w, name, password, ip, now) is None {
        World { hits: judged.hits.remove("login:"@ + name), ..judged }
    } else {
        judged
    }
}

/// Whether no account has a token.
pub open spec fn token_fresh(accounts: Map<Seq<char>, AccountView>, token: Seq<char>) -> bool {
    forall|u: Seq<char>| #[trigger] accounts.contains_key(u) ==> accounts[u].token != token
}

/// The relay once a new device took an account over: the previous token stops
/// working and the open stream is dropped.
pub open spec fn taken_over(w: World, name: Seq<char>, token: Seq<char>, now: i64) -> World {
    let moved = with_account(
        w,
        name,
        AccountView { token, ..w.store.accounts[name] },
    );
    if w.live.contains_key(name) {
        disconnected(moved, name, now)
    } else {
        moved
    }
}

/// Whether a request for a reset code is within its budgets.
pub open spec fn forgot_passes(w: World, name: Seq<char>, ip: Seq<char>, now: i64) -> bool {
    passes_both(w, "forgot:"@ + name, 3, "forgot-ip:"@ + ip, 10, HOUR, now)
}

/// The relay once a request for a reset code was counted.
pub open spec fn forgot_judged(w: World, name: Seq<char>, ip: Seq<char>, now: i64) -> World {
    judged_by_both(w, "forgot:"@ + name, 3, "forgot-ip:"@ + ip, 10, HOUR, now)
}

/// Whether there is a verified account of that name.
pub open spec fn is_verified(store: Store, name: Seq<char>) -> bool {
    store.accounts.contains_key(name) && store.accounts[name].verified
}

/// The account with a fresh reset code.
pub open spec fn reset_issued(account: AccountView, code: Seq<char>, now: i64) -> AccountView {
    AccountView {
        reset_code: Some(code),
        reset_expires: Some((now + HOUR) as i64),
        reset_attempts: 0,
        ..account
    }
}

/// Whether a password reset is within its budgets.
pub open spec fn reset_passes(w: World, name: Seq<char>, ip: Seq<char>, now: i64) -> bool {
    passes_both(w, "reset:"@ + name, 5, "reset-ip:"@ + ip, 20, QUARTER_HOUR, now)
}

/// The relay once a password reset was counted.
pub open spec fn reset_judged(w: World, name: Seq<char>, ip: Seq<char>, now: i64) -> World {
    judged_by_both(w, "reset:"@ + name, 5, "reset-ip:"@ + ip, 20, QUARTER_HOUR, now)
}

/// Why a password reset is refused, if so.
pub open spec fn reset_refusal(
    w: World,
    name: Seq<char>,
    code: Seq<char>,
    password: Seq<char>,
    ip: Seq<char>,
    now: i64,
) -> Option<ApiError> {
    if !reset_passes(w, name, ip, now) {
        Some(ApiError::RateLimited)
    } else if password_fault(password) is Some {
        password_fault(password)
    } else if !w.store.accounts.contains_key(name) || w.store.accounts[name].reset_attempts
        >= MAX_VERIFY_ATTEMPTS || !code_holds(
        w.store.accounts[name].reset_code,
        w.store.accounts[name].reset_expires,
        code,
        now,
    ) {
        Some(ApiError::InvalidCode)
    } else {
        None
    }
}

/// The account after a wrong reset code.
pub open spec fn reset_failed(account: AccountView) -> AccountView {
    AccountView {
        reset_attempts: (account.reset_attempts + 1) as i64,
        reset_code: if account.reset_attempts + 1 >= MAX_VERIFY_ATTEMPTS {
            None
        } else {
            account.reset_code
        },
        ..account
    }
}

/// The account after the right reset code: a new password, and a new token, so
/// a reset also evicts whoever might have had the old password.
pub open spec fn reset_done(account: AccountView, hash: Seq<char>, token: Seq<char>) -> AccountView {
    AccountView {
        password_hash: hash,
        token,
        reset_code: None,
        reset_expires: None,
        reset_attempts: 0,
        ..account
    }
}

/// The relay once the code of a password reset was judged.
pub open spec fn after_reset_check(
    w: World,
    name: Seq<char>,
    code: Seq<char>,
    password: Seq<char>,
    ip: Seq<char>,
    now: i64,
) -> World {
    let judged = reset_judged(w, name, ip, now);
    if reset_refusal(w, name, code, password, ip, now) == Some(ApiError::InvalidCode)
        && w.store.accounts.contains_key(name) && w.store.accounts[name].reset_attempts
        < MAX_VERIFY_ATTEMPTS {
        with_account(judged, name, reset_failed(w.store.accounts[name]))
    } else {
        judged
    }
}

/// The relay once a password was reset.
pub open spec fn after_reset(w: World, name: Seq<char>, hash: Seq<char>, token: Seq<char>) -> World {
    let stored = with_account(w, name, reset_done(w.store.accounts[name], hash, token));
    World { hits: stored.hits.remove("login:"@ + name), ..stored }
}

/// A session, and what starting it did to the previous one.
pub struct Session {
    pub token: String,
    /// The stream that the previous device held.
    pub dropped: Option<u64>,
    pub notices: Vec<Notice>,
}

/// A reset code to send to the account's address.
pub struct ResetMail {
    pub username: String,
    pub email: String,
    pub code: String,
}

/// Authenticated user, resolved from the `Authorization: Bearer <token>` header.
pub struct AuthUser {
    pub username: String,
}

/// Whether an account speaks through a header.
pub open spec fn speaks_through(store: Store, name: Seq<char>, header: Seq<char>) -> bool {
    is_verified(store, name) && header == "Bearer "@ + store.accounts[name].token
}

/// Singles out the verified account that has a token.
struct SpeaksWith<'a> {
    token: &'a str,
}

impl<'a> RowTest<String, Account> for SpeaksWith<'a> {
    closed spec fn holds(&self, key: Seq<char>, row: AccountView) -> bool {
        row.token == self.token@ && row.verified
    }

    fn test(&self, key: &String, row: &Account) -> (yes: bool) {
        row.verified && same_text(&row.token, self.token)
    }
}

impl Relay {
    /// Who a request comes from.
    pub fn authenticate(&self, header: Option<&str>) -> (who: Result<AuthUser, ApiError>)
        requires
            self.wf(),
        ensures
            match who {
                Ok(user) => header is Some && speaks_through(
                    self@.store,
                    user.username@,
                    header->0@,
                ),
                Err(e) => e == ApiError::InvalidSession && (header is Some ==> forall|
                    name: Seq<char>,
                | !#[trigger] speaks_through(self@.store, name, header->0@)),
            },
    {
        let header = match header {
            Some(header) => header,
            None => {
                return Err(ApiError::InvalidSession);
            },
        };
        let token = match strip_prefix(header, "Bearer ") {
            Some(token) => token,
            None => {
                proof {
                    assert forall|name: Seq<char>| !#[trigger] speaks_through(
                        self@.store,
                        name,
                        header@,
                    ) by {
                        let token = self@.store.accounts[name].token;
                        if header@ == "Bearer "@ + token {
                            assert(header@.subrange(0, "Bearer "@.len() as int) =~= "Bearer "@);
                        }
                    }
                }
                return Err(ApiError::InvalidSession);
            },
        };
        let question = SpeaksWith { token: &token };
        let places = self.accounts.find_where(&question);
        proof {
            assert(header@ =~= "Bearer "@ + token@);
        }
        if places.len() == 0 {
            proof {
                assert forall|name: Seq<char>| !#[trigger] speaks_through(
                    self@.store,
                    name,
                    header@,
                ) by {
                    if speaks_through(self@.store, name, header@) {
                        let held = self@.store.accounts[name].token;
                        let n = "Bearer "@.len() as int;
                        assert(held =~= header@.subrange(n, header@.len() as int));
                        assert(token@ =~= header@.subrange(n, header@.len() as int));
                        assert(question.holds(name, self.accounts@[name]));
                    }
                }
            }
            return Err(ApiError::InvalidSession);
        }
        let at: usize = places[0];
        let username = self.accounts.rows[at].0.clone();
        assert(question.holds(username@, self.accounts@[username@]));
        Ok(AuthUser { username })
    }

    /// Confirms an account with the code it was sent, and hands out its token.
    pub fn verify_account(&mut self, username: &str, code: &str, ip: &str, now: i64) -> (reply:
        Result<String, ApiError>)
        requires
            old(self).wf(),
        ensures
            final(self).wf(),
            match verification_refusal(old(self)@, lowercased(username@), code@, ip@, now) {
                Some(e) => reply == Err::<String, ApiError>(e),
                None => reply is Ok && reply->Ok_0@
                    == old(self)@.store.accounts[lowercased(username@)].token,
            },
            final(self)@ == after_verification(
                old(self)@,
                lowercased(username@),
                code@,
                ip@,
                now,
            ),
    {
        let name = lowercase(username);
        // A 6-digit code is only a million possibilities: without throttling
        // plus the persistent attempt counter below it can be exhausted in
        // minutes.
        let by_name = join2("verify:", &name);
        let by_ip = join2("verify-ip:", ip);
        if !self.pass_both(&by_name, 5, &by_ip, 20, QUARTER_HOUR, now) {
            return Err(ApiError::RateLimited);
        }
        let mut row = match self.accounts.get(&name) {
            Some(account) => account.copy(),
            None => {
                return Err(ApiError::NotFound);
            },
        };
        if row.verified {
            return Err(ApiError::AlreadyVerified);
        }
        if row.verify_attempts >= MAX_VERIFY_ATTEMPTS {
            return Err(ApiError::InvalidCode);
        }
        if !is_code_good(&row.verify_code, row.verify_expires, code, now) {
            // Burn the code once the budget is spent: the account must be
            // registered again to get a fresh one.
            row.verify_attempts = row.verify_attempts + 1;
            if row.verify_attempts >= MAX_VERIFY_ATTEMPTS {
                row.verify_code = None;
            }
            proof {
                lemma_account_kept(self@.store, name@, row@);
            }
            self.write(Write::PutAccount { username: name, row });
            return Err(ApiError::InvalidCode);
        }
        row.verified = true;
        row.verify_code = None;
        row.verify_attempts = 0;
        let token = row.token.clone();
        proof {
            lemma_account_kept(self@.store, name@, row@);
        }
        self.write(Write::PutAccount { username: name, row });
        Ok(token)
    }

    /// Judges a login. Throttling here stops password guessing and, just as
    /// importantly, stops an attacker from pinning the CPU: every attempt runs
    /// Argon2.
    pub fn check_login(&mut self, username: &str, password: &str, ip: &str, now: i64) -> (refusal:
        Option<ApiError>)
        requires
            old(self).wf(),
        ensures
            final(self).wf(),
            refusal == login_refusal(old(self)@, lowercased(username@), password@, ip@, now),
            final(self)@ == after_login(old(self)@, lowercased(username@), password@, ip@, now),
    {
        let name = lowercase(username);
        let by_name = join2("login:", &name);
        let by_ip = join2("login-ip:", ip);
        if !self.pass_both(&by_name, 10, &by_ip, 30, QUARTER_HOUR, now) {
            return Some(ApiError::RateLimited);
        }
        match self.accounts.get(&name) {
            None => {
                // Verify against a throwaway hash so a missing account costs the
                // same time as a wrong password: otherwise the response time
                // enumerates which usernames exist.
                let _ = check_password(&self.decoy, password);
                return Some(ApiError::InvalidCredentials);
            },
            Some(account) => {
                match check_password(&account.password_hash, password) {
                    None => {
                        return Some(ApiError::Internal);
                    },
                    Some(right) => {
                        if !right {
                            return Some(ApiError::InvalidCredentials);
                        }
                    },
                }
                if !account.verified {
                    return Some(ApiError::NotVerified);
                }
            },
        }
        self.limits.reset(&by_name);
        None
    }

    /// Whether no account has a token.
    pub(crate) fn is_token_fresh(&self, token: &str) -> (yes: bool)
        requires
            self.wf(),
        ensures
            yes == token_fresh(self@.store.accounts, token@),
    {
        let yes = self.is_token_free(token, "");
        proof {
            reveal_strlit("");
            let accounts = self@.store.accounts;
            assert forall|u: Seq<char>| #[trigger] accounts.contains_key(u) implies u != ""@ by {
                assert(u.len() > 0);
            }
            if token_free(accounts, token@, ""@) {
                assert(token_fresh(accounts, token@));
            }
        }
        yes
    }

    /// Moves an account to a new device. An account lives in one place: the
    /// previous token stops working and its open stream is dropped on the spot.
    pub fn take_over(&mut self, name: &str, token: String, now: i64) -> (reply: Result<
        Session,
        ApiError,
    >)
        requires
            old(self).wf(),
            old(self)@.store.accounts.contains_key(name@),
        ensures
            final(self).wf(),
            !token_fresh(old(self)@.store.accounts, token@) ==> reply == Err::<Session, ApiError>(
                ApiError::Internal,
            ) && final(self)@ == old(self)@,
            token_fresh(old(self)@.store.accounts, token@) ==> {
                &&& reply is Ok
                &&& reply->Ok_0.token@ == token@
                &&& reply->Ok_0.dropped == (if old(self)@.live.contains_key(name@) {
                    Some(old(self)@.live[name@])
                } else {
                    None
                })
                &&& final(self)@ == taken_over(old(self)@, name@, token@, now)
                &&& old(self)@.live.contains_key(name@) ==> told(
                    notices(reply->Ok_0.notices@),
                    watchers(final(self)@, name@),
                    final(self)@.live,
                    PushView::ContactsChanged,
                )
                &&& !old(self)@.live.contains_key(name@) ==> reply->Ok_0.notices@.len() == 0
            },
    {
        if !self.is_token_fresh(&token) {
            return Err(ApiError::Internal);
        }
        let key = name.to_string();
        let mut row = match self.accounts.get(&key) {
            Some(account) => account.copy(),
            None => {
                return Err(ApiError::Internal);
            },
        };
        row.token = token.clone();
        proof {
            assert(self@.store.accounts.contains_key(name@));
            lemma_account_put(self@.store, name@, row@);
        }
        self.write(Write::PutAccount { username: key, row });
        let (dropped, notices) = self.drop_stream(name, now);
        Ok(Session { token, dropped, notices })
    }

    /// Logs in. On the device that holds the account this hands out its token
    /// again; a new device takes the account over.
    pub fn login(
        &mut self,
        username: &str,
        password: &str,
        new_device: bool,
        ip: &str,
        now: i64,
    ) -> (reply: Result<Session, ApiError>)
        requires
            old(self).wf(),
        ensures
            final(self).wf(),
            login_refusal(old(self)@, lowercased(username@), password@, ip@, now) matches Some(e)
                ==> reply == Err::<Session, ApiError>(e) && final(self)@ == after_login(
                old(self)@,
                lowercased(username@),
                password@,
                ip@,
                now,
            ),
            login_refusal(old(self)@, lowercased(username@), password@, ip@, now) is None ==> {
                let w = after_login(old(self)@, lowercased(username@), password@, ip@, now);
                let name = lowercased(username@);
                if new_device {
                    exists|token: Seq<char>| #[trigger]
                        device_replaced(w, final(self)@, name, token, now, reply)
                } else {
                    &&& reply is Ok
                    &&& reply->Ok_0.token@ == w.store.accounts[name].token
                    &&& reply->Ok_0.dropped is None
                    &&& reply->Ok_0.notices@.len() == 0
                    &&& final(self)@ == w
                }
            },
    {
        if let Some(refusal) = self.check_login(username, password, ip, now) {
            return Err(refusal);
        }
        let ghost w = self@;
        let name = lowercase(username);
        if new_device {
            let token = new_token();
            let ghost t = token@;
            let reply = self.take_over(&name, token, now);
            assert(device_replaced(w, self@, name@, t, now, reply));
            return reply;
        }
        let token = match self.accounts.get(&name) {
            Some(account) => account.token.clone(),
            None => {
                assert(false);
                String::new()
            },
        };
        Ok(Session { token, dropped: None, notices: Vec::new() })
    }

    /// Stores a reset code.
    pub fn issue_reset_code(&mut self, name: &str, code: &str, now: i64)
        requires
            old(self).wf(),
            is_clock(now),
            old(self)@.store.accounts.contains_key(name@),
        ensures
            final(self).wf(),
            final(self)@ == with_account(
                old(self)@,
                name@,
                reset_issued(old(self)@.store.accounts[name@], code@, now),
            ),
    {
        let key = name.to_string();
        let mut row = match self.accounts.get(&key) {
            Some(account) => account.copy(),
            None => {
                assert(false);
                return;
            },
        };
        row.reset_code = Some(code.to_string());
        row.reset_expires = Some(now + HOUR);
        row.reset_attempts = 0;
        proof {
            lemma_account_kept(self@.store, name@, row@);
        }
        self.write(Write::PutAccount { username: key, row });
    }

    /// Draws a reset code for whoever owns an account. Whether there is such an
    /// account is told to its owner only: answering anybody else would turn this
    /// into a username oracle.
    pub fn forgot_password(&mut self, username: &str, ip: &str, now: i64) -> (reply: Result<
        Option<ResetMail>,
        ApiError,
    >)
        requires
            old(self).wf(),
            is_clock(now),
        ensures
            final(self).wf(),
            !forgot_passes(old(self)@, lowercased(username@), ip@, now) ==> reply == Err::<
                Option<ResetMail>,
                ApiError,
            >(ApiError::RateLimited) && final(self)@ == forgot_judged(
                old(self)@,
                lowercased(username@),
                ip@,
                now,
            ),
            forgot_passes(old(self)@, lowercased(username@), ip@, now) ==> reply is Ok,
            forgot_passes(old(self)@, lowercased(username@), ip@, now) && !is_verified(
                old(self)@.store,
                lowercased(username@),
            ) ==> reply->Ok_0 is None && final(self)@ == forgot_judged(
                old(self)@,
                lowercased(username@),
                ip@,
                now,
            ),
            forgot_passes(old(self)@, lowercased(username@), ip@, now) && is_verified(
                old(self)@.store,
                lowercased(username@),
            ) ==> {
                let name = lowercased(username@);
                let account = old(self)@.store.accounts[name];
                &&& reply->Ok_0 is Some
                &&& reply->Ok_0->0.username@ == name
                &&& reply->Ok_0->0.email@ == account.email
                &&& exists|n: nat|
                    n < 1_000_000 && reply->Ok_0->0.code@ == #[trigger] zero_padded(n, 6)
                &&& final(self)@ == with_account(
                    forgot_judged(old(self)@, name, ip@, now),
                    name,
                    reset_issued(account, reply->Ok_0->0.code@, now),
                )
            },
    {
        let name = lowercase(username);
        let by_name = join2("forgot:", &name);
        let by_ip = join2("forgot-ip:", ip);
        if !self.pass_both(&by_name, 3, &by_ip, 10, HOUR, now) {
            return Err(ApiError::RateLimited);
        }
        let email = match self.accounts.get(&name) {
            Some(account) => {
                if !account.verified {
                    return Ok(None);
                }
                account.email.clone()
            },
            None => {
                return Ok(None);
            },
        };
        let code = new_code();
        self.issue_reset_code(&name, &code, now);
        Ok(Some(ResetMail { username: name, email, code }))
    }

    /// Judges a password reset, and counts a wrong code.
    pub fn check_reset(
        &mut self,
        username: &str,
        code: &str,
        password: &str,
        ip: &str,
        now: i64,
    ) -> (refusal: Option<ApiError>)
        requires
            old(self).wf(),
        ensures
            final(self).wf(),
            refusal == reset_refusal(
                old(self)@,
                lowercased(username@),
                code@,
                password@,
                ip@,
                now,
            ),
            final(self)@ == after_reset_check(
                old(self)@,
                lowercased(username@),
                code@,
                password@,
                ip@,
                now,
            ),
    {
        let name = lowercase(username);
        let by_name = join2("reset:", &name);
        let by_ip = join2("reset-ip:", ip);
        if !self.pass_both(&by_name, 5, &by_ip, 20, QUARTER_HOUR, now) {
            return Some(ApiError::RateLimited);
        }
        let fault = fault_in_password(password);
        if fault.is_some() {
            return fault;
        }
        let mut row = match self.accounts.get(&name) {
            Some(account) => account.copy(),
            None => {
                return Some(ApiError::InvalidCode);
            },
        };
        if row.reset_attempts >= MAX_VERIFY_ATTEMPTS {
            return Some(ApiError::InvalidCode);
        }
        if !is_code_good(&row.reset_code, row.reset_expires, code, now) {
            row.reset_attempts = row.reset_attempts + 1;
            if row.reset_attempts >= MAX_VERIFY_ATTEMPTS {
                row.reset_code = None;
            }
            proof {
                lemma_account_kept(self@.store, name@, row@);
            }
            self.write(Write::PutAccount { username: name, row });
            return Some(ApiError::InvalidCode);
        }
        None
    }

    /// Stores a new password and token.
    pub fn store_reset(&mut self, name: &str, hash: String, token: String) -> (refusal: Option<
        ApiError,
    >)
        requires
            old(self).wf(),
            old(self)@.store.accounts.contains_key(name@),
            default_cost(hash@),
        ensures
            final(self).wf(),
            token_free(old(self)@.store.accounts, token@, name@) ==> refusal is None && final(self)@ == after_reset(old(self)@, name@, hash@, token@),
            !token_free(old(self)@.store.accounts, token@, name@) ==> refusal == Some(
                ApiError::Internal,
            ) && final(self)@ == old(self)@,
    {
        if !self.is_token_free(&token, name) {
            return Some(ApiError::Internal);
        }
        let key = name.to_string();
        let mut row = match self.accounts.get(&key) {
            Some(account) => account.copy(),
            None => {
                return Some(ApiError::Internal);
            },
        };
        row.password_hash = hash;
        row.token = token;
        row.reset_code = None;
        row.reset_expires = None;
        row.reset_attempts = 0;
        proof {
            assert(self@.store.accounts.contains_key(name@));
            lemma_account_put(self@.store, name@, row@);
        }
        self.write(Write::PutAccount { username: key, row });
        let by_name = join2("login:", name);
        self.limits.reset(&by_name);
        None
    }

    /// Sets a new password from a reset code and rotates the session token.
    pub fn reset_password(
        &mut self,
        username: &str,
        code: &str,
        password: &str,
        ip: &str,
        now: i64,
    ) -> (refusal: Option<ApiError>)
        requires
            old(self).wf(),
        ensures
            final(self).wf(),
            reset_refusal(old(self)@, lowercased(username@), code@, password@, ip@, now) is Some
                ==> refusal == reset_refusal(
                old(self)@,
                lowercased(username@),
                code@,
                password@,
                ip@,
                now,
            ) && final(self)@ == after_reset_check(
                old(self)@,
                lowercased(username@),
                code@,
                password@,
                ip@,
                now,
            ),
            reset_refusal(old(self)@, lowercased(username@), code@, password@, ip@, now) is None
                ==> exists|hash: Seq<char>, token: Seq<char>| #[trigger]
                password_replaced(
                    reset_judged(old(self)@, lowercased(username@), ip@, now),
                    final(self)@,
                    lowercased(username@),
                    password@,
                    hash,
                    token,
                    refusal,
                ),
    {
        let refusal = self.check_reset(username, code, password, ip, now);
        if refusal.is_some() {
            return refusal;
        }
        let ghost w = self@;
        let name = lowercase(username);
        let hash = match hash_password(password) {
            Some(hash) => hash,
            None => {
                assert(false);
                return Some(ApiError::Internal);
            },
        };
        let token = new_token();
        let ghost h = hash@;
        let ghost t = token@;
        let refusal = self.store_reset(&name, hash, token);
        assert(password_replaced(w, self@, name@, password@, h, t, refusal));
        refusal
    }
}

/// What a good reset comes to, given what was drawn for it.
pub open spec fn password_replaced(
    before: World,
    after: World,
    name: Seq<char>,
    password: Seq<char>,
    hash: Seq<char>,
    token: Seq<char>,
    refusal: Option<ApiError>,
) -> bool {
    &&& password_checked(hash, encode_utf8(password)) == Some(true)
    &&& exists|salt: Seq<u8>|
        salt.len() == 16 && #[trigger] password_hashed(encode_utf8(password), salt) == Some(hash)
    &&& exists|raw: Seq<u8>| raw.len() == 32 && token == #[trigger] b64url_encoded(raw)
    &&& if token_free(before.store.accounts, token, name) {
        refusal is None && after == after_reset(before, name, hash, token)
    } else {
        refusal == Some(ApiError::Internal) && after == before
    }
}

/// What a login on a new device comes to, given the token that was drawn.
pub open spec fn device_replaced(
    before: World,
    after: World,
    name: Seq<char>,
    token: Seq<char>,
    now: i64,
    reply: Result<Session, ApiError>,
) -> bool {
    &&& exists|raw: Seq<u8>| raw.len() == 32 && token == #[trigger] b64url_encoded(raw)
    &&& if token_fresh(before.store.accounts, token) {
        &&& reply is Ok
        &&& reply->Ok_0.token@ == token
        &&& reply->Ok_0.dropped == (if before.live.contains_key(name) {
            Some(before.live[name])
        } else {
            None
        })
        &&& after == taken_over(before, name, token, now)
        &&& before.live.contains_key(name) ==> told(
            notices(reply->Ok_0.notices@),
            watchers(after, name),
            after.live,
            PushView::ContactsChanged,
        )
        &&& !before.live.contains_key(name) ==> reply->Ok_0.notices@.len() == 0
    } else {
        reply == Err::<Session, ApiError>(ApiError::Internal) && after == before
    }
}

} // verus!
