//! What holds of accounts and sessions.
#[allow(unused_imports)]
use vstd::utf8::encode_utf8;
use vstd::prelude::*;

#[allow(unused_imports)]
use crate::password::password_checked;
#[allow(unused_imports)]
use crate::ratelimit::{an_attempt_goes_on_record, recent_of, AttemptsView};
#[allow(unused_imports)]
use crate::server::accounts::{
    password_fault, registered, registered_account, registration_fault, registration_refusal,
    storing_refusal, token_free, with_account, RegisterRequest, Registered,
};
#[allow(unused_imports)]
use crate::server::errors::ApiError;
#[allow(unused_imports)]
use crate::server::keys::bundle_refusal;
#[allow(unused_imports)]
use crate::server::limits::{judged, judged_by_both, passes, passes_both};
#[allow(unused_imports)]
use crate::server::messages::send_refusal;
#[allow(unused_imports)]
use crate::server::sessions::{
    after_login, after_reset, after_reset_check, after_verification, device_replaced, forgot_passes,
    is_verified, login_passes, login_refusal, password_replaced, reset_failed, reset_issued,
    reset_passes, reset_refusal, speaks_through, taken_over, token_fresh, verification_done,
    verification_failed, verification_passes, verification_refusal, Session,
};
#[allow(unused_imports)]
use crate::server::store::{
    is_username, is_username_char, sound, AccountView, Presence, Store, World,
};
#[allow(unused_imports)]
use crate::text::lowercased;

verus! {

/// A registration is in order exactly where the name has from 1 to 32 letters,
/// digits or underscores, the alias at most 64 bytes, the address an `@` and at
/// most 254 bytes, the password from 8 to 1024 bytes, and the key at most 65536.
pub proof fn what_a_registration_needs(req: RegisterRequest)
    ensures
        registration_fault(req) is None <==> {
            let name = lowercased(req.username@);
            &&& 1 <= name.len() <= 32
            &&& forall|i: int|
                0 <= i < name.len() ==> ('a' <= (#[trigger] name[i]) <= 'z') || ('A' <= name[i]
                    <= 'Z') || ('0' <= name[i] <= '9') || name[i] == '_'
            &&& encode_utf8(req.alias@).len() <= 64
            &&& req.email@.contains('@')
            &&& encode_utf8(req.email@).len() <= 254
            &&& 8 <= encode_utf8(req.password@).len() <= 1024
            &&& encode_utf8(req.identity_key@).len() <= 65_536
        },
        encode_utf8(req.password@).len() < 8 ==> password_fault(req.password@) == Some(
            ApiError::WeakPassword,
        ),
        encode_utf8(req.password@).len() > 1024 ==> password_fault(req.password@) == Some(
            ApiError::PasswordTooLong,
        ),
{
    let name = lowercased(req.username@);
    assert(is_username(name) == (1 <= name.len() <= 32 && forall|i: int|
        0 <= i < name.len() ==> ('a' <= (#[trigger] name[i]) <= 'z') || ('A' <= name[i] <= 'Z') || (
        '0' <= name[i] <= '9') || name[i] == '_')) by {
        if is_username(name) {
            assert forall|i: int| 0 <= i < name.len() implies ('a' <= (#[trigger] name[i]) <= 'z')
                || ('A' <= name[i] <= 'Z') || ('0' <= name[i] <= '9') || name[i] == '_' by {
                assert(is_username_char(name[i]));
            }
        }
    }
}

/// A registration is kept as it was asked for: the account has the alias, the
/// address, the number and the key of the request, a password that checks, and is
/// not verified yet. Everything else of the relay stays as it was.
pub proof fn a_registration_is_kept_as_it_was_asked_for(
    before: World,
    after: World,
    req: RegisterRequest,
    ip: Seq<char>,
    now: i64,
    hash: Seq<char>,
    token: Seq<char>,
    code: Seq<char>,
    reply: Result<Registered, ApiError>,
    other: Seq<char>,
)
    requires
        registered(before, after, req, ip, now, hash, token, code, reply),
        reply is Ok,
        other != lowercased(req.username@),
        0 <= now <= i64::MAX - 86_400_000,
    ensures
        ({
            let name = lowercased(req.username@);
            let account = after.store.accounts[name];
            &&& after.store.accounts.contains_key(name)
            &&& account.alias == req.alias@
            &&& account.email == req.email@
            &&& account.registration_id == req.registration_id
            &&& account.identity_key == req.identity_key@
            &&& account.token == token
            &&& account.verify_code == Some(code)
            &&& account.verify_expires == Some((now + 86_400_000) as i64)
            &&& account.verify_attempts == 0
            &&& !account.verified
            &&& password_checked(account.password_hash, encode_utf8(req.password@)) == Some(true)
            &&& reply->Ok_0.username@ == name
            &&& reply->Ok_0.email@ == req.email@
            &&& reply->Ok_0.code@ == code
            &&& !before.store.accounts.contains_key(name) ==> account.status == Presence::Online
                && account.bundle_static is None && account.last_seen is None
                && account.reset_code is None && account.created_at == now
        }),
        after.store.accounts.contains_key(other) == before.store.accounts.contains_key(other),
        after.store.accounts.contains_key(other) ==> after.store.accounts[other]
            == before.store.accounts[other],
        after.store == (Store { accounts: after.store.accounts, ..before.store }),
        after.live == before.live,
{
}

/// A registration fails where the name belongs to a verified account, and then
/// nothing changes.
pub proof fn a_taken_name_stays_taken(
    before: World,
    after: World,
    req: RegisterRequest,
    ip: Seq<char>,
    now: i64,
    hash: Seq<char>,
    token: Seq<char>,
    code: Seq<char>,
    reply: Result<Registered, ApiError>,
)
    requires
        registered(before, after, req, ip, now, hash, token, code, reply),
        is_verified(before.store, lowercased(req.username@)),
    ensures
        reply == Err::<Registered, ApiError>(ApiError::UsernameTaken),
        after.store == before.store,
{
}

/// A verification code opens the account it was sent for, for a day, and no other
/// code does.
pub proof fn a_code_opens_its_account_for_a_day(
    w: World,
    req: RegisterRequest,
    hash: Seq<char>,
    token: Seq<char>,
    code: Seq<char>,
    sent_at: i64,
    tried: Seq<char>,
    ip: Seq<char>,
    now: i64,
)
    requires
        storing_refusal(w, lowercased(req.username@), token) is None,
        0 <= sent_at <= i64::MAX - 86_400_000,
        ({
            let name = lowercased(req.username@);
            verification_passes(
                with_account(w, name, registered_account(w.store, req, hash, token, code, sent_at)),
                name,
                ip,
                now,
            )
        }),
    ensures
        ({
            let name = lowercased(req.username@);
            let stored = with_account(
                w,
                name,
                registered_account(w.store, req, hash, token, code, sent_at),
            );
            let refusal = verification_refusal(stored, name, tried, ip, now);
            let after = after_verification(stored, name, tried, ip, now);
            &&& refusal is None <==> tried == code && now < sent_at + 86_400_000
            &&& refusal is Some ==> refusal == Some(ApiError::InvalidCode) && !is_verified(
                after.store,
                name,
            )
            &&& refusal is None ==> is_verified(after.store, name) && speaks_through(
                after.store,
                name,
                "Bearer "@ + token,
            )
        }),
{
}

/// Verifying an account changes that it is verified, and uses the code up; a wrong
/// code counts as an attempt. Nothing else of the account changes, and no other
/// account does.
pub proof fn verifying_changes_nothing_else(
    w: World,
    name: Seq<char>,
    code: Seq<char>,
    ip: Seq<char>,
    now: i64,
    other: Seq<char>,
)
    requires
        w.store.accounts.contains_key(name),
        w.store.accounts[name].verify_attempts < i64::MAX,
        other != name,
    ensures
        ({
            let was = w.store.accounts[name];
            let after = after_verification(w, name, code, ip, now);
            let is = after.store.accounts[name];
            &&& is.alias == was.alias && is.email == was.email && is.password_hash
                == was.password_hash && is.token == was.token && is.status == was.status
                && is.last_seen == was.last_seen && is.identity_key == was.identity_key
                && is.registration_id == was.registration_id && is.bundle_static
                == was.bundle_static && is.created_at == was.created_at && is.reset_code
                == was.reset_code
            &&& is.verified == (was.verified || verification_refusal(w, name, code, ip, now) is None)
            &&& verification_refusal(w, name, code, ip, now) is None ==> is.verify_code is None
            &&& verification_refusal(w, name, code, ip, now) == Some(ApiError::InvalidCode)
                && was.verify_attempts < 5 ==> is.verify_attempts == was.verify_attempts + 1
            &&& after.store.accounts.contains_key(other) == w.store.accounts.contains_key(other)
            &&& after.store.accounts.contains_key(other) ==> after.store.accounts[other]
                == w.store.accounts[other]
            &&& after.store == (Store { accounts: after.store.accounts, ..w.store })
            &&& after.live == w.live
        }),
        !w.store.accounts.contains_key(other) && verification_passes(w, other, ip, now)
            ==> verification_refusal(w, other, code, ip, now) == Some(ApiError::NotFound),
        w.store.accounts[name].verified && verification_passes(w, name, ip, now)
            ==> verification_refusal(w, name, code, ip, now) == Some(ApiError::AlreadyVerified),
        w.store.accounts[name].verify_attempts >= 5 ==> verification_refusal(
            w,
            name,
            code,
            ip,
            now,
        ) is Some,
{
}

/// Exactly the right password of a verified account logs in; it logs in to that
/// account alone, changes nothing that is stored, and clears the count of wrong
/// attempts.
pub proof fn the_right_password_logs_in(
    w: World,
    name: Seq<char>,
    password: Seq<char>,
    ip: Seq<char>,
    now: i64,
)
    requires
        login_passes(w, name, ip, now),
    ensures
        login_refusal(w, name, password, ip, now) is None <==> w.store.accounts.contains_key(name)
            && w.store.accounts[name].verified && password_checked(
            w.store.accounts[name].password_hash,
            encode_utf8(password),
        ) == Some(true),
        !w.store.accounts.contains_key(name) ==> login_refusal(w, name, password, ip, now) == Some(
            ApiError::InvalidCredentials,
        ),
        w.store.accounts.contains_key(name) && password_checked(
            w.store.accounts[name].password_hash,
            encode_utf8(password),
        ) == Some(false) ==> login_refusal(w, name, password, ip, now) == Some(
            ApiError::InvalidCredentials,
        ),
        w.store.accounts.contains_key(name) && !w.store.accounts[name].verified && password_checked(
            w.store.accounts[name].password_hash,
            encode_utf8(password),
        ) == Some(true) ==> login_refusal(w, name, password, ip, now) == Some(ApiError::NotVerified),
        after_login(w, name, password, ip, now).store == w.store,
        after_login(w, name, password, ip, now).live == w.live,
        login_refusal(w, name, password, ip, now) is None ==> !after_login(
            w,
            name,
            password,
            ip,
            now,
        ).hits.contains_key("login:"@ + name),
{
}

/// A login on a new device hands out a session that works, ends the stream of the
/// old device, and leaves everything else of the account, and every other account,
/// as it was.
pub proof fn a_new_session_works(
    before: World,
    after: World,
    name: Seq<char>,
    token: Seq<char>,
    now: i64,
    reply: Result<Session, ApiError>,
    other: Seq<char>,
)
    requires
        device_replaced(before, after, name, token, now, reply),
        reply is Ok,
        is_verified(before.store, name),
        other != name,
    ensures
        speaks_through(after.store, name, "Bearer "@ + reply->Ok_0.token@),
        !after.live.contains_key(name),
        before.live.contains_key(name) ==> reply->Ok_0.dropped == Some(before.live[name]),
        !before.live.contains_key(name) ==> reply->Ok_0.dropped is None,
        ({
            let was = before.store.accounts[name];
            let is = after.store.accounts[name];
            &&& is == (AccountView { token: is.token, last_seen: is.last_seen, ..was })
            &&& before.live.contains_key(name) ==> is.last_seen == Some(now)
            &&& !before.live.contains_key(name) ==> is.last_seen == was.last_seen
        }),
        after.store.accounts.contains_key(other) == before.store.accounts.contains_key(other),
        after.store.accounts.contains_key(other) ==> after.store.accounts[other]
            == before.store.accounts[other],
        after.live.contains_key(other) == before.live.contains_key(other),
        after.store == (Store { accounts: after.store.accounts, ..before.store }),
{
}

/// A reset code replaces the password of the account it was sent for, for an hour,
/// and no other code does.
pub proof fn a_reset_code_holds_for_an_hour(
    w: World,
    name: Seq<char>,
    code: Seq<char>,
    sent_at: i64,
    tried: Seq<char>,
    password: Seq<char>,
    ip: Seq<char>,
    now: i64,
)
    requires
        w.store.accounts.contains_key(name),
        0 <= sent_at <= i64::MAX - 3_600_000,
        8 <= encode_utf8(password).len() <= 1024,
        reset_passes(
            with_account(w, name, reset_issued(w.store.accounts[name], code, sent_at)),
            name,
            ip,
            now,
        ),
    ensures
        ({
            let issued = with_account(
                w,
                name,
                reset_issued(w.store.accounts[name], code, sent_at),
            );
            let refusal = reset_refusal(issued, name, tried, password, ip, now);
            &&& refusal is None <==> tried == code && now < sent_at + 3_600_000
            &&& refusal is Some ==> refusal == Some(ApiError::InvalidCode)
            &&& issued.store.accounts[name] == (AccountView {
                reset_code: issued.store.accounts[name].reset_code,
                reset_expires: issued.store.accounts[name].reset_expires,
                reset_attempts: issued.store.accounts[name].reset_attempts,
                ..w.store.accounts[name]
            })
        }),
{
}

/// A reset puts the new password in the place of the old one: it logs in from then
/// on, the code is used up, and nothing else of the account changes, nor any other
/// account.
pub proof fn a_reset_replaces_the_password(
    before: World,
    after: World,
    name: Seq<char>,
    password: Seq<char>,
    hash: Seq<char>,
    token: Seq<char>,
    tried: Seq<char>,
    ip: Seq<char>,
    now: i64,
    other: Seq<char>,
)
    requires
        password_replaced(before, after, name, password, hash, token, None),
        before.store.accounts.contains_key(name),
        other != name,
    ensures
        ({
            let was = before.store.accounts[name];
            let is = after.store.accounts[name];
            &&& password_checked(is.password_hash, encode_utf8(password)) == Some(true)
            &&& is.token == token
            &&& is.reset_code is None
            &&& is == (AccountView {
                password_hash: is.password_hash,
                token: is.token,
                reset_code: is.reset_code,
                reset_expires: is.reset_expires,
                reset_attempts: is.reset_attempts,
                ..was
            })
        }),
        reset_refusal(after, name, tried, password, ip, now) is Some,
        before.store.accounts[name].verified && login_passes(after, name, ip, now) ==> login_refusal(
            after,
            name,
            password,
            ip,
            now,
        ) is None,
        !after.hits.contains_key("login:"@ + name),
        after.store.accounts.contains_key(other) == before.store.accounts.contains_key(other),
        after.store.accounts.contains_key(other) ==> after.store.accounts[other]
            == before.store.accounts[other],
        after.store == (Store { accounts: after.store.accounts, ..before.store }),
{
}

/// A wrong reset code counts as an attempt and changes nothing else; neither does
/// a password that will not do.
pub proof fn a_wrong_reset_code_changes_nothing_else(
    w: World,
    name: Seq<char>,
    code: Seq<char>,
    password: Seq<char>,
    ip: Seq<char>,
    now: i64,
    other: Seq<char>,
)
    requires
        w.store.accounts.contains_key(name),
        other != name,
    ensures
        ({
            let was = w.store.accounts[name];
            let after = after_reset_check(w, name, code, password, ip, now);
            let is = after.store.accounts[name];
            &&& is == (AccountView {
                reset_code: is.reset_code,
                reset_attempts: is.reset_attempts,
                ..was
            })
            &&& reset_refusal(w, name, code, password, ip, now) != Some(ApiError::InvalidCode)
                ==> is == was
            &&& was.reset_attempts >= 5 ==> reset_refusal(w, name, code, password, ip, now) is Some
            &&& reset_refusal(w, name, code, password, ip, now) == Some(ApiError::InvalidCode)
                && was.reset_attempts < 5 ==> is.reset_attempts == was.reset_attempts + 1
            &&& after.store.accounts.contains_key(other) ==> after.store.accounts[other]
                == w.store.accounts[other]
            &&& after.store.links == w.store.links && after.store.messages == w.store.messages
        }),
        reset_passes(w, name, ip, now) && encode_utf8(password).len() < 8 ==> reset_refusal(
            w,
            name,
            code,
            password,
            ip,
            now,
        ) == Some(ApiError::WeakPassword),
{
}

/// Whoever has not tried yet is not held up.
pub open spec fn untried(w: World, key: Seq<char>) -> bool {
    !w.hits.contains_key(key)
}

proof fn lemma_untried_passes(w: World, key: Seq<char>, max: usize, window_ms: i64, now: i64)
    requires
        untried(w, key),
        max > 0,
    ensures
        passes(w, key, max, window_ms, now),
{
    reveal(Seq::filter);
}

/// The budgets count for whom they are meant for: an account and an address that
/// were not tried yet are let through, whatever others did.
pub proof fn nobody_is_held_up_for_others(
    w: World,
    name: Seq<char>,
    ip: Seq<char>,
    now: i64,
)
    ensures
        untried(w, "login:"@ + name) && untried(
            judged(w, "login:"@ + name, 10, 900_000, now),
            "login-ip:"@ + ip,
        ) ==> login_passes(w, name, ip, now),
        untried(w, "verify:"@ + name) && untried(
            judged(w, "verify:"@ + name, 5, 900_000, now),
            "verify-ip:"@ + ip,
        ) ==> verification_passes(w, name, ip, now),
        untried(w, "forgot:"@ + name) && untried(
            judged(w, "forgot:"@ + name, 3, 3_600_000, now),
            "forgot-ip:"@ + ip,
        ) ==> forgot_passes(w, name, ip, now),
        untried(w, "reset:"@ + name) && untried(
            judged(w, "reset:"@ + name, 5, 900_000, now),
            "reset-ip:"@ + ip,
        ) ==> reset_passes(w, name, ip, now),
{
    if untried(w, "login:"@ + name) {
        lemma_untried_passes(w, "login:"@ + name, 10, 900_000, now);
    }
    if untried(w, "verify:"@ + name) {
        lemma_untried_passes(w, "verify:"@ + name, 5, 900_000, now);
    }
    if untried(w, "forgot:"@ + name) {
        lemma_untried_passes(w, "forgot:"@ + name, 3, 3_600_000, now);
    }
    if untried(w, "reset:"@ + name) {
        lemma_untried_passes(w, "reset:"@ + name, 5, 900_000, now);
    }
    let login = judged(w, "login:"@ + name, 10, 900_000, now);
    if untried(login, "login-ip:"@ + ip) {
        lemma_untried_passes(login, "login-ip:"@ + ip, 30, 900_000, now);
    }
    let verify = judged(w, "verify:"@ + name, 5, 900_000, now);
    if untried(verify, "verify-ip:"@ + ip) {
        lemma_untried_passes(verify, "verify-ip:"@ + ip, 20, 900_000, now);
    }
    let forgot = judged(w, "forgot:"@ + name, 3, 3_600_000, now);
    if untried(forgot, "forgot-ip:"@ + ip) {
        lemma_untried_passes(forgot, "forgot-ip:"@ + ip, 10, 3_600_000, now);
    }
    let reset = judged(w, "reset:"@ + name, 5, 900_000, now);
    if untried(reset, "reset-ip:"@ + ip) {
        lemma_untried_passes(reset, "reset-ip:"@ + ip, 20, 900_000, now);
    }
}

/// Guessing is held up: within a quarter of an hour an account takes 10 logins, 5
/// verification codes and 5 reset codes, and within an hour it is sent 3 reset
/// codes.
pub proof fn guessing_is_held_up(
    w: World,
    name: Seq<char>,
    secret: Seq<char>,
    password: Seq<char>,
    ip: Seq<char>,
    now: i64,
)
    ensures
        recent_of(w.hits, "login:"@ + name, 900_000, now).len() >= 10 ==> login_refusal(
            w,
            name,
            password,
            ip,
            now,
        ) == Some(ApiError::RateLimited),
        recent_of(w.hits, "verify:"@ + name, 900_000, now).len() >= 5 ==> verification_refusal(
            w,
            name,
            secret,
            ip,
            now,
        ) == Some(ApiError::RateLimited),
        recent_of(w.hits, "reset:"@ + name, 900_000, now).len() >= 5 ==> reset_refusal(
            w,
            name,
            secret,
            password,
            ip,
            now,
        ) == Some(ApiError::RateLimited),
        recent_of(w.hits, "forgot:"@ + name, 3_600_000, now).len() >= 3 ==> !forgot_passes(
            w,
            name,
            ip,
            now,
        ),
{
}

/// From one address come at most 5 registrations an hour, and for one mail address
/// at most 3. An account sends 120 messages and archives 600 entries a minute at
/// most, and within an hour fetches 600 bundles, looks up 600 profiles and asks for
/// 20 contacts; names that are not there it may try 5 times.
pub proof fn flooding_is_held_up(
    w: World,
    req: RegisterRequest,
    me: Seq<char>,
    recipient: Seq<char>,
    body: Seq<char>,
    ip: Seq<char>,
    now: i64,
)
    ensures
        recent_of(w.hits, "reg-ip:"@ + ip, 3_600_000, now).len() >= 5 ==> registration_refusal(
            w,
            req,
            ip,
            now,
        ) == Some(ApiError::RateLimited),
        recent_of(
            judged(w, "reg-ip:"@ + ip, 5, 3_600_000, now).hits,
            "reg-mail:"@ + lowercased(req.email@),
            3_600_000,
            now,
        ).len() >= 3 ==> registration_refusal(w, req, ip, now) == Some(ApiError::RateLimited),
        recent_of(w.hits, "send:"@ + me, 60_000, now).len() >= 120 <==> send_refusal(
            w,
            me,
            recipient,
            body,
            now,
        ) == Some(ApiError::RateLimited),
        recent_of(w.hits, "bundle:"@ + me, 3_600_000, now).len() >= 600 <==> bundle_refusal(
            w,
            me,
            recipient,
            now,
        ) == Some(ApiError::RateLimited),
        recent_of(w.hits, "profile:"@ + me, 3_600_000, now).len() >= 600 || (!is_verified(
            w.store,
            recipient,
        ) && recent_of(
            judged(w, "profile:"@ + me, 600, 3_600_000, now).hits,
            "profile-miss:"@ + me,
            3_600_000,
            now,
        ).len() >= 5) <==> crate::server::profile::profile_refusal(w, me, recipient, now) == Some(
            ApiError::RateLimited,
        ),
        me != recipient && (recent_of(w.hits, "contact:"@ + me, 3_600_000, now).len() >= 20 || (
        !is_verified(w.store, recipient) && recent_of(
            judged(w, "contact:"@ + me, 20, 3_600_000, now).hits,
            "contact-miss:"@ + me,
            3_600_000,
            now,
        ).len() >= 5)) <==> crate::server::contacts::request_refusal(w, me, recipient, now) == Some(
            ApiError::RateLimited,
        ),
        encode_utf8(body).len() <= 128 ==> (recent_of(w.hits, "archive:"@ + me, 60_000, now).len()
            >= 600 <==> crate::server::history::archive_refusal(w, me, body, now) == Some(
            ApiError::RateLimited,
        )),
{
}

/// Every try counts: a login that fails, a code that is tried, a code that is asked
/// for and a registration each use up one of the budget of the account.
pub proof fn every_try_counts(
    w: World,
    req: RegisterRequest,
    name: Seq<char>,
    secret: Seq<char>,
    password: Seq<char>,
    ip: Seq<char>,
    now: i64,
)
    ensures
        login_passes(w, name, ip, now) && login_refusal(w, name, password, ip, now) is Some
            ==> recent_of(
            after_login(w, name, password, ip, now).hits,
            "login:"@ + name,
            900_000,
            now,
        ).len() == recent_of(w.hits, "login:"@ + name, 900_000, now).len() + 1,
        verification_passes(w, name, ip, now) ==> recent_of(
            after_verification(w, name, secret, ip, now).hits,
            "verify:"@ + name,
            900_000,
            now,
        ).len() == recent_of(w.hits, "verify:"@ + name, 900_000, now).len() + 1,
        reset_passes(w, name, ip, now) ==> recent_of(
            after_reset_check(w, name, secret, password, ip, now).hits,
            "reset:"@ + name,
            900_000,
            now,
        ).len() == recent_of(w.hits, "reset:"@ + name, 900_000, now).len() + 1,
        forgot_passes(w, name, ip, now) ==> recent_of(
            crate::server::sessions::forgot_judged(w, name, ip, now).hits,
            "forgot:"@ + name,
            3_600_000,
            now,
        ).len() == recent_of(w.hits, "forgot:"@ + name, 3_600_000, now).len() + 1,
        registration_refusal(w, req, ip, now) != Some(ApiError::RateLimited) ==> recent_of(
            crate::server::accounts::registration_judged(w, req, ip, now).hits,
            "reg-ip:"@ + ip,
            3_600_000,
            now,
        ).len() == recent_of(w.hits, "reg-ip:"@ + ip, 3_600_000, now).len() + 1,
{
    reveal_strlit("login:");
    reveal_strlit("login-ip:");
    reveal_strlit("verify:");
    reveal_strlit("verify-ip:");
    reveal_strlit("reset:");
    reveal_strlit("reset-ip:");
    reveal_strlit("forgot:");
    reveal_strlit("forgot-ip:");
    reveal_strlit("reg-ip:");
    reveal_strlit("reg-mail:");
    let mail = lowercased(req.email@);
    assert(("login:"@ + name)[5] == ':' && ("login-ip:"@ + ip)[5] == '-');
    assert(("verify:"@ + name)[6] == ':' && ("verify-ip:"@ + ip)[6] == '-');
    assert(("reset:"@ + name)[5] == ':' && ("reset-ip:"@ + ip)[5] == '-');
    assert(("forgot:"@ + name)[6] == ':' && ("forgot-ip:"@ + ip)[6] == '-');
    assert(("reg-ip:"@ + ip)[4] == 'i' && ("reg-mail:"@ + mail)[4] == 'm');
    if login_passes(w, name, ip, now) {
        an_attempt_goes_on_record(
            w.hits,
            "login:"@ + name,
            10,
            900_000,
            now,
            "login-ip:"@ + ip,
            30,
            900_000,
        );
    }
    if verification_passes(w, name, ip, now) {
        an_attempt_goes_on_record(
            w.hits,
            "verify:"@ + name,
            5,
            900_000,
            now,
            "verify-ip:"@ + ip,
            20,
            900_000,
        );
    }
    if reset_passes(w, name, ip, now) {
        an_attempt_goes_on_record(
            w.hits,
            "reset:"@ + name,
            5,
            900_000,
            now,
            "reset-ip:"@ + ip,
            20,
            900_000,
        );
    }
    if forgot_passes(w, name, ip, now) {
        an_attempt_goes_on_record(
            w.hits,
            "forgot:"@ + name,
            3,
            3_600_000,
            now,
            "forgot-ip:"@ + ip,
            10,
            3_600_000,
        );
    }
    if registration_refusal(w, req, ip, now) != Some(ApiError::RateLimited) {
        an_attempt_goes_on_record(
            w.hits,
            "reg-ip:"@ + ip,
            5,
            3_600_000,
            now,
            "reg-mail:"@ + mail,
            3,
            3_600_000,
        );
    }
}

/// An address is held up too, whatever accounts it tries: after 30 logins, 20
/// verification codes or 20 reset codes within a quarter of an hour, and after 10
/// reset codes that it asked for within an hour.
pub proof fn an_address_is_held_up_too(w: World, name: Seq<char>, ip: Seq<char>, now: i64)
    ensures
        login_passes(w, name, ip, now) == (recent_of(w.hits, "login:"@ + name, 900_000, now).len()
            < 10 && recent_of(
            judged(w, "login:"@ + name, 10, 900_000, now).hits,
            "login-ip:"@ + ip,
            900_000,
            now,
        ).len() < 30),
        verification_passes(w, name, ip, now) == (recent_of(
            w.hits,
            "verify:"@ + name,
            900_000,
            now,
        ).len() < 5 && recent_of(
            judged(w, "verify:"@ + name, 5, 900_000, now).hits,
            "verify-ip:"@ + ip,
            900_000,
            now,
        ).len() < 20),
        reset_passes(w, name, ip, now) == (recent_of(w.hits, "reset:"@ + name, 900_000, now).len()
            < 5 && recent_of(
            judged(w, "reset:"@ + name, 5, 900_000, now).hits,
            "reset-ip:"@ + ip,
            900_000,
            now,
        ).len() < 20),
        forgot_passes(w, name, ip, now) == (recent_of(
            w.hits,
            "forgot:"@ + name,
            3_600_000,
            now,
        ).len() < 3 && recent_of(
            judged(w, "forgot:"@ + name, 3, 3_600_000, now).hits,
            "forgot-ip:"@ + ip,
            3_600_000,
            now,
        ).len() < 10),
{
}

/// Every use counts: a message, a bundle, a profile, a request for a contact and an
/// archived entry each use up one of the budget of the account they come from.
pub proof fn every_use_counts(
    w: World,
    me: Seq<char>,
    name: Seq<char>,
    id: Seq<char>,
    blob: Seq<char>,
    now: i64,
)
    ensures
        passes(w, "send:"@ + me, 120, 60_000, now) ==> recent_of(
            crate::server::messages::send_judged(w, me, now).hits,
            "send:"@ + me,
            60_000,
            now,
        ) == recent_of(w.hits, "send:"@ + me, 60_000, now).push(now),
        passes(w, "bundle:"@ + me, 600, 3_600_000, now) ==> recent_of(
            crate::server::keys::bundle_judged(w, me, now).hits,
            "bundle:"@ + me,
            3_600_000,
            now,
        ) == recent_of(w.hits, "bundle:"@ + me, 3_600_000, now).push(now),
        passes(w, "profile:"@ + me, 600, 3_600_000, now) ==> recent_of(
            crate::server::profile::profile_judged(w, me, name, now).hits,
            "profile:"@ + me,
            3_600_000,
            now,
        ) == recent_of(w.hits, "profile:"@ + me, 3_600_000, now).push(now),
        me != name && passes(w, "contact:"@ + me, 20, 3_600_000, now) ==> recent_of(
            crate::server::contacts::after_request(w, me, name, now).hits,
            "contact:"@ + me,
            3_600_000,
            now,
        ) == recent_of(w.hits, "contact:"@ + me, 3_600_000, now).push(now),
        encode_utf8(id).len() <= 128 && passes(w, "archive:"@ + me, 600, 60_000, now) ==> recent_of(
            crate::server::history::after_archive(w, me, id, blob, now).hits,
            "archive:"@ + me,
            60_000,
            now,
        ) == recent_of(w.hits, "archive:"@ + me, 60_000, now).push(now),
{
    reveal_strlit("profile:");
    reveal_strlit("profile-miss:");
    reveal_strlit("contact:");
    reveal_strlit("contact-miss:");
    assert(("profile:"@ + me)[7] == ':' && ("profile-miss:"@ + me)[7] == '-');
    assert(("contact:"@ + me)[7] == ':' && ("contact-miss:"@ + me)[7] == '-');
    let send = "send:"@ + me;
    let bundle = "bundle:"@ + me;
    let archive = "archive:"@ + me;
    assert(send.push('.').len() == send.len() + 1);
    assert(bundle.push('.').len() == bundle.len() + 1);
    assert(archive.push('.').len() == archive.len() + 1);
    if passes(w, send, 120, 60_000, now) {
        an_attempt_goes_on_record(w.hits, send, 120, 60_000, now, send.push('.'), 1, 1);
    }
    if passes(w, bundle, 600, 3_600_000, now) {
        an_attempt_goes_on_record(w.hits, bundle, 600, 3_600_000, now, bundle.push('.'), 1, 1);
    }
    if passes(w, archive, 600, 60_000, now) {
        an_attempt_goes_on_record(w.hits, archive, 600, 60_000, now, archive.push('.'), 1, 1);
    }
    if passes(w, "profile:"@ + me, 600, 3_600_000, now) {
        an_attempt_goes_on_record(
            w.hits,
            "profile:"@ + me,
            600,
            3_600_000,
            now,
            "profile-miss:"@ + me,
            5,
            3_600_000,
        );
    }
    if passes(w, "contact:"@ + me, 20, 3_600_000, now) {
        an_attempt_goes_on_record(
            w.hits,
            "contact:"@ + me,
            20,
            3_600_000,
            now,
            "contact-miss:"@ + me,
            5,
            3_600_000,
        );
    }
}

/// An address uses up its own budget with every try that its account was let
/// through with, and nothing of it with a try that was stopped before.
pub proof fn an_address_uses_up_its_own_budget(
    w: World,
    account: Seq<char>,
    account_max: usize,
    address: Seq<char>,
    address_max: usize,
    window_ms: i64,
    now: i64,
)
    requires
        account != address,
        window_ms > 0,
    ensures
        ({
            let once = judged(w, account, account_max, window_ms, now);
            let both = judged_by_both(
                w,
                account,
                account_max,
                address,
                address_max,
                window_ms,
                now,
            );
            &&& passes_both(w, account, account_max, address, address_max, window_ms, now)
                ==> recent_of(both.hits, address, window_ms, now) == recent_of(
                once.hits,
                address,
                window_ms,
                now,
            ).push(now)
            &&& !passes(w, account, account_max, window_ms, now) ==> both == once
            &&& both.store == w.store && both.live == w.live
        }),
{
    let once = judged(w, account, account_max, window_ms, now);
    if passes_both(w, account, account_max, address, address_max, window_ms, now) {
        an_attempt_goes_on_record(
            once.hits,
            address,
            address_max,
            window_ms,
            now,
            account,
            account_max,
            window_ms,
        );
    }
}

} // verus!
