//! Profiles and presence.
#[allow(unused_imports)]
use vstd::utf8::encode_utf8;
use vstd::prelude::*;

#[allow(unused_imports)]
use crate::server::accounts::with_account;
#[allow(unused_imports)]
use crate::server::contacts::presence_of;
use crate::server::errors::ApiError;
#[allow(unused_imports)]
use crate::server::limits::{judged, passes};
use crate::server::limits::{
    HOUR, MAX_ALIAS_BYTES, MAX_PROFILE_LOOKUPS_PER_HOUR, MAX_UNKNOWN_LOOKUPS_PER_HOUR,
};
use crate::server::live::Notice;
#[allow(unused_imports)]
use crate::server::live::{lemma_account_kept, notices, told, watchers, PushView};
use crate::server::sessions::AuthUser;
#[allow(unused_imports)]
use crate::server::sessions::is_verified;
#[allow(unused_imports)]
use crate::server::store::{AccountView, World};
use crate::server::store::{Presence, Relay, Write};
#[allow(unused_imports)]
use crate::text::{lowercased, trimmed};
use crate::text::{byte_len, join2, lowercase, same_text, trim};

verus! {

/// How a presence is written; "offline" where there is none.
pub open spec fn presence_text(presence: Option<Presence>) -> Seq<char> {
    match presence {
        Some(Presence::Online) => "online"@,
        Some(Presence::Away) => "away"@,
        Some(Presence::Busy) => "busy"@,
        None => "offline"@,
    }
}

/// The presence that a text names, if it can be chosen.
pub open spec fn presence_named(text: Seq<char>) -> Option<Presence> {
    if text == "online"@ {
        Some(Presence::Online)
    } else if text == "away"@ {
        Some(Presence::Away)
    } else if text == "busy"@ {
        Some(Presence::Busy)
    } else {
        None
    }
}

/// The presence as it is written.
pub fn write_presence(presence: Option<Presence>) -> (text: &'static str)
    ensures
        text@ == presence_text(presence),
{
    match presence {
        Some(Presence::Online) => "online",
        Some(Presence::Away) => "away",
        Some(Presence::Busy) => "busy",
        None => "offline",
    }
}

/// The presence that a text names, if it can be chosen.
pub fn read_presence(text: &str) -> (presence: Option<Presence>)
    ensures
        presence == presence_named(text@),
{
    if same_text(text, "online") {
        Some(Presence::Online)
    } else if same_text(text, "away") {
        Some(Presence::Away)
    } else if same_text(text, "busy") {
        Some(Presence::Busy)
    } else {
        None
    }
}

/// Every presence that can be chosen reads back as it was written, and "offline"
/// cannot be chosen.
pub proof fn presence_reads_back(presence: Option<Presence>)
    ensures
        presence_named(presence_text(presence)) == presence,
{
    reveal_strlit("online");
    reveal_strlit("away");
    reveal_strlit("busy");
    reveal_strlit("offline");
    assert("online"@.len() == 6 && "away"@.len() == 4 && "busy"@.len() == 4 && "offline"@.len()
        == 7);
    assert("away"@[0] == 'a' && "busy"@[0] == 'b');
}

/// What somebody sees of an account.
pub struct ProfileReply {
    pub username: String,
    pub alias: String,
    pub identity_key: String,
    /// Nothing while they are offline.
    pub status: Option<Presence>,
}

/// Why a profile is not shown, if so. Looking one up is how you find somebody
/// before adding them, so it is metered: a wide budget for lookups and a much
/// tighter one for misses.
pub open spec fn profile_refusal(w: World, me: Seq<char>, name: Seq<char>, now: i64) -> Option<
    ApiError,
> {
    let counted = judged(w, "profile:"@ + me, MAX_PROFILE_LOOKUPS_PER_HOUR, HOUR, now);
    if !passes(w, "profile:"@ + me, MAX_PROFILE_LOOKUPS_PER_HOUR, HOUR, now) {
        Some(ApiError::RateLimited)
    } else if is_verified(w.store, name) {
        None
    } else if passes(counted, "profile-miss:"@ + me, MAX_UNKNOWN_LOOKUPS_PER_HOUR, HOUR, now) {
        Some(ApiError::NotFound)
    } else {
        Some(ApiError::RateLimited)
    }
}

/// The relay once a lookup was counted.
pub open spec fn profile_judged(w: World, me: Seq<char>, name: Seq<char>, now: i64) -> World {
    let counted = judged(w, "profile:"@ + me, MAX_PROFILE_LOOKUPS_PER_HOUR, HOUR, now);
    if passes(w, "profile:"@ + me, MAX_PROFILE_LOOKUPS_PER_HOUR, HOUR, now) && !is_verified(
        w.store,
        name,
    ) {
        judged(counted, "profile-miss:"@ + me, MAX_UNKNOWN_LOOKUPS_PER_HOUR, HOUR, now)
    } else {
        counted
    }
}

/// Whether a display name can be taken as it is.
pub open spec fn alias_fits(alias: Seq<char>) -> bool {
    alias.len() > 0 && encode_utf8(alias).len() <= MAX_ALIAS_BYTES
}

/// Why a change of profile is refused, if so.
pub open spec fn update_refusal(alias: Option<&str>, status: Option<&str>) -> Option<ApiError> {
    if alias is Some && !alias_fits(trimmed(alias->0@)) {
        Some(ApiError::AliasLength)
    } else if status is Some && presence_named(status->0@) is None {
        Some(ApiError::InvalidStatus)
    } else {
        None
    }
}

/// The account after a change of profile. A display name that fits is taken even
/// where the presence that came with it is refused.
pub open spec fn account_updated(
    account: AccountView,
    alias: Option<&str>,
    status: Option<&str>,
) -> AccountView {
    let named = if alias is Some && alias_fits(trimmed(alias->0@)) {
        AccountView { alias: trimmed(alias->0@), ..account }
    } else {
        account
    };
    if update_refusal(alias, status) is None && status is Some {
        AccountView { status: presence_named(status->0@)->0, ..named }
    } else {
        named
    }
}

/// The caller's own profile, and who is told that it changed.
pub struct MeReply {
    pub username: String,
    pub alias: String,
    pub status: Presence,
    pub notices: Vec<Notice>,
}

impl Relay {
    /// The profile of a verified account.
    pub fn get_profile(&mut self, me: &AuthUser, username: &str, now: i64) -> (reply: Result<
        ProfileReply,
        ApiError,
    >)
        requires
            old(self).wf(),
        ensures
            final(self).wf(),
            final(self)@ == profile_judged(old(self)@, me.username@, lowercased(username@), now),
            match profile_refusal(old(self)@, me.username@, lowercased(username@), now) {
                Some(e) => reply == Err::<ProfileReply, ApiError>(e),
                None => {
                    let name = lowercased(username@);
                    let account = old(self)@.store.accounts[name];
                    &&& reply is Ok
                    &&& reply->Ok_0.username@ == name
                    &&& reply->Ok_0.alias@ == account.alias
                    &&& reply->Ok_0.identity_key@ == account.identity_key
                    &&& reply->Ok_0.status == presence_of(old(self)@, me.username@, name)
                },
            },
    {
        let name = lowercase(username);
        let key = join2("profile:", &me.username);
        if !self.pass(&key, MAX_PROFILE_LOOKUPS_PER_HOUR, HOUR, now) {
            return Err(ApiError::RateLimited);
        }
        if !self.has_verified(&name) {
            let misses = join2("profile-miss:", &me.username);
            if !self.pass(&misses, MAX_UNKNOWN_LOOKUPS_PER_HOUR, HOUR, now) {
                return Err(ApiError::RateLimited);
            }
            return Err(ApiError::NotFound);
        }
        let status = self.seen_presence(&me.username, &name);
        match self.accounts.get(&name) {
            Some(account) => Ok(
                ProfileReply {
                    alias: account.alias.clone(),
                    identity_key: account.identity_key.clone(),
                    status,
                    username: name,
                },
            ),
            None => {
                assert(false);
                Err(ApiError::NotFound)
            },
        }
    }

    /// Updates the caller's own profile: display name and/or chosen presence.
    pub fn update_me(&mut self, me: &AuthUser, alias: Option<&str>, status: Option<&str>) -> (reply:
        Result<MeReply, ApiError>)
        requires
            old(self).wf(),
            old(self)@.store.accounts.contains_key(me.username@),
        ensures
            final(self).wf(),
            final(self)@ == with_account(
                old(self)@,
                me.username@,
                account_updated(old(self)@.store.accounts[me.username@], alias, status),
            ),
            match update_refusal(alias, status) {
                Some(e) => reply == Err::<MeReply, ApiError>(e),
                None => {
                    let account = account_updated(
                        old(self)@.store.accounts[me.username@],
                        alias,
                        status,
                    );
                    &&& reply is Ok
                    &&& reply->Ok_0.username@ == me.username@
                    &&& reply->Ok_0.alias@ == account.alias
                    &&& reply->Ok_0.status == account.status
                    &&& alias is None && status is None ==> reply->Ok_0.notices@.len() == 0
                    &&& alias is Some || status is Some ==> told(
                        notices(reply->Ok_0.notices@),
                        watchers(final(self)@, me.username@),
                        final(self)@.live,
                        PushView::ContactsChanged,
                    )
                },
            },
    {
        let ghost before = self@;
        let mut row = match self.accounts.get(&me.username) {
            Some(account) => account.copy(),
            None => {
                assert(false);
                return Err(ApiError::Internal);
            },
        };
        if let Some(alias) = alias {
            let alias = trim(alias);
            if alias.as_str().is_empty() || byte_len(&alias) > MAX_ALIAS_BYTES {
                proof {
                    assert(before.store.accounts.insert(
                        me.username@,
                        before.store.accounts[me.username@],
                    ) =~= before.store.accounts);
                }
                return Err(ApiError::AliasLength);
            }
            row.alias = alias;
        }
        let mut fault = None;
        if let Some(status) = status {
            match read_presence(status) {
                Some(presence) => {
                    row.status = presence;
                },
                None => {
                    fault = Some(ApiError::InvalidStatus);
                },
            }
        }
        let named = row.alias.clone();
        let presence = row.status;
        proof {
            lemma_account_kept(self@.store, me.username@, row@);
        }
        self.write(Write::PutAccount { username: me.username.clone(), row });
        if let Some(fault) = fault {
            return Err(fault);
        }
        let notices = if alias.is_some() || status.is_some() {
            self.notify_watchers(&me.username)
        } else {
            Vec::new()
        };
        Ok(MeReply { username: me.username.clone(), alias: named, status: presence, notices })
    }

    /// Presence for a set of users: their chosen status while connected, or
    /// nothing (that is, offline) when they hold no live stream or have not
    /// accepted the caller.
    pub fn query_presence(&self, me: &AuthUser, usernames: &Vec<String>) -> (reply: Result<
        Vec<(String, Option<Presence>)>,
        ApiError,
    >)
        requires
            self.wf(),
        ensures
            usernames@.len() > 500 ==> reply == Err::<Vec<(String, Option<Presence>)>, ApiError>(
                ApiError::TooManyUsernames,
            ),
            usernames@.len() <= 500 ==> {
                &&& reply is Ok
                &&& reply->Ok_0@.len() == usernames@.len()
                &&& forall|i: int|
                    0 <= i < usernames@.len() ==> (#[trigger] reply->Ok_0@[i]).0@ == lowercased(
                        usernames@[i]@,
                    ) && reply->Ok_0@[i].1 == presence_of(
                        self@,
                        me.username@,
                        lowercased(usernames@[i]@),
                    )
            },
    {
        if usernames.len() > 500 {
            return Err(ApiError::TooManyUsernames);
        }
        let mut list: Vec<(String, Option<Presence>)> = Vec::new();
        let mut i: usize = 0;
        while i < usernames.len()
            invariant
                self.wf(),
                i <= usernames@.len(),
                list@.len() == i,
                forall|j: int|
                    0 <= j < i ==> (#[trigger] list@[j]).0@ == lowercased(usernames@[j]@)
                        && list@[j].1 == presence_of(
                        self@,
                        me.username@,
                        lowercased(usernames@[j]@),
                    ),
            decreases usernames@.len() - i,
        {
            let name = lowercase(&usernames[i]);
            let status = self.seen_presence(&me.username, &name);
            list.push((name, status));
            i = i + 1;
        }
        Ok(list)
    }
}

} // verus!
