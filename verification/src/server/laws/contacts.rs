//! What holds of contacts, presence and profiles.
#[allow(unused_imports)]
use vstd::utf8::encode_utf8;
use vstd::prelude::*;

#[allow(unused_imports)]
use crate::server::accounts::with_account;
#[allow(unused_imports)]
use crate::server::contacts::{
    after_accept, after_block, after_removal, after_request, block_refusal, contact_line,
    is_contact_list, may_see, presence_of, request_refusal, request_result, Contact,
};
#[allow(unused_imports)]
use crate::server::errors::ApiError;
#[allow(unused_imports)]
use crate::server::limits::{judged, passes, HOUR};
#[allow(unused_imports)]
use crate::server::live::{
    connected, disconnected, notice_to, told, watchers, NoticeView, PushView,
};
#[allow(unused_imports)]
use crate::server::profile::{
    account_updated, presence_named, presence_text, profile_refusal, update_refusal,
};
#[allow(unused_imports)]
use crate::server::sessions::is_verified;
#[allow(unused_imports)]
use crate::server::store::{
    link_of, sound, AccountView, Link, LinkState, Presence, QueuedView, Store, World,
};
#[allow(unused_imports)]
use crate::text::trimmed;

verus! {

/// Whether a viewer was accepted by an account, or is the account itself.
pub open spec fn is_let_in(w: World, viewer: Seq<char>, name: Seq<char>) -> bool {
    viewer == name || (w.store.links.contains_key((name, viewer)) && w.store.links[(
        name,
        viewer,
    )].state == LinkState::Accepted)
}

/// The presence that an account chose is the one that is seen: by the account
/// itself and by everybody whom it accepted, as long as it is connected. Nobody
/// else sees anything, and nothing is seen of whoever is not connected.
pub proof fn a_chosen_presence_is_seen(
    w: World,
    name: Seq<char>,
    viewer: Seq<char>,
    alias: Option<&str>,
    status: &str,
)
    requires
        w.store.accounts.contains_key(name),
        update_refusal(alias, Some(status)) is None,
    ensures
        ({
            let changed = account_updated(w.store.accounts[name], alias, Some(status));
            let after = with_account(w, name, changed);
            let seen = w.live.contains_key(name) && is_let_in(w, viewer, name);
            &&& seen && status@ == "online"@ ==> presence_of(after, viewer, name) == Some(
                Presence::Online,
            )
            &&& seen && status@ == "away"@ ==> presence_of(after, viewer, name) == Some(
                Presence::Away,
            )
            &&& seen && status@ == "busy"@ ==> presence_of(after, viewer, name) == Some(
                Presence::Busy,
            )
            &&& status@ == "online"@ || status@ == "away"@ || status@ == "busy"@
            &&& !seen ==> presence_of(after, viewer, name) is None
        }),
{
    reveal_strlit("online");
    reveal_strlit("away");
    reveal_strlit("busy");
    assert("online"@.len() == 6 && "away"@[0] == 'a' && "busy"@[0] == 'b');
}

/// A presence is taken exactly where it is one of the three, and an alias where it
/// has from 1 to 64 bytes without the space around it.
pub proof fn what_a_profile_can_be_changed_to(alias: &str, status: &str)
    ensures
        update_refusal(None, None) is None,
        update_refusal(None, Some(status)) is None <==> (status@ == "online"@ || status@ == "away"@
            || status@ == "busy"@),
        update_refusal(None, Some(status)) is Some ==> update_refusal(None, Some(status)) == Some(
            ApiError::InvalidStatus,
        ),
        update_refusal(Some(alias), None) is None <==> (trimmed(alias@).len() > 0 && encode_utf8(
            trimmed(alias@),
        ).len() <= 64),
        update_refusal(Some(alias), None) is Some ==> update_refusal(Some(alias), None) == Some(
            ApiError::AliasLength,
        ),
{
}

/// A change of a profile changes what was asked for and nothing else of the
/// account.
pub proof fn a_change_of_profile_changes_what_was_asked(
    account: AccountView,
    alias: &str,
    status: &str,
)
    ensures
        account_updated(account, None, None) == account,
        ({
            let renamed = account_updated(account, Some(alias), None);
            &&& update_refusal(Some(alias), None) is None ==> renamed.alias == trimmed(alias@)
            &&& update_refusal(Some(alias), None) is Some ==> renamed == account
            &&& renamed.status == account.status
            &&& renamed == (AccountView { alias: renamed.alias, ..account })
        }),
        ({
            let moved = account_updated(account, None, Some(status));
            &&& update_refusal(None, Some(status)) is Some ==> moved == account
            &&& moved.alias == account.alias
            &&& moved == (AccountView { status: moved.status, ..account })
        }),
{
}

/// What the three presences, and none, are called.
pub proof fn presences_have_their_names()
    ensures
        presence_named("online"@) == Some(Presence::Online),
        presence_named("away"@) == Some(Presence::Away),
        presence_named("busy"@) == Some(Presence::Busy),
        presence_named("offline"@) is None,
        presence_text(None) == "offline"@,
{
    reveal_strlit("online");
    reveal_strlit("away");
    reveal_strlit("busy");
    reveal_strlit("offline");
    assert("online"@.len() == 6 && "away"@[0] == 'a' && "busy"@[0] == 'b' && "offline"@.len() == 7);
}

/// A contact is listed as they are: under the name they go by now, in the state of
/// the link, with the presence they chose while they are connected, and with their
/// last visit while they are not. Whoever has not accepted shows neither.
pub proof fn a_contact_is_listed_as_they_are(
    list: Seq<Contact>,
    w: World,
    me: Seq<char>,
    peer: Seq<char>,
)
    requires
        sound(w.store),
        is_contact_list(list, w, me),
        w.store.links.contains_key((me, peer)),
    ensures
        exists|i: int|
            0 <= i < list.len() && (#[trigger] list[i]).username@ == peer && {
                let account = w.store.accounts[peer];
                let open = is_let_in(w, me, peer);
                &&& list[i].state == w.store.links[(me, peer)].state
                &&& list[i].alias@ == account.alias
                &&& list[i].status == (if open && w.live.contains_key(peer) {
                    Some(account.status)
                } else {
                    None
                })
                &&& list[i].last_seen == (if open && !w.live.contains_key(peer) {
                    account.last_seen
                } else {
                    None
                })
            },
{
    let i = choose|i: int| 0 <= i < list.len() && (#[trigger] list[i])@.username == peer;
    assert(list[i]@.username == peer);
    assert(list[i].username@ == peer);
}

/// A contact list names nobody without a link, and nobody twice; whoever came
/// first stands first.
pub proof fn a_contact_list_holds_the_links(
    list: Seq<Contact>,
    w: World,
    me: Seq<char>,
    i: int,
    j: int,
)
    requires
        is_contact_list(list, w, me),
        0 <= i < j < list.len(),
    ensures
        w.store.links.contains_key((me, list[i].username@)),
        w.store.links.contains_key((me, list[j].username@)),
        list[i].username@ != list[j].username@,
        w.store.links[(me, list[i].username@)].created_at <= w.store.links[(
            me,
            list[j].username@,
        )].created_at,
{
    assert(list[i]@.username != list[j]@.username);
}

/// Whether two stores hold the same but for the link between two accounts.
pub open spec fn same_but_for_the_link(a: Store, b: Store, me: Seq<char>, peer: Seq<char>) -> bool {
    &&& a.accounts == b.accounts
    &&& a.messages == b.messages
    &&& a.deliveries == b.deliveries
    &&& a.archive == b.archive
    &&& a.prekeys == b.prekeys
    &&& a.next_prekey == b.next_prekey
    &&& forall|o: Seq<char>, p: Seq<char>|
        !(o == me && p == peer) && !(o == peer && p == me) ==> (#[trigger] a.links.contains_key((o, p)))
            == b.links.contains_key((o, p)) && (a.links.contains_key((o, p)) ==> a.links[(o, p)]
            == b.links[(o, p)])
}

/// Asking, accepting and removing touch the link between the two and nothing else.
pub proof fn a_link_is_between_two(w: World, me: Seq<char>, peer: Seq<char>, now: i64)
    requires
        me != peer,
    ensures
        same_but_for_the_link(after_request(w, me, peer, now).store, w.store, me, peer),
        same_but_for_the_link(after_accept(w, me, peer, now).store, w.store, me, peer),
        same_but_for_the_link(after_removal(w, me, peer).store, w.store, me, peer),
        after_request(w, me, peer, now).live == w.live,
        after_accept(w, me, peer, now).live == w.live,
        after_removal(w, me, peer).live == w.live,
        after_block(w, me, peer, now).live == w.live,
        request_refusal(w, me, peer, now) is Some ==> after_request(w, me, peer, now).store
            == w.store,
{
}

/// A request is refused with the reason: oneself, a name that is not there,
/// somebody who is a contact already, a request that waits for an answer.
pub proof fn a_request_is_refused_with_the_reason(
    w: World,
    me: Seq<char>,
    peer: Seq<char>,
    now: i64,
)
    requires
        passes(w, "contact:"@ + me, 20, 3_600_000, now),
    ensures
        me == peer <==> request_refusal(w, me, peer, now) == Some(ApiError::SelfContact),
        me != peer && !is_verified(w.store, peer) && passes(
            judged(w, "contact:"@ + me, 20, 3_600_000, now),
            "contact-miss:"@ + me,
            5,
            3_600_000,
            now,
        ) <==> request_refusal(w, me, peer, now) == Some(ApiError::NotFound),
        me != peer && is_verified(w.store, peer) && link_of(w.store, peer, me) != Some(
            LinkState::Blocked,
        ) ==> {
            &&& link_of(w.store, me, peer) == Some(LinkState::Accepted) <==> request_refusal(
                w,
                me,
                peer,
                now,
            ) == Some(ApiError::AlreadyContacts)
            &&& link_of(w.store, me, peer) == Some(LinkState::Outgoing) <==> request_refusal(
                w,
                me,
                peer,
                now,
            ) == Some(ApiError::RequestPending)
            &&& link_of(w.store, me, peer) is None || link_of(w.store, me, peer) == Some(
                LinkState::Incoming,
            ) ==> request_refusal(w, me, peer, now) is None
        },
{
}

/// A request that was taken waits on both sides, and an accepted one opens both.
pub proof fn a_request_shows_on_both_sides(w: World, me: Seq<char>, peer: Seq<char>, now: i64)
    requires
        me != peer,
        request_refusal(w, me, peer, now) is None,
        link_of(w.store, peer, me) != Some(LinkState::Blocked),
    ensures
        ({
            let after = after_request(w, me, peer, now).store;
            if link_of(w.store, me, peer) == Some(LinkState::Incoming) {
                &&& request_result(w.store, me, peer) == LinkState::Accepted
                &&& after.links[(me, peer)].state == LinkState::Accepted
                &&& after.links[(peer, me)].state == LinkState::Accepted
            } else {
                &&& request_result(w.store, me, peer) == LinkState::Outgoing
                &&& after.links[(me, peer)].state == LinkState::Outgoing
                &&& after.links[(peer, me)].state == LinkState::Incoming
            }
        }),
        ({
            let after = after_accept(w, me, peer, now).store;
            &&& after.links[(me, peer)].state == LinkState::Accepted
            &&& after.links[(peer, me)].state == LinkState::Accepted
            &&& after.links.contains_key((me, peer)) && after.links.contains_key((peer, me))
        }),
        !w.store.links.contains_key((me, peer)) ==> after_request(
            w,
            me,
            peer,
            now,
        ).store.links[(me, peer)].created_at == now,
        w.store.links.contains_key((me, peer)) ==> after_request(
            w,
            me,
            peer,
            now,
        ).store.links[(me, peer)].created_at == w.store.links[(me, peer)].created_at,
{
}

/// A block takes away what the other one sent and nothing else: every message
/// between other accounts, or of somebody else, stays as it was.
pub proof fn a_block_takes_only_what_they_sent(
    w: World,
    me: Seq<char>,
    peer: Seq<char>,
    now: i64,
    id: Seq<char>,
    o: Seq<char>,
    p: Seq<char>,
)
    requires
        me != peer,
    ensures
        ({
            let after = after_block(w, me, peer, now).store;
            &&& after.links.contains_key((me, peer))
            &&& after.links[(me, peer)].state == LinkState::Blocked
            &&& !after.links.contains_key((peer, me))
            &&& after.accounts == w.store.accounts
            &&& after.archive == w.store.archive
            &&& after.prekeys == w.store.prekeys
            &&& after.deliveries == w.store.deliveries
            &&& !(o == me && p == peer) && !(o == peer && p == me) ==> after.links.contains_key(
                (o, p),
            ) == w.store.links.contains_key((o, p)) && (after.links.contains_key((o, p))
                ==> after.links[(o, p)] == w.store.links[(o, p)])
            &&& after.messages.contains_key(id) == (w.store.messages.contains_key(id) && !(
            w.store.messages[id].sender == peer && w.store.messages[id].recipient == me))
            &&& after.messages.contains_key(id) ==> after.messages[id] == w.store.messages[id]
        }),
        block_refusal(w.store, me, peer) is None == w.store.accounts.contains_key(peer),
        block_refusal(w.store, me, me) == Some(ApiError::SelfBlock),
{
}

/// Whoever connects is there, and whoever leaves was there last at that moment:
/// contacts see their presence from the one to the other, and their last visit
/// afterwards.
pub proof fn a_visit_shows_while_it_lasts(
    w: World,
    name: Seq<char>,
    viewer: Seq<char>,
    other: Seq<char>,
    now: i64,
)
    requires
        w.store.accounts.contains_key(name),
        is_let_in(w, viewer, name),
        other != name,
    ensures
        ({
            let here = connected(w, name, now);
            &&& presence_of(here, viewer, name) == Some(w.store.accounts[name].status)
            &&& here.live.contains_key(name)
            &&& here.live[name] == w.next_listener
            &&& here.next_listener != w.next_listener
            &&& here.store.accounts[name].last_seen == Some(now)
            &&& here.live.contains_key(other) == w.live.contains_key(other)
            &&& here.live.contains_key(other) ==> here.live[other] == w.live[other]
            &&& here.store == (Store { accounts: here.store.accounts, ..w.store })
            &&& w.store.accounts.contains_key(other) ==> here.store.accounts[other]
                == w.store.accounts[other]
        }),
        ({
            let gone = disconnected(w, name, now);
            &&& presence_of(gone, viewer, name) is None
            &&& !gone.live.contains_key(name)
            &&& gone.store.accounts[name].last_seen == Some(now)
            &&& gone.live.contains_key(other) == w.live.contains_key(other)
            &&& gone.live.contains_key(other) ==> gone.live[other] == w.live[other]
            &&& gone.store.accounts[name] == (AccountView {
                last_seen: Some(now),
                ..w.store.accounts[name]
            })
            &&& w.store.accounts.contains_key(other) ==> gone.store.accounts[other]
                == w.store.accounts[other]
        }),
        viewer != name && w.store.links.contains_key((viewer, name)) ==> contact_line(
            disconnected(w, name, now),
            viewer,
            name,
        ).last_seen == Some(now),
{
}

/// A notice reaches whoever is connected, on the stream that is theirs now, once;
/// nobody else.
pub proof fn a_notice_reaches_whoever_is_there(w: World, to: Seq<char>, push: PushView)
    ensures
        !w.live.contains_key(to) ==> notice_to(w, to, push).len() == 0,
        w.live.contains_key(to) ==> {
            &&& notice_to(w, to, push).len() == 1
            &&& notice_to(w, to, push)[0].to == to
            &&& notice_to(w, to, push)[0].listener == w.live[to]
            &&& notice_to(w, to, push)[0].push == push
        },
{
}

/// A change of an account is told to every contact of theirs who is connected and
/// to nobody else, on the stream that is theirs.
pub proof fn contacts_hear_of_a_change(
    w: World,
    user: Seq<char>,
    list: Seq<NoticeView>,
    push: PushView,
    peer: Seq<char>,
)
    requires
        told(list, watchers(w, user), w.live, push),
    ensures
        w.live.contains_key(peer) && w.store.links.contains_key((user, peer)) && w.store.links[(
            user,
            peer,
        )].state == LinkState::Accepted <==> exists|i: int|
            0 <= i < list.len() && (#[trigger] list[i]).to == peer,
        forall|i: int|
            0 <= i < list.len() ==> (#[trigger] list[i]).push == push && list[i].listener
                == w.live[list[i].to],
{
    let everyone = watchers(w, user);
    if w.live.contains_key(peer) && link_of(w.store, user, peer) == Some(LinkState::Accepted) {
        assert(everyone.contains(peer));
    }
    assert forall|i: int| 0 <= i < list.len() && (#[trigger] list[i]).to == peer implies
        everyone.contains(peer) by {
        assert(everyone.contains(list[i].to));
    }
}

/// A profile that is there is shown, and one that is not there is not, as long as
/// the budgets of an hour last: 600 lookups, 5 of them for names that are not
/// there.
pub proof fn a_profile_is_shown_where_there_is_one(w: World, me: Seq<char>, name: Seq<char>, now: i64)
    requires
        passes(w, "profile:"@ + me, 600, 3_600_000, now),
        passes(
            judged(w, "profile:"@ + me, 600, 3_600_000, now),
            "profile-miss:"@ + me,
            5,
            3_600_000,
            now,
        ),
    ensures
        profile_refusal(w, me, name, now) is None == (w.store.accounts.contains_key(name)
            && w.store.accounts[name].verified),
        profile_refusal(w, me, name, now) is Some ==> profile_refusal(w, me, name, now) == Some(
            ApiError::NotFound,
        ),
{
}

/// What the four states of a link are called.
pub proof fn link_states_have_their_names()
    ensures
        LinkState::Incoming.spec_text() == "incoming"@,
        LinkState::Outgoing.spec_text() == "outgoing"@,
        LinkState::Accepted.spec_text() == "accepted"@,
        LinkState::Blocked.spec_text() == "blocked"@,
{
}

/// Each presence is read by its name, and every name by its presence.
pub proof fn presences_are_written_by_their_names(text: Seq<char>)
    ensures
        presence_text(Some(Presence::Online)) == "online"@,
        presence_text(Some(Presence::Away)) == "away"@,
        presence_text(Some(Presence::Busy)) == "busy"@,
        presence_named(text) is Some ==> presence_text(presence_named(text)) == text,
{
}

} // verus!
