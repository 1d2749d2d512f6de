//! Bringing the relay back from what was written down.
use vstd::prelude::*;

#[allow(unused_imports)]
use crate::password::default_cost;
#[allow(unused_imports)]
use crate::server::accounts::token_free;
use crate::server::accounts::usable_username;
use crate::server::store::{LinkState, Relay, Write};
#[allow(unused_imports)]
use crate::server::store::{
    fits_together, is_username, link_of, links_sound, nothing, replayed, sound, tokens_sound, World,
};
use crate::text::{same_text, starts_with};

verus! {

/// Whether no prekey has the highest number there is.
pub open spec fn numbers_fit(rows: Seq<Write>) -> bool {
    forall|i: int|
        0 <= i < rows.len() ==> ((#[trigger] rows[i]) matches Write::PutPrekey { id, .. } ==> id
            < u64::MAX)
}

/// Whether two sides of a link fit together.
fn do_fit(mine: LinkState, theirs: Option<LinkState>) -> (yes: bool)
    ensures
        yes == fits_together(Some(mine), theirs),
{
    match mine {
        LinkState::Accepted => match theirs {
            Some(LinkState::Accepted) => true,
            _ => false,
        },
        LinkState::Incoming => match theirs {
            Some(LinkState::Outgoing) => true,
            _ => false,
        },
        LinkState::Outgoing => match theirs {
            Some(LinkState::Incoming) => true,
            Some(LinkState::Blocked) => true,
            _ => false,
        },
        LinkState::Blocked => match theirs {
            None => true,
            Some(LinkState::Outgoing) => true,
            _ => false,
        },
    }
}

impl Relay {
    /// Whether the accounts are in order.
    fn accounts_in_order(&self) -> (yes: bool)
        requires
            self.tables_wf(),
        ensures
            yes == (tokens_sound(self@.store.accounts) && forall|u: Seq<char>| #[trigger]
                self@.store.accounts.contains_key(u) ==> is_username(u) && default_cost(
                    self@.store.accounts[u].password_hash,
                )),
    {
        proof {
            self.accounts.lemma_rows_are_the_map();
        }
        let ghost accounts = self@.store.accounts;
        let mut i: usize = 0;
        while i < self.accounts.rows.len()
            invariant
                self.tables_wf(),
                accounts == self.accounts@,
                i <= self.accounts.rows@.len(),
                forall|j: int|
                    0 <= j < self.accounts.rows@.len() ==> accounts.contains_key(
                        (#[trigger] self.accounts.rows@[j]).0@,
                    ) && accounts[self.accounts.rows@[j].0@] == self.accounts.rows@[j].1@,
                forall|j: int|
                    0 <= j < i ==> {
                        let name = (#[trigger] self.accounts.rows@[j]).0@;
                        is_username(name) && default_cost(accounts[name].password_hash)
                            && token_free(accounts, accounts[name].token, name)
                    },
            decreases self.accounts.rows@.len() - i,
        {
            let row = &self.accounts.rows[i];
            let ghost name = row.0@;
            let named = usable_username(&row.0);
            let hashed = starts_with(&row.1.password_hash, "$argon2id$v=19$m=19456,t=2,p=1$");
            let free = self.is_token_free(&row.1.token, &row.0);
            if !named || !hashed || !free {
                proof {
                    assert(accounts.contains_key(name));
                    if !free {
                        let other = choose|u: Seq<char>| #[trigger]
                            accounts.contains_key(u) && u != name && accounts[u].token
                                == accounts[name].token;
                        let (a, b) = (accounts[other], accounts[name]);
                        assert(!tokens_sound(accounts));
                    }
                }
                return false;
            }
            i = i + 1;
        }
        proof {
            assert forall|u: Seq<char>| #[trigger] accounts.contains_key(u) implies is_username(u)
                && default_cost(accounts[u].password_hash) && token_free(
                accounts,
                accounts[u].token,
                u,
            ) by {
                let j = choose|j: int|
                    0 <= j < self.accounts.rows@.len() && (#[trigger] self.accounts.rows@[j]).0@
                        == u;
            }
            assert(tokens_sound(accounts)) by {
                assert forall|a: Seq<char>, b: Seq<char>|
                    #![trigger accounts[a], accounts[b]]
                    accounts.contains_key(a) && accounts.contains_key(b) && accounts[a].token
                        == accounts[b].token implies a == b by {
                    assert(token_free(accounts, accounts[a].token, a));
                }
            }
        }
        true
    }

    /// Whether the links are in order.
    fn links_in_order(&self) -> (yes: bool)
        requires
            self.tables_wf(),
        ensures
            yes == links_sound(self@.store),
    {
        proof {
            self.links.lemma_rows_are_the_map();
        }
        let ghost store = self@.store;
        let mut i: usize = 0;
        while i < self.links.rows.len()
            invariant
                self.tables_wf(),
                store == self@.store,
                i <= self.links.rows@.len(),
                forall|j: int|
                    0 <= j < self.links.rows@.len() ==> store.links.contains_key(
                        (#[trigger] self.links.rows@[j]).0@,
                    ) && store.links[self.links.rows@[j].0@] == self.links.rows@[j].1@,
                forall|j: int|
                    0 <= j < i ==> {
                        let key = (#[trigger] self.links.rows@[j]).0@;
                        key.0 != key.1 && store.accounts.contains_key(key.0)
                            && store.accounts.contains_key(key.1) && fits_together(
                            link_of(store, key.0, key.1),
                            link_of(store, key.1, key.0),
                        )
                    },
            decreases self.links.rows@.len() - i,
        {
            let row = &self.links.rows[i];
            let ghost key = row.0@;
            let other = !same_text(&row.0.first, &row.0.second);
            let known = self.accounts.has(&row.0.first) && self.accounts.has(&row.0.second);
            let fitting = do_fit(row.1.state, self.link_state(&row.0.second, &row.0.first));
            assert(link_of(store, key.0, key.1) == Some(row.1.state));
            if !other || !known || !fitting {
                proof {
                    assert(store.links.contains_key((key.0, key.1)));
                }
                return false;
            }
            i = i + 1;
        }
        proof {
            assert forall|o: Seq<char>, p: Seq<char>| #[trigger]
                store.links.contains_key((o, p)) implies o != p && store.accounts.contains_key(o)
                && store.accounts.contains_key(p) && fits_together(
                link_of(store, o, p),
                link_of(store, p, o),
            ) by {
                let j = choose|j: int|
                    0 <= j < self.links.rows@.len() && (#[trigger] self.links.rows@[j]).0@ == (
                        o,
                        p,
                    );
            }
            assert forall|o: Seq<char>, p: Seq<char>| fits_together(
                #[trigger] link_of(store, o, p),
                link_of(store, p, o),
            ) by {
                if store.links.contains_key((o, p)) {
                } else if store.links.contains_key((p, o)) {
                    assert(fits_together(link_of(store, p, o), link_of(store, o, p)));
                }
            }
        }
        true
    }

    /// Whether everything that belongs to an account belongs to one that exists.
    fn belongings_in_order(&self) -> (yes: bool)
        requires
            self.tables_wf(),
        ensures
            yes == {
                let store = self@.store;
                &&& forall|id: Seq<char>| #[trigger]
                    store.messages.contains_key(id) ==> store.accounts.contains_key(
                        store.messages[id].recipient,
                    )
                &&& forall|u: Seq<char>, id: Seq<char>| #[trigger]
                    store.archive.contains_key((u, id)) ==> store.accounts.contains_key(u)
                &&& forall|id: u64| #[trigger]
                    store.prekeys.contains_key(id) ==> id < store.next_prekey
                        && store.accounts.contains_key(store.prekeys[id].username)
            },
    {
        proof {
            self.messages.lemma_rows_are_the_map();
            self.archive.lemma_rows_are_the_map();
            self.prekeys.lemma_rows_are_the_map();
        }
        let ghost store = self@.store;
        let mut i: usize = 0;
        while i < self.messages.rows.len()
            invariant
                self.tables_wf(),
                store == self@.store,
                i <= self.messages.rows@.len(),
                forall|j: int|
                    0 <= j < self.messages.rows@.len() ==> store.messages.contains_key(
                        (#[trigger] self.messages.rows@[j]).0@,
                    ) && store.messages[self.messages.rows@[j].0@] == self.messages.rows@[j].1@,
                forall|j: int|
                    0 <= j < i ==> store.accounts.contains_key(
                        (#[trigger] self.messages.rows@[j]).1.recipient@,
                    ),
            decreases self.messages.rows@.len() - i,
        {
            if !self.accounts.has(&self.messages.rows[i].1.recipient) {
                assert(store.messages.contains_key(self.messages.rows@[i as int].0@));
                return false;
            }
            i = i + 1;
        }
        let mut i: usize = 0;
        while i < self.archive.rows.len()
            invariant
                self.tables_wf(),
                store == self@.store,
                i <= self.archive.rows@.len(),
                forall|j: int|
                    0 <= j < self.archive.rows@.len() ==> store.archive.contains_key(
                        (#[trigger] self.archive.rows@[j]).0@,
                    ),
                forall|j: int|
                    0 <= j < i ==> store.accounts.contains_key(
                        (#[trigger] self.archive.rows@[j]).0@.0,
                    ),
            decreases self.archive.rows@.len() - i,
        {
            if !self.accounts.has(&self.archive.rows[i].0.first) {
                proof {
                    let key = self.archive.rows@[i as int].0@;
                    assert(store.archive.contains_key((key.0, key.1)));
                }
                return false;
            }
            i = i + 1;
        }
        let mut i: usize = 0;
        while i < self.prekeys.rows.len()
            invariant
                self.tables_wf(),
                store == self@.store,
                i <= self.prekeys.rows@.len(),
                forall|j: int|
                    0 <= j < self.prekeys.rows@.len() ==> store.prekeys.contains_key(
                        (#[trigger] self.prekeys.rows@[j]).0@,
                    ) && store.prekeys[self.prekeys.rows@[j].0@] == self.prekeys.rows@[j].1@,
                forall|j: int|
                    0 <= j < i ==> (#[trigger] self.prekeys.rows@[j]).0 < store.next_prekey
                        && store.accounts.contains_key(self.prekeys.rows@[j].1.username@),
            decreases self.prekeys.rows@.len() - i,
        {
            let row = &self.prekeys.rows[i];
            if row.0 >= self.next_prekey || !self.accounts.has(&row.1.username) {
                assert(store.prekeys.contains_key(self.prekeys.rows@[i as int].0@));
                return false;
            }
            i = i + 1;
        }
        proof {
            assert forall|id: Seq<char>| #[trigger]
                store.messages.contains_key(id) implies store.accounts.contains_key(
                store.messages[id].recipient,
            ) by {
                let j = choose|j: int|
                    0 <= j < self.messages.rows@.len() && (#[trigger] self.messages.rows@[j]).0@
                        == id;
                assert(store.accounts.contains_key(self.messages.rows@[j].1.recipient@));
            }
            assert forall|u: Seq<char>, id: Seq<char>| #[trigger]
                store.archive.contains_key((u, id)) implies store.accounts.contains_key(u) by {
                let j = choose|j: int|
                    0 <= j < self.archive.rows@.len() && (#[trigger] self.archive.rows@[j]).0@ == (
                        u,
                        id,
                    );
            }
            assert forall|id: u64| #[trigger] store.prekeys.contains_key(id) implies id
                < store.next_prekey && store.accounts.contains_key(store.prekeys[id].username) by {
                let j = choose|j: int|
                    0 <= j < self.prekeys.rows@.len() && (#[trigger] self.prekeys.rows@[j]).0@
                        == id;
            }
        }
        true
    }

    /// Brings a relay back from the rows that were written down. Rows that do not
    /// fit together bring nothing back.
    pub fn restore(rows: Vec<Write>) -> (relay: Option<Relay>)
        ensures
            match relay {
                Some(relay) => {
                    &&& relay.wf()
                    &&& relay@ == (World { store: replayed(nothing().store, rows@), ..nothing() })
                    &&& relay.journal@.len() == 0
                },
                None => !numbers_fit(rows@) || !sound(replayed(nothing().store, rows@)),
            },
    {
        let mut relay = Relay::new();
        let ghost all = rows@;
        let mut rest = rows;
        // The rows are taken from the back, so they are turned round first.
        let mut turned: Vec<Write> = Vec::new();
        while rest.len() > 0
            invariant
                turned@.len() + rest@.len() == all.len(),
                rest@ == all.take(rest@.len() as int),
                forall|j: int| 0 <= j < turned@.len() ==> turned@[j] == all[all.len() - 1 - j],
            decreases rest@.len(),
        {
            let ghost n = rest@.len();
            match rest.pop() {
                Some(row) => {
                    assert(row == all[n - 1]);
                    turned.push(row);
                },
                None => {},
            }
            assert(rest@ =~= all.take(rest@.len() as int));
        }
        let ghost mut n: int = 0;
        assert(all.take(0) =~= Seq::<Write>::empty());
        while turned.len() > 0
            invariant
                all == rows@,
                0 <= n <= all.len(),
                n + turned@.len() == all.len(),
                forall|j: int| 0 <= j < turned@.len() ==> turned@[j] == all[all.len() - 1 - j],
                relay.tables_wf(),
                default_cost(relay.decoy@),
                relay@ == (World {
                    store: replayed(nothing().store, all.take(n)),
                    ..nothing()
                }),
            decreases turned@.len(),
        {
            match turned.pop() {
                Some(row) => {
                    let highest = match &row {
                        Write::PutPrekey { id, .. } => *id == u64::MAX,
                        _ => false,
                    };
                    assert(row == all[n]);
                    if highest {
                        assert(!numbers_fit(all));
                        return None;
                    }
                    relay.write(row);
                    proof {
                        assert(all.take(n + 1).drop_last() =~= all.take(n));
                        assert(all.take(n + 1).last() == row);
                        n = n + 1;
                    }
                },
                None => {},
            }
        }
        assert(all.take(n) =~= all);
        if !relay.accounts_in_order() || !relay.links_in_order() || !relay.belongings_in_order() {
            return None;
        }
        let _written = relay.take_writes();
        Some(relay)
    }
}

} // verus!
