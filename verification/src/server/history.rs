//! The client-side encrypted history. The relay stores opaque blobs and can
//! never read them.
#[allow(unused_imports)]
use vstd::utf8::encode_utf8;
use vstd::prelude::*;

use crate::server::errors::ApiError;
#[allow(unused_imports)]
use crate::server::limits::{judged, passes};
use crate::server::limits::{MAX_ARCHIVE_ENTRIES, MAX_ID_BYTES, MINUTE};
use crate::server::sessions::AuthUser;
use crate::server::store::{Archived, Relay, Write};
#[allow(unused_imports)]
use crate::server::store::{fits_together, link_of, sound, ArchivedView, Store, World};
#[allow(unused_imports)]
use crate::table::keys_where;
use crate::table::{Pair, RowTest, Timed};
use crate::text::{byte_len, join2, same_text};

verus! {

impl Timed for Archived {
    open spec fn moment(row: ArchivedView) -> i64 {
        row.created_at
    }

    fn time(&self) -> (at: i64) {
        self.created_at
    }
}

/// The archived entries of an account.
pub open spec fn entries_kept(
    archive: Map<(Seq<char>, Seq<char>), ArchivedView>,
    me: Seq<char>,
) -> Set<(Seq<char>, Seq<char>)> {
    keys_where(archive, |k: (Seq<char>, Seq<char>), r: ArchivedView| k.0 == me)
}

/// Why an entry is refused, if so. Overwrites of an existing entry are always
/// allowed; only growth counts against the quota.
pub open spec fn archive_refusal(w: World, me: Seq<char>, id: Seq<char>, now: i64) -> Option<
    ApiError,
> {
    if encode_utf8(id).len() > MAX_ID_BYTES {
        Some(ApiError::InvalidId)
    } else if !passes(w, "archive:"@ + me, 600, MINUTE, now) {
        Some(ApiError::RateLimited)
    } else if !w.store.archive.contains_key((me, id)) && entries_kept(w.store.archive, me).len()
        >= MAX_ARCHIVE_ENTRIES {
        Some(ApiError::ArchiveFull)
    } else {
        None
    }
}

/// The relay after an attempt to archive an entry. An entry keeps the moment at
/// which it was first stored.
pub open spec fn after_archive(
    w: World,
    me: Seq<char>,
    id: Seq<char>,
    blob: Seq<char>,
    now: i64,
) -> World {
    let counted = judged(w, "archive:"@ + me, 600, MINUTE, now);
    match archive_refusal(w, me, id, now) {
        Some(ApiError::InvalidId) => w,
        Some(_) => counted,
        None => World {
            store: Store {
                archive: w.store.archive.insert(
                    (me, id),
                    ArchivedView {
                        blob,
                        created_at: if w.store.archive.contains_key((me, id)) {
                            w.store.archive[(me, id)].created_at
                        } else {
                            now
                        },
                    },
                ),
                ..w.store
            },
            ..counted
        },
    }
}

/// An entry as it is handed out.
pub struct ArchivedEntry {
    pub id: String,
    pub blob: String,
}

/// Whether a list is the whole archive of an account, the oldest entry first.
pub open spec fn is_archive_of(
    list: Seq<ArchivedEntry>,
    archive: Map<(Seq<char>, Seq<char>), ArchivedView>,
    me: Seq<char>,
) -> bool {
    &&& forall|i: int|
        0 <= i < list.len() ==> archive.contains_key((me, (#[trigger] list[i]).id@))
            && list[i].blob@ == archive[(me, list[i].id@)].blob
    &&& forall|i: int, j: int|
        0 <= i < j < list.len() ==> (#[trigger] list[i]).id@ != (#[trigger] list[j]).id@
            && archive[(me, list[i].id@)].created_at <= archive[(me, list[j].id@)].created_at
    &&& forall|id: Seq<char>| #[trigger]
        archive.contains_key((me, id)) ==> exists|i: int|
            0 <= i < list.len() && (#[trigger] list[i]).id@ == id
}

/// Singles out the entries of an account.
struct ArchivedBy<'a> {
    me: &'a str,
}

impl<'a> RowTest<Pair, Archived> for ArchivedBy<'a> {
    closed spec fn holds(&self, key: (Seq<char>, Seq<char>), row: ArchivedView) -> bool {
        key.0 == self.me@
    }

    fn test(&self, key: &Pair, row: &Archived) -> (yes: bool) {
        same_text(&key.first, self.me)
    }
}

/// Entries of accounts keep the tables in order.
proof fn lemma_archive_changed(before: Store, after: Store, me: Seq<char>)
    requires
        sound(before),
        before.accounts.contains_key(me),
        after == (Store { archive: after.archive, ..before }),
        forall|u: Seq<char>, id: Seq<char>| #[trigger]
            after.archive.contains_key((u, id)) ==> u == me || before.archive.contains_key((u, id)),
    ensures
        sound(after),
{
    assert forall|o: Seq<char>, p: Seq<char>| fits_together(
        #[trigger] link_of(after, o, p),
        link_of(after, p, o),
    ) by {
        assert(link_of(after, o, p) == link_of(before, o, p));
        assert(fits_together(link_of(before, o, p), link_of(before, p, o)));
    }
}

impl Relay {
    /// Stores one encrypted history entry. Overwrites on repeat so a client can
    /// safely retry uploads.
    pub fn put_archive(&mut self, me: &AuthUser, id: &str, blob: &str, now: i64) -> (refusal:
        Option<ApiError>)
        requires
            old(self).wf(),
            old(self)@.store.accounts.contains_key(me.username@),
        ensures
            final(self).wf(),
            refusal == archive_refusal(old(self)@, me.username@, id@, now),
            final(self)@ == after_archive(old(self)@, me.username@, id@, blob@, now),
    {
        if byte_len(id) > MAX_ID_BYTES {
            return Some(ApiError::InvalidId);
        }
        let key = join2("archive:", &me.username);
        if !self.pass(&key, 600, MINUTE, now) {
            return Some(ApiError::RateLimited);
        }
        let ghost counted = self@;
        let created_at: i64 = match self.archive.get(&Pair::of(&me.username, id)) {
            Some(entry) => entry.created_at,
            None => {
                let question = ArchivedBy { me: &me.username };
                let places = self.archive.find_where(&question);
                proof {
                    assert(entries_kept(self@.store.archive, me.username@) =~= keys_where(
                        self.archive@,
                        |k: (Seq<char>, Seq<char>), r: ArchivedView| question.holds(k, r),
                    ));
                }
                if places.len() >= MAX_ARCHIVE_ENTRIES {
                    return Some(ApiError::ArchiveFull);
                }
                now
            },
        };
        self.write(
            Write::PutArchive {
                username: me.username.clone(),
                id: id.to_string(),
                row: Archived { blob: blob.to_string(), created_at },
            },
        );
        proof {
            lemma_archive_changed(counted.store, self@.store, me.username@);
        }
        None
    }

    /// Drops one entry from the account's history archive, so a deleted message
    /// does not come back the next time the history is restored.
    pub fn delete_archive_entry(&mut self, me: &AuthUser, id: &str) -> (refusal: Option<ApiError>)
        requires
            old(self).wf(),
            old(self)@.store.accounts.contains_key(me.username@),
        ensures
            final(self).wf(),
            encode_utf8(id@).len() > MAX_ID_BYTES ==> refusal == Some(ApiError::InvalidId)
                && final(self)@ == old(self)@,
            encode_utf8(id@).len() <= MAX_ID_BYTES ==> refusal is None && final(self)@ == (World {
                store: Store {
                    archive: old(self)@.store.archive.remove((me.username@, id@)),
                    ..old(self)@.store
                },
                ..old(self)@
            }),
    {
        if byte_len(id) > MAX_ID_BYTES {
            return Some(ApiError::InvalidId);
        }
        let ghost before = self@;
        self.write(Write::DropArchive { username: me.username.clone(), id: id.to_string() });
        proof {
            lemma_archive_changed(before.store, self@.store, me.username@);
        }
        None
    }

    /// The whole encrypted history archive of the account.
    pub fn list_archive(&self, me: &AuthUser) -> (list: Vec<ArchivedEntry>)
        requires
            self.wf(),
        ensures
            is_archive_of(list@, self@.store.archive, me.username@),
    {
        let question = ArchivedBy { me: &me.username };
        let places = self.archive.list_where(&question);
        let ghost rows = self.archive.at_places(places@);
        let mut list: Vec<ArchivedEntry> = Vec::new();
        let mut i: usize = 0;
        while i < places.len()
            invariant
                self.wf(),
                i <= places@.len(),
                rows == self.archive.at_places(places@),
                forall|j: int|
                    0 <= j < places@.len() ==> (#[trigger] places@[j]) < self.archive.rows@.len(),
                list@.len() == i,
                forall|j: int|
                    0 <= j < i ==> (#[trigger] list@[j]).id@ == rows[j].0.1 && list@[j].blob@
                        == rows[j].1.blob,
            decreases places@.len() - i,
        {
            let at: usize = places[i];
            let row = &self.archive.rows[at];
            assert(rows[i as int] == (row.0@, row.1@));
            list.push(ArchivedEntry { id: row.0.second.clone(), blob: row.1.blob.clone() });
            i = i + 1;
        }
        proof {
            let archive = self@.store.archive;
            let mine = me.username@;
            assert forall|i: int| 0 <= i < list@.len() implies archive.contains_key(
                (mine, (#[trigger] list@[i]).id@),
            ) && rows[i].0 == (mine, list@[i].id@) && archive[rows[i].0] == rows[i].1 by {
                assert(self.archive@.contains_key(rows[i].0));
                assert(question.holds(rows[i].0, rows[i].1));
            }
            assert forall|i: int, j: int| 0 <= i < j < list@.len() implies (
            #[trigger] list@[i]).id@ != (#[trigger] list@[j]).id@ && archive[(
                mine,
                list@[i].id@,
            )].created_at <= archive[(mine, list@[j].id@)].created_at by {
                assert(rows[i].0 != rows[j].0);
                assert(Archived::moment(rows[i].1) <= Archived::moment(rows[j].1));
            }
            assert forall|id: Seq<char>| #[trigger]
                archive.contains_key((mine, id)) implies exists|i: int|
                0 <= i < list@.len() && (#[trigger] list@[i]).id@ == id by {
                assert(question.holds((mine, id), self.archive@[(mine, id)]));
                let i = choose|i: int| 0 <= i < rows.len() && (#[trigger] rows[i]).0 == (mine, id);
                assert(list@[i].id@ == id);
            }
        }
        list
    }
}

} // verus!
