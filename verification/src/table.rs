//! A table: rows found by a key that no two of them share, kept in the order in
//! which the keys were first stored.
use vstd::prelude::*;

use crate::order::by_time;
#[allow(unused_imports)]
use crate::order::{is_named, names_each_once};

verus! {

/// What a table can be keyed by.
pub trait TableKey: Sized + View {
    /// Whether two keys are the same.
    fn same(&self, other: &Self) -> (yes: bool)
        ensures
            yes == (self@ == other@),
    ;

    /// The same key again.
    fn again(&self) -> (key: Self)
        ensures
            key@ == self@,
    ;
}

impl TableKey for String {
    fn same(&self, other: &Self) -> (yes: bool) {
        *self == *other
    }

    fn again(&self) -> (key: Self) {
        self.clone()
    }
}

impl TableKey for u32 {
    fn same(&self, other: &Self) -> (yes: bool) {
        *self == *other
    }

    fn again(&self) -> (key: Self) {
        *self
    }
}

impl TableKey for u64 {
    fn same(&self, other: &Self) -> (yes: bool) {
        *self == *other
    }

    fn again(&self) -> (key: Self) {
        *self
    }
}

/// A key made of two texts.
pub struct Pair {
    pub first: String,
    pub second: String,
}

impl View for Pair {
    type V = (Seq<char>, Seq<char>);

    open spec fn view(&self) -> (Seq<char>, Seq<char>) {
        (self.first@, self.second@)
    }
}

impl Pair {
    /// The key made of two texts.
    pub fn of(first: &str, second: &str) -> (pair: Pair)
        ensures
            pair@ == (first@, second@),
    {
        Pair { first: first.to_string(), second: second.to_string() }
    }
}

impl TableKey for Pair {
    fn same(&self, other: &Self) -> (yes: bool) {
        self.first == other.first && self.second == other.second
    }

    fn again(&self) -> (key: Self) {
        Pair { first: self.first.clone(), second: self.second.clone() }
    }
}

/// Rows in the order in which their keys were first stored.
pub struct Table<K: TableKey, V: View> {
    pub rows: Vec<(K, V)>,
}

/// The rows of a table as plain values.
pub open spec fn entries_of<K: View, V: View>(rows: Seq<(K, V)>) -> Seq<(K::V, V::V)> {
    rows.map_values(|row: (K, V)| (row.0@, row.1@))
}

/// A question about one row.
pub trait RowTest<K: TableKey, V: View>: Sized {
    /// The answer for a row.
    spec fn holds(&self, key: K::V, row: V::V) -> bool;

    /// Asks it.
    fn test(&self, key: &K, row: &V) -> (yes: bool)
        ensures
            yes == self.holds(key@, row@),
    ;
}

/// A row that knows its moment.
pub trait Timed: View {
    /// The moment of a row.
    spec fn moment(row: Self::V) -> i64;

    /// Reads it.
    fn time(&self) -> (at: i64)
        ensures
            at == Self::moment(self@),
    ;
}

/// Whether a list holds each row of a map that a question singles out, once, the
/// earliest first.
pub open spec fn is_listing<K, R>(
    list: Seq<(K, R)>,
    rows: Map<K, R>,
    wanted: spec_fn(K, R) -> bool,
    moment: spec_fn(R) -> i64,
) -> bool {
    &&& forall|i: int|
        0 <= i < list.len() ==> rows.contains_key((#[trigger] list[i]).0) && rows[list[i].0]
            == list[i].1 && wanted(list[i].0, list[i].1)
    &&& forall|i: int, j: int|
        0 <= i < j < list.len() ==> (#[trigger] list[i]).0 != (#[trigger] list[j]).0 && moment(
            list[i].1,
        ) <= moment(list[j].1)
    &&& forall|k: K| #[trigger]
        rows.contains_key(k) && wanted(k, rows[k]) ==> exists|i: int|
            0 <= i < list.len() && (#[trigger] list[i]).0 == k
}

/// The rows of a map that a question does not single out.
pub open spec fn without_where<K, R>(rows: Map<K, R>, gone: spec_fn(K, R) -> bool) -> Map<K, R> {
    Map::new(|k: K| rows.contains_key(k) && !gone(k, rows[k]), |k: K| rows[k])
}

/// The keys of the rows that a question singles out.
pub open spec fn keys_where<K, R>(rows: Map<K, R>, wanted: spec_fn(K, R) -> bool) -> Set<K> {
    Set::new(|k: K| rows.contains_key(k) && wanted(k, rows[k]))
}

/// Whether no two entries share a key.
pub open spec fn distinct_keys<K, V>(entries: Seq<(K, V)>) -> bool {
    forall|i: int, j: int|
        0 <= i < entries.len() && 0 <= j < entries.len() && i != j ==> (#[trigger] entries[i]).0 != (
        #[trigger] entries[j]).0
}

/// The map that some entries with distinct keys amount to.
pub open spec fn as_map<K, V>(entries: Seq<(K, V)>) -> Map<K, V>
    decreases entries.len(),
{
    if entries.len() == 0 {
        Map::empty()
    } else {
        as_map(entries.drop_last()).insert(entries.last().0, entries.last().1)
    }
}

/// Entries with distinct keys stand in their map, and nothing else does.
pub proof fn lemma_map_holds_the_entries<K, V>(entries: Seq<(K, V)>)
    requires
        distinct_keys(entries),
    ensures
        forall|i: int|
            0 <= i < entries.len() ==> as_map(entries).contains_key((#[trigger] entries[i]).0)
                && as_map(entries)[entries[i].0] == entries[i].1,
        forall|k: K| #[trigger] as_map(entries).contains_key(k) ==> exists|i: int|
            0 <= i < entries.len() && (#[trigger] entries[i]).0 == k,
        as_map(entries).dom().len() == entries.len(),
        as_map(entries).dom().finite(),
    decreases entries.len(),
{
    if entries.len() > 0 {
        let front = entries.drop_last();
        assert(distinct_keys(front)) by {
            assert forall|i: int, j: int| 0 <= i < front.len() && 0 <= j < front.len() && i != j
                implies (#[trigger] front[i]).0 != (#[trigger] front[j]).0 by {
                assert(entries[i].0 != entries[j].0);
            }
        }
        lemma_map_holds_the_entries(front);
        let last = entries.last();
        assert(!as_map(front).contains_key(last.0)) by {
            if as_map(front).contains_key(last.0) {
                let i = choose|i: int| 0 <= i < front.len() && (#[trigger] front[i]).0 == last.0;
                assert(entries[i].0 != entries[entries.len() - 1].0);
            }
        }
        assert forall|i: int| 0 <= i < entries.len() implies as_map(entries).contains_key(
            (#[trigger] entries[i]).0,
        ) && as_map(entries)[entries[i].0] == entries[i].1 by {
            if i < front.len() {
                assert(front[i] == entries[i]);
                assert(entries[i].0 != entries[entries.len() - 1].0);
            }
        }
        assert forall|k: K| #[trigger] as_map(entries).contains_key(k) implies exists|i: int|
            0 <= i < entries.len() && (#[trigger] entries[i]).0 == k by {
            if k == last.0 {
                assert(entries[entries.len() - 1].0 == k);
            } else {
                assert(as_map(front).contains_key(k));
                let i = choose|i: int| 0 <= i < front.len() && (#[trigger] front[i]).0 == k;
                assert(entries[i].0 == k);
            }
        }
        assert(as_map(entries).dom() =~= as_map(front).dom().insert(last.0));
    } else {
        assert(as_map(entries).dom() =~= Set::empty());
    }
}

impl<K: TableKey, V: View> Table<K, V> {
    /// The rows in order, as plain values.
    pub open spec fn entries(&self) -> Seq<(K::V, V::V)> {
        entries_of(self.rows@)
    }

    /// Whether no two rows share a key.
    pub open spec fn wf(&self) -> bool {
        distinct_keys(self.entries())
    }

    /// The rows by their keys.
    pub open spec fn view(&self) -> Map<K::V, V::V> {
        as_map(self.entries())
    }

    /// The rows and the map are the same thing.
    pub proof fn lemma_rows_are_the_map(&self)
        requires
            self.wf(),
        ensures
            forall|j: int|
                0 <= j < self.rows@.len() ==> self@.contains_key((#[trigger] self.rows@[j]).0@)
                    && self@[self.rows@[j].0@] == self.rows@[j].1@,
            forall|k: K::V| #[trigger]
                self@.contains_key(k) ==> exists|j: int|
                    0 <= j < self.rows@.len() && (#[trigger] self.rows@[j]).0@ == k,
    {
        lemma_map_holds_the_entries(self.entries());
        assert forall|j: int| 0 <= j < self.rows@.len() implies self@.contains_key(
            (#[trigger] self.rows@[j]).0@,
        ) && self@[self.rows@[j].0@] == self.rows@[j].1@ by {
            assert(self.entries()[j] == (self.rows@[j].0@, self.rows@[j].1@));
        }
        assert forall|k: K::V| #[trigger] self@.contains_key(k) implies exists|j: int|
            0 <= j < self.rows@.len() && (#[trigger] self.rows@[j]).0@ == k by {
            let j = choose|j: int|
                0 <= j < self.entries().len() && (#[trigger] self.entries()[j]).0 == k;
            assert(self.rows@[j].0@ == k);
        }
    }

    /// A table without rows.
    pub fn new() -> (table: Self)
        ensures
            table.wf(),
            table@ == Map::<K::V, V::V>::empty(),
            table.entries() == Seq::<(K::V, V::V)>::empty(),
    {
        let table = Table { rows: Vec::new() };
        assert(table.entries() =~= Seq::<(K::V, V::V)>::empty());
        table
    }

    /// Where the row with this key stands.
    pub fn find(&self, key: &K) -> (place: Option<usize>)
        requires
            self.wf(),
        ensures
            match place {
                Some(i) => i < self.rows@.len() && self.rows@[i as int].0@ == key@
                    && self@.contains_key(key@) && self@[key@] == self.rows@[i as int].1@,
                None => !self@.contains_key(key@),
            },
    {
        proof {
            lemma_map_holds_the_entries(self.entries());
        }
        let mut i: usize = 0;
        while i < self.rows.len()
            invariant
                self.wf(),
                i <= self.rows@.len(),
                forall|j: int| 0 <= j < i ==> (#[trigger] self.rows@[j]).0@ != key@,
            decreases self.rows@.len() - i,
        {
            if self.rows[i].0.same(key) {
                proof {
                    lemma_map_holds_the_entries(self.entries());
                    assert(self.entries()[i as int] == (key@, self.rows@[i as int].1@));
                }
                return Some(i);
            }
            i = i + 1;
        }
        proof {
            if self@.contains_key(key@) {
                let j = choose|j: int|
                    0 <= j < self.entries().len() && (#[trigger] self.entries()[j]).0 == key@;
                assert(self.rows@[j].0@ == key@);
            }
        }
        None
    }

    /// The row with this key.
    pub fn get(&self, key: &K) -> (row: Option<&V>)
        requires
            self.wf(),
        ensures
            match row {
                Some(v) => self@.contains_key(key@) && self@[key@] == v@,
                None => !self@.contains_key(key@),
            },
    {
        match self.find(key) {
            Some(i) => Some(&self.rows[i].1),
            None => None,
        }
    }

    /// Whether there is a row with this key.
    pub fn has(&self, key: &K) -> (yes: bool)
        requires
            self.wf(),
        ensures
            yes == self@.contains_key(key@),
    {
        self.find(key).is_some()
    }

    /// How many rows there are.
    pub fn len(&self) -> (n: usize)
        requires
            self.wf(),
        ensures
            n == self.entries().len(),
            n == self@.dom().len(),
    {
        proof {
            lemma_map_holds_the_entries(self.entries());
        }
        self.rows.len()
    }

    /// Stores a row under a key: in the place of the one that was there, or
    /// behind all others.
    pub fn put(&mut self, key: K, row: V)
        requires
            old(self).wf(),
        ensures
            final(self).wf(),
            final(self)@ == old(self)@.insert(key@, row@),
            old(self)@.contains_key(key@) ==> final(self).entries().len() == old(
                self,
            ).entries().len(),
            !old(self)@.contains_key(key@) ==> final(self).entries() == old(self).entries().push(
                (key@, row@),
            ),
    {
        let ghost before = self.entries();
        let ghost k = key@;
        let ghost r = row@;
        match self.find(&key) {
            Some(i) => {
                self.rows.set(i, (key, row));
                proof {
                    assert(self.entries() =~= before.update(i as int, (k, r)));
                    lemma_map_holds_the_entries(before);
                    assert(self.wf()) by {
                        let now = self.entries();
                        assert forall|a: int, b: int|
                            0 <= a < now.len() && 0 <= b < now.len() && a != b implies (
                        #[trigger] now[a]).0 != (#[trigger] now[b]).0 by {
                            assert(now[a].0 == before[a].0);
                            assert(now[b].0 == before[b].0);
                        }
                    }
                    lemma_map_holds_the_entries(self.entries());
                    lemma_updated(before, i as int, r);
                }
            },
            None => {
                self.rows.push((key, row));
                proof {
                    assert(self.entries() =~= before.push((k, r)));
                    lemma_map_holds_the_entries(before);
                    assert(self.entries().drop_last() =~= before);
                    assert(self.wf()) by {
                        let now = self.entries();
                        assert forall|a: int, b: int|
                            0 <= a < now.len() && 0 <= b < now.len() && a != b implies (
                        #[trigger] now[a]).0 != (#[trigger] now[b]).0 by {
                            if a < before.len() {
                                assert(now[a] == before[a]);
                            }
                            if b < before.len() {
                                assert(now[b] == before[b]);
                            }
                        }
                    }
                }
            },
        }
    }

    /// Removes the row with this key, if there is one.
    pub fn remove(&mut self, key: &K)
        requires
            old(self).wf(),
        ensures
            final(self).wf(),
            final(self)@ == old(self)@.remove(key@),
    {
        let ghost before = self.entries();
        match self.find(key) {
            Some(i) => {
                let _gone = self.rows.remove(i);
                proof {
                    assert(self.entries() =~= before.remove(i as int));
                    lemma_removed(before, i as int);
                }
            },
            None => {
                proof {
                    assert(self@ =~= self@.remove(key@));
                }
            },
        }
    }

    /// Removes every row that the question singles out.
    pub fn remove_where<T: RowTest<K, V>>(&mut self, question: &T)
        requires
            old(self).wf(),
        ensures
            final(self).wf(),
            final(self)@ == without_where(old(self)@, |k: K::V, r: V::V| question.holds(k, r)),
    {
        let ghost before = self@;
        let mut i: usize = 0;
        while i < self.rows.len()
            invariant
                self.wf(),
                i <= self.rows@.len(),
                forall|k: K::V| #[trigger]
                    self@.contains_key(k) ==> before.contains_key(k) && before[k] == self@[k],
                forall|k: K::V| #[trigger]
                    before.contains_key(k) && !question.holds(k, before[k]) ==> self@.contains_key(
                        k,
                    ),
                forall|j: int|
                    0 <= j < i ==> !question.holds(
                        (#[trigger] self.rows@[j]).0@,
                        self.rows@[j].1@,
                    ),
            decreases self.rows@.len() - i,
        {
            if question.test(&self.rows[i].0, &self.rows[i].1) {
                let ghost rows = self.entries();
                let ghost map = self@;
                proof {
                    lemma_map_holds_the_entries(rows);
                    lemma_removed(rows, i as int);
                    assert(rows[i as int] == (self.rows@[i as int].0@, self.rows@[i as int].1@));
                }
                let _gone = self.rows.remove(i);
                proof {
                    assert(self.entries() =~= rows.remove(i as int));
                    assert(self@ == map.remove(rows[i as int].0));
                }
            } else {
                i = i + 1;
            }
        }
        proof {
            lemma_map_holds_the_entries(self.entries());
            assert forall|k: K::V| #[trigger] self@.contains_key(k) implies !question.holds(
                k,
                self@[k],
            ) by {
                let j = choose|j: int|
                    0 <= j < self.entries().len() && (#[trigger] self.entries()[j]).0 == k;
                assert(self.entries()[j] == (self.rows@[j].0@, self.rows@[j].1@));
            }
            assert(self@ =~= without_where(before, |k: K::V, r: V::V| question.holds(k, r)));
        }
    }

    /// Where the rows stand that the question singles out, each once.
    pub fn find_where<T: RowTest<K, V>>(&self, question: &T) -> (places: Vec<usize>)
        requires
            self.wf(),
        ensures
            forall|i: int|
                0 <= i < places@.len() ==> (#[trigger] places@[i]) < self.rows@.len()
                    && self@.contains_key(self.rows@[places@[i] as int].0@)
                    && self@[self.rows@[places@[i] as int].0@] == self.rows@[places@[i] as int].1@
                    && question.holds(
                    self.rows@[places@[i] as int].0@,
                    self.rows@[places@[i] as int].1@,
                ),
            forall|i: int, j: int|
                0 <= i < j < places@.len() ==> self.rows@[(#[trigger] places@[i]) as int].0@
                    != self.rows@[(#[trigger] places@[j]) as int].0@,
            forall|k: K::V| #[trigger]
                self@.contains_key(k) && question.holds(k, self@[k]) ==> exists|i: int|
                    0 <= i < places@.len() && self.rows@[(#[trigger] places@[i]) as int].0@ == k,
            places@.len() == keys_where(self@, |k: K::V, r: V::V| question.holds(k, r)).len(),
            keys_where(self@, |k: K::V, r: V::V| question.holds(k, r)).finite(),
    {
        let mut places: Vec<usize> = Vec::new();
        let mut i: usize = 0;
        let ghost mut found: Set<K::V> = Set::empty();
        proof {
            lemma_map_holds_the_entries(self.entries());
        }
        while i < self.rows.len()
            invariant
                self.wf(),
                i <= self.rows@.len(),
                forall|p: int|
                    0 <= p < places@.len() ==> (#[trigger] places@[p]) < i && question.holds(
                        self.rows@[places@[p] as int].0@,
                        self.rows@[places@[p] as int].1@,
                    ),
                forall|p: int, q: int|
                    0 <= p < q < places@.len() ==> (#[trigger] places@[p]) < (
                    #[trigger] places@[q]),
                forall|j: int|
                    0 <= j < i && question.holds(
                        (#[trigger] self.rows@[j]).0@,
                        self.rows@[j].1@,
                    ) ==> exists|p: int|
                        0 <= p < places@.len() && (#[trigger] places@[p]) as int == j,
                found.finite(),
                found.len() == places@.len(),
                forall|k: K::V| #[trigger]
                    found.contains(k) <==> exists|p: int|
                        0 <= p < places@.len() && self.rows@[(#[trigger] places@[p]) as int].0@
                            == k,
            decreases self.rows@.len() - i,
        {
            if question.test(&self.rows[i].0, &self.rows[i].1) {
                let ghost was = places@;
                let ghost key = self.rows@[i as int].0@;
                proof {
                    assert(!found.contains(key)) by {
                        if found.contains(key) {
                            let p = choose|p: int|
                                0 <= p < places@.len() && self.rows@[(
                                #[trigger] places@[p]) as int].0@ == key;
                            assert(self.entries()[places@[p] as int].0 != self.entries()[i as int].0);
                        }
                    }
                }
                places.push(i);
                proof {
                    let before = found;
                    found = found.insert(key);
                    assert forall|k: K::V| #[trigger] found.contains(k) <==> exists|p: int|
                        0 <= p < places@.len() && self.rows@[(#[trigger] places@[p]) as int].0@
                            == k by {
                        if before.contains(k) {
                            let p = choose|p: int|
                                0 <= p < was.len() && self.rows@[(#[trigger] was[p]) as int].0@
                                    == k;
                            assert(places@[p] == was[p]);
                        }
                        if k == key {
                            assert(places@[was.len() as int] == i);
                        }
                        if exists|p: int|
                            0 <= p < places@.len() && self.rows@[(
                            #[trigger] places@[p]) as int].0@ == k {
                            let p = choose|p: int|
                                0 <= p < places@.len() && self.rows@[(
                                #[trigger] places@[p]) as int].0@ == k;
                            if p < was.len() {
                                assert(was[p] == places@[p]);
                            }
                        }
                    }
                    assert forall|j: int|
                        0 <= j < i + 1 && question.holds(
                            (#[trigger] self.rows@[j]).0@,
                            self.rows@[j].1@,
                        ) implies exists|p: int|
                        0 <= p < places@.len() && (#[trigger] places@[p]) as int == j by {
                        if j < i {
                            let p = choose|p: int|
                                0 <= p < was.len() && (#[trigger] was[p]) as int == j;
                            assert(places@[p] as int == j);
                        } else {
                            assert(places@[was.len() as int] as int == j);
                        }
                    }
                }
            }
            i = i + 1;
        }
        proof {
            lemma_map_holds_the_entries(self.entries());
            assert forall|p: int| 0 <= p < places@.len() implies (#[trigger] places@[p])
                < self.rows@.len() && self@.contains_key(self.rows@[places@[p] as int].0@)
                && self@[self.rows@[places@[p] as int].0@] == self.rows@[places@[p] as int].1@ by {
                let e = self.entries()[places@[p] as int];
                assert(e == (
                    self.rows@[places@[p] as int].0@,
                    self.rows@[places@[p] as int].1@,
                ));
            }
            assert forall|k: K::V| #[trigger]
                self@.contains_key(k) && question.holds(k, self@[k]) implies exists|p: int|
                0 <= p < places@.len() && self.rows@[(#[trigger] places@[p]) as int].0@ == k by {
                let j = choose|j: int|
                    0 <= j < self.entries().len() && (#[trigger] self.entries()[j]).0 == k;
                assert(self.entries()[j] == (self.rows@[j].0@, self.rows@[j].1@));
                let p = choose|p: int|
                    0 <= p < places@.len() && (#[trigger] places@[p]) as int == j;
                assert(self.rows@[places@[p] as int].0@ == k);
            }
            assert forall|a: int, b: int| 0 <= a < b < places@.len() implies self.rows@[(
            #[trigger] places@[a]) as int].0@ != self.rows@[(#[trigger] places@[b]) as int].0@ by {
                let pa = places@[a];
                let pb = places@[b];
                assert(self.entries()[pa as int].0 != self.entries()[pb as int].0);
            }
            assert(found =~= keys_where(self@, |k: K::V, r: V::V| question.holds(k, r)));
        }
        places
    }
}

impl<K: TableKey, V: Timed> Table<K, V> {
    /// The rows at some places.
    pub open spec fn at_places(&self, places: Seq<usize>) -> Seq<(K::V, V::V)> {
        places.map_values(|at: usize| (self.rows@[at as int].0@, self.rows@[at as int].1@))
    }

    /// Where the rows stand that the question singles out, the earliest first.
    pub fn list_where<T: RowTest<K, V>>(&self, question: &T) -> (places: Vec<usize>)
        requires
            self.wf(),
        ensures
            forall|i: int|
                0 <= i < places@.len() ==> (#[trigger] places@[i]) < self.rows@.len(),
            is_listing(
                self.at_places(places@),
                self@,
                |k: K::V, r: V::V| question.holds(k, r),
                |r: V::V| V::moment(r),
            ),
    {
        let found = self.find_where(question);
        let mut times: Vec<i64> = Vec::new();
        let mut i: usize = 0;
        while i < found.len()
            invariant
                i <= found@.len(),
                times@.len() == i,
                forall|j: int|
                    0 <= j < found@.len() ==> (#[trigger] found@[j]) < self.rows@.len(),
                forall|j: int|
                    0 <= j < i ==> #[trigger] times@[j] == V::moment(
                        self.rows@[found@[j] as int].1@,
                    ),
            decreases found@.len() - i,
        {
            times.push(self.rows[found[i]].1.time());
            i = i + 1;
        }
        let order = by_time(&times);
        let mut places: Vec<usize> = Vec::new();
        let mut k: usize = 0;
        while k < order.len()
            invariant
                k <= order@.len(),
                names_each_once(order@, found@.len()),
                places@.len() == k,
                forall|j: int| 0 <= j < k ==> #[trigger] places@[j] == found@[order@[j] as int],
            decreases order@.len() - k,
        {
            places.push(found[order[k]]);
            k = k + 1;
        }
        proof {
            let list = self.at_places(places@);
            assert forall|i: int| 0 <= i < list.len() implies self@.contains_key(
                (#[trigger] list[i]).0,
            ) && self@[list[i].0] == list[i].1 && question.holds(list[i].0, list[i].1) by {
                assert(places@[i] == found@[order@[i] as int]);
            }
            assert forall|i: int, j: int| 0 <= i < j < list.len() implies (#[trigger] list[i]).0
                != (#[trigger] list[j]).0 && V::moment(list[i].1) <= V::moment(list[j].1) by {
                let p = order@[i] as int;
                let q = order@[j] as int;
                assert(places@[i] == found@[p] && places@[j] == found@[q]);
                assert(times@[p] == V::moment(list[i].1) && times@[q] == V::moment(list[j].1));
                if p < q {
                    assert(self.rows@[found@[p] as int].0@ != self.rows@[found@[q] as int].0@);
                } else {
                    assert(self.rows@[found@[q] as int].0@ != self.rows@[found@[p] as int].0@);
                }
            }
            assert forall|k: K::V| #[trigger]
                self@.contains_key(k) && question.holds(k, self@[k]) implies exists|i: int|
                0 <= i < list.len() && (#[trigger] list[i]).0 == k by {
                let p = choose|p: int|
                    0 <= p < found@.len() && self.rows@[(#[trigger] found@[p]) as int].0@ == k;
                assert(is_named(order@, p));
                let i = choose|i: int| 0 <= i < order@.len() && (#[trigger] order@[i]) as int == p;
                assert(places@[i] == found@[p]);
                assert(list[i].0 == k);
            }
        }
        places
    }
}

proof fn lemma_updated<K, V>(entries: Seq<(K, V)>, i: int, row: V)
    requires
        distinct_keys(entries),
        distinct_keys(entries.update(i, (entries[i].0, row))),
        0 <= i < entries.len(),
    ensures
        as_map(entries.update(i, (entries[i].0, row))) == as_map(entries).insert(
            entries[i].0,
            row,
        ),
{
    let now = entries.update(i, (entries[i].0, row));
    lemma_map_holds_the_entries(entries);
    lemma_map_holds_the_entries(now);
    let a = as_map(now);
    let b = as_map(entries).insert(entries[i].0, row);
    assert forall|k: K| a.contains_key(k) == b.contains_key(k) by {
        if a.contains_key(k) {
            let j = choose|j: int| 0 <= j < now.len() && (#[trigger] now[j]).0 == k;
            assert(entries[j].0 == k);
        }
        if b.contains_key(k) && k != entries[i].0 {
            let j = choose|j: int| 0 <= j < entries.len() && (#[trigger] entries[j]).0 == k;
            assert(now[j].0 == k);
        }
        assert(now[i].0 == entries[i].0);
    }
    assert forall|k: K| a.contains_key(k) implies a[k] == b[k] by {
        let j = choose|j: int| 0 <= j < now.len() && (#[trigger] now[j]).0 == k;
        assert(entries[j].0 == k);
        if j != i {
            assert(now[j] == entries[j]);
            assert(entries[j].0 != entries[i].0);
        }
    }
    assert(a =~= b);
}

/// Taking an entry out takes its key out of the map, and nothing else.
pub(crate) proof fn lemma_removed<K, V>(entries: Seq<(K, V)>, i: int)
    requires
        distinct_keys(entries),
        0 <= i < entries.len(),
    ensures
        distinct_keys(entries.remove(i)),
        as_map(entries.remove(i)) == as_map(entries).remove(entries[i].0),
{
    let now = entries.remove(i);
    assert(distinct_keys(now)) by {
        assert forall|a: int, b: int|
            0 <= a < now.len() && 0 <= b < now.len() && a != b implies (#[trigger] now[a]).0 != (
        #[trigger] now[b]).0 by {
            let p = if a < i { a } else { a + 1 };
            let q = if b < i { b } else { b + 1 };
            assert(entries[p].0 != entries[q].0);
        }
    }
    lemma_map_holds_the_entries(entries);
    lemma_map_holds_the_entries(now);
    let a = as_map(now);
    let b = as_map(entries).remove(entries[i].0);
    assert forall|k: K| a.contains_key(k) == b.contains_key(k) by {
        if a.contains_key(k) {
            let j = choose|j: int| 0 <= j < now.len() && (#[trigger] now[j]).0 == k;
            let p = if j < i { j } else { j + 1 };
            assert(entries[p].0 == k);
            assert(entries[p].0 != entries[i].0);
        }
        if b.contains_key(k) {
            let j = choose|j: int| 0 <= j < entries.len() && (#[trigger] entries[j]).0 == k;
            let p = if j < i { j } else { j - 1 };
            assert(now[p].0 == k);
        }
    }
    assert forall|k: K| a.contains_key(k) implies a[k] == b[k] by {
        let j = choose|j: int| 0 <= j < now.len() && (#[trigger] now[j]).0 == k;
        let p = if j < i { j } else { j + 1 };
        assert(entries[p].0 == k);
    }
    assert(a =~= b);
}

} // verus!
