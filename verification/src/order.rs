//! Putting things in order.
use vstd::prelude::*;

use crate::text::chars_of;

verus! {

/// Whether a list of places names each of the first `n` once.
pub open spec fn names_each_once(order: Seq<usize>, n: nat) -> bool {
    &&& order.len() == n
    &&& forall|i: int| 0 <= i < order.len() ==> (#[trigger] order[i]) < n
    &&& forall|i: int, j: int|
        0 <= i < j < order.len() ==> (#[trigger] order[i]) != (#[trigger] order[j])
    &&& forall|v: int| 0 <= v < n ==> #[trigger] is_named(order, v)
}

/// Whether a place is on a list of places.
pub open spec fn is_named(order: Seq<usize>, v: int) -> bool {
    exists|i: int| 0 <= i < order.len() && (#[trigger] order[i]) as int == v
}

/// Whether places are in order of time, and in their own order where the time
/// is the same.
pub open spec fn in_order(order: Seq<usize>, times: Seq<i64>) -> bool {
    forall|i: int, j: int|
        0 <= i < j < order.len() ==> times[(#[trigger] order[i]) as int] < times[(
        #[trigger] order[j]) as int] || (times[order[i] as int] == times[order[j] as int]
            && order[i] < order[j])
}

/// The places of some moments, the earliest first; moments that are the same
/// keep their order.
pub fn by_time(times: &Vec<i64>) -> (order: Vec<usize>)
    ensures
        names_each_once(order@, times@.len()),
        in_order(order@, times@),
{
    let mut order: Vec<usize> = Vec::new();
    let mut k: usize = 0;
    while k < times.len()
        invariant
            k <= times@.len(),
            names_each_once(order@, k as nat),
            in_order(order@, times@),
        decreases times@.len() - k,
    {
        let mut at: usize = k;
        while at > 0 && times[order[at - 1]] > times[k]
            invariant
                at <= k < times@.len(),
                names_each_once(order@, k as nat),
                in_order(order@, times@),
                forall|i: int|
                    at <= i < k ==> times@[(#[trigger] order@[i]) as int] > times@[k as int],
            ensures
                at <= k,
                at > 0 ==> times@[order@[at - 1] as int] <= times@[k as int],
                forall|i: int|
                    at <= i < k ==> times@[(#[trigger] order@[i]) as int] > times@[k as int],
            decreases at,
        {
            at = at - 1;
        }
        let ghost was = order@;
        order.insert(at, k);
        proof {
            assert(order@ =~= was.insert(at as int, k));
            assert forall|i: int, j: int| 0 <= i < j < order@.len() implies (#[trigger] order@[i])
                != (#[trigger] order@[j]) && (times@[order@[i] as int] < times@[order@[j] as int]
                || (times@[order@[i] as int] == times@[order@[j] as int] && order@[i]
                < order@[j])) by {
                let p = if i < at { i } else { i - 1 };
                let q = if j < at { j } else { j - 1 };
                if i != at && j != at {
                    assert(order@[i] == was[p] && order@[j] == was[q]);
                } else if j == at {
                    assert(order@[i] == was[i]);
                    if i < at - 1 {
                        assert(was[i] != was[at - 1]);
                    }
                } else {
                    assert(order@[j] == was[q]);
                }
            }
            assert forall|i: int| 0 <= i < order@.len() implies (#[trigger] order@[i]) < k + 1 by {
                if i < at {
                    assert(order@[i] == was[i]);
                } else if i > at {
                    assert(order@[i] == was[i - 1]);
                }
            }
            assert forall|v: int| 0 <= v < k + 1 implies #[trigger] is_named(order@, v) by {
                if v == k {
                    assert(order@[at as int] as int == v);
                } else {
                    assert(is_named(was, v));
                    let i = choose|i: int| 0 <= i < was.len() && (#[trigger] was[i]) as int == v;
                    if i < at {
                        assert(order@[i] as int == v);
                    } else {
                        assert(order@[i + 1] as int == v);
                    }
                }
            }
        }
        k = k + 1;
    }
    order
}

/// Whether a text comes before another, or is the same: by the first character
/// in which they differ, and the shorter first.
pub open spec fn not_after(a: Seq<char>, b: Seq<char>) -> bool
    decreases a.len(),
{
    if a.len() == 0 {
        true
    } else if b.len() == 0 {
        false
    } else if a[0] == b[0] {
        not_after(a.drop_first(), b.drop_first())
    } else {
        (a[0] as u32) < (b[0] as u32)
    }
}

proof fn lemma_char_numbers(a: char, b: char)
    ensures
        (a as u32 == b as u32) == (a == b),
{
    vstd::utf8::char_u32_cast(a, a as u32);
    if a as u32 == b as u32 {
        vstd::utf8::char_u32_cast(b, a as u32);
    }
}

/// Of two texts one is not after the other.
proof fn lemma_one_is_not_after(a: Seq<char>, b: Seq<char>)
    ensures
        not_after(a, b) || not_after(b, a),
    decreases a.len(),
{
    if a.len() > 0 && b.len() > 0 {
        if a[0] == b[0] {
            lemma_one_is_not_after(a.drop_first(), b.drop_first());
        } else {
            lemma_char_numbers(a[0], b[0]);
        }
    }
}

/// The order of texts carries over.
proof fn lemma_not_after_carries_over(a: Seq<char>, b: Seq<char>, c: Seq<char>)
    requires
        not_after(a, b),
        not_after(b, c),
    ensures
        not_after(a, c),
    decreases a.len(),
{
    if a.len() > 0 && b.len() > 0 && c.len() > 0 {
        if a[0] == b[0] && b[0] == c[0] {
            lemma_not_after_carries_over(a.drop_first(), b.drop_first(), c.drop_first());
        }
    }
}

/// Whether a text comes before another, or is the same.
fn is_not_after(a: &str, b: &str) -> (yes: bool)
    ensures
        yes == not_after(a@, b@),
{
    let x = chars_of(a);
    let y = chars_of(b);
    let mut i: usize = 0;
    assert(x@.skip(0) =~= a@);
    assert(y@.skip(0) =~= b@);
    while i < x.len() && i < y.len()
        invariant
            x@ == a@,
            y@ == b@,
            i <= x@.len(),
            i <= y@.len(),
            not_after(a@, b@) == not_after(x@.skip(i as int), y@.skip(i as int)),
        decreases x@.len() - i,
    {
        proof {
            assert(x@.skip(i as int).drop_first() =~= x@.skip(i + 1));
            assert(y@.skip(i as int).drop_first() =~= y@.skip(i + 1));
            lemma_char_numbers(x@[i as int], y@[i as int]);
        }
        if x[i] != y[i] {
            return (x[i] as u32) < (y[i] as u32);
        }
        i = i + 1;
    }
    i == x.len()
}

/// Whether places are in order of the texts there.
pub open spec fn in_text_order(order: Seq<usize>, names: Seq<String>) -> bool {
    forall|i: int, j: int|
        0 <= i < j < order.len() ==> not_after(
            names[(#[trigger] order[i]) as int]@,
            names[(#[trigger] order[j]) as int]@,
        )
}

/// The places of some texts, in order of the texts.
pub fn by_text(names: &Vec<String>) -> (order: Vec<usize>)
    ensures
        names_each_once(order@, names@.len()),
        in_text_order(order@, names@),
{
    let mut order: Vec<usize> = Vec::new();
    let mut k: usize = 0;
    while k < names.len()
        invariant
            k <= names@.len(),
            names_each_once(order@, k as nat),
            in_text_order(order@, names@),
        decreases names@.len() - k,
    {
        let mut at: usize = k;
        while at > 0 && !is_not_after(&names[order[at - 1]], &names[k])
            invariant
                at <= k < names@.len(),
                names_each_once(order@, k as nat),
                in_text_order(order@, names@),
                forall|i: int|
                    at <= i < k ==> !not_after(
                        names@[(#[trigger] order@[i]) as int]@,
                        names@[k as int]@,
                    ),
            ensures
                at <= k,
                at > 0 ==> not_after(names@[order@[at - 1] as int]@, names@[k as int]@),
                forall|i: int|
                    at <= i < k ==> !not_after(
                        names@[(#[trigger] order@[i]) as int]@,
                        names@[k as int]@,
                    ),
            decreases at,
        {
            at = at - 1;
        }
        let ghost was = order@;
        order.insert(at, k);
        proof {
            assert(order@ =~= was.insert(at as int, k));
            assert forall|i: int, j: int| 0 <= i < j < order@.len() implies (#[trigger] order@[i])
                != (#[trigger] order@[j]) && not_after(
                names@[order@[i] as int]@,
                names@[order@[j] as int]@,
            ) by {
                let p = if i < at { i } else { i - 1 };
                let q = if j < at { j } else { j - 1 };
                if i != at && j != at {
                    assert(order@[i] == was[p] && order@[j] == was[q]);
                } else if j == at {
                    assert(order@[i] == was[i]);
                    if i < at - 1 {
                        assert(was[i] != was[at - 1]);
                        lemma_not_after_carries_over(
                            names@[was[i] as int]@,
                            names@[was[at - 1] as int]@,
                            names@[k as int]@,
                        );
                    }
                } else {
                    assert(order@[j] == was[q]);
                    lemma_one_is_not_after(names@[was[q] as int]@, names@[k as int]@);
                }
            }
            assert forall|i: int| 0 <= i < order@.len() implies (#[trigger] order@[i]) < k + 1 by {
                if i < at {
                    assert(order@[i] == was[i]);
                } else if i > at {
                    assert(order@[i] == was[i - 1]);
                }
            }
            assert forall|v: int| 0 <= v < k + 1 implies #[trigger] is_named(order@, v) by {
                if v == k {
                    assert(order@[at as int] as int == v);
                } else {
                    assert(is_named(was, v));
                    let i = choose|i: int| 0 <= i < was.len() && (#[trigger] was[i]) as int == v;
                    if i < at {
                        assert(order@[i] as int == v);
                    } else {
                        assert(order@[i + 1] as int == v);
                    }
                }
            }
        }
        k = k + 1;
    }
    order
}

/// Texts are in a total order: of any two one does not come after the other, only
/// a text itself comes neither before nor after it, and the order carries over. A
/// text comes after its own beginning.
pub proof fn texts_are_in_order(a: Seq<char>, b: Seq<char>, c: Seq<char>)
    ensures
        not_after(a, a),
        not_after(a, b) || not_after(b, a),
        not_after(a, b) && not_after(b, a) ==> a == b,
        not_after(a, b) && not_after(b, c) ==> not_after(a, c),
        not_after(a, a + b),
    decreases a.len(),
{
    lemma_one_is_not_after(a, b);
    lemma_one_is_not_after(a, a);
    if not_after(a, b) && not_after(b, c) {
        lemma_not_after_carries_over(a, b, c);
    }
    lemma_same_place(a, b);
    lemma_beginning(a, b);
}

proof fn lemma_same_place(a: Seq<char>, b: Seq<char>)
    ensures
        not_after(a, b) && not_after(b, a) ==> a == b,
    decreases a.len(),
{
    if a.len() > 0 && b.len() > 0 {
        lemma_char_numbers(a[0], b[0]);
        lemma_same_place(a.drop_first(), b.drop_first());
        if not_after(a, b) && not_after(b, a) {
            assert(a =~= seq![a[0]] + a.drop_first());
            assert(b =~= seq![b[0]] + b.drop_first());
        }
    } else if a.len() == 0 && b.len() == 0 {
        assert(a =~= b);
    }
}

proof fn lemma_beginning(a: Seq<char>, b: Seq<char>)
    ensures
        not_after(a, a + b),
    decreases a.len(),
{
    if a.len() > 0 {
        assert((a + b).drop_first() =~= a.drop_first() + b);
        lemma_beginning(a.drop_first(), b);
    }
}

/// The character that differs first decides.
pub proof fn the_first_difference_decides(front: Seq<char>, a: char, b: char, x: Seq<char>, y: Seq<char>)
    requires
        (a as u32) < (b as u32),
    ensures
        not_after(front.push(a) + x, front.push(b) + y),
        !not_after(front.push(b) + y, front.push(a) + x),
    decreases front.len(),
{
    let (l, r) = (front.push(a) + x, front.push(b) + y);
    if front.len() > 0 {
        let rest = front.drop_first();
        assert(l.drop_first() =~= rest.push(a) + x);
        assert(r.drop_first() =~= rest.push(b) + y);
        the_first_difference_decides(rest, a, b, x, y);
    }
}

} // verus!
