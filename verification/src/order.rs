//! Ordering by text, and stable sorting by a rank made of texts.
//!
//! Texts are ordered character by character, by code point, as `str` orders them.

use vstd::prelude::*;

use crate::text::chars_of;

verus! {

/// `left` comes strictly before `right` in the order of texts.
pub open spec fn precedes(left: Seq<char>, right: Seq<char>) -> bool
    decreases left.len(),
{
    if right.len() == 0 {
        false
    } else if left.len() == 0 {
        true
    } else if left[0] != right[0] {
        left[0] < right[0]
    } else {
        precedes(left.drop_first(), right.drop_first())
    }
}

/// `left` comes strictly before `right` in the order of ranks: the first text
/// in which they differ decides.
pub open spec fn ranks_before(left: Seq<Seq<char>>, right: Seq<Seq<char>>) -> bool
    decreases left.len(),
{
    if right.len() == 0 {
        false
    } else if left.len() == 0 {
        true
    } else if left[0] != right[0] {
        precedes(left[0], right[0])
    } else {
        ranks_before(left.drop_first(), right.drop_first())
    }
}

pub fn text_precedes(left: &str, right: &str) -> (yes: bool)
    ensures
        yes == precedes(left@, right@),
{
    let a = chars_of(left);
    let b = chars_of(right);
    let mut i: usize = 0;
    assert(left@.skip(0) =~= left@);
    assert(right@.skip(0) =~= right@);
    loop
        invariant
            a@ == left@,
            b@ == right@,
            i <= a@.len(),
            i <= b@.len(),
            precedes(left@.skip(i as int), right@.skip(i as int)) == precedes(left@, right@),
        decreases a@.len() - i,
    {
        if i == b.len() {
            return false;
        }
        if i == a.len() {
            return true;
        }
        if a[i] != b[i] {
            return a[i] < b[i];
        }
        assert(left@.skip(i as int).drop_first() =~= left@.skip(i as int + 1));
        assert(right@.skip(i as int).drop_first() =~= right@.skip(i as int + 1));
        i += 1;
    }
}

pub proof fn lemma_precedes_irreflexive(a: Seq<char>)
    ensures
        !precedes(a, a),
    decreases a.len(),
{
    if a.len() > 0 {
        lemma_precedes_irreflexive(a.drop_first());
    }
}

pub proof fn lemma_precedes_transitive(a: Seq<char>, b: Seq<char>, c: Seq<char>)
    requires
        precedes(a, b),
        precedes(b, c),
    ensures
        precedes(a, c),
    decreases a.len(),
{
    if a.len() > 0 && a[0] == b[0] && b[0] == c[0] {
        lemma_precedes_transitive(a.drop_first(), b.drop_first(), c.drop_first());
    }
}

pub proof fn lemma_precedes_total(a: Seq<char>, b: Seq<char>)
    ensures
        precedes(a, b) || precedes(b, a) || a == b,
    decreases a.len(),
{
    if a.len() > 0 && b.len() > 0 && a[0] == b[0] {
        lemma_precedes_total(a.drop_first(), b.drop_first());
        if a.drop_first() == b.drop_first() {
            assert(a =~= seq![a[0]] + a.drop_first());
            assert(b =~= seq![b[0]] + b.drop_first());
        }
    } else if a.len() == 0 && b.len() == 0 {
        assert(a =~= b);
    }
}

pub proof fn lemma_ranks_irreflexive(a: Seq<Seq<char>>)
    ensures
        !ranks_before(a, a),
    decreases a.len(),
{
    if a.len() > 0 {
        lemma_ranks_irreflexive(a.drop_first());
    }
}

pub proof fn lemma_ranks_transitive(a: Seq<Seq<char>>, b: Seq<Seq<char>>, c: Seq<Seq<char>>)
    requires
        ranks_before(a, b),
        ranks_before(b, c),
    ensures
        ranks_before(a, c),
    decreases a.len(),
{
    if a.len() > 0 {
        if a[0] == b[0] && b[0] == c[0] {
            lemma_ranks_transitive(a.drop_first(), b.drop_first(), c.drop_first());
        } else if a[0] != b[0] && b[0] != c[0] {
            lemma_precedes_transitive(a[0], b[0], c[0]);
            lemma_precedes_irreflexive(a[0]);
        }
    }
}

pub proof fn lemma_ranks_total(a: Seq<Seq<char>>, b: Seq<Seq<char>>)
    ensures
        ranks_before(a, b) || ranks_before(b, a) || a == b,
    decreases a.len(),
{
    if a.len() > 0 && b.len() > 0 {
        if a[0] == b[0] {
            lemma_ranks_total(a.drop_first(), b.drop_first());
            if a.drop_first() == b.drop_first() {
                assert(a =~= seq![a[0]] + a.drop_first());
                assert(b =~= seq![b[0]] + b.drop_first());
            }
        } else {
            lemma_precedes_total(a[0], b[0]);
        }
    } else if a.len() == 0 && b.len() == 0 {
        assert(a =~= b);
    }
}

/// What can be sorted: an item with a rank, and a test of two items' ranks.
pub trait Ranked: Sized {
    spec fn rank(self) -> Seq<Seq<char>>;

    fn goes_before(&self, other: &Self) -> (yes: bool)
        ensures
            yes == ranks_before(self.rank(), other.rank()),
    ;
}

/// `sorted` with `item` put behind every item that does not rank after it.
pub open spec fn inserted<T: Ranked>(sorted: Seq<T>, item: T) -> Seq<T>
    decreases sorted.len(),
{
    if sorted.len() > 0 && ranks_before(item.rank(), sorted.last().rank()) {
        inserted(sorted.drop_last(), item).push(sorted.last())
    } else {
        sorted.push(item)
    }
}

/// The items in the order of their ranks, those of one rank in the order in
/// which they came.
pub open spec fn ranked<T: Ranked>(items: Seq<T>) -> Seq<T>
    decreases items.len(),
{
    if items.len() == 0 {
        items
    } else {
        inserted(ranked(items.drop_last()), items.last())
    }
}

/// No item ranks after a later one.
pub open spec fn is_ranked<T: Ranked>(items: Seq<T>) -> bool {
    forall|i: int, j: int|
        0 <= i < j < items.len() ==> !ranks_before(
            #[trigger] items[j].rank(),
            #[trigger] items[i].rank(),
        )
}

/// The items of one rank, in order.
pub open spec fn of_rank<T: Ranked>(items: Seq<T>, rank: Seq<Seq<char>>) -> Seq<T> {
    items.filter(|item: T| item.rank() == rank)
}

proof fn lemma_inserted_shape<T: Ranked>(sorted: Seq<T>, item: T, at: int)
    requires
        0 <= at <= sorted.len(),
        forall|i: int|
            at <= i < sorted.len() ==> ranks_before(item.rank(), #[trigger] sorted[i].rank()),
        at > 0 ==> !ranks_before(item.rank(), sorted[at - 1].rank()),
    ensures
        inserted(sorted, item) == sorted.insert(at, item),
    decreases sorted.len(),
{
    if at < sorted.len() {
        lemma_inserted_shape(sorted.drop_last(), item, at);
        assert(sorted.drop_last().insert(at, item).push(sorted.last()) =~= sorted.insert(at, item));
    } else {
        assert(sorted.push(item) =~= sorted.insert(at, item));
    }
}

/// Sorts items by rank, keeping those of one rank in the order in which they came.
pub fn sort_by_rank<T: Ranked>(items: Vec<T>) -> (sorted: Vec<T>)
    ensures
        sorted@ == ranked(items@),
{
    let mut rest = items;
    let mut sorted: Vec<T> = Vec::new();
    let ghost mut done: int = 0;
    assert(items@.take(0) =~= Seq::<T>::empty());
    assert(items@.skip(0) =~= items@);
    while rest.len() > 0
        invariant
            0 <= done <= items@.len(),
            rest@ == items@.skip(done),
            sorted@ == ranked(items@.take(done)),
        decreases rest@.len(),
    {
        let item = rest.remove(0);
        let mut at: usize = sorted.len();
        while at > 0 && item.goes_before(&sorted[at - 1])
            invariant
                at <= sorted@.len(),
                forall|i: int|
                    at <= i < sorted@.len() ==> ranks_before(
                        item.rank(),
                        #[trigger] sorted@[i].rank(),
                    ),
            decreases at,
        {
            at -= 1;
        }
        proof {
            assert(at > 0 ==> !ranks_before(item.rank(), sorted@[at as int - 1].rank()));
            lemma_inserted_shape(sorted@, item, at as int);
            let upto = items@.take(done + 1);
            assert(upto.drop_last() =~= items@.take(done));
            assert(upto.last() == item);
            assert(items@.skip(done).remove(0) =~= items@.skip(done + 1));
        }
        sorted.insert(at, item);
        proof {
            done = done + 1;
        }
    }
    assert(items@.take(done) =~= items@);
    sorted
}

proof fn lemma_inserted_is_ranked<T: Ranked>(sorted: Seq<T>, item: T)
    requires
        is_ranked(sorted),
    ensures
        is_ranked(inserted(sorted, item)),
        inserted(sorted, item).to_multiset() == sorted.to_multiset().insert(item),
        forall|x: T| #[trigger]
            inserted(sorted, item).contains(x) ==> x == item || sorted.contains(x),
    decreases sorted.len(),
{
    broadcast use vstd::seq_lib::group_to_multiset_ensures;

    if sorted.len() > 0 && ranks_before(item.rank(), sorted.last().rank()) {
        let head = sorted.drop_last();
        let last = sorted.last();
        lemma_inserted_is_ranked(head, item);
        let out = inserted(head, item);
        assert(sorted =~= head.push(last));
        assert(head.to_multiset().insert(item).insert(last) =~= head.to_multiset().insert(
            last,
        ).insert(item));
        assert forall|x: T| #[trigger] inserted(sorted, item).contains(x) implies x == item
            || sorted.contains(x) by {
            let k = choose|k: int| 0 <= k < out.push(last).len() && out.push(last)[k] == x;
            if k < out.len() {
                assert(out.contains(x));
                if x != item {
                    let h = choose|h: int| 0 <= h < head.len() && head[h] == x;
                    assert(sorted[h] == x);
                }
            } else {
                assert(sorted[sorted.len() - 1] == x);
            }
        }
        assert forall|i: int, j: int| 0 <= i < j < out.push(last).len() implies !ranks_before(
            #[trigger] out.push(last)[j].rank(),
            #[trigger] out.push(last)[i].rank(),
        ) by {
            if j == out.len() {
                let x = out[i];
                assert(out.contains(x));
                if x == item {
                    if ranks_before(last.rank(), item.rank()) {
                        lemma_ranks_transitive(item.rank(), last.rank(), item.rank());
                        lemma_ranks_irreflexive(item.rank());
                    }
                } else {
                    let h = choose|h: int| 0 <= h < head.len() && head[h] == x;
                    assert(sorted[h] == x);
                    assert(sorted[sorted.len() - 1] == last);
                }
            }
        }
    } else {
        assert forall|i: int, j: int| 0 <= i < j < sorted.push(item).len() implies !ranks_before(
            #[trigger] sorted.push(item)[j].rank(),
            #[trigger] sorted.push(item)[i].rank(),
        ) by {
            if j == sorted.len() && ranks_before(item.rank(), sorted[i].rank()) {
                let last = sorted[sorted.len() - 1];
                if i < sorted.len() - 1 {
                    lemma_ranks_total(sorted[i].rank(), last.rank());
                    if ranks_before(sorted[i].rank(), last.rank()) {
                        lemma_ranks_transitive(item.rank(), sorted[i].rank(), last.rank());
                    }
                }
            }
        }
        assert forall|x: T| #[trigger] sorted.push(item).contains(x) implies x == item
            || sorted.contains(x) by {
            let k = choose|k: int| 0 <= k < sorted.push(item).len() && sorted.push(item)[k] == x;
            if k < sorted.len() {
                assert(sorted[k] == x);
            }
        }
    }
}

proof fn lemma_of_rank_push<T: Ranked>(items: Seq<T>, item: T, rank: Seq<Seq<char>>)
    ensures
        of_rank(items.push(item), rank) == if item.rank() == rank {
            of_rank(items, rank).push(item)
        } else {
            of_rank(items, rank)
        },
{
    reveal(Seq::filter);
    assert(items.push(item).drop_last() =~= items);
}

proof fn lemma_inserted_is_stable<T: Ranked>(sorted: Seq<T>, item: T, rank: Seq<Seq<char>>)
    requires
        is_ranked(sorted),
    ensures
        of_rank(inserted(sorted, item), rank) == of_rank(sorted.push(item), rank),
    decreases sorted.len(),
{
    lemma_of_rank_push(sorted, item, rank);
    if sorted.len() > 0 && ranks_before(item.rank(), sorted.last().rank()) {
        let head = sorted.drop_last();
        let last = sorted.last();
        lemma_inserted_is_stable(head, item, rank);
        lemma_of_rank_push(head, item, rank);
        lemma_of_rank_push(inserted(head, item), last, rank);
        lemma_of_rank_push(head, last, rank);
        assert(head.push(last) =~= sorted);
        lemma_ranks_irreflexive(item.rank());
    }
}

/// Sorting keeps exactly the items it was given, leaves none behind a later one,
/// and keeps the items of one rank in the order in which they came.
pub proof fn law_sorting<T: Ranked>(items: Seq<T>)
    ensures
        is_ranked(ranked(items)),
        ranked(items).to_multiset() == items.to_multiset(),
        forall|rank: Seq<Seq<char>>| #[trigger] of_rank(ranked(items), rank) == of_rank(items, rank),
    decreases items.len(),
{
    broadcast use vstd::seq_lib::group_to_multiset_ensures;

    if items.len() > 0 {
        let head = items.drop_last();
        let last = items.last();
        law_sorting(head);
        lemma_inserted_is_ranked(ranked(head), last);
        assert(items =~= head.push(last));
        assert forall|rank: Seq<Seq<char>>| #[trigger]
            of_rank(ranked(items), rank) == of_rank(items, rank) by {
            lemma_inserted_is_stable(ranked(head), last, rank);
            lemma_of_rank_push(ranked(head), last, rank);
            lemma_of_rank_push(head, last, rank);
            assert(of_rank(ranked(head), rank) == of_rank(head, rank));
        }
    }
}

/// A text goes before another where, at the first place in which they differ, it has
/// the smaller character or has ended.
pub proof fn law_first_difference_decides(left: &str, right: &str, yes: bool, at: int)
    requires
        call_ensures(text_precedes, (left, right), yes),
        0 <= at <= left@.len(),
        at <= right@.len(),
        left@.take(at) == right@.take(at),
    ensures
        at < left@.len() && at < right@.len() && left@[at] < right@[at] ==> yes,
        at < left@.len() && at < right@.len() && right@[at] < left@[at] ==> !yes,
        at == left@.len() && at < right@.len() ==> yes,
        at == right@.len() ==> !yes,
{
    lemma_common_head(left@, right@, at);
}

proof fn lemma_common_head(left: Seq<char>, right: Seq<char>, at: int)
    requires
        0 <= at <= left.len(),
        at <= right.len(),
        left.take(at) == right.take(at),
    ensures
        precedes(left, right) == precedes(left.skip(at), right.skip(at)),
    decreases at,
{
    if at == 0 {
        assert(left.skip(0) =~= left);
        assert(right.skip(0) =~= right);
    } else {
        assert(left.take(at)[0] == left[0] && right.take(at)[0] == right[0]);
        let a = left.drop_first();
        let b = right.drop_first();
        assert forall|i: int| 0 <= i < at - 1 implies #[trigger] a.take(at - 1)[i] == b.take(
            at - 1,
        )[i] by {
            assert(left.take(at)[i + 1] == left[i + 1]);
            assert(right.take(at)[i + 1] == right[i + 1]);
        }
        assert(a.take(at - 1) =~= b.take(at - 1));
        lemma_common_head(a, b, at - 1);
        assert(a.skip(at - 1) =~= left.skip(at));
        assert(b.skip(at - 1) =~= right.skip(at));
    }
}

/// Sorting gives the items again, each as often as it was there, so that none stands
/// behind one that goes after it.
pub proof fn law_sorted<T: Ranked>(items: Vec<T>, sorted: Vec<T>)
    requires
        call_ensures(sort_by_rank::<T>, (items,), sorted),
    ensures
        sorted@.to_multiset() == items@.to_multiset(),
        sorted@.len() == items@.len(),
        forall|i: int, j: int|
            0 <= i < j < sorted@.len() ==> !ranks_before(
                (#[trigger] sorted@[j]).rank(),
                (#[trigger] sorted@[i]).rank(),
            ),
{
    law_sorting(items@);
    sorted@.to_multiset_ensures();
    items@.to_multiset_ensures();
}

} // verus!
