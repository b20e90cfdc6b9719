//! The order in which items are listed.

use vstd::prelude::*;
use vstd::relations::*;
use vstd::seq_lib::lemma_sorted_unique;

verus! {

/// What decides the place of an item in a list.
#[derive(Clone, Copy, Debug, PartialEq, Eq, Structural)]
pub struct Key {
    pub priority: u8,
    /// The start of the item, in nanoseconds.
    pub started: i128,
    pub id: i64,
}

impl Key {
    /// Whether this item is listed before another: by priority, then later
    /// starts first, then larger numbers first.
    pub open spec fn leads(self, other: Key) -> bool {
        ||| self.priority < other.priority
        ||| self.priority == other.priority && self.started > other.started
        ||| self.priority == other.priority && self.started == other.started && self.id > other.id
    }

    /// Whether this item is listed before another.
    pub fn is_before(self, other: Key) -> (r: bool)
        ensures
            r == self.leads(other),
    {
        self.priority < other.priority || (self.priority == other.priority && (self.started
            > other.started || (self.started == other.started && self.id > other.id)))
    }
}

/// The order of a list.
pub open spec fn listing_order() -> spec_fn(Key, Key) -> bool {
    |left: Key, right: Key| left == right || left.leads(right)
}

proof fn lemma_listing_order()
    ensures
        total_ordering(listing_order()),
{
}

/// Brings keys into the order of a list.
pub fn sort(keys: Vec<Key>) -> (r: Vec<Key>)
    ensures
        r@ == keys@.sort_by(listing_order()),
{
    let n: usize = keys.len();
    let sorted: Vec<Key> = sort_range(&keys, 0, n);
    proof {
        lemma_listing_order();
        assert(keys@.subrange(0, n as int) =~= keys@);
        keys@.lemma_sort_by_ensures(listing_order());
        lemma_sorted_unique(sorted@, keys@.sort_by(listing_order()), listing_order());
    }
    sorted
}

fn sort_range(keys: &Vec<Key>, from: usize, to: usize) -> (r: Vec<Key>)
    requires
        from <= to <= keys.len(),
    ensures
        sorted_by(r@, listing_order()),
        r@.to_multiset() =~= keys@.subrange(from as int, to as int).to_multiset(),
    decreases to - from,
{
    if to - from <= 1 {
        let mut out: Vec<Key> = Vec::new();
        if from < to {
            out.push(keys[from]);
        }
        assert(out@ =~= keys@.subrange(from as int, to as int));
        return out;
    }
    let middle: usize = from + (to - from) / 2;
    let left: Vec<Key> = sort_range(keys, from, middle);
    let right: Vec<Key> = sort_range(keys, middle, to);
    proof {
        let first = keys@.subrange(from as int, middle as int);
        let second = keys@.subrange(middle as int, to as int);
        assert(first + second =~= keys@.subrange(from as int, to as int));
        vstd::seq_lib::lemma_multiset_commutative(first, second);
    }
    merge(&left, &right)
}

fn merge(left: &Vec<Key>, right: &Vec<Key>) -> (r: Vec<Key>)
    requires
        sorted_by(left@, listing_order()),
        sorted_by(right@, listing_order()),
    ensures
        sorted_by(r@, listing_order()),
        r@.to_multiset() =~= left@.to_multiset().add(right@.to_multiset()),
{
    let mut out: Vec<Key> = Vec::new();
    let mut i: usize = 0;
    let mut j: usize = 0;
    proof {
        lemma_listing_order();
        assert(left@.take(0).to_multiset() =~= vstd::multiset::Multiset::<Key>::empty()) by {
            left@.take(0).to_multiset_ensures();
        }
        assert(right@.take(0).to_multiset() =~= vstd::multiset::Multiset::<Key>::empty()) by {
            right@.take(0).to_multiset_ensures();
        }
        out@.to_multiset_ensures();
        assert(left@.take(0) =~= Seq::empty());
        assert(right@.take(0) =~= Seq::empty());
    }
    while i < left.len() || j < right.len()
        invariant
            i <= left.len(),
            j <= right.len(),
            total_ordering(listing_order()),
            sorted_by(left@, listing_order()),
            sorted_by(right@, listing_order()),
            sorted_by(out@, listing_order()),
            forall|k: int, l: int|
                0 <= k < out.len() && i <= l < left.len() ==> listing_order()(
                    #[trigger] out@[k],
                    #[trigger] left@[l],
                ),
            forall|k: int, l: int|
                0 <= k < out.len() && j <= l < right.len() ==> listing_order()(
                    #[trigger] out@[k],
                    #[trigger] right@[l],
                ),
            out@.to_multiset() =~= left@.take(i as int).to_multiset().add(
                right@.take(j as int).to_multiset(),
            ),
        decreases left.len() - i + (right.len() - j),
    {
        let ghost before = out@;
        if j >= right.len() || (i < left.len() && !right[j].is_before(left[i])) {
            out.push(left[i]);
            proof {
                let x = left@[i as int];
                assert forall|l: int| i < l < left.len() implies listing_order()(
                    x,
                    #[trigger] left@[l],
                ) by {}
                assert forall|l: int| j <= l < right.len() implies listing_order()(
                    x,
                    #[trigger] right@[l],
                ) by {
                    assert(listing_order()(x, right@[j as int]));
                    assert(l > j ==> listing_order()(right@[j as int], right@[l]));
                }
                before.to_multiset_ensures();
                left@.take(i as int).to_multiset_ensures();
                assert(left@.take(i + 1) =~= left@.take(i as int).push(left@[i as int]));
            }
            i = i + 1;
        } else {
            out.push(right[j]);
            proof {
                let x = right@[j as int];
                assert forall|l: int| j < l < right.len() implies listing_order()(
                    x,
                    #[trigger] right@[l],
                ) by {}
                assert forall|l: int| i <= l < left.len() implies listing_order()(
                    x,
                    #[trigger] left@[l],
                ) by {
                    assert(listing_order()(x, left@[i as int]));
                    assert(l > i ==> listing_order()(left@[i as int], left@[l]));
                }
                before.to_multiset_ensures();
                right@.take(j as int).to_multiset_ensures();
                assert(right@.take(j + 1) =~= right@.take(j as int).push(right@[j as int]));
            }
            j = j + 1;
        }
    }
    assert(left@.take(left@.len() as int) =~= left@);
    assert(right@.take(right@.len() as int) =~= right@);
    out
}

/// A sorted list holds the same keys, each before those that it leads.
pub proof fn sorted_keys(keys: Seq<Key>)
    ensures
        keys.sort_by(listing_order()).len() == keys.len(),
        forall|key: Key| keys.sort_by(listing_order()).contains(key) <==> keys.contains(key),
        forall|i: int, j: int|
            0 <= i < j < keys.len() ==> listing_order()(
                #[trigger] keys.sort_by(listing_order())[i],
                #[trigger] keys.sort_by(listing_order())[j],
            ),
{
    lemma_listing_order();
    keys.lemma_sort_by_ensures(listing_order());
    let sorted = keys.sort_by(listing_order());
    keys.to_multiset_ensures();
    sorted.to_multiset_ensures();
    assert forall|key: Key| sorted.contains(key) <==> keys.contains(key) by {
        assert(sorted.contains(key) <==> sorted.to_multiset().count(key) > 0);
        assert(keys.contains(key) <==> keys.to_multiset().count(key) > 0);
    }
}

/// Sorting keeps each key as often as it occurs.
pub proof fn sorted_multiset(keys: Seq<Key>)
    ensures
        keys.sort_by(listing_order()).to_multiset() == keys.to_multiset(),
{
    lemma_listing_order();
    keys.lemma_sort_by_ensures(listing_order());
}

/// What is left of a list in order is in order, and holds the items of the list
/// that were to be kept.
pub proof fn filtering_keeps_order<A>(
    list: Seq<A>,
    keep: spec_fn(A) -> bool,
    before: spec_fn(A, A) -> bool,
)
    requires
        forall|i: int, j: int|
            0 <= i < j < list.len() ==> before(#[trigger] list[i], #[trigger] list[j])
                && list[i] != list[j],
    ensures
        forall|i: int, j: int|
            0 <= i < j < list.filter(keep).len() ==> before(
                #[trigger] list.filter(keep)[i],
                #[trigger] list.filter(keep)[j],
            ) && list.filter(keep)[i] != list.filter(keep)[j],
        forall|item: A| #[trigger]
            list.filter(keep).contains(item) <==> list.contains(item) && keep(item),
    decreases list.len(),
{
    reveal(Seq::filter);
    if list.len() > 0 {
        let shorter = list.drop_last();
        let last = list.last();
        assert forall|i: int, j: int| 0 <= i < j < shorter.len() implies before(
            #[trigger] shorter[i],
            #[trigger] shorter[j],
        ) && shorter[i] != shorter[j] by {
            assert(list[i] == shorter[i] && list[j] == shorter[j]);
        }
        filtering_keeps_order(shorter, keep, before);
        let kept = shorter.filter(keep);
        let after = list.filter(keep);
        assert(after == if keep(last) {
            kept.push(last)
        } else {
            kept
        });
        assert forall|i: int, j: int| 0 <= i < j < after.len() implies before(
            #[trigger] after[i],
            #[trigger] after[j],
        ) && after[i] != after[j] by {
            assert(after[i] == kept[i]);
            if j < kept.len() {
                assert(after[j] == kept[j]);
            } else {
                assert(kept.contains(kept[i]));
                let k = shorter.index_of(kept[i]);
                assert(list[k] == kept[i] && list[list.len() - 1] == last);
            }
        }
        assert forall|item: A| #[trigger]
            after.contains(item) <==> list.contains(item) && keep(item) by {
            assert(list =~= shorter.push(last));
            if after.contains(item) {
                let i = after.index_of(item);
                if i < kept.len() {
                    assert(kept[i] == item);
                    assert(kept.contains(item));
                    let k = shorter.index_of(item);
                    assert(list[k] == item);
                } else {
                    assert(list[list.len() - 1] == item);
                }
            }
            if list.contains(item) && keep(item) {
                let k = list.index_of(item);
                if k < shorter.len() {
                    assert(shorter[k] == item);
                    assert(kept.contains(item));
                    let i = kept.index_of(item);
                    assert(after[i] == item);
                } else {
                    assert(after[after.len() - 1] == item);
                }
            }
        }
    }
}

/// Two lists in the same order that hold the same items are the same list.
pub proof fn order_fixes_a_list<A>(
    left: Seq<A>,
    right: Seq<A>,
    before: spec_fn(A, A) -> bool,
)
    requires
        forall|a: A, b: A| #[trigger] before(a, b) ==> !before(b, a),
        forall|i: int, j: int|
            0 <= i < j < left.len() ==> before(#[trigger] left[i], #[trigger] left[j]) && left[i]
                != left[j],
        forall|i: int, j: int|
            0 <= i < j < right.len() ==> before(#[trigger] right[i], #[trigger] right[j])
                && right[i] != right[j],
        forall|item: A| left.contains(item) <==> right.contains(item),
    ensures
        left == right,
    decreases left.len(),
{
    if left.len() == 0 {
        if right.len() > 0 {
            assert(right.contains(right[0]));
        }
        assert(left =~= right);
    } else {
        let m = left.len() - 1;
        assert(left.contains(left[m]));
        let n = right.len() - 1;
        assert(right.contains(right[n]));
        let i = right.index_of(left[m]);
        let j = left.index_of(right[n]);
        if i < n && j < m {
            assert(before(right[i], right[n]));
            assert(before(left[j], left[m]));
        }
        assert(left[m] == right[n]);
        let x = left.drop_last();
        let y = right.drop_last();
        assert forall|item: A| x.contains(item) <==> y.contains(item) by {
            if x.contains(item) {
                let k = x.index_of(item);
                assert(left[k] == item);
                assert(left.contains(item));
                let l = right.index_of(item);
                assert(left[k] != left[m]);
                assert(y[l] == item);
            }
            if y.contains(item) {
                let k = y.index_of(item);
                assert(right[k] == item);
                assert(right.contains(item));
                let l = left.index_of(item);
                assert(right[k] != right[n]);
                assert(x[l] == item);
            }
        }
        assert forall|i: int, j: int| 0 <= i < j < x.len() implies before(
            #[trigger] x[i],
            #[trigger] x[j],
        ) && x[i] != x[j] by {
            assert(left[i] == x[i] && left[j] == x[j]);
        }
        assert forall|i: int, j: int| 0 <= i < j < y.len() implies before(
            #[trigger] y[i],
            #[trigger] y[j],
        ) && y[i] != y[j] by {
            assert(right[i] == y[i] && right[j] == y[j]);
        }
        order_fixes_a_list(x, y, before);
        assert(left =~= x.push(left[m]));
        assert(right =~= y.push(right[n]));
    }
}

} // verus!
