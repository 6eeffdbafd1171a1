//! Ordering: a stable sort for the lists that are put in order once after
//! loading, and the order of texts by their bytes.

use vstd::prelude::*;

verus! {

/// Values that can be put in order: any two compare, and the comparison is
/// transitive.
pub trait Ranked: Sized {
    /// Whether `self` may stand before `other`.
    spec fn at_most(&self, other: &Self) -> bool;

    /// Of two values, one may stand before the other.
    proof fn lemma_total(a: &Self, b: &Self)
        ensures
            a.at_most(b) || b.at_most(a),
    ;

    /// What may stand before a value may stand before all that the value may
    /// stand before.
    proof fn lemma_transitive(a: &Self, b: &Self, c: &Self)
        requires
            a.at_most(b),
            b.at_most(c),
        ensures
            a.at_most(c),
    ;

    /// Decides whether `self` may stand before `other`.
    fn may_precede(&self, other: &Self) -> (yes: bool)
        ensures
            yes == self.at_most(other),
    ;
}

/// Whether every item may stand before all the items behind it.
pub open spec fn spec_sorted<T: Ranked>(items: Seq<T>) -> bool {
    forall|i: int, j: int|
        #![trigger items[i], items[j]]
        0 <= i < j < items.len() ==> items[i].at_most(&items[j])
}

/// `sorted` with `x` put in behind the last item that may stand before it.
pub open spec fn spec_insert<T: Ranked>(sorted: Seq<T>, x: T) -> Seq<T>
    decreases sorted.len(),
{
    if sorted.len() == 0 {
        seq![x]
    } else if sorted.last().at_most(&x) {
        sorted.push(x)
    } else {
        spec_insert(sorted.drop_last(), x).push(sorted.last())
    }
}

/// The items in order. Items that each may stand before the other keep the
/// order in which they came.
pub open spec fn spec_sort<T: Ranked>(items: Seq<T>) -> Seq<T>
    decreases items.len(),
{
    if items.len() == 0 {
        Seq::empty()
    } else {
        spec_insert(spec_sort(items.drop_last()), items.last())
    }
}

/// Putting `x` in at position `at` is the insertion, where no item from `at`
/// on may stand before `x` and the item in front of `at` may.
proof fn lemma_insert_at<T: Ranked>(sorted: Seq<T>, x: T, at: int)
    requires
        0 <= at <= sorted.len(),
        forall|j: int| at <= j < sorted.len() ==> !(#[trigger] sorted[j]).at_most(&x),
        at > 0 ==> sorted[at - 1].at_most(&x),
    ensures
        spec_insert(sorted, x) == sorted.insert(at, x),
    decreases sorted.len(),
{
    if sorted.len() == 0 {
        assert(sorted.insert(at, x) =~= seq![x]);
    } else if at == sorted.len() {
        assert(sorted.insert(at, x) =~= sorted.push(x));
    } else {
        assert(!sorted[sorted.len() - 1].at_most(&x));
        let front = sorted.drop_last();
        lemma_insert_at(front, x, at);
        assert(front.insert(at, x).push(sorted.last()) =~= sorted.insert(at, x));
    }
}

/// The insertion holds the items of `sorted` and `x`, each as often as
/// before.
pub proof fn lemma_insert_permutes<T: Ranked>(sorted: Seq<T>, x: T)
    ensures
        spec_insert(sorted, x).to_multiset() == sorted.to_multiset().insert(x),
        spec_insert(sorted, x).len() == sorted.len() + 1,
    decreases sorted.len(),
{
    broadcast use vstd::seq_lib::group_to_multiset_ensures;

    if sorted.len() == 0 {
        assert(sorted =~= Seq::<T>::empty());
        assert(seq![x] =~= Seq::<T>::empty().push(x));
    } else if !sorted.last().at_most(&x) {
        let front = sorted.drop_last();
        lemma_insert_permutes(front, x);
        assert(sorted =~= front.push(sorted.last()));
        assert(spec_insert(sorted, x).to_multiset() =~= sorted.to_multiset().insert(x));
    }
}

/// The insertion into a sorted sequence is sorted, and holds nothing but `x`
/// and the items of the sequence.
pub proof fn lemma_insert_sorted<T: Ranked>(sorted: Seq<T>, x: T)
    requires
        spec_sorted(sorted),
    ensures
        spec_sorted(spec_insert(sorted, x)),
        forall|i: int|
            0 <= i < spec_insert(sorted, x).len() ==> (#[trigger] spec_insert(sorted, x)[i] == x
                || exists|k: int| 0 <= k < sorted.len() && sorted[k] == spec_insert(sorted, x)[i]),
    decreases sorted.len(),
{
    let result = spec_insert(sorted, x);
    if sorted.len() == 0 {
        assert(result =~= seq![x]);
    } else if sorted.last().at_most(&x) {
        assert forall|i: int, j: int|
            #![trigger result[i], result[j]]
            0 <= i < j < result.len() implies result[i].at_most(&result[j]) by {
            if j == sorted.len() {
                assert(result[i] == sorted[i]);
                if i < sorted.len() - 1 {
                    T::lemma_transitive(&sorted[i], &sorted.last(), &x);
                }
            } else {
                assert(result[i] == sorted[i] && result[j] == sorted[j]);
            }
        }
        assert forall|i: int| 0 <= i < result.len() implies (#[trigger] result[i] == x || exists|k: int|
            0 <= k < sorted.len() && sorted[k] == result[i]) by {
            if i < sorted.len() {
                assert(sorted[i] == result[i]);
            }
        }
    } else {
        let front = sorted.drop_last();
        let last = sorted.last();
        assert forall|i: int, j: int|
            #![trigger front[i], front[j]]
            0 <= i < j < front.len() implies front[i].at_most(&front[j]) by {
            assert(front[i] == sorted[i] && front[j] == sorted[j]);
        }
        lemma_insert_sorted(front, x);
        let inner = spec_insert(front, x);
        lemma_insert_permutes(front, x);
        T::lemma_total(&last, &x);
        assert(result == inner.push(last));
        assert forall|i: int, j: int|
            #![trigger result[i], result[j]]
            0 <= i < j < result.len() implies result[i].at_most(&result[j]) by {
            if j == inner.len() {
                assert(result[i] == inner[i]);
                assert(result[j] == last);
                if inner[i] != x {
                    let k = choose|k: int| 0 <= k < front.len() && front[k] == inner[i];
                    assert(sorted[k] == front[k]);
                    assert(sorted[k].at_most(&sorted[sorted.len() - 1]));
                }
            } else {
                assert(result[i] == inner[i] && result[j] == inner[j]);
            }
        }
        assert forall|i: int| 0 <= i < result.len() implies (#[trigger] result[i] == x || exists|k: int|
            0 <= k < sorted.len() && sorted[k] == result[i]) by {
            if i < inner.len() {
                assert(result[i] == inner[i]);
                if inner[i] != x {
                    let k = choose|k: int| 0 <= k < front.len() && front[k] == inner[i];
                    assert(sorted[k] == front[k]);
                }
            } else {
                assert(sorted[sorted.len() - 1] == result[i]);
            }
        }
    }
}

/// The sort gives a sorted sequence.
pub proof fn lemma_sort_sorted<T: Ranked>(items: Seq<T>)
    ensures
        spec_sorted(spec_sort(items)),
    decreases items.len(),
{
    if items.len() > 0 {
        lemma_sort_sorted(items.drop_last());
        lemma_insert_sorted(spec_sort(items.drop_last()), items.last());
    }
}

/// The sort holds the items that it was given, each as often as before.
pub proof fn lemma_sort_permutes<T: Ranked>(items: Seq<T>)
    ensures
        spec_sort(items).to_multiset() == items.to_multiset(),
        spec_sort(items).len() == items.len(),
    decreases items.len(),
{
    broadcast use vstd::seq_lib::group_to_multiset_ensures;

    if items.len() == 0 {
        assert(items =~= Seq::<T>::empty());
    } else {
        lemma_sort_permutes(items.drop_last());
        lemma_insert_permutes(spec_sort(items.drop_last()), items.last());
        assert(items =~= items.drop_last().push(items.last()));
    }
}

/// The sort leaves a sorted sequence as it is: items that compare alike keep
/// their places.
pub proof fn lemma_sort_keeps_sorted<T: Ranked>(items: Seq<T>)
    requires
        spec_sorted(items),
    ensures
        spec_sort(items) == items,
    decreases items.len(),
{
    if items.len() > 0 {
        let front = items.drop_last();
        assert forall|i: int, j: int|
            #![trigger front[i], front[j]]
            0 <= i < j < front.len() implies front[i].at_most(&front[j]) by {
            assert(front[i] == items[i] && front[j] == items[j]);
        }
        lemma_sort_keeps_sorted(front);
        if front.len() > 0 {
            assert(front.last() == items[front.len() - 1]);
            assert(items[front.len() - 1].at_most(&items[items.len() - 1]));
        }
        assert(front.push(items.last()) =~= items);
    }
}

/// Sorts the items. Items that each may stand before the other keep the
/// order in which they came.
pub fn sort_stable<T: Ranked>(items: Vec<T>) -> (sorted: Vec<T>)
    ensures
        sorted@ == spec_sort(items@),
{
    let mut rest = items;
    let mut sorted: Vec<T> = Vec::new();
    let ghost mut taken: int = 0;
    assert(items@.subrange(0, 0) =~= Seq::<T>::empty());
    assert(items@.subrange(0, items@.len() as int) =~= items@);
    while rest.len() > 0
        invariant
            0 <= taken <= items@.len(),
            rest@ == items@.subrange(taken, items@.len() as int),
            sorted@ == spec_sort(items@.subrange(0, taken)),
        decreases rest.len(),
    {
        let x = rest.remove(0);
        let mut at: usize = sorted.len();
        proof {
            lemma_sort_permutes(items@.subrange(0, taken));
        }
        while at > 0 && !sorted[at - 1].may_precede(&x)
            invariant
                at <= sorted.len(),
                forall|j: int| at <= j < sorted@.len() ==> !(#[trigger] sorted@[j]).at_most(&x),
            decreases at,
        {
            at -= 1;
        }
        proof {
            lemma_insert_at(sorted@, x, at as int);
            let done = items@.subrange(0, taken);
            let more = items@.subrange(0, taken + 1);
            assert(x == items@[taken]);
            assert(more.drop_last() =~= done);
            assert(more.last() == x);
            taken = taken + 1;
        }
        sorted.insert(at, x);
        assert(rest@ =~= items@.subrange(taken, items@.len() as int));
    }
    assert(rest@.len() == 0);
    assert(items@.subrange(0, taken) =~= items@);
    sorted
}

/// Whether the bytes `a` come before the bytes `b`, or are the same: at the
/// first place where they differ `a` has the smaller byte, or `a` ends first.
pub open spec fn spec_bytes_le(a: Seq<u8>, b: Seq<u8>) -> bool
    decreases a.len(),
{
    if a.len() == 0 {
        true
    } else if b.len() == 0 {
        false
    } else if a[0] != b[0] {
        a[0] < b[0]
    } else {
        spec_bytes_le(a.drop_first(), b.drop_first())
    }
}

/// Of two byte sequences, one comes before the other or they are the same.
pub proof fn lemma_bytes_le_total(a: Seq<u8>, b: Seq<u8>)
    ensures
        spec_bytes_le(a, b) || spec_bytes_le(b, a),
    decreases a.len(),
{
    if a.len() > 0 && b.len() > 0 && a[0] == b[0] {
        lemma_bytes_le_total(a.drop_first(), b.drop_first());
    }
}

/// The order of byte sequences is transitive.
pub proof fn lemma_bytes_le_transitive(a: Seq<u8>, b: Seq<u8>, c: Seq<u8>)
    requires
        spec_bytes_le(a, b),
        spec_bytes_le(b, c),
    ensures
        spec_bytes_le(a, c),
    decreases a.len(),
{
    if a.len() > 0 && b.len() > 0 && c.len() > 0 && a[0] == b[0] && b[0] == c[0] {
        lemma_bytes_le_transitive(a.drop_first(), b.drop_first(), c.drop_first());
    }
}

/// Decides whether the bytes `a` come before the bytes `b` or are the same.
pub fn bytes_le(a: &[u8], b: &[u8]) -> (yes: bool)
    ensures
        yes == spec_bytes_le(a@, b@),
{
    let mut i: usize = 0;
    assert(a@.skip(0) =~= a@ && b@.skip(0) =~= b@);
    while i < a.len() && i < b.len()
        invariant
            i <= a.len(),
            i <= b.len(),
            spec_bytes_le(a@, b@) == spec_bytes_le(a@.skip(i as int), b@.skip(i as int)),
        decreases a.len() - i,
    {
        if a[i] != b[i] {
            return a[i] < b[i];
        }
        assert(a@.skip(i as int).drop_first() =~= a@.skip(i + 1));
        assert(b@.skip(i as int).drop_first() =~= b@.skip(i + 1));
        i += 1;
    }
    i == a.len()
}

} // verus!
