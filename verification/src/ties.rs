//! The order of items that a sort cannot tell apart.
//!
//! A stable sort leaves items with equal keys in the order in which it
//! found them. The functions here state that: the sorted sequence and the
//! given one agree on the items of every key.
use vstd::prelude::*;

verus! {

/// The items of `items` whose key is `k`, in order.
pub open spec fn with_key<T, K>(items: Seq<T>, key: spec_fn(T) -> K, k: K) -> Seq<T>
    decreases items.len(),
{
    if items.len() == 0 {
        Seq::empty()
    } else {
        let before = with_key(items.drop_last(), key, k);
        if key(items.last()) == k {
            before.push(items.last())
        } else {
            before
        }
    }
}

/// Whether the items of each key come in `after` in the order that they
/// have in `before`.
pub open spec fn keeps_ties<T, K>(before: Seq<T>, after: Seq<T>, key: spec_fn(T) -> K) -> bool {
    forall|k: K| #[trigger] with_key(after, key, k) == with_key(before, key, k)
}

/// The items of a key in a concatenation are those of the first part, then
/// those of the second.
pub proof fn lemma_with_key_concat<T, K>(a: Seq<T>, b: Seq<T>, key: spec_fn(T) -> K, k: K)
    ensures
        with_key(a + b, key, k) == with_key(a, key, k) + with_key(b, key, k),
    decreases b.len(),
{
    if b.len() == 0 {
        assert(a + b =~= a);
        assert(with_key(a, key, k) + with_key(b, key, k) =~= with_key(a, key, k));
    } else {
        assert((a + b).drop_last() =~= a + b.drop_last());
        assert((a + b).last() == b.last());
        lemma_with_key_concat(a, b.drop_last(), key, k);
        if key(b.last()) == k {
            assert(with_key(a + b, key, k) =~= with_key(a, key, k) + with_key(b, key, k));
        }
    }
}

/// A sequence without an item of key `k` has no items of that key.
pub proof fn lemma_with_key_absent<T, K>(items: Seq<T>, key: spec_fn(T) -> K, k: K)
    requires
        forall|i: int| 0 <= i < items.len() ==> key(#[trigger] items[i]) != k,
    ensures
        with_key(items, key, k) == Seq::<T>::empty(),
    decreases items.len(),
{
    if items.len() > 0 {
        let rest = items.drop_last();
        assert forall|i: int| 0 <= i < rest.len() implies key(#[trigger] rest[i]) != k by {
            assert(rest[i] == items[i]);
        }
        lemma_with_key_absent(rest, key, k);
        assert(key(items[items.len() - 1]) != k);
    }
}

/// The items of a key in a sequence of one item.
pub proof fn lemma_with_key_single<T, K>(item: T, key: spec_fn(T) -> K, k: K)
    ensures
        with_key(seq![item], key, k) == if key(item) == k {
            seq![item]
        } else {
            Seq::<T>::empty()
        },
{
    let one = seq![item];
    assert(one.drop_last() =~= Seq::<T>::empty());
    assert(with_key(one.drop_last(), key, k) =~= Seq::<T>::empty());
    assert(one.last() == item);
    if key(item) == k {
        assert(with_key(one, key, k) =~= seq![item]);
    }
}

/// An item that is put in front of every item of its key becomes the first
/// of that key; the items of other keys are as they were.
pub proof fn lemma_insert_before_ties<T, K>(
    items: Seq<T>,
    at: int,
    item: T,
    key: spec_fn(T) -> K,
    k: K,
)
    requires
        0 <= at <= items.len(),
        forall|i: int| 0 <= i < at ==> key(#[trigger] items[i]) != key(item),
    ensures
        with_key(items.insert(at, item), key, k) == if key(item) == k {
            seq![item] + with_key(items, key, k)
        } else {
            with_key(items, key, k)
        },
{
    let head = items.take(at);
    let tail = items.skip(at);
    assert(items.insert(at, item) =~= (head + seq![item]) + tail);
    assert(items =~= head + tail);
    lemma_with_key_concat(head + seq![item], tail, key, k);
    lemma_with_key_concat(head, seq![item], key, k);
    lemma_with_key_concat(head, tail, key, k);
    lemma_with_key_single(item, key, k);
    if key(item) == k {
        lemma_with_key_absent(head, key, k);
        assert(with_key(items.insert(at, item), key, k) =~= seq![item] + with_key(items, key, k));
    } else {
        assert(with_key(items.insert(at, item), key, k) =~= with_key(items, key, k));
    }
}

/// An item that is put behind every item of its key becomes the last of
/// that key; the items of other keys are as they were.
pub proof fn lemma_insert_after_ties<T, K>(
    items: Seq<T>,
    at: int,
    item: T,
    key: spec_fn(T) -> K,
    k: K,
)
    requires
        0 <= at <= items.len(),
        forall|i: int| at <= i < items.len() ==> key(#[trigger] items[i]) != key(item),
    ensures
        with_key(items.insert(at, item), key, k) == if key(item) == k {
            with_key(items, key, k).push(item)
        } else {
            with_key(items, key, k)
        },
{
    let head = items.take(at);
    let tail = items.skip(at);
    assert(items.insert(at, item) =~= (head + seq![item]) + tail);
    assert(items =~= head + tail);
    lemma_with_key_concat(head + seq![item], tail, key, k);
    lemma_with_key_concat(head, seq![item], key, k);
    lemma_with_key_concat(head, tail, key, k);
    lemma_with_key_single(item, key, k);
    if key(item) == k {
        lemma_with_key_absent(tail, key, k);
        assert(with_key(items.insert(at, item), key, k) =~= with_key(items, key, k).push(item));
    } else {
        assert(with_key(items.insert(at, item), key, k) =~= with_key(items, key, k));
    }
}

} // verus!
