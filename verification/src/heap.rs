//! The bounded-selection structure behind `search`: a max-heap of sort keys
//! from the binary-heap-plus crate, used with its default comparator over
//! the standard ordering of `(u64, String, u64)` triples. That ordering is
//! lexicographic, with `String` ordered by its UTF-8 bytes, and so agrees
//! with the key order `key_lt`/`key_le` over the keys' ghost views.
//!
//! The heap's contents are modelled as a multiset of key views; each
//! wrapper states how the call moves that multiset.

use vstd::prelude::*;
use vstd::multiset::Multiset;
use binary_heap_plus::{BinaryHeap, MaxComparator};
use crate::sort_key::{item_view, key_le, key_lt};

verus! {

#[verifier::external_type_specification]
#[verifier::external_body]
#[verifier::reject_recursive_types(T)]
#[verifier::reject_recursive_types(C)]
pub struct ExBinaryHeap<T, C>(BinaryHeap<T, C>);

#[verifier::external_type_specification]
#[verifier::external_body]
pub struct ExMaxComparator(MaxComparator);

/// What the heap holds, as the multiset of its items' ghost views.
pub uninterp spec fn heap_contents(h: BinaryHeap<(u64, String, u64), MaxComparator>) -> Multiset<
    (u64, Seq<char>, u64),
>;

/// Whether `m` is in the multiset and no member exceeds it.
pub open spec fn is_max_of(c: Multiset<(u64, Seq<char>, u64)>, m: (u64, Seq<char>, u64)) -> bool {
    c.count(m) > 0 && forall|x: (u64, Seq<char>, u64)| #[trigger] c.count(x) > 0 ==> key_le(x, m)
}

/// Relies on binary-heap-plus's `BinaryHeap::with_capacity`: a newly
/// created heap holds nothing.
#[verifier::external_body]
pub(crate) fn heap_with_capacity(cap: usize) -> (h: BinaryHeap<(u64, String, u64), MaxComparator>)
    ensures
        heap_contents(h) == Multiset::<(u64, Seq<char>, u64)>::empty(),
{
    BinaryHeap::with_capacity(cap)
}

/// Relies on binary-heap-plus's `BinaryHeap::push`: the heap gains exactly
/// the pushed item.
#[verifier::external_body]
pub(crate) fn heap_push(h: &mut BinaryHeap<(u64, String, u64), MaxComparator>, item: (u64, String, u64))
    ensures
        heap_contents(*final(h)) == heap_contents(*old(h)).insert(item_view(item)),
{
    h.push(item)
}

/// Relies on binary-heap-plus's `BinaryHeap::peek_mut`: the guard holds the
/// greatest item under the comparator, writing through it replaces that
/// item, and the heap order is restored when the guard drops. The greatest
/// item under the default comparator is the greatest key view, so when the
/// new item is strictly smaller it replaces a maximal member, and otherwise
/// the heap is left as it was.
#[verifier::external_body]
pub(crate) fn heap_replace_root_if_less(
    h: &mut BinaryHeap<(u64, String, u64), MaxComparator>,
    item: (u64, String, u64),
) -> (replaced: bool)
    ensures
        heap_contents(*old(h)).len() == 0 ==> !replaced && heap_contents(*final(h))
            == heap_contents(*old(h)),
        forall|m: (u64, Seq<char>, u64)| #[trigger] is_max_of(heap_contents(*old(h)), m) ==> (if key_lt(
            item_view(item),
            m,
        ) {
            replaced && heap_contents(*final(h)) == heap_contents(*old(h)).remove(m).insert(
                item_view(item),
            )
        } else {
            !replaced && heap_contents(*final(h)) == heap_contents(*old(h))
        }),
{
    let mut replaced = false;
    if let Some(mut top) = h.peek_mut() {
        if item < *top {
            *top = item;
            replaced = true;
        }
    }
    replaced
}

/// Relies on binary-heap-plus's `BinaryHeap::into_sorted_vec`: the heap's
/// items, in ascending order under the comparator.
#[verifier::external_body]
pub(crate) fn heap_into_sorted_vec(h: BinaryHeap<(u64, String, u64), MaxComparator>) -> (r: Vec<
    (u64, String, u64),
>)
    ensures
        r@.map_values(|i: (u64, String, u64)| item_view(i)).to_multiset() == heap_contents(h),
        forall|i: int, j: int|
            0 <= i < j < r@.len() ==> key_le(item_view(#[trigger] r@[i]), item_view(#[trigger] r@[j])),
{
    h.into_sorted_vec()
}

} // verus!
