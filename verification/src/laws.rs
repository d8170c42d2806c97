//! What holds of every well-formed set, proved from the contracts of the
//! operations.

use crate::qset::{element_views, elements, Iter, QSet, QSetElement, QSetItem};
use vstd::prelude::*;
use vstd::std_specs::cmp::PartialEqSpec;

verus! {

/// A set holds exactly as many elements as its order has positions, and
/// its elements are finitely many.
pub proof fn lemma_len_is_order_len<T: QSetElement>(set: QSet<T>)
    requires
        set.wf(),
    ensures
        set@.finite(),
        set@.len() == set.order().len(),
        set@.len() <= isize::MAX,
{
    set.order().unique_seq_to_set();
}

/// Two well-formed sets have as many elements one as the other, and every
/// element of the first in the second, exactly when `==` holds of them:
/// when they hold the same elements. In particular this equality is
/// reflexive and symmetric.
pub proof fn lemma_equals_is_same_elements<T: QSetElement>(a: QSet<T>, b: QSet<T>)
    requires
        a.wf(),
        b.wf(),
    ensures
        a.equals(&b) <==> a.eq_spec(&b),
        a.equals(&b) <==> a@ == b@,
        a.equals(&b) <==> b.equals(&a),
        a.equals(&a),
{
    lemma_len_is_order_len(a);
    lemma_len_is_order_len(b);
    if a.equals(&b) {
        vstd::set_lib::lemma_subset_equality(a@, b@);
    }
    if b.equals(&a) {
        vstd::set_lib::lemma_subset_equality(b@, a@);
    }
}

/// A copy that holds the elements of the set it was made from, as `clone`
/// makes it, is equal to that set, and that set to it.
pub proof fn lemma_clone_equals_source<T: QSetElement>(source: QSet<T>, copy: QSet<T>)
    requires
        source.wf(),
        copy.wf(),
        copy@ == source@,
    ensures
        copy.eq_spec(&source),
        source.eq_spec(&copy),
        copy.equals(&source),
        source.equals(&copy),
{
    lemma_equals_is_same_elements(copy, source);
}

/// Inserting an element a second time changes nothing: the set and its
/// length are what they were after the first insertion, and the element is
/// contained after either.
pub proof fn lemma_insert_twice<T: QSetElement>(set: QSet<T>, value: T)
    requires
        set.wf(),
    ensures
        set@.insert(value@).contains(value@),
        set@.insert(value@).insert(value@) == set@.insert(value@),
        set@.insert(value@).insert(value@).len() == set@.insert(value@).len(),
{
    lemma_len_is_order_len(set);
    assert(set@.insert(value@).insert(value@) =~= set@.insert(value@));
}

/// An iterator at the start of a set has the whole order still to come:
/// it yields as many elements as the set holds, each element of the set
/// once and nothing else.
pub proof fn lemma_iter_yields_len<T: QSetElement>(iter: Iter<T>)
    requires
        iter.set().wf(),
        iter.position() == 0,
    ensures
        iter.remaining() == iter.set().order(),
        iter.remaining().len() == iter.set()@.len(),
        iter.remaining().no_duplicates(),
        iter.remaining().to_set() == iter.set()@,
{
    lemma_len_is_order_len(*iter.set());
    assert(iter.remaining() =~= iter.set().order());
}

/// Removing an element that is present leaves a set without it and one
/// shorter; removing one that is absent leaves the set as it was.
pub proof fn lemma_remove<T: QSetElement>(set: QSet<T>, value: T)
    requires
        set.wf(),
    ensures
        !set@.remove(value@).contains(value@),
        set@.contains(value@) ==> set@.remove(value@).len() == set@.len() - 1,
        !set@.contains(value@) ==> set@.remove(value@) == set@,
        !set@.contains(value@) ==> set@.remove(value@).len() == set@.len(),
{
    lemma_len_is_order_len(set);
    if !set@.contains(value@) {
        assert(set@.remove(value@) =~= set@);
    }
}

/// A sequence of items that stand for pairwise different elements stands
/// for as many elements as it has items.
pub proof fn lemma_elements_of_distinct<T: QSetElement, X: QSetItem<T>>(items: Seq<X>)
    requires
        element_views::<T, X>(items).no_duplicates(),
    ensures
        elements::<T, X>(items).finite(),
        elements::<T, X>(items).len() == items.len(),
{
    element_views::<T, X>(items).unique_seq_to_set();
}

/// Extending an empty set with items that stand for pairwise different
/// elements gives a set of as many elements as there are items, and
/// extending that set with the same items again gives the same set.
pub proof fn lemma_extend_distinct_twice<T: QSetElement, X: QSetItem<T>>(
    empty: QSet<T>,
    items: Seq<X>,
)
    requires
        empty@ == Set::<T::V>::empty(),
        element_views::<T, X>(items).no_duplicates(),
    ensures
        empty@.union(elements::<T, X>(items)).len() == items.len(),
        empty@.union(elements::<T, X>(items)).union(elements::<T, X>(items)) == empty@.union(
            elements::<T, X>(items),
        ),
        empty@.union(elements::<T, X>(items)).union(elements::<T, X>(items)).len() == items.len(),
{
    lemma_elements_of_distinct::<T, X>(items);
    let once = empty@.union(elements::<T, X>(items));
    assert(once =~= elements::<T, X>(items));
    assert(once.union(elements::<T, X>(items)) =~= once);
}

} // verus!
