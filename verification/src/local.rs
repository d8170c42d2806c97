//! A backend that keeps the elements in the host's own memory.
//!
//! [`LocalHandle`] holds the elements of one set in the order in which they
//! were inserted, and keeps for itself that none occurs twice. Every type
//! that implements [`LocalElement`] gets the whole capability contract from
//! it.

use crate::qset::{valid_order, QSetElement, TrivialElement};
use vstd::prelude::*;

verus! {

/// An element type that [`LocalHandle`] can store: one whose values can be
/// compared and copied in executable code, both in agreement with the view.
pub trait LocalElement: Sized + View {
    /// Tells whether two values are the same element.
    fn same(&self, other: &Self) -> (equal: bool)
        ensures
            equal == (self@ == other@),
    ;

    /// Makes a value that is the same element as `self`.
    fn duplicate(&self) -> (copy: Self)
        ensures
            copy@ == self@,
    ;
}

/// The elements of one set, in insertion order, none of them twice.
pub struct LocalHandle<T: LocalElement> {
    items: Vec<T>,
}

/// The views of `items`, position by position.
pub open spec fn views<T: View>(items: Seq<T>) -> Seq<T::V> {
    items.map_values(|item: T| item@)
}

impl<T: LocalElement> LocalHandle<T> {
    /// The views of the stored elements, in insertion order.
    pub closed spec fn order(&self) -> Seq<T::V> {
        views(self.items@)
    }

    #[verifier::type_invariant]
    spec fn valid(&self) -> bool {
        valid_order(self.order())
    }

    /// The position at which `value` is stored, if it is stored.
    fn position(&self, value: &T) -> (found: Option<usize>)
        ensures
            match found {
                Some(i) => i < self.order().len() && self.order()[i as int] == value@,
                None => !self.order().contains(value@),
            },
    {
        let mut i: usize = 0;
        while i < self.items.len()
            invariant
                i <= self.items.len(),
                forall|j: int| 0 <= j < i ==> self.order()[j] != value@,
            decreases self.items.len() - i,
        {
            if self.items[i].same(value) {
                return Some(i);
            }
            i += 1;
        }
        None
    }

    /// Takes the elements out and leaves the handle empty. A change to the
    /// elements is made on what was taken out and stored back in one
    /// assignment, so that the handle is valid at every step.
    fn take_items(&mut self) -> (items: Vec<T>)
        ensures
            valid_order(old(self).order()),
            views(items@) == old(self).order(),
            final(self).order() == Seq::<T::V>::empty(),
    {
        proof {
            use_type_invariant(&*self);
        }
        let mut items: Vec<T> = Vec::new();
        assert(views(items@) =~= Seq::<T::V>::empty());
        core::mem::swap(&mut self.items, &mut items);
        items
    }

    /// Stores `value` at the end, given that it is not stored yet.
    fn append(&mut self, value: T)
        requires
            !old(self).order().contains(value@),
            old(self).order().len() < isize::MAX,
        ensures
            final(self).order() == old(self).order().push(value@),
            final(self).order().to_set() == old(self).order().to_set().insert(value@),
    {
        let mut items = self.take_items();
        items.push(value);
        proof {
            assert(views(items@) =~= old(self).order().push(value@));
            old(self).order().lemma_push_to_set_commute(value@);
        }
        self.items = items;
    }
}

/// Removing position `i` from a sequence without duplicates removes the
/// value at `i` from the sequence's set, and leaves no duplicates.
proof fn lemma_remove_to_set<V>(order: Seq<V>, i: int)
    requires
        order.no_duplicates(),
        0 <= i < order.len(),
    ensures
        order.remove(i).no_duplicates(),
        order.remove(i).to_set() == order.to_set().remove(order[i]),
{
    let shorter = order.remove(i);
    assert forall|a: int, b: int| 0 <= a < shorter.len() && 0 <= b < shorter.len() && a != b
        implies shorter[a] != shorter[b] by {
        let a0 = if a < i { a } else { a + 1 };
        let b0 = if b < i { b } else { b + 1 };
        assert(shorter[a] == order[a0]);
        assert(shorter[b] == order[b0]);
    }
    assert forall|v: V| shorter.to_set().contains(v) <==> order.to_set().remove(
        order[i],
    ).contains(v) by {
        if shorter.contains(v) {
            let a = choose|a: int| 0 <= a < shorter.len() && shorter[a] == v;
            let a0 = if a < i { a } else { a + 1 };
            assert(order[a0] == v);
        }
        if order.contains(v) && v != order[i] {
            let b = choose|b: int| 0 <= b < order.len() && order[b] == v;
            let b1 = if b < i { b } else { b - 1 };
            assert(shorter[b1] == v);
        }
    }
    assert(shorter.to_set() =~= order.to_set().remove(order[i]));
}

impl<T: LocalElement> QSetElement for T {
    type Handle = LocalHandle<T>;

    open spec fn order(handle: &LocalHandle<T>) -> Seq<T::V> {
        handle.order()
    }

    /// This backend promises of a reservation only that the elements stay
    /// in place: whether memory could be had is not for it to say.
    open spec fn reserved(before: &LocalHandle<T>, size: isize, after: &LocalHandle<T>) -> bool {
        after.order() == before.order()
    }

    fn clear(handle: &mut LocalHandle<T>) {
        proof {
            use_type_invariant(&*handle);
        }
        let items: Vec<T> = Vec::new();
        assert(views(items@) =~= Seq::<T::V>::empty());
        handle.items = items;
    }

    fn clone(handle: &LocalHandle<T>) -> (copy: LocalHandle<T>) {
        proof {
            use_type_invariant(handle);
        }
        let mut items: Vec<T> = Vec::new();
        let mut i: usize = 0;
        while i < handle.items.len()
            invariant
                i <= handle.items.len(),
                views(items@) == handle.order().take(i as int),
            decreases handle.items.len() - i,
        {
            let ghost copied = items@;
            items.push(handle.items[i].duplicate());
            proof {
                assert(views(items@) =~= views(copied).push(handle.order()[i as int]));
                assert(handle.order().take(i + 1) =~= handle.order().take(i as int).push(
                    handle.order()[i as int],
                ));
            }
            i += 1;
        }
        proof {
            assert(handle.order().take(i as int) =~= handle.order());
        }
        LocalHandle { items }
    }

    fn contains(handle: &LocalHandle<T>, value: &T) -> (found: bool) {
        proof {
            use_type_invariant(handle);
        }
        handle.position(value).is_some()
    }

    fn default() -> (handle: LocalHandle<T>) {
        let items: Vec<T> = Vec::new();
        assert(views(items@) =~= Seq::<T::V>::empty());
        LocalHandle { items }
    }

    fn get_unchecked(handle: &LocalHandle<T>, pos: isize) -> (element: &T) {
        proof {
            use_type_invariant(handle);
        }
        &handle.items[pos as usize]
    }

    fn insert(handle: &mut LocalHandle<T>, value: T) where T: TrivialElement {
        proof {
            use_type_invariant(&*handle);
        }
        if handle.position(&value).is_none() {
            proof {
                handle.order().unique_seq_to_set();
            }
            handle.append(value);
        } else {
            assert(handle.order().to_set() =~= handle.order().to_set().insert(value@));
        }
    }

    fn insert_clone(handle: &mut LocalHandle<T>, value: &T) {
        proof {
            use_type_invariant(&*handle);
        }
        if handle.position(value).is_none() {
            proof {
                handle.order().unique_seq_to_set();
            }
            handle.append(value.duplicate());
        } else {
            assert(handle.order().to_set() =~= handle.order().to_set().insert(value@));
        }
    }

    fn len(handle: &LocalHandle<T>) -> (n: isize) {
        proof {
            use_type_invariant(handle);
        }
        handle.items.len() as isize
    }

    fn remove(handle: &mut LocalHandle<T>, value: &T) -> (removed: bool) {
        proof {
            use_type_invariant(&*handle);
        }
        match handle.position(value) {
            Some(i) => {
                let mut items = handle.take_items();
                items.remove(i);
                proof {
                    assert(views(items@) =~= old(handle).order().remove(i as int));
                    lemma_remove_to_set(old(handle).order(), i as int);
                }
                handle.items = items;
                true
            },
            None => {
                assert(handle.order().to_set() =~= handle.order().to_set().remove(value@));
                false
            },
        }
    }

    fn reserve(handle: &mut LocalHandle<T>, size: isize) {
        proof {
            use_type_invariant(&*handle);
        }
        let len = handle.items.len();
        if size > 0 && size as usize > len {
            let mut items = handle.take_items();
            let _ = items.try_reserve(size as usize - len);
            handle.items = items;
        }
    }
}

} // verus!
