//! The capability contract of an element type, and the container, its
//! iterator and its bulk operations, all built on that contract alone.

use vstd::prelude::*;
use vstd::std_specs::cmp::PartialEqSpecImpl;
use vstd::std_specs::iter::IteratorSpec;

verus! {

/// What every handle holds: no element twice, and a count that fits the
/// signed length the container reports.
pub open spec fn valid_order<V>(order: Seq<V>) -> bool {
    &&& order.no_duplicates()
    &&& order.len() <= isize::MAX
}

/// The size that a reservation for `size` elements asks of the backend,
/// where `size` is a count of the host: nothing for zero, and `isize::MAX`
/// for a count beyond it.
pub open spec fn spec_reserve_request(size: usize) -> Option<isize> {
    if size == 0 {
        None
    } else {
        Some(vstd::math::min(size as int, isize::MAX as int) as isize)
    }
}

/// Computes the size that a reservation for `size` elements asks of the
/// backend, or `None` if there is nothing to ask.
pub fn reserve_request(size: usize) -> (request: Option<isize>)
    ensures
        request == spec_reserve_request(size),
{
    if size == 0 {
        None
    } else if size > isize::MAX as usize {
        Some(isize::MAX)
    } else {
        Some(size as isize)
    }
}

/// Marks an element type whose values may be handed to the backend by
/// value. Only such a type has [`QSet::insert`]; every type has
/// [`QSet::insert_clone`].
pub trait TrivialElement {}

/// The operations an element type supplies so that it can be stored in a
/// [`QSet`].
///
/// Each operation works on the backend's handle, which the container owns
/// and never looks into, and is specified over `order`, the elements behind
/// the handle in iteration order. Two elements are the same element exactly
/// when their views are equal. The order of a handle is valid at all times:
/// the backend sees to that for every handle it gives out, and says so
/// again in each operation. The order after an insertion or a removal is
/// the backend's choice.
///
/// A backend counts its elements in an `isize`, so an insertion of a new
/// element needs a set of fewer than `isize::MAX` elements.
pub trait QSetElement: Sized + View {
    /// The backend's representation of one set of `Self`.
    type Handle;

    /// The elements behind `handle`, in the order iteration visits them.
    spec fn order(handle: &Self::Handle) -> Seq<Self::V>;

    /// Removes every element.
    fn clear(handle: &mut Self::Handle)
        ensures
            valid_order(Self::order(old(handle))),
            Self::order(final(handle)) == Seq::<Self::V>::empty(),
    ;

    /// Makes an independent set with the same elements, in any order.
    fn clone(handle: &Self::Handle) -> (copy: Self::Handle)
        ensures
            valid_order(Self::order(handle)),
            valid_order(Self::order(&copy)),
            Self::order(&copy).to_set() == Self::order(handle).to_set(),
    ;

    /// Tells whether `value` is an element.
    fn contains(handle: &Self::Handle, value: &Self) -> (found: bool)
        ensures
            valid_order(Self::order(handle)),
            found == Self::order(handle).contains(value@),
    ;

    /// Makes an empty set.
    fn default() -> (handle: Self::Handle)
        ensures
            Self::order(&handle) == Seq::<Self::V>::empty(),
    ;

    /// Borrows the element at position `pos` of the iteration order.
    fn get_unchecked(handle: &Self::Handle, pos: isize) -> (element: &Self)
        requires
            0 <= pos < Self::order(handle).len(),
        ensures
            valid_order(Self::order(handle)),
            element@ == Self::order(handle)[pos as int],
    ;

    /// Adds `value`, taken by value, unless it is an element already.
    fn insert(handle: &mut Self::Handle, value: Self)
        where Self: TrivialElement
        requires
            Self::order(old(handle)).contains(value@) || Self::order(old(handle)).to_set().len()
                < isize::MAX,
        ensures
            valid_order(Self::order(old(handle))),
            valid_order(Self::order(final(handle))),
            Self::order(final(handle)).to_set() == Self::order(old(handle)).to_set().insert(value@),
    ;

    /// Adds a copy of `value` unless it is an element already.
    fn insert_clone(handle: &mut Self::Handle, value: &Self)
        requires
            Self::order(old(handle)).contains(value@) || Self::order(old(handle)).to_set().len()
                < isize::MAX,
        ensures
            valid_order(Self::order(old(handle))),
            valid_order(Self::order(final(handle))),
            Self::order(final(handle)).to_set() == Self::order(old(handle)).to_set().insert(value@),
    ;

    /// Counts the elements.
    fn len(handle: &Self::Handle) -> (n: isize)
        ensures
            valid_order(Self::order(handle)),
            n == Self::order(handle).len(),
    ;

    /// Removes `value` if it is an element, and tells whether it was.
    fn remove(handle: &mut Self::Handle, value: &Self) -> (removed: bool)
        ensures
            valid_order(Self::order(old(handle))),
            valid_order(Self::order(final(handle))),
            removed == Self::order(old(handle)).contains(value@),
            Self::order(final(handle)).to_set() == Self::order(old(handle)).to_set().remove(value@),
    ;

    /// The backend's account of a reservation: whether `after` is what
    /// `reserve` may make of `before` when it is asked for room for `size`
    /// elements. Here a backend says what it promises of a reservation
    /// beyond leaving the elements in place.
    spec fn reserved(before: &Self::Handle, size: isize, after: &Self::Handle) -> bool;

    /// Asks the backend to make room for `size` elements. The elements and
    /// their order stay as they are.
    fn reserve(handle: &mut Self::Handle, size: isize)
        ensures
            valid_order(Self::order(old(handle))),
            Self::order(final(handle)) == Self::order(old(handle)),
            Self::reserved(old(handle), size, final(handle)),
    ;
}

/// A set of `T`, stored behind the handle of `T`'s backend.
///
/// The set owns exactly one handle: `default`, `clone` and `from_iter` are
/// the only ways to make one, and the handle is released with the set.
pub struct QSet<T: QSetElement> {
    handle: T::Handle,
}

impl<T: QSetElement> View for QSet<T> {
    type V = Set<T::V>;

    /// The elements, as a set of views.
    open spec fn view(&self) -> Set<T::V> {
        self.order().to_set()
    }
}

impl<T: QSetElement> QSet<T> {
    /// The elements in the order iteration visits them.
    pub closed spec fn order(&self) -> Seq<T::V> {
        T::order(&self.handle)
    }

    /// No element occurs twice in `order`, and the count fits `isize`.
    /// This holds of every set that the library hands out, and each
    /// operation says so of the set it was called on.
    pub open spec fn wf(&self) -> bool {
        valid_order(self.order())
    }

    /// Tells whether `after` is what the backend may make of this set when
    /// it is asked for room for `size` elements.
    pub closed spec fn reserved(&self, size: isize, after: &Self) -> bool {
        T::reserved(&self.handle, size, &after.handle)
    }

    /// Equality of sets: as many elements in one as in the other, and
    /// every element of `self` an element of `other`.
    pub open spec fn equals(&self, other: &Self) -> bool {
        &&& self@.len() == other@.len()
        &&& self@.subset_of(other@)
    }

    /// Removes all elements from the set.
    pub fn clear(&mut self)
        ensures
            old(self).wf(),
            final(self).wf(),
            final(self).order() == Seq::<T::V>::empty(),
            final(self)@ == Set::<T::V>::empty(),
    {
        T::clear(&mut self.handle);
        assert(self.order().to_set() =~= Set::<T::V>::empty());
    }

    /// Returns `true` if the set contains `value`.
    pub fn contains(&self, value: &T) -> (found: bool)
        ensures
            self.wf(),
            found == self@.contains(value@),
    {
        T::contains(&self.handle, value)
    }

    /// Inserts a copy of `value`, if `value` is not in the set already.
    pub fn insert_clone(&mut self, value: &T)
        requires
            old(self)@.contains(value@) || old(self)@.len() < isize::MAX,
        ensures
            old(self).wf(),
            final(self).wf(),
            final(self)@ == old(self)@.insert(value@),
            final(self)@.contains(value@),
            final(self)@.len() == old(self)@.len() + if old(self)@.contains(value@) {
                0int
            } else {
                1int
            },
    {
        T::insert_clone(&mut self.handle, value);
        proof {
            old(self).order().unique_seq_to_set();
        }
    }

    /// Returns `true` if the set has no elements.
    pub fn is_empty(&self) -> (empty: bool)
        ensures
            self.wf(),
            empty == (self@ == Set::<T::V>::empty()),
            empty == (self@.len() == 0),
    {
        let n = T::len(&self.handle);
        proof {
            self.order().unique_seq_to_set();
            if self.order().len() == 0 {
                assert(self@ =~= Set::<T::V>::empty());
            } else {
                assert(self@.contains(self.order()[0]));
            }
        }
        n == 0
    }

    /// Returns the number of elements in the set.
    pub fn len(&self) -> (n: isize)
        ensures
            self.wf(),
            n == self@.len(),
            n == self.order().len(),
    {
        let n = T::len(&self.handle);
        proof {
            self.order().unique_seq_to_set();
        }
        n
    }

    /// Removes `value` from the set. Returns `true` if it was an element.
    pub fn remove(&mut self, value: &T) -> (removed: bool)
        ensures
            old(self).wf(),
            final(self).wf(),
            removed == old(self)@.contains(value@),
            final(self)@ == old(self)@.remove(value@),
            !final(self)@.contains(value@),
            final(self)@.len() == old(self)@.len() - if removed { 1int } else { 0int },
    {
        let removed = T::remove(&mut self.handle, value);
        proof {
            old(self).order().unique_seq_to_set();
        }
        removed
    }

    /// Asks the backend to make room for at least `size` elements. The
    /// elements and the order of iteration stay as they are.
    pub fn reserve(&mut self, size: isize)
        ensures
            old(self).wf(),
            old(self).reserved(size, final(self)),
            final(self).order() == old(self).order(),
            final(self)@ == old(self)@,
    {
        T::reserve(&mut self.handle, size);
    }

    /// Reserves room for `size` elements, where `size` is a count of the
    /// host. For zero the set is left untouched and the backend is not
    /// asked; for any other count the backend is asked for room for that
    /// many elements, or for `isize::MAX` if the count is beyond it. The
    /// elements and the order of iteration stay as they are.
    pub fn reserve_usize(&mut self, size: usize)
        ensures
            match spec_reserve_request(size) {
                Some(request) => old(self).reserved(request, final(self)),
                None => *final(self) == *old(self),
            },
            final(self).order() == old(self).order(),
            final(self)@ == old(self)@,
    {
        match reserve_request(size) {
            Some(request) => T::reserve(&mut self.handle, request),
            None => {},
        }
    }

    /// An iterator that visits every element once, in the set's own order.
    pub fn iter(&self) -> (iter: Iter<'_, T>)
        ensures
            iter.set() == self,
            iter.position() == 0,
            iter.remaining() == self.order(),
    {
        let iter = Iter { set: self, index: 0 };
        assert(iter.remaining() =~= self.order());
        iter
    }
}

impl<T: QSetElement + TrivialElement> QSet<T> {
    /// Inserts `value` into the set, if `value` is not in the set already.
    pub fn insert(&mut self, value: T)
        requires
            old(self)@.contains(value@) || old(self)@.len() < isize::MAX,
        ensures
            old(self).wf(),
            final(self).wf(),
            final(self)@ == old(self)@.insert(value@),
            final(self)@.contains(value@),
            final(self)@.len() == old(self)@.len() + if old(self)@.contains(value@) {
                0int
            } else {
                1int
            },
    {
        T::insert(&mut self.handle, value);
        proof {
            old(self).order().unique_seq_to_set();
        }
    }
}

impl<T: QSetElement> Default for QSet<T> {
    /// Constructs an empty set.
    fn default() -> (set: Self)
        ensures
            set.wf(),
            set.order() == Seq::<T::V>::empty(),
            set@ == Set::<T::V>::empty(),
    {
        let set = QSet { handle: T::default() };
        assert(set.order().to_set() =~= Set::<T::V>::empty());
        set
    }
}

impl<T: QSetElement> Clone for QSet<T> {
    /// Constructs an independent copy of the set.
    fn clone(&self) -> (copy: Self)
        ensures
            self.wf(),
            copy.wf(),
            copy@ == self@,
    {
        QSet { handle: T::clone(&self.handle) }
    }
}

impl<T: QSetElement> PartialEq for QSet<T> {
    /// Returns `true` if both sets have the same number of elements and
    /// every element of `self` is an element of `other`: that is, if they
    /// hold the same elements, in whatever order.
    fn eq(&self, other: &Self) -> (equal: bool) {
        if self.len() != other.len() {
            return false;
        }
        let mut iter = self.iter();
        loop
            invariant
                self.wf(),
                other.wf(),
                iter.wf(),
                iter.set() == self,
                self@.len() == other@.len(),
                forall|i: int| 0 <= i < iter.position() ==> other@.contains(#[trigger] self.order()[i]),
            ensures
                iter.position() == self.order().len(),
            decreases self.order().len() - iter.position(),
        {
            match iter.next() {
                Some(element) => {
                    if !other.contains(element) {
                        assert(self@.contains(element@));
                        return false;
                    }
                },
                None => {
                    break ;
                },
            }
        }
        proof {
            assert(self@.subset_of(other@));
            vstd::set_lib::lemma_subset_equality(self@, other@);
        }
        true
    }
}

impl<T: QSetElement> PartialEqSpecImpl for QSet<T> {
    open spec fn obeys_eq_spec() -> bool {
        true
    }

    /// Two sets are equal when they hold the same elements.
    open spec fn eq_spec(&self, other: &Self) -> bool {
        self@ == other@
    }
}

impl<T: QSetElement> Eq for QSet<T> {
}

/// A cursor over the elements of a [`QSet`], from the first position of its
/// order to the last. Once it has passed the last element it yields nothing
/// more.
pub struct Iter<'a, T: QSetElement> {
    set: &'a QSet<T>,
    index: isize,
}

impl<'a, T: QSetElement> Iter<'a, T> {
    /// The set this iterator walks.
    pub closed spec fn set(&self) -> &'a QSet<T> {
        self.set
    }

    /// How many elements have been yielded so far.
    pub closed spec fn position(&self) -> int {
        self.index as int
    }

    /// The position lies within the order of the set. This holds of every
    /// iterator that the library hands out.
    pub open spec fn wf(&self) -> bool {
        0 <= self.position() <= self.set().order().len()
    }

    #[verifier::type_invariant]
    spec fn within_order(&self) -> bool {
        self.wf()
    }

    /// The elements still to come, in order.
    pub open spec fn remaining(&self) -> Seq<T::V> {
        self.set().order().skip(self.position())
    }

    /// Yields the element at the current position and moves one ahead, or
    /// yields nothing once every element has been visited.
    pub fn next(&mut self) -> (item: Option<&'a T>)
        ensures
            old(self).wf(),
            final(self).wf(),
            final(self).set() == old(self).set(),
            match item {
                Some(element) => {
                    &&& old(self).position() < old(self).set().order().len()
                    &&& element@ == old(self).set().order()[old(self).position()]
                    &&& final(self).position() == old(self).position() + 1
                },
                None => {
                    &&& old(self).position() == old(self).set().order().len()
                    &&& final(self).position() == old(self).position()
                },
            },
    {
        proof {
            use_type_invariant(&*self);
        }
        if self.index < self.set.len() {
            let next = T::get_unchecked(&self.set.handle, self.index);
            self.index += 1;
            Some(next)
        } else {
            None
        }
    }

    /// Walks to the end and returns how many elements were still to come.
    pub fn count(self) -> (n: usize)
        ensures
            self.wf(),
            n == self.remaining().len(),
    {
        proof {
            use_type_invariant(&self);
        }
        let mut iter = self;
        let mut n: usize = 0;
        loop
            invariant
                iter.wf(),
                iter.set() == self.set(),
                0 <= self.position() <= iter.position(),
                n == iter.position() - self.position(),
            ensures
                n == self.set().order().len() - self.position(),
            decreases iter.set().order().len() - iter.position(),
        {
            match iter.next() {
                Some(_) => {
                    n += 1;
                },
                None => {
                    break ;
                },
            }
        }
        n
    }

    /// The number of elements still to come, as a lower and an upper bound
    /// that agree.
    pub fn size_hint(&self) -> (hint: (usize, Option<usize>))
        ensures
            self.wf(),
            hint.0 == self.remaining().len(),
            hint.1 == Some(hint.0),
    {
        let len = self.len();
        (len, Some(len))
    }

    /// The number of elements still to come.
    pub fn len(&self) -> (n: usize)
        ensures
            self.wf(),
            n == self.remaining().len(),
            n == self.set().order().len() - self.position(),
    {
        proof {
            use_type_invariant(self);
        }
        (self.set.len() - self.index) as usize
    }
}

/// What [`QSet::extend`] and [`QSet::from_iter`] take as one item of their
/// sequence: a reference to an element, of which the set stores a copy, or,
/// for a trivial element type, an element itself.
pub trait QSetItem<T: QSetElement>: Sized {
    /// The view of the element that this item stands for.
    spec fn element(&self) -> T::V;

    /// Inserts the element into `set`.
    fn insert_into(self, set: &mut QSet<T>)
        requires
            old(set)@.contains(self.element()) || old(set)@.len() < isize::MAX,
        ensures
            old(set).wf(),
            final(set).wf(),
            final(set)@ == old(set)@.insert(self.element()),
    ;
}

impl<'a, T: QSetElement> QSetItem<T> for &'a T {
    open spec fn element(&self) -> T::V {
        (**self)@
    }

    fn insert_into(self, set: &mut QSet<T>) {
        set.insert_clone(self);
    }
}

impl<T: QSetElement + TrivialElement> QSetItem<T> for T {
    open spec fn element(&self) -> T::V {
        self@
    }

    fn insert_into(self, set: &mut QSet<T>) {
        set.insert(self);
    }
}

/// The views of the elements that a sequence of items stands for, item by
/// item.
pub open spec fn element_views<T: QSetElement, X: QSetItem<T>>(items: Seq<X>) -> Seq<T::V> {
    items.map_values(|item: X| item.element())
}

/// The elements that a sequence of items stands for.
pub open spec fn elements<T: QSetElement, X: QSetItem<T>>(items: Seq<X>) -> Set<T::V> {
    element_views::<T, X>(items).to_set()
}

/// The lower bound that `Iterator::size_hint` reports for `iter`. An
/// iterator may report any bound, so nothing is claimed of the number.
#[verifier::external_body]
fn lower_size_hint<It: Iterator>(iter: &It) -> (lower: usize) {
    iter.size_hint().0
}

impl<T: QSetElement> QSet<T> {
    /// Inserts every element that `iter` yields. Room is reserved first for
    /// as many elements as the iterator expects at least.
    pub fn extend<X: QSetItem<T>, I: Iterator<Item = X>>(&mut self, iter: I)
        requires
            iter.obeys_prophetic_iter_laws(),
            iter.decrease() is Some,
            old(self)@.len() + iter.remaining().len() <= isize::MAX,
        ensures
            old(self).wf() ==> final(self).wf(),
            final(self)@ == old(self)@.union(elements::<T, X>(iter.remaining())),
    {
        let mut iter = iter;
        let lower = lower_size_hint(&iter);
        self.reserve_usize(lower);
        let ghost all = iter.remaining();
        let ghost done: int = 0;
        proof {
            assert(all.take(0) =~= Seq::<X>::empty());
            assert(elements::<T, X>(all.take(0)) =~= Set::<T::V>::empty());
            assert(self@ =~= old(self)@.union(elements::<T, X>(all.take(0))));
            assert(all.skip(0) =~= all);
        }
        loop
            invariant
                old(self).wf() ==> self.wf(),
                iter.obeys_prophetic_iter_laws(),
                iter.decrease() is Some,
                0 <= done <= all.len(),
                iter.remaining() == all.skip(done),
                self@ == old(self)@.union(elements::<T, X>(all.take(done))),
                self@.len() <= old(self)@.len() + done,
                old(self)@.len() + all.len() <= isize::MAX,
            ensures
                old(self).wf() ==> self.wf(),
                self@ == old(self)@.union(elements::<T, X>(all)),
            decreases iter.decrease()->0,
        {
            match iter.next() {
                Some(item) => {
                    proof {
                        assert(item == all[done]);
                        lemma_elements_take_next::<T, X>(all, done);
                        assert(iter.remaining() =~= all.skip(done + 1));
                    }
                    item.insert_into(self);
                    proof {
                        assert(self@ =~= old(self)@.union(elements::<T, X>(all.take(done + 1))));
                        done = done + 1;
                    }
                },
                None => {
                    proof {
                        assert(all.take(done) =~= all);
                    }
                    break ;
                },
            }
        }
    }

    /// Constructs a set that holds every element that `iter` yields.
    pub fn from_iter<X: QSetItem<T>, I: Iterator<Item = X>>(iter: I) -> (set: Self)
        requires
            iter.obeys_prophetic_iter_laws(),
            iter.decrease() is Some,
            iter.remaining().len() <= isize::MAX,
        ensures
            set.wf(),
            set@ == elements::<T, X>(iter.remaining()),
    {
        let mut qset = Self::default();
        qset.extend(iter);
        assert(qset@ =~= elements::<T, X>(iter.remaining()));
        qset
    }
}

/// Taking one more item of a sequence adds that item's element.
proof fn lemma_elements_take_next<T: QSetElement, X: QSetItem<T>>(items: Seq<X>, n: int)
    requires
        0 <= n < items.len(),
    ensures
        elements::<T, X>(items.take(n + 1)) == elements::<T, X>(items.take(n)).insert(
            items[n].element(),
        ),
{
    let shorter = element_views::<T, X>(items.take(n));
    let longer = element_views::<T, X>(items.take(n + 1));
    assert(longer =~= shorter.push(items[n].element()));
    shorter.lemma_push_to_set_commute(items[n].element());
}

} // verus!
