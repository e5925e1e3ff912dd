//! A vector that keeps its elements in ascending order.
//!
//! [`SortedVector::push`] appends the new element and lets it sink towards the
//! front while its predecessor is greater: one step of insertion sort. The
//! vector is sorted before every push, so only the new element can be out of
//! place, and the vector is sorted again afterwards.

use vstd::prelude::*;
use vstd::std_specs::cmp::PartialOrdIs;
use vstd::std_specs::cmp::PartialOrdSpec;

verus! {

/// `a <= b` in the order of `T`: what `<=` means for `T` in contracts.
pub open spec fn at_most<T: PartialOrd>(a: T, b: T) -> bool {
    a.is_le(&b)
}

/// The comparison operators of `T` compute the order of `T`: in compiled
/// code `a <= b` holds exactly when `at_most(a, b)` does.
pub open spec fn comparisons_are_specified<T: PartialOrd>() -> bool {
    T::obeys_partial_cmp_spec()
}

/// `<=` on `T` is reflexive, antisymmetric, transitive and total.
pub open spec fn is_total_order<T: PartialOrd>() -> bool {
    &&& forall|a: T| #[trigger] at_most(a, a)
    &&& forall|a: T, b: T| #[trigger] at_most(a, b) && #[trigger] at_most(b, a) ==> a == b
    &&& forall|a: T, b: T, c: T| #[trigger] at_most(a, b) && #[trigger] at_most(b, c) ==> at_most(a, c)
    &&& forall|a: T, b: T| #[trigger] at_most(a, b) || #[trigger] at_most(b, a)
}

/// Every element is at most each element behind it.
pub open spec fn is_sorted<T: PartialOrd>(s: Seq<T>) -> bool {
    forall|i: int, j: int| 0 <= i < j < s.len() ==> at_most(#[trigger] s[i], #[trigger] s[j])
}

/// Where a pushed `value` comes to rest in `s`: directly behind the last
/// element that is at most `value`, or at the front if there is none.
pub open spec fn insertion_index<T: PartialOrd>(s: Seq<T>, value: T) -> int
    decreases s.len(),
{
    if s.len() == 0 {
        0
    } else if at_most(s.last(), value) {
        s.len() as int
    } else {
        insertion_index(s.drop_last(), value)
    }
}

/// The contents after pushing `value` onto a vector that holds `s`.
pub open spec fn inserted<T: PartialOrd>(s: Seq<T>, value: T) -> Seq<T> {
    s.insert(insertion_index(s, value), value)
}

/// `after` is `before` with `value` put in at the position `k`.
pub open spec fn is_insertion_at<T>(before: Seq<T>, value: T, after: Seq<T>, k: int) -> bool {
    0 <= k <= before.len() && after == before.insert(k, value)
}

/// The position `k` is where a pushed `value` comes to rest in `s`: the
/// element before it, if there is one, is at most `value`, and no element
/// from it on is.
pub open spec fn is_resting_place<T: PartialOrd>(s: Seq<T>, value: T, k: int) -> bool {
    &&& k > 0 ==> at_most(s[k - 1], value)
    &&& forall|j: int| k <= j < s.len() ==> !at_most(#[trigger] s[j], value)
}

/// `after` is `before` with `value` put in at some position, and at its
/// resting place where the comparisons of `T` compute the order of `T`.
pub open spec fn is_insertion<T: PartialOrd>(before: Seq<T>, value: T, after: Seq<T>) -> bool {
    exists|k: int|
        {
            &&& #[trigger] is_insertion_at(before, value, after, k)
            &&& comparisons_are_specified::<T>() ==> is_resting_place(before, value, k)
        }
}

/// The contents after pushing the elements of `values`, first to last, onto
/// an empty vector.
pub open spec fn pushed_all<T: PartialOrd>(values: Seq<T>) -> Seq<T>
    decreases values.len(),
{
    if values.len() == 0 {
        Seq::empty()
    } else {
        inserted(pushed_all(values.drop_last()), values.last())
    }
}

/// What popping a vector that holds `s` until it is empty hands out, first
/// pop first.
pub open spec fn popped_all<T>(s: Seq<T>) -> Seq<T>
    decreases s.len(),
{
    if s.len() == 0 {
        Seq::empty()
    } else {
        seq![s.last()] + popped_all(s.drop_last())
    }
}

/// `<=` on `T` as a relation, for the sorting functions of `vstd`.
pub open spec fn order<T: PartialOrd>() -> spec_fn(T, T) -> bool {
    |a: T, b: T| at_most(a, b)
}

/// `slice::swap` exchanges the elements at two positions and leaves the others.
/// It panics when a position is out of bounds.
pub assume_specification<E>[ <[E]>::swap ](slice: &mut [E], a: usize, b: usize)
    requires
        a < old(slice)@.len(),
        b < old(slice)@.len(),
    ensures
        final(slice)@ == old(slice)@.update(a as int, old(slice)@[b as int]).update(
            b as int,
            old(slice)@[a as int],
        ),
;

/// A vector kept in ascending order by insertion sort.
#[derive(Debug, PartialEq, PartialOrd, Eq, Hash)]
pub struct SortedVector<T>
where
    T: PartialOrd,
{
    pub array: Vec<T>,
}

impl<T> View for SortedVector<T>
where
    T: PartialOrd,
{
    type V = Seq<T>;

    open spec fn view(&self) -> Seq<T> {
        self.array@
    }
}

impl<T> Clone for SortedVector<T>
where
    T: PartialOrd + Clone,
{
    /// A vector of the same length whose elements are clones of this one's.
    fn clone(&self) -> (copy: SortedVector<T>)
        ensures
            copy@.len() == self@.len(),
            forall|i: int| 0 <= i < self@.len() ==> cloned::<T>(#[trigger] self@[i], copy@[i]),
    {
        SortedVector { array: self.array.clone() }
    }
}

impl<T> SortedVector<T>
where
    T: PartialOrd,
{
    /// The elements are in ascending order.
    pub open spec fn well_formed(&self) -> bool {
        is_sorted(self@)
    }

    /// An empty vector.
    #[inline]
    pub fn new() -> (vector: SortedVector<T>)
        ensures
            vector@ == Seq::<T>::empty(),
            vector.well_formed(),
    {
        SortedVector { array: Vec::new() }
    }

    /// Inserts `value` behind the last element that is at most `value`.
    #[inline]
    pub fn push(&mut self, value: T)
        ensures
            is_insertion(old(self)@, value, final(self)@),
            final(self)@.len() == old(self)@.len() + 1,
            final(self)@.to_multiset() == old(self)@.to_multiset().insert(value),
            comparisons_are_specified::<T>() ==> final(self)@ == inserted(old(self)@, value),
            comparisons_are_specified::<T>() && is_total_order::<T>() && old(self).well_formed()
                ==> final(self).well_formed(),
    {
        let ghost before = self.array@;
        let ghost mut position = before.len() as int;
        self.array.push(value);
        assert(self.array@ =~= before.insert(position, value));
        let mut index = self.array.len() - 1;
        while index > 0
            invariant_except_break
                position == index,
            invariant
                0 <= position <= before.len(),
                index <= position,
                self.array@ == before.insert(position, value),
                comparisons_are_specified::<T>() ==> forall|j: int|
                    position <= j < before.len() ==> !at_most(#[trigger] before[j], value),
            ensures
                position == 0 || (comparisons_are_specified::<T>() ==> at_most(
                    before[position - 1],
                    value,
                )),
            decreases index,
        {
            index -= 1;
            if self.array[index] <= self.array[index + 1] {
                break ;
            }
            self.array.swap(index, index + 1);
            proof {
                position = position - 1;
                assert(self.array@ =~= before.insert(position, value));
            }
        }
        proof {
            vstd::seq_lib::to_multiset_insert(before, position, value);
            assert(is_insertion_at(before, value, self.array@, position));
            if comparisons_are_specified::<T>() {
                lemma_insertion_index_is(before, value, position);
                if is_total_order::<T>() && is_sorted(before) {
                    lemma_inserted_is_sorted(before, value);
                }
            }
        }
    }

    /// The greatest element, which is the last one.
    #[inline]
    pub fn peek(&self) -> (top: Option<&T>)
        ensures
            match top {
                Some(value) => self@.len() > 0 && *value == self@.last(),
                None => self@.len() == 0,
            },
    {
        self.array.last()
    }

    /// Removes the greatest element, which is the last one, and returns it.
    #[inline]
    pub fn pop(&mut self) -> (top: Option<T>)
        ensures
            match top {
                Some(value) => old(self)@.len() > 0 && value == old(self)@.last() && final(self)@
                    == old(self)@.drop_last(),
                None => old(self)@.len() == 0 && final(self)@ == old(self)@,
            },
            old(self).well_formed() ==> final(self).well_formed(),
    {
        self.array.pop()
    }

    /// Removes every element.
    #[inline]
    pub fn clear(&mut self)
        ensures
            final(self)@ == Seq::<T>::empty(),
            final(self).well_formed(),
    {
        self.array.clear()
    }

    /// Whether the vector holds no element.
    #[allow(dead_code)]
    #[inline]
    pub fn is_empty(&self) -> (empty: bool)
        ensures
            empty == (self@.len() == 0),
    {
        self.array.is_empty()
    }

    /// The number of elements.
    #[inline]
    pub fn len(&self) -> (len: usize)
        ensures
            len == self@.len(),
    {
        self.array.len()
    }
}

/// The insertion index lies within the sequence, no element from it on is at
/// most `value`, and the element before it, if there is one, is.
pub proof fn lemma_insertion_index_properties<T: PartialOrd>(s: Seq<T>, value: T)
    ensures
        0 <= insertion_index(s, value) <= s.len(),
        insertion_index(s, value) > 0 ==> at_most(s[insertion_index(s, value) - 1], value),
        forall|j: int|
            insertion_index(s, value) <= j < s.len() ==> !at_most(#[trigger] s[j], value),
    decreases s.len(),
{
    if s.len() > 0 && !at_most(s.last(), value) {
        lemma_insertion_index_properties(s.drop_last(), value);
        let k = insertion_index(s, value);
        assert forall|j: int| k <= j < s.len() implies !at_most(#[trigger] s[j], value) by {
            if j < s.len() - 1 {
                assert(s[j] == s.drop_last()[j]);
            }
        }
        if k > 0 {
            assert(s[k - 1] == s.drop_last()[k - 1]);
        }
    }
}

/// The insertion index is the only position with those properties.
pub proof fn lemma_insertion_index_is<T: PartialOrd>(s: Seq<T>, value: T, k: int)
    requires
        0 <= k <= s.len(),
        k > 0 ==> at_most(s[k - 1], value),
        forall|j: int| k <= j < s.len() ==> !at_most(#[trigger] s[j], value),
    ensures
        insertion_index(s, value) == k,
    decreases s.len(),
{
    if s.len() > 0 {
        if k == s.len() {
        } else {
            assert(!at_most(s[s.len() - 1], value));
            let front = s.drop_last();
            assert forall|j: int| k <= j < front.len() implies !at_most(
                #[trigger] front[j],
                value,
            ) by {
                assert(front[j] == s[j]);
            }
            if k > 0 {
                assert(front[k - 1] == s[k - 1]);
            }
            lemma_insertion_index_is(front, value, k);
        }
    }
}

/// Pushing onto a sorted vector leaves it sorted.
pub proof fn lemma_inserted_is_sorted<T: PartialOrd>(s: Seq<T>, value: T)
    requires
        is_total_order::<T>(),
        is_sorted(s),
    ensures
        is_sorted(inserted(s, value)),
{
    let k = insertion_index(s, value);
    let after = inserted(s, value);
    lemma_insertion_index_properties(s, value);
    assert forall|i: int, j: int| 0 <= i < j < after.len() implies at_most(
        #[trigger] after[i],
        #[trigger] after[j],
    ) by {
        if j < k {
            assert(after[i] == s[i] && after[j] == s[j]);
        } else if j == k {
            assert(after[i] == s[i] && after[j] == value);
            if i < k - 1 {
                assert(at_most(s[i], s[k - 1]));
            }
            assert(at_most(s[k - 1], value));
        } else if i < k {
            assert(after[i] == s[i] && after[j] == s[j - 1]);
            if i < j - 1 {
                assert(at_most(s[i], s[j - 1]));
            }
        } else if i == k {
            assert(after[i] == value && after[j] == s[j - 1]);
            assert(!at_most(s[j - 1], value));
            assert(at_most(s[j - 1], value) || at_most(value, s[j - 1]));
        } else {
            assert(after[i] == s[i - 1] && after[j] == s[j - 1]);
            assert(at_most(s[i - 1], s[j - 1]));
        }
    }
}

/// Whatever is pushed, in whatever order, the vector holds exactly the pushed
/// elements, in ascending order: it holds the sorted sequence of what was pushed.
pub proof fn lemma_pushes_sort<T: PartialOrd>(values: Seq<T>)
    requires
        is_total_order::<T>(),
    ensures
        is_sorted(pushed_all(values)),
        pushed_all(values).to_multiset() == values.to_multiset(),
        pushed_all(values) == values.sort_by(order::<T>()),
    decreases values.len(),
{
    broadcast use vstd::seq_lib::group_to_multiset_ensures;

    let leq = order::<T>();
    lemma_order_is_total::<T>();
    values.lemma_sort_by_ensures(leq);
    if values.len() == 0 {
        assert(values.to_multiset() =~= pushed_all(values).to_multiset());
    } else {
        let front = values.drop_last();
        let last = values.last();
        lemma_pushes_sort(front);
        lemma_inserted_is_sorted(pushed_all(front), last);
        lemma_insertion_index_properties(pushed_all(front), last);
        assert(values =~= front.push(last));
        assert(pushed_all(values).to_multiset() =~= values.to_multiset());
    }
    lemma_sorted_agrees(pushed_all(values));
    vstd::seq_lib::lemma_sorted_unique(pushed_all(values), values.sort_by(leq), leq);
}

/// Popping until the vector is empty hands its contents out last to first.
pub proof fn lemma_pops_reverse<T>(s: Seq<T>)
    ensures
        popped_all(s) == s.reverse(),
    decreases s.len(),
{
    if s.len() > 0 {
        lemma_pops_reverse(s.drop_last());
        assert(s.reverse() =~= seq![s.last()] + s.drop_last().reverse());
    } else {
        assert(s.reverse() =~= Seq::<T>::empty());
    }
}

/// Pushing any values and then popping them all hands out the values in
/// descending order: the reverse of their ascending sort.
pub proof fn lemma_push_then_pop_descends<T: PartialOrd>(values: Seq<T>)
    requires
        is_total_order::<T>(),
    ensures
        popped_all(pushed_all(values)) == values.sort_by(order::<T>()).reverse(),
{
    lemma_pushes_sort(values);
    lemma_pops_reverse(pushed_all(values));
}

/// A total order in the sense of this module is one in the sense of `vstd`.
pub proof fn lemma_order_is_total<T: PartialOrd>()
    requires
        is_total_order::<T>(),
    ensures
        vstd::relations::total_ordering(order::<T>()),
{
    let leq = order::<T>();
    assert forall|a: T, b: T| #[trigger] leq(a, b) && #[trigger] leq(b, a) implies a == b by {
        assert(at_most(a, b) && at_most(b, a));
    }
    assert forall|a: T, b: T, c: T| #[trigger] leq(a, b) && #[trigger] leq(b, c) implies leq(
        a,
        c,
    ) by {
        assert(at_most(a, b) && at_most(b, c));
    }
    assert forall|a: T, b: T| #[trigger] leq(a, b) || #[trigger] leq(b, a) by {
        assert(at_most(a, b) || at_most(b, a));
    }
}

/// A sorted sequence in the sense of this module is one in the sense of `vstd`.
pub proof fn lemma_sorted_agrees<T: PartialOrd>(s: Seq<T>)
    ensures
        is_sorted(s) == vstd::relations::sorted_by(s, order::<T>()),
{
    let leq = order::<T>();
    if is_sorted(s) {
        assert forall|i: int, j: int| 0 <= i < j < s.len() implies #[trigger] leq(s[i], s[j]) by {
            assert(at_most(s[i], s[j]));
        }
    }
    if vstd::relations::sorted_by(s, leq) {
        assert forall|i: int, j: int| 0 <= i < j < s.len() implies at_most(
            #[trigger] s[i],
            #[trigger] s[j],
        ) by {
            assert(leq(s[i], s[j]));
        }
    }
}

} // verus!
