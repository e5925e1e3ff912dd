//! The insertion-ordered hash set that backs a palette.
//!
//! The set is `indexmap::IndexSet`. Verus does not look inside it: the items
//! of this module say what the palette relies on, and none of it is proved
//! here. They compare paints by `Paint`'s `==`, which is proved to hold
//! exactly of paints with equal views, and hash them by the derived `Hash`,
//! which feeds the hasher the variant and every field, so that paints with
//! equal views hash alike.

use crate::paint::Paint;
use crate::paint::PaintView;
use indexmap::IndexSet;
use vstd::prelude::*;

verus! {

/// `indexmap::IndexSet`, which Verus carries as it is, without looking inside.
#[verifier::external_type_specification]
#[verifier::external_body]
#[verifier::reject_recursive_types(T)]
#[verifier::reject_recursive_types(S)]
pub struct ExIndexSet<T, S>(IndexSet<T, S>);

/// The paints that a set holds, in the order of their indices, which is the
/// order in which they were inserted.
pub uninterp spec fn set_paints(set: IndexSet<Paint>) -> Seq<PaintView>;

/// `IndexSet::new`: a set that holds nothing.
#[verifier::external_body]
pub(crate) fn paint_set_new() -> (set: IndexSet<Paint>)
    ensures
        set_paints(set) == Seq::<PaintView>::empty(),
{
    IndexSet::new()
}

/// `IndexSet::clone`: a set that holds clones of the paints of `set` under the
/// same indices. A clone of a paint is the same paint.
#[verifier::external_body]
pub(crate) fn paint_set_clone(set: &IndexSet<Paint>) -> (copy: IndexSet<Paint>)
    ensures
        set_paints(copy) == set_paints(*set),
{
    set.clone()
}

/// `IndexSet::len`: the number of paints in the set.
#[verifier::external_body]
pub(crate) fn paint_set_len(set: &IndexSet<Paint>) -> (len: usize)
    ensures
        len == set_paints(*set).len(),
{
    set.len()
}

/// `IndexSet::get_full`: the index of the paint in the set that equals
/// `paint`, together with that paint, or `None` if the set holds no such paint.
#[verifier::external_body]
pub(crate) fn paint_set_get_full<'a>(set: &'a IndexSet<Paint>, paint: &Paint) -> (found: Option<
    (usize, &'a Paint),
>)
    ensures
        match found {
            Some((index, stored)) => index < set_paints(*set).len() && set_paints(
                *set,
            )[index as int] == paint@ && stored@ == paint@,
            None => !set_paints(*set).contains(paint@),
        },
{
    set.get_full(paint)
}

/// `IndexSet::insert_full`: if the set holds a paint that equals `paint`, the
/// set stays as it is and the result is that paint's index and `false`;
/// otherwise `paint` is appended and the result is its index, the former
/// length, and `true`.
#[verifier::external_body]
pub(crate) fn paint_set_insert_full(set: &mut IndexSet<Paint>, paint: Paint) -> (placed: (
    usize,
    bool,
))
    ensures
        set_paints(*old(set)).contains(paint@) ==> {
            &&& !placed.1
            &&& placed.0 < set_paints(*old(set)).len()
            &&& set_paints(*old(set))[placed.0 as int] == paint@
            &&& set_paints(*final(set)) == set_paints(*old(set))
        },
        !set_paints(*old(set)).contains(paint@) ==> {
            &&& placed.1
            &&& placed.0 == set_paints(*old(set)).len()
            &&& set_paints(*final(set)) == set_paints(*old(set)).push(paint@)
        },
{
    set.insert_full(paint)
}

/// `IndexSet::get_index`: the paint at `index`, or `None` if `index` is not
/// below the length of the set.
#[verifier::external_body]
pub(crate) fn paint_set_get_index(set: &IndexSet<Paint>, index: usize) -> (paint: Option<&Paint>)
    ensures
        match paint {
            Some(stored) => index < set_paints(*set).len() && stored@ == set_paints(
                *set,
            )[index as int],
            None => index >= set_paints(*set).len(),
        },
{
    set.get_index(index)
}

} // verus!
