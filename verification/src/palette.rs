//! The palette: the paints of a scene, each held once and numbered in the
//! order in which it first appeared.

use crate::paint::Paint;
use crate::paint::PaintId;
use crate::paint::PaintView;
use crate::paint_set::paint_set_clone;
use crate::paint_set::paint_set_get_full;
use crate::paint_set::paint_set_get_index;
use crate::paint_set::paint_set_insert_full;
use crate::paint_set::paint_set_len;
use crate::paint_set::paint_set_new;
use crate::paint_set::set_paints;
use indexmap::IndexSet;
use vstd::prelude::*;

verus! {

/// The number of paints that a palette can hold: as many as there are
/// identifiers.
pub const MAX_PAINTS: usize = 65536;

/// The paints of a scene without repetition, in the order of first insertion.
pub struct Palette {
    pub(crate) paints: IndexSet<Paint>,
}

impl View for Palette {
    type V = Seq<PaintView>;

    closed spec fn view(&self) -> Seq<PaintView> {
        set_paints(self.paints)
    }
}

impl Clone for Palette {
    /// A palette that holds the same paints under the same identifiers.
    fn clone(&self) -> (copy: Palette)
        ensures
            copy@ == self@,
    {
        proof {
            use_type_invariant(self);
        }
        Palette { paints: paint_set_clone(&self.paints) }
    }
}

/// The palette after `paint` was pushed onto a palette that holds `paints`:
/// as before where the paint is already there, else with the paint at the end.
pub open spec fn pushed(paints: Seq<PaintView>, paint: PaintView) -> Seq<PaintView> {
    if paints.contains(paint) {
        paints
    } else {
        paints.push(paint)
    }
}

/// The index under which `paint` stands after it was pushed onto a palette
/// that holds `paints`.
pub open spec fn pushed_index(paints: Seq<PaintView>, paint: PaintView) -> int {
    if paints.contains(paint) {
        paints.index_of(paint)
    } else {
        paints.len() as int
    }
}

/// What a push of `paint` onto a palette that held `before` has done, when
/// it returned `index` and left `after`: the paint stands under `index`,
/// where it stood before if it was there; every paint that was there stands
/// where it stood; and the palette has grown by the paint, at its end, or
/// not at all.
pub open spec fn is_push(
    before: Seq<PaintView>,
    paint: PaintView,
    after: Seq<PaintView>,
    index: int,
) -> bool {
    &&& 0 <= index < after.len()
    &&& after[index] == paint
    &&& forall|i: int|
        #![trigger before[i]]
        #![trigger after[i]]
        0 <= i < before.len() ==> after[i] == before[i]
    &&& forall|i: int| 0 <= i < before.len() && #[trigger] before[i] == paint ==> index == i
    &&& after.len() == before.len() || (after.len() == before.len() + 1 && index == before.len())
}

/// The palette after every paint of `pushes` was pushed, first to last, onto
/// a palette that holds `paints`.
pub open spec fn pushed_each(paints: Seq<PaintView>, pushes: Seq<PaintView>) -> Seq<PaintView>
    decreases pushes.len(),
{
    if pushes.len() == 0 {
        paints
    } else {
        pushed(pushed_each(paints, pushes.drop_last()), pushes.last())
    }
}

impl Palette {
    /// What holds of every palette: no paint stands in it twice, and each
    /// of its paints has an identifier.
    #[verifier::type_invariant]
    pub open spec fn well_formed(&self) -> bool {
        &&& self@.no_duplicates()
        &&& self@.len() <= MAX_PAINTS
    }

    /// Whether the palette has a place for `paint`: it holds the paint
    /// already, or an identifier is still free.
    pub open spec fn has_room_for(&self, paint: PaintView) -> bool {
        self@.contains(paint) || self@.len() < MAX_PAINTS
    }

    /// An empty palette.
    #[inline]
    pub fn new() -> (palette: Palette)
        ensures
            palette@ == Seq::<PaintView>::empty(),
    {
        Palette { paints: paint_set_new() }
    }

    /// The number of paints.
    #[inline]
    pub fn len(&self) -> (len: usize)
        ensures
            len == self@.len(),
    {
        paint_set_len(&self.paints)
    }

    /// The identifier of `paint`. A paint that the palette does not hold yet
    /// is appended; one that it holds keeps its place and its identifier.
    #[inline]
    pub fn push_paint(&mut self, paint: &Paint) -> (id: PaintId)
        requires
            old(self).has_room_for(paint@),
        ensures
            final(self)@ == pushed(old(self)@, paint@),
            id.0 == pushed_index(old(self)@, paint@),
            is_push(old(self)@, paint@, final(self)@, id.0 as int),
    {
        proof {
            use_type_invariant(&*self);
            lemma_pushed_properties(self@, paint@);
        }
        if let Some((paint_id, _)) = paint_set_get_full(&self.paints, paint) {
            return PaintId(paint_id as u16);
        }
        self.append(paint)
    }

    /// The identifier of `paint`, as [`Palette::push_paint`] gives it, or
    /// `None`, with the palette left as it is, where the paint is new and
    /// every identifier is taken.
    pub fn try_push_paint(&mut self, paint: &Paint) -> (id: Option<PaintId>)
        ensures
            match id {
                Some(id) => {
                    &&& old(self).has_room_for(paint@)
                    &&& final(self)@ == pushed(old(self)@, paint@)
                    &&& id.0 == pushed_index(old(self)@, paint@)
                    &&& is_push(old(self)@, paint@, final(self)@, id.0 as int)
                },
                None => !old(self).has_room_for(paint@) && final(self)@ == old(self)@,
            },
    {
        proof {
            use_type_invariant(&*self);
            lemma_pushed_properties(self@, paint@);
        }
        if let Some((paint_id, _)) = paint_set_get_full(&self.paints, paint) {
            return Some(PaintId(paint_id as u16));
        }
        if self.len() >= MAX_PAINTS {
            return None;
        }
        Some(self.append(paint))
    }

    /// Appends a paint that the palette does not hold yet.
    fn append(&mut self, paint: &Paint) -> (id: PaintId)
        requires
            !old(self)@.contains(paint@),
            old(self)@.len() < MAX_PAINTS,
        ensures
            final(self)@ == old(self)@.push(paint@),
            id.0 == old(self)@.len(),
    {
        proof {
            use_type_invariant(&*self);
            lemma_pushed_properties(self@, paint@);
        }
        // The set leaves the palette while it changes, and comes back changed.
        let mut paints = paint_set_new();
        std::mem::swap(&mut paints, &mut self.paints);
        let paint_id = paint_set_insert_full(&mut paints, (*paint).clone()).0;
        self.paints = paints;
        PaintId(paint_id as u16)
    }

    /// The paint that `paint_id` stands for, or `None` if the palette has
    /// issued no such identifier.
    #[inline]
    pub fn get(&self, paint_id: PaintId) -> (paint: Option<&Paint>)
        ensures
            match paint {
                Some(stored) => paint_id.0 < self@.len() && stored@ == self@[paint_id.0 as int],
                None => paint_id.0 >= self@.len(),
            },
    {
        paint_set_get_index(&self.paints, paint_id.0 as usize)
    }
}

/// What a push does: the paint stands under the index that the push returns,
/// every paint that was there stays where it was, the palette grows by one if
/// the paint is new and not at all if it is not, and no paint stands twice.
pub proof fn lemma_pushed_properties(paints: Seq<PaintView>, paint: PaintView)
    requires
        paints.no_duplicates(),
    ensures
        0 <= pushed_index(paints, paint) < pushed(paints, paint).len(),
        pushed(paints, paint)[pushed_index(paints, paint)] == paint,
        forall|i: int| 0 <= i < paints.len() ==> #[trigger] pushed(paints, paint)[i] == paints[i],
        pushed(paints, paint).len() == paints.len() + (if paints.contains(paint) {
            0int
        } else {
            1int
        }),
        pushed(paints, paint).no_duplicates(),
        forall|i: int|
            0 <= i < paints.len() && paints[i] == paint ==> i == pushed_index(paints, paint),
{
    if paints.contains(paint) {
        let k = paints.index_of(paint);
        assert(0 <= k < paints.len() && paints[k] == paint);
    }
}

/// Pushing a paint a second time returns the identifier of the first push
/// and leaves the palette as the first push left it; only the first push
/// can make the palette grow.
pub proof fn lemma_push_twice(paints: Seq<PaintView>, paint: PaintView)
    requires
        paints.no_duplicates(),
    ensures
        pushed(pushed(paints, paint), paint) == pushed(paints, paint),
        pushed_index(pushed(paints, paint), paint) == pushed_index(paints, paint),
{
    lemma_pushed_properties(paints, paint);
    let once = pushed(paints, paint);
    assert(once[pushed_index(paints, paint)] == paint);
    assert(once.contains(paint));
    lemma_pushed_properties(once, paint);
}

/// Pushes leave a palette without repetition.
pub proof fn lemma_pushes_keep_paints_apart(paints: Seq<PaintView>, pushes: Seq<PaintView>)
    requires
        paints.no_duplicates(),
    ensures
        pushed_each(paints, pushes).no_duplicates(),
        pushed_each(paints, pushes).len() >= paints.len(),
    decreases pushes.len(),
{
    if pushes.len() > 0 {
        lemma_pushes_keep_paints_apart(paints, pushes.drop_last());
        lemma_pushed_properties(pushed_each(paints, pushes.drop_last()), pushes.last());
    }
}

/// Pushes never move a paint: whatever is pushed later, each paint of the
/// palette stays under its index.
pub proof fn lemma_pushes_keep_indices(paints: Seq<PaintView>, pushes: Seq<PaintView>, i: int)
    requires
        paints.no_duplicates(),
        0 <= i < paints.len(),
    ensures
        i < pushed_each(paints, pushes).len(),
        pushed_each(paints, pushes)[i] == paints[i],
    decreases pushes.len(),
{
    if pushes.len() > 0 {
        lemma_pushes_keep_indices(paints, pushes.drop_last(), i);
        lemma_pushes_keep_paints_apart(paints, pushes.drop_last());
        lemma_pushed_properties(pushed_each(paints, pushes.drop_last()), pushes.last());
    }
}

/// Pushing paints one after the other is pushing the first of them and then
/// the rest.
pub proof fn lemma_pushes_in_two_parts(
    paints: Seq<PaintView>,
    first: Seq<PaintView>,
    rest: Seq<PaintView>,
)
    ensures
        pushed_each(paints, first + rest) == pushed_each(pushed_each(paints, first), rest),
    decreases rest.len(),
{
    if rest.len() == 0 {
        assert(first + rest =~= first);
    } else {
        lemma_pushes_in_two_parts(paints, first, rest.drop_last());
        assert((first + rest).drop_last() =~= first + rest.drop_last());
    }
}

/// An identifier stands for its paint as long as the palette lives:
/// whatever paints are pushed onto an empty palette, the identifier that
/// the push number `k` returns leads to the paint of that push after all
/// the pushes.
pub proof fn lemma_identifier_stays(pushes: Seq<PaintView>, k: int)
    requires
        0 <= k < pushes.len(),
    ensures
        ({
            let before = pushed_each(Seq::empty(), pushes.take(k));
            let id = pushed_index(before, pushes[k]);
            let after = pushed_each(Seq::empty(), pushes);
            0 <= id < after.len() && after[id] == pushes[k]
        }),
{
    let nothing = Seq::<PaintView>::empty();
    let before = pushed_each(nothing, pushes.take(k));
    let id = pushed_index(before, pushes[k]);
    let with_it = pushed_each(nothing, pushes.take(k + 1));
    let rest = pushes.skip(k + 1);
    lemma_pushes_keep_paints_apart(nothing, pushes.take(k));
    lemma_pushed_properties(before, pushes[k]);
    assert(pushes.take(k + 1).drop_last() =~= pushes.take(k));
    assert(with_it == pushed(before, pushes[k]));
    assert(pushes.take(k + 1) + rest =~= pushes);
    lemma_pushes_in_two_parts(nothing, pushes.take(k + 1), rest);
    lemma_pushes_keep_indices(with_it, rest, id);
}

/// Paints that differ from each other, pushed onto an empty palette, stand
/// in it in the order of the pushes: the paint pushed as number `i` has the
/// index `i`.
pub proof fn lemma_distinct_pushes_keep_order(pushes: Seq<PaintView>)
    requires
        pushes.no_duplicates(),
    ensures
        pushed_each(Seq::empty(), pushes) == pushes,
    decreases pushes.len(),
{
    if pushes.len() > 0 {
        let front = pushes.drop_last();
        assert(front.no_duplicates());
        lemma_distinct_pushes_keep_order(front);
        assert(!front.contains(pushes.last())) by {
            if front.contains(pushes.last()) {
                let k = front.index_of(pushes.last());
                assert(pushes[k] == pushes[pushes.len() - 1]);
            }
        }
        assert(pushes =~= front.push(pushes.last()));
    } else {
        assert(pushes =~= Seq::<PaintView>::empty());
    }
}

} // verus!
