//! Linear gradients: color stops along a line, kept in the order of their
//! positions.

use crate::color::ColorU;
use crate::sorted_vector::at_most;
use crate::sorted_vector::inserted;
use crate::sorted_vector::insertion_index;
use crate::sorted_vector::is_insertion;
use crate::sorted_vector::is_sorted;
use crate::sorted_vector::is_total_order;
use crate::sorted_vector::lemma_inserted_is_sorted;
use crate::sorted_vector::lemma_insertion_index_properties;
use crate::sorted_vector::SortedVector;
use std::cmp::Ordering;
use vstd::prelude::*;

verus! {

/// A color ramp along a line, given by its stops.
#[derive(Debug, PartialEq, Eq, Hash)]
pub struct LinearGradient {
    pub stops: SortedVector<GradientStop>,
}

/// One color of a gradient and where on the line it lies.
#[derive(Clone, Copy, Debug, PartialEq, Eq, Hash, Structural)]
pub struct GradientStop {
    /// The position as 16-bit fixed point: 0 is the start of the line, 65535 its end.
    pub distance: u16,
    /// The number of stops that the gradient held when this one was added.
    pub id: u16,
    /// The color.
    pub color: ColorU,
}

impl GradientStop {
    /// What stops are ordered by: the distance first, then the number, then
    /// the color channels.
    pub open spec fn sort_key(&self) -> (u16, u16, u8, u8, u8, u8) {
        (self.distance, self.id, self.color.r, self.color.g, self.color.b, self.color.a)
    }

    /// `self` lies before `other` in a gradient: at a smaller distance, or at
    /// the same distance with a smaller number.
    pub open spec fn precedes(&self, other: GradientStop) -> bool {
        self.distance < other.distance || (self.distance == other.distance && self.id < other.id)
    }
}

impl vstd::std_specs::cmp::PartialOrdSpecImpl for GradientStop {
    open spec fn obeys_partial_cmp_spec() -> bool {
        true
    }

    open spec fn partial_cmp_spec(&self, other: &GradientStop) -> Option<Ordering> {
        vstd::std_specs::cmp::PartialOrdSpec::partial_cmp_spec(&self.sort_key(), &other.sort_key())
    }
}

impl PartialOrd for GradientStop {
    /// Compares two stops by their sort keys.
    fn partial_cmp(&self, other: &GradientStop) -> (order: Option<Ordering>) {
        if self.distance != other.distance {
            self.distance.partial_cmp(&other.distance)
        } else if self.id != other.id {
            self.id.partial_cmp(&other.id)
        } else if self.color.r != other.color.r {
            self.color.r.partial_cmp(&other.color.r)
        } else if self.color.g != other.color.g {
            self.color.g.partial_cmp(&other.color.g)
        } else if self.color.b != other.color.b {
            self.color.b.partial_cmp(&other.color.b)
        } else {
            self.color.a.partial_cmp(&other.color.a)
        }
    }
}

/// The stops are numbered by the numbers below the stop count, each stop
/// with another number.
pub open spec fn is_numbered(stops: Seq<GradientStop>) -> bool {
    &&& forall|i: int| 0 <= i < stops.len() ==> (#[trigger] stops[i]).id < stops.len()
    &&& forall|i: int, j: int|
        0 <= i < j < stops.len() ==> (#[trigger] stops[i]).id != (#[trigger] stops[j]).id
}

/// The stops of a gradient after a stop of the given color was added at
/// `distance`: the new stop takes the stop count as its number and goes
/// behind the last stop that it does not precede.
pub open spec fn with_stop(stops: Seq<GradientStop>, distance: u16, color: ColorU) -> Seq<
    GradientStop,
> {
    inserted(stops, GradientStop { distance, id: stops.len() as u16, color })
}

/// The stops of a gradient after stops were added to an empty gradient, one
/// for each pair of a distance and a color, first to last.
pub open spec fn with_stops(added: Seq<(u16, ColorU)>) -> Seq<GradientStop>
    decreases added.len(),
{
    if added.len() == 0 {
        Seq::empty()
    } else {
        with_stop(with_stops(added.drop_last()), added.last().0, added.last().1)
    }
}

/// Gradient stops are totally ordered.
pub proof fn lemma_stops_are_totally_ordered()
    ensures
        is_total_order::<GradientStop>(),
{
    assert forall|a: GradientStop, b: GradientStop| #[trigger]
        at_most(a, b) && #[trigger] at_most(b, a) implies a == b by {
        assert(a.color == b.color);
    }
}

/// In a sorted sequence of numbered stops, each stop precedes the stops
/// behind it: the distances ascend, and at one distance the numbers do.
pub proof fn lemma_sorted_stops_ascend(stops: Seq<GradientStop>, i: int, j: int)
    requires
        is_sorted(stops),
        is_numbered(stops),
        0 <= i < j < stops.len(),
    ensures
        stops[i].precedes(stops[j]),
{
    assert(at_most(stops[i], stops[j]));
}

/// Adding a stop to sorted, numbered stops leaves them sorted and numbered.
pub proof fn lemma_with_stop_stays_ordered(stops: Seq<GradientStop>, distance: u16, color: ColorU)
    requires
        is_sorted(stops),
        is_numbered(stops),
        stops.len() <= u16::MAX,
    ensures
        is_sorted(with_stop(stops, distance, color)),
        is_numbered(with_stop(stops, distance, color)),
        with_stop(stops, distance, color).len() == stops.len() + 1,
{
    let stop = GradientStop { distance, id: stops.len() as u16, color };
    let k = insertion_index(stops, stop);
    let after = with_stop(stops, distance, color);
    lemma_stops_are_totally_ordered();
    lemma_insertion_index_properties(stops, stop);
    lemma_inserted_is_sorted(stops, stop);
    assert forall|i: int| 0 <= i < after.len() implies (#[trigger] after[i]).id < after.len() by {
        if i < k {
            assert(after[i] == stops[i]);
        } else if i > k {
            assert(after[i] == stops[i - 1]);
        }
    }
    assert forall|i: int, j: int| 0 <= i < j < after.len() implies (#[trigger] after[i]).id != (
    #[trigger] after[j]).id by {
        if i != k {
            assert(after[i] == stops[if i < k { i } else { i - 1 }]);
        }
        if j != k {
            assert(after[j] == stops[if j < k { j } else { j - 1 }]);
        }
    }
}

/// Whatever stops are added to an empty gradient, in whatever order, the
/// gradient holds them in ascending order of their distances, and those at
/// one distance in the order in which they were added.
pub proof fn lemma_added_stops_ascend(added: Seq<(u16, ColorU)>)
    requires
        added.len() <= u16::MAX + 1,
    ensures
        with_stops(added).len() == added.len(),
        is_sorted(with_stops(added)),
        is_numbered(with_stops(added)),
        forall|i: int, j: int|
            0 <= i < j < added.len() ==> (#[trigger] with_stops(added)[i]).precedes(
                #[trigger] with_stops(added)[j],
            ),
    decreases added.len(),
{
    if added.len() > 0 {
        lemma_added_stops_ascend(added.drop_last());
        lemma_with_stop_stays_ordered(
            with_stops(added.drop_last()),
            added.last().0,
            added.last().1,
        );
    }
    let stops = with_stops(added);
    assert forall|i: int, j: int| 0 <= i < j < added.len() implies (#[trigger] stops[i]).precedes(
        #[trigger] stops[j],
    ) by {
        lemma_sorted_stops_ascend(stops, i, j);
    }
}

impl View for LinearGradient {
    type V = Seq<GradientStop>;

    open spec fn view(&self) -> Seq<GradientStop> {
        self.stops@
    }
}

impl Clone for LinearGradient {
    /// A gradient with the same stops.
    fn clone(&self) -> (copy: LinearGradient)
        ensures
            copy@ == self@,
    {
        let copy = LinearGradient { stops: self.stops.clone() };
        assert(copy@ =~= self@);
        copy
    }
}

impl LinearGradient {
    /// The stops are in ascending order and numbered. This holds of every
    /// gradient that was made by adding stops to a new one.
    pub open spec fn well_formed(&self) -> bool {
        is_sorted(self@) && is_numbered(self@)
    }

    /// A gradient without stops.
    #[inline]
    pub fn new() -> (gradient: LinearGradient)
        ensures
            gradient@ == Seq::<GradientStop>::empty(),
            gradient.well_formed(),
    {
        LinearGradient { stops: SortedVector::new() }
    }

    /// Adds a stop of the given color at `distance`, which is the position on
    /// the line as 16-bit fixed point. The stop is numbered by the count of
    /// stops before it, so among stops at one distance the one added first
    /// comes first.
    #[inline]
    pub fn add_color_stop(&mut self, distance: u16, color: ColorU)
        requires
            old(self)@.len() <= u16::MAX,
        ensures
            final(self)@ == with_stop(old(self)@, distance, color),
            is_insertion(
                old(self)@,
                GradientStop { distance, id: old(self)@.len() as u16, color },
                final(self)@,
            ),
            final(self)@.len() == old(self)@.len() + 1,
            old(self).well_formed() ==> final(self).well_formed(),
    {
        proof {
            if self.well_formed() {
                lemma_with_stop_stays_ordered(self@, distance, color);
            }
        }
        let id = self.stops.len() as u16;
        self.stops.push(GradientStop { distance, id, color });
    }
}

} // verus!
