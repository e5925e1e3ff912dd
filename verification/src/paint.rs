//! Paints: what a path is filled with.

use crate::color::ColorU;
use crate::gradient::GradientStop;
use crate::gradient::LinearGradient;
use vstd::prelude::*;

verus! {

/// How a path is filled: with one color, or with a linear gradient.
#[derive(Debug, Eq, Hash)]
pub enum Paint {
    Color(ColorU),
    LinearGradient(Box<LinearGradient>),
}

/// What a paint is, apart from how it is stored. Two paints are the same
/// paint exactly when their views are equal.
pub enum PaintView {
    Color(ColorU),
    LinearGradient(Seq<GradientStop>),
}

/// The handle of a paint: its index in the palette that issued it.
#[derive(Clone, Copy, PartialEq, Debug, Structural)]
pub struct PaintId(pub u16);

impl View for Paint {
    type V = PaintView;

    open spec fn view(&self) -> PaintView {
        match *self {
            Paint::Color(color) => PaintView::Color(color),
            Paint::LinearGradient(gradient) => PaintView::LinearGradient(gradient@),
        }
    }
}

/// Every stop has an opaque color.
pub open spec fn stops_are_opaque(stops: Seq<GradientStop>) -> bool {
    forall|i: int| 0 <= i < stops.len() ==> (#[trigger] stops[i]).color.is_opaque()
}

impl PaintView {
    /// A paint is opaque when each of its colors is.
    pub open spec fn is_opaque(&self) -> bool {
        match *self {
            PaintView::Color(color) => color.is_opaque(),
            PaintView::LinearGradient(stops) => stops_are_opaque(stops),
        }
    }
}

impl vstd::std_specs::cmp::PartialEqSpecImpl for Paint {
    open spec fn obeys_eq_spec() -> bool {
        true
    }

    open spec fn eq_spec(&self, other: &Paint) -> bool {
        self@ == other@
    }
}

impl PartialEq for Paint {
    /// Two paints are equal when they are the same color, or gradients with
    /// the same stops.
    fn eq(&self, other: &Paint) -> (equal: bool) {
        match (self, other) {
            (Paint::Color(a), Paint::Color(b)) => *a == *b,
            (Paint::LinearGradient(a), Paint::LinearGradient(b)) => {
                same_stops(&a.stops.array, &b.stops.array)
            },
            _ => false,
        }
    }
}

/// Whether two lists of stops hold the same stops in the same order.
fn same_stops(left: &Vec<GradientStop>, right: &Vec<GradientStop>) -> (same: bool)
    ensures
        same == (left@ == right@),
{
    if left.len() != right.len() {
        return false;
    }
    let mut index: usize = 0;
    while index < left.len()
        invariant
            left@.len() == right@.len(),
            index <= left@.len(),
            forall|i: int| 0 <= i < index ==> left@[i] == right@[i],
        decreases left@.len() - index,
    {
        if left[index] != right[index] {
            return false;
        }
        index += 1;
    }
    assert(left@ =~= right@);
    true
}

impl Clone for Paint {
    /// The same paint.
    fn clone(&self) -> (copy: Paint)
        ensures
            copy@ == self@,
    {
        match self {
            Paint::Color(color) => Paint::Color(*color),
            Paint::LinearGradient(gradient) => Paint::LinearGradient(Box::new((**gradient).clone())),
        }
    }
}

impl Paint {
    /// Whether the paint hides everything beneath it.
    pub fn is_opaque(&self) -> (opaque: bool)
        ensures
            opaque == self@.is_opaque(),
    {
        match self {
            Paint::Color(color) => color.is_opaque(),
            Paint::LinearGradient(gradient) => {
                let count = gradient.stops.len();
                let mut index: usize = 0;
                while index < count
                    invariant
                        self@ == PaintView::LinearGradient(gradient@),
                        count == gradient@.len(),
                        index <= count,
                        forall|i: int|
                            0 <= i < index ==> (#[trigger] gradient@[i]).color.is_opaque(),
                    decreases count - index,
                {
                    if !gradient.stops.array[index].color.is_opaque() {
                        assert(!gradient@[index as int].color.is_opaque());
                        return false;
                    }
                    index += 1;
                }
                true
            },
        }
    }
}

} // verus!
