//! The layout of a palette: where each paint lies in the paint texture.
//!
//! The texture has 256 rows of 256 texels. Each gradient of the palette gets
//! a whole row, row 0 going to the first gradient. The colors follow the
//! gradient rows, one texel each, left to right and top to bottom.

use crate::geometry::Point2DI32;
use crate::geometry::RectI32;
use crate::paint::Paint;
use crate::paint::PaintId;
use crate::paint::PaintView;
use crate::palette::Palette;
use crate::palette::MAX_PAINTS;
use vstd::prelude::*;

verus! {

/// The number of texels in a row of the paint texture.
pub const PAINT_TEXTURE_WIDTH: i32 = 256;

/// The number of rows of the paint texture.
pub const PAINT_TEXTURE_HEIGHT: i32 = 256;

/// The width of one texel in 16-bit fixed point texture coordinates, in
/// which the texture is 65536 wide.
pub const PAINT_TEXTURE_U_PER_TEXEL: i32 = 256;

/// The height of one texel in 16-bit fixed point texture coordinates, in
/// which the texture is 65536 high.
pub const PAINT_TEXTURE_V_PER_TEXEL: i32 = 256;

/// Where each paint of a palette lies in the paint texture.
pub struct BuiltPalette {
    pub(crate) tex_coords: Vec<RectI32>,
}

impl View for BuiltPalette {
    type V = Seq<RectI32>;

    closed spec fn view(&self) -> Seq<RectI32> {
        self.tex_coords@
    }
}

/// The number of gradients among the first `count` paints.
pub open spec fn gradients_among(paints: Seq<PaintView>, count: int) -> int
    decreases count,
{
    if count <= 0 {
        0
    } else {
        gradients_among(paints, count - 1) + if paints[count - 1] is LinearGradient {
            1int
        } else {
            0int
        }
    }
}

/// The number of colors among the first `count` paints.
pub open spec fn colors_among(paints: Seq<PaintView>, count: int) -> int {
    count - gradients_among(paints, count)
}

/// The number of gradients among `paints`.
pub open spec fn gradient_count(paints: Seq<PaintView>) -> int {
    gradients_among(paints, paints.len() as int)
}

/// The number of colors among `paints`.
pub open spec fn color_count(paints: Seq<PaintView>) -> int {
    colors_among(paints, paints.len() as int)
}

/// The number of rows that the paints take up: one for each gradient, and
/// one for every 256 colors or part thereof.
pub open spec fn rows_needed(paints: Seq<PaintView>) -> int {
    gradient_count(paints) + (color_count(paints) + 255) / 256
}

/// The paints have room in the paint texture.
pub open spec fn fits_texture(paints: Seq<PaintView>) -> bool {
    rows_needed(paints) <= 256
}

/// The rectangle of the paint at `index`. A gradient has the row whose
/// number is the count of gradients before it. A color has one texel: with
/// `n` colors before it, texel `n % 256` of row `n / 256` behind the last
/// gradient row.
pub open spec fn paint_rect(paints: Seq<PaintView>, index: int) -> RectI32 {
    match paints[index] {
        PaintView::LinearGradient(_) => RectI32 {
            origin: Point2DI32 { x: 0, y: gradients_among(paints, index) as i32 },
            size: Point2DI32 { x: 256, y: 1 },
        },
        PaintView::Color(_) => RectI32 {
            origin: Point2DI32 {
                x: (colors_among(paints, index) % 256) as i32,
                y: (gradient_count(paints) + colors_among(paints, index) / 256) as i32,
            },
            size: Point2DI32 { x: 1, y: 1 },
        },
    }
}

/// The rectangles of all paints, by index.
pub open spec fn texture_layout(paints: Seq<PaintView>) -> Seq<RectI32> {
    Seq::new(paints.len(), |index: int| paint_rect(paints, index))
}

/// `rects` are the rectangles of the paints of a palette.
pub open spec fn is_layout_of(rects: Seq<RectI32>, paints: Seq<PaintView>) -> bool {
    paints.len() <= MAX_PAINTS && rects == texture_layout(paints)
}

/// `rects` are the rectangles of the paints of some palette.
pub open spec fn is_layout(rects: Seq<RectI32>) -> bool {
    exists|paints: Seq<PaintView>| #[trigger] is_layout_of(rects, paints)
}

/// The paint writes the texel `(x, y)` when its rectangle starts at
/// `origin`: a color writes the one texel there, a gradient with stops the
/// 256 texels from there to the right, and a gradient without stops none.
pub open spec fn paint_covers(paint: PaintView, origin: Point2DI32, x: int, y: int) -> bool {
    match paint {
        PaintView::Color(_) => x == origin.x && y == origin.y,
        PaintView::LinearGradient(stops) => stops.len() > 0 && y == origin.y && origin.x <= x
            < origin.x + 256,
    }
}

/// Every texel that the paint writes lies in the paint texture.
pub open spec fn paint_is_within(paint: PaintView, origin: Point2DI32) -> bool {
    match paint {
        PaintView::Color(_) => 0 <= origin.x < 256 && 0 <= origin.y < 256,
        PaintView::LinearGradient(stops) => stops.len() > 0 ==> origin.x == 0 && 0 <= origin.y
            < 256,
    }
}

/// Among more paints there are no fewer gradients and no fewer colors, and
/// among `count` paints there are between none and `count` of each.
pub proof fn lemma_counts_grow(paints: Seq<PaintView>, fewer: int, more: int)
    requires
        0 <= fewer <= more,
    ensures
        0 <= gradients_among(paints, fewer) <= gradients_among(paints, more) <= more,
        0 <= colors_among(paints, fewer) <= colors_among(paints, more) <= more,
    decreases more,
{
    if more > 0 {
        if fewer < more {
            lemma_counts_grow(paints, fewer, more - 1);
        } else {
            lemma_counts_grow(paints, fewer - 1, more - 1);
        }
    }
}

/// The rectangles of a palette have small coordinates: each starts in one
/// of the 256 columns and at most one row per paint down.
pub proof fn lemma_layout_bounds(paints: Seq<PaintView>, index: int)
    requires
        paints.len() <= MAX_PAINTS,
        0 <= index < paints.len(),
    ensures
        0 <= paint_rect(paints, index).origin.x < 256,
        0 <= paint_rect(paints, index).origin.y <= MAX_PAINTS,
{
    lemma_counts_grow(paints, index, paints.len() as int);
}

/// Every rectangle of a palette that fits the paint texture lies inside it.
pub proof fn lemma_layout_within_texture(paints: Seq<PaintView>, index: int)
    requires
        fits_texture(paints),
        0 <= index < paints.len(),
    ensures
        paint_rect(paints, index).within(256, 256),
{
    lemma_counts_grow(paints, index, index + 1);
    lemma_counts_grow(paints, index + 1, paints.len() as int);
}

/// The rectangle of a gradient is one whole row, and no two paints share a
/// texel: their rectangles do not overlap. So no two gradients share a row.
pub proof fn lemma_layout_is_disjoint(paints: Seq<PaintView>, i: int, j: int)
    requires
        paints.len() <= MAX_PAINTS,
        0 <= i < paints.len(),
        0 <= j < paints.len(),
        i != j,
    ensures
        paints[i] is LinearGradient ==> paint_rect(paints, i).origin.x == 0 && paint_rect(
            paints,
            i,
        ).size == (Point2DI32 { x: 256, y: 1 }),
        paints[i] is LinearGradient && paints[j] is LinearGradient ==> paint_rect(
            paints,
            i,
        ).origin.y != paint_rect(paints, j).origin.y,
        !paint_rect(paints, i).overlaps(paint_rect(paints, j)),
{
    let (low, high) = if i < j {
        (i, j)
    } else {
        (j, i)
    };
    lemma_layout_bounds(paints, i);
    lemma_layout_bounds(paints, j);
    lemma_counts_grow(paints, low, low + 1);
    lemma_counts_grow(paints, low + 1, high);
    lemma_counts_grow(paints, high, high + 1);
    lemma_counts_grow(paints, high + 1, paints.len() as int);
    let a = paint_rect(paints, i);
    let b = paint_rect(paints, j);
    assert forall|x: int, y: int| !(a.covers(x, y) && b.covers(x, y)) by {
        if a.covers(x, y) && b.covers(x, y) {
            if paints[i] is Color && paints[j] is Color {
                let m = colors_among(paints, i);
                let n = colors_among(paints, j);
                assert(m != n);
                assert(m % 256 == n % 256 && m / 256 == n / 256);
            }
        }
    }
}

/// A palette that fits the paint texture can be painted at its layout.
pub proof fn lemma_layout_can_be_painted(paints: Seq<PaintView>, index: int)
    requires
        fits_texture(paints),
        0 <= index < paints.len(),
    ensures
        paint_is_within(paints[index], paint_rect(paints, index).origin),
{
    lemma_layout_within_texture(paints, index);
}

/// At its layout, a paint writes texels of its own rectangle only.
pub proof fn lemma_paint_stays_in_rect(paints: Seq<PaintView>, index: int, x: int, y: int)
    requires
        paints.len() <= MAX_PAINTS,
        0 <= index < paints.len(),
        paint_covers(paints[index], paint_rect(paints, index).origin, x, y),
    ensures
        paint_rect(paints, index).covers(x, y),
{
    lemma_layout_bounds(paints, index);
}

impl Palette {
    /// Lays the paints out in the paint texture: the gradients first, a row
    /// each, then the colors, a texel each. Nothing stops the layout at the
    /// last row of the texture: a palette that does not fit is laid out
    /// beyond it.
    pub fn build(&self) -> (built: BuiltPalette)
        ensures
            built@ == texture_layout(self@),
            built@.len() == self@.len(),
            fits_texture(self@) ==> built.can_paint(self@),
            fits_texture(self@) ==> forall|i: int|
                0 <= i < built@.len() ==> (#[trigger] built@[i]).within(256, 256),
    {
        proof {
            use_type_invariant(self);
        }
        let count = self.len();
        let mut paint_tex_coords = vec![RectI32::default(); count];
        let mut next_tex_coord = Point2DI32::default();
        let ghost paints = self@;

        // Allocate linear gradients.
        let linear_gradient_alloc_size = Point2DI32::new(PAINT_TEXTURE_WIDTH, 1);
        for paint_index in 0..count
            invariant
                self@ == paints,
                count == paints.len(),
                count <= MAX_PAINTS,
                paint_tex_coords@.len() == count,
                linear_gradient_alloc_size == (Point2DI32 { x: 256, y: 1 }),
                next_tex_coord.x == 0,
                next_tex_coord.y == gradients_among(paints, paint_index as int),
                forall|i: int|
                    0 <= i < paint_index && paints[i] is LinearGradient
                        ==> #[trigger] paint_tex_coords@[i] == paint_rect(paints, i),
        {
            proof {
                lemma_counts_grow(paints, paint_index as int, paint_index as int);
            }
            if let Some(Paint::LinearGradient(_)) = self.get(PaintId(paint_index as u16)) {
                paint_tex_coords[paint_index] = RectI32::new(
                    next_tex_coord,
                    linear_gradient_alloc_size,
                );
                next_tex_coord.set_y(next_tex_coord.y() + 1);
            }
        }

        // Allocate colors.
        let color_alloc_size = Point2DI32::splat(1);
        for paint_index in 0..count
            invariant
                self@ == paints,
                count == paints.len(),
                count <= MAX_PAINTS,
                paint_tex_coords@.len() == count,
                color_alloc_size == (Point2DI32 { x: 1, y: 1 }),
                next_tex_coord.x == colors_among(paints, paint_index as int) % 256,
                next_tex_coord.y == gradient_count(paints) + colors_among(
                    paints,
                    paint_index as int,
                ) / 256,
                forall|i: int|
                    0 <= i < count && (i < paint_index || paints[i] is LinearGradient)
                        ==> #[trigger] paint_tex_coords@[i] == paint_rect(paints, i),
        {
            proof {
                lemma_counts_grow(paints, paint_index as int, paints.len() as int);
            }
            if let Some(Paint::Color(_)) = self.get(PaintId(paint_index as u16)) {
                paint_tex_coords[paint_index] = RectI32::new(next_tex_coord, color_alloc_size);
                next_tex_coord.set_x(next_tex_coord.x() + 1);
                if next_tex_coord.x() >= PAINT_TEXTURE_WIDTH {
                    next_tex_coord.set_x(0);
                    next_tex_coord.set_y(next_tex_coord.y() + 1);
                }
            }
        }

        assert(paint_tex_coords@ =~= texture_layout(paints));
        assert(is_layout_of(paint_tex_coords@, paints));
        assert(is_layout(paint_tex_coords@));
        let built = BuiltPalette { tex_coords: paint_tex_coords };
        proof {
            if fits_texture(paints) {
                assert forall|i: int| 0 <= i < paints.len() implies paint_is_within(
                    #[trigger] paints[i],
                    built@[i].origin,
                ) by {
                    lemma_layout_can_be_painted(paints, i);
                }
                assert forall|i: int| 0 <= i < built@.len() implies (#[trigger] built@[i]).within(
                    256,
                    256,
                ) by {
                    lemma_layout_within_texture(paints, i);
                }
            }
        }
        built
    }

    /// Whether the paints have room in the paint texture.
    pub fn fits_texture(&self) -> (fits: bool)
        ensures
            fits == fits_texture(self@),
    {
        proof {
            use_type_invariant(self);
        }
        let count = self.len();
        let mut gradients: usize = 0;
        for paint_index in 0..count
            invariant
                count == self@.len(),
                count <= MAX_PAINTS,
                gradients == gradients_among(self@, paint_index as int),
        {
            proof {
                lemma_counts_grow(self@, paint_index as int, paint_index as int);
            }
            if let Some(Paint::LinearGradient(_)) = self.get(PaintId(paint_index as u16)) {
                gradients += 1;
            }
        }
        proof {
            lemma_counts_grow(self@, count as int, count as int);
        }
        gradients + (count - gradients + 255) / 256 <= 256
    }
}

impl BuiltPalette {
    /// What holds of every layout: its rectangles are those of the paints
    /// of some palette.
    #[verifier::type_invariant]
    pub closed spec fn well_formed(&self) -> bool {
        is_layout(self.tex_coords@)
    }

    /// The layout of the empty palette.
    pub fn new() -> (built: BuiltPalette)
        ensures
            built@ == Seq::<RectI32>::empty(),
    {
        let tex_coords: Vec<RectI32> = Vec::new();
        assert(tex_coords@ =~= texture_layout(Seq::<PaintView>::empty()));
        assert(is_layout_of(tex_coords@, Seq::<PaintView>::empty()));
        assert(is_layout(tex_coords@));
        BuiltPalette { tex_coords }
    }

    /// The rectangles are as many as the paints, and each paint, written at
    /// its rectangle, stays inside the paint texture.
    pub open spec fn can_paint(&self, paints: Seq<PaintView>) -> bool {
        &&& self@.len() == paints.len()
        &&& forall|i: int|
            0 <= i < paints.len() ==> paint_is_within(#[trigger] paints[i], self@[i].origin)
    }


    /// The number of rectangles: one for each paint of the palette.
    #[inline]
    pub fn len(&self) -> (len: usize)
        ensures
            len == self@.len(),
    {
        self.tex_coords.len()
    }

    /// The rectangle of the paint `paint_id`.
    #[inline]
    pub fn tex_coords(&self, paint_id: PaintId) -> (rect: RectI32)
        requires
            paint_id.0 < self@.len(),
        ensures
            rect == self@[paint_id.0 as int],
    {
        self.tex_coords[paint_id.0 as usize]
    }

    /// Where the rectangle of the paint `paint_id` starts, in 16-bit fixed
    /// point texture coordinates: 256 to the texel.
    #[inline]
    pub fn norm_tex_coords(&self, paint_id: PaintId) -> (point: Point2DI32)
        requires
            paint_id.0 < self@.len(),
        ensures
            point.x == self@[paint_id.0 as int].origin.x * PAINT_TEXTURE_U_PER_TEXEL,
            point.y == self@[paint_id.0 as int].origin.y * PAINT_TEXTURE_V_PER_TEXEL,
    {
        proof {
            use_type_invariant(self);
            let paints = choose|paints: Seq<PaintView>| #[trigger] is_layout_of(self@, paints);
            assert(is_layout(self@));
            lemma_layout_bounds(paints, paint_id.0 as int);
        }
        let scale = Point2DI32::new(PAINT_TEXTURE_U_PER_TEXEL, PAINT_TEXTURE_V_PER_TEXEL);
        self.tex_coords(paint_id).origin().scale_xy(scale)
    }

    /// Half a texel in 16-bit fixed point texture coordinates: what leads
    /// from the corner of a texel to its center.
    #[inline]
    pub fn half_texel() -> (point: Point2DI32)
        ensures
            point == (Point2DI32 { x: 128, y: 128 }),
    {
        Point2DI32::new(PAINT_TEXTURE_U_PER_TEXEL / 2, PAINT_TEXTURE_V_PER_TEXEL / 2)
    }
}

} // verus!
