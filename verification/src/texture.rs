//! The paint texture: what each of its texels holds.
//!
//! Every texel starts as transparent black. Then the paints are written,
//! each at the rectangle that the layout gives it: a color to its one texel,
//! a gradient along its row, where the texel in column `x` takes the color of
//! the stop `x % n` of the gradient's `n` stops.

use crate::color::ColorU;
use crate::geometry::Point2DI32;
use crate::geometry::RectI32;
use crate::layout::lemma_layout_is_disjoint;
use crate::layout::lemma_paint_stays_in_rect;
use crate::layout::paint_covers;
use crate::layout::paint_is_within;
use crate::layout::paint_rect;
use crate::layout::texture_layout;
use crate::layout::BuiltPalette;
use crate::layout::PAINT_TEXTURE_HEIGHT;
use crate::layout::PAINT_TEXTURE_WIDTH;
use crate::paint::Paint;
use crate::paint::PaintId;
use crate::paint::PaintView;
use crate::palette::Palette;
use crate::palette::MAX_PAINTS;
use vstd::prelude::*;

verus! {

/// The number of bytes of the paint texture: four for each texel.
pub const PAINT_TEXTURE_BYTES: usize = 262144;

/// The paint texture: its size in texels, and its texels row by row, each
/// as four bytes: red, green, blue, alpha.
pub struct PaintData {
    pub size: Point2DI32,
    pub texels: Vec<u8>,
}

/// What the paint writes to the texel that lies `offset` texels to the
/// right of the start of its rectangle: a color itself, a gradient its
/// stops in turn, starting over after the last.
pub open spec fn paint_color_at(paint: PaintView, offset: int) -> ColorU {
    match paint {
        PaintView::Color(color) => color,
        PaintView::LinearGradient(stops) => stops[offset % (stops.len() as int)].color,
    }
}

/// The color of the texel `(x, y)` once the first `count` paints are
/// written, each at its rectangle: what the last of them that writes the
/// texel writes there, and transparent black where none does.
pub open spec fn texel_color(
    paints: Seq<PaintView>,
    rects: Seq<RectI32>,
    count: nat,
    x: int,
    y: int,
) -> ColorU
    decreases count,
{
    if count == 0 {
        ColorU::transparent_black()
    } else {
        let last = count - 1;
        if paint_covers(paints[last], rects[last].origin, x, y) {
            paint_color_at(paints[last], x - rects[last].origin.x)
        } else {
            texel_color(paints, rects, last as nat, x, y)
        }
    }
}

/// The column of the texel that the byte at `offset` belongs to.
pub open spec fn texel_x(offset: int) -> int {
    (offset / 4) % 256
}

/// The row of the texel that the byte at `offset` belongs to.
pub open spec fn texel_y(offset: int) -> int {
    (offset / 4) / 256
}

/// The bytes of the paint texture once the first `count` paints are written.
pub open spec fn texture_bytes_after(
    paints: Seq<PaintView>,
    rects: Seq<RectI32>,
    count: nat,
) -> Seq<u8> {
    Seq::new(
        PAINT_TEXTURE_BYTES as nat,
        |offset: int|
            texel_color(paints, rects, count, texel_x(offset), texel_y(offset)).channel(
                offset % 4,
            ),
    )
}

/// The bytes of the paint texture of a palette whose paints lie at `rects`.
pub open spec fn texture_bytes(paints: Seq<PaintView>, rects: Seq<RectI32>) -> Seq<u8> {
    texture_bytes_after(paints, rects, paints.len())
}

/// The bytes `texels` with the texel `(x, y)` set to `color`.
pub open spec fn with_texel(texels: Seq<u8>, x: int, y: int, color: ColorU) -> Seq<u8> {
    Seq::new(
        texels.len(),
        |offset: int|
            if texel_x(offset) == x && texel_y(offset) == y {
                color.channel(offset % 4)
            } else {
                texels[offset]
            },
    )
}

/// In the texture of a palette at its layout, each texel that a paint
/// writes holds what that paint wrote: no other paint writes it.
pub proof fn lemma_texel_of_paint(paints: Seq<PaintView>, index: int, x: int, y: int)
    requires
        paints.len() <= MAX_PAINTS,
        0 <= index < paints.len(),
        paint_covers(paints[index], paint_rect(paints, index).origin, x, y),
    ensures
        texel_color(paints, texture_layout(paints), paints.len(), x, y) == paint_color_at(
            paints[index],
            x - paint_rect(paints, index).origin.x,
        ),
{
    lemma_texel_of_paint_after(paints, index, paints.len(), x, y);
}

/// What [`lemma_texel_of_paint`] says holds from the moment at which the
/// paint is written.
proof fn lemma_texel_of_paint_after(
    paints: Seq<PaintView>,
    index: int,
    count: nat,
    x: int,
    y: int,
)
    requires
        paints.len() <= MAX_PAINTS,
        0 <= index < count <= paints.len(),
        paint_covers(paints[index], paint_rect(paints, index).origin, x, y),
    ensures
        texel_color(paints, texture_layout(paints), count, x, y) == paint_color_at(
            paints[index],
            x - paint_rect(paints, index).origin.x,
        ),
    decreases count,
{
    let last = count - 1;
    if last > index {
        lemma_texel_of_paint_after(paints, index, last as nat, x, y);
        if paint_covers(paints[last], paint_rect(paints, last).origin, x, y) {
            lemma_paint_stays_in_rect(paints, index, x, y);
            lemma_paint_stays_in_rect(paints, last, x, y);
            lemma_layout_is_disjoint(paints, index, last);
        }
    }
}

/// A texel that none of the first `count` paints writes is transparent black.
pub proof fn lemma_texel_unwritten(
    paints: Seq<PaintView>,
    rects: Seq<RectI32>,
    count: nat,
    x: int,
    y: int,
)
    requires
        forall|i: int| 0 <= i < count ==> !paint_covers(#[trigger] paints[i], rects[i].origin, x, y),
    ensures
        texel_color(paints, rects, count, x, y) == ColorU::transparent_black(),
    decreases count,
{
    if count > 0 {
        lemma_texel_unwritten(paints, rects, (count - 1) as nat, x, y);
    }
}

/// The four bytes of the texel `(x, y)` hold its color: red, green, blue, alpha.
pub proof fn lemma_texture_byte(
    paints: Seq<PaintView>,
    rects: Seq<RectI32>,
    x: int,
    y: int,
    channel: int,
)
    requires
        0 <= x < 256,
        0 <= y < 256,
        0 <= channel < 4,
    ensures
        texture_bytes(paints, rects).len() == PAINT_TEXTURE_BYTES,
        texture_bytes(paints, rects)[(y * 256 + x) * 4 + channel] == texel_color(
            paints,
            rects,
            paints.len(),
            x,
            y,
        ).channel(channel),
{
}

/// The texture of the empty palette holds nothing but zeros.
pub proof fn lemma_empty_texture(rects: Seq<RectI32>)
    ensures
        texture_bytes(Seq::<PaintView>::empty(), rects) == Seq::new(
            PAINT_TEXTURE_BYTES as nat,
            |offset: int| 0u8,
        ),
{
    assert(texture_bytes(Seq::<PaintView>::empty(), rects) =~= Seq::new(
        PAINT_TEXTURE_BYTES as nat,
        |offset: int| 0u8,
    ));
}

impl PaintData {
    /// Sets the texel at `coords` to `color`.
    fn put_pixel(&mut self, coords: Point2DI32, color: ColorU)
        requires
            old(self).texels@.len() == PAINT_TEXTURE_BYTES,
            0 <= coords.x < PAINT_TEXTURE_WIDTH,
            0 <= coords.y < PAINT_TEXTURE_HEIGHT,
        ensures
            final(self).size == old(self).size,
            final(self).texels@ == with_texel(
                old(self).texels@,
                coords.x as int,
                coords.y as int,
                color,
            ),
    {
        let width = PAINT_TEXTURE_WIDTH as usize;
        let offset = (coords.y() as usize * width + coords.x() as usize) * 4;
        self.texels[offset + 0] = color.r;
        self.texels[offset + 1] = color.g;
        self.texels[offset + 2] = color.b;
        self.texels[offset + 3] = color.a;
        assert(self.texels@ =~= with_texel(
            old(self).texels@,
            coords.x as int,
            coords.y as int,
            color,
        ));
    }
}

impl BuiltPalette {
    /// Fills the paint texture: every texel starts as transparent black,
    /// and then each paint of `palette`, first to last, is written at its
    /// rectangle.
    pub fn build_paint_data(&self, palette: &Palette) -> (paint_data: PaintData)
        requires
            self.can_paint(palette@),
        ensures
            paint_data.size == (Point2DI32 { x: PAINT_TEXTURE_WIDTH, y: PAINT_TEXTURE_HEIGHT }),
            paint_data.texels@ == texture_bytes(palette@, self@),
    {
        proof {
            use_type_invariant(palette);
        }
        let size = Point2DI32::new(PAINT_TEXTURE_WIDTH, PAINT_TEXTURE_HEIGHT);
        let mut paint_data = PaintData {
            size,
            texels: vec![0; size.x() as usize * size.y() as usize * 4],
        };
        let count = palette.len();
        let ghost paints = palette@;
        let ghost rects = self@;
        assert(paint_data.texels@ =~= texture_bytes_after(paints, rects, 0));
        for paint_index in 0..count
            invariant
                palette@ == paints,
                self@ == rects,
                count == paints.len(),
                count <= MAX_PAINTS,
                self.can_paint(paints),
                paint_data.size == size,
                paint_data.texels@ == texture_bytes_after(paints, rects, paint_index as nat),
        {
            let tex_coords = self.tex_coords(PaintId(paint_index as u16));
            let origin = tex_coords.origin();
            assert(paint_is_within(paints[paint_index as int], origin));
            match palette.get(PaintId(paint_index as u16)) {
                Some(Paint::Color(color)) => {
                    paint_data.put_pixel(origin, *color);
                },
                Some(Paint::LinearGradient(gradient)) => {
                    // Each texel of the row takes the color of one stop, the
                    // stops in turn.
                    let stop_count = gradient.stops.len();
                    if stop_count > 0 {
                        let ghost row_before = paint_data.texels@;
                        for x in 0..PAINT_TEXTURE_WIDTH
                            invariant
                                paints[paint_index as int] == PaintView::LinearGradient(
                                    gradient@,
                                ),
                                stop_count == gradient@.len(),
                                stop_count > 0,
                                origin.x == 0,
                                0 <= origin.y < 256,
                                paint_data.size == size,
                                row_before.len() == PAINT_TEXTURE_BYTES,
                                paint_data.texels@ == Seq::new(
                                    PAINT_TEXTURE_BYTES as nat,
                                    |offset: int|
                                        if texel_y(offset) == origin.y && texel_x(offset) < x {
                                            gradient@[texel_x(offset) % (stop_count as int)].color.channel(
                                            offset % 4)
                                        } else {
                                            row_before[offset]
                                        },
                                ),
                        {
                            paint_data.put_pixel(
                                Point2DI32::new(origin.x() + x, origin.y()),
                                gradient.stops.array[x as usize % stop_count].color,
                            );
                        }
                    }
                },
                None => {},
            }
            assert(paint_data.texels@ =~= texture_bytes_after(
                paints,
                rects,
                (paint_index + 1) as nat,
            ));
        }
        paint_data
    }
}

} // verus!
