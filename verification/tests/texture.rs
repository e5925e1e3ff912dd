use paint_palette::color::ColorU;
use paint_palette::geometry::Point2DI32;
use paint_palette::geometry::RectI32;
use paint_palette::gradient::LinearGradient;
use paint_palette::layout::BuiltPalette;
use paint_palette::layout::PAINT_TEXTURE_HEIGHT;
use paint_palette::layout::PAINT_TEXTURE_U_PER_TEXEL;
use paint_palette::layout::PAINT_TEXTURE_V_PER_TEXEL;
use paint_palette::layout::PAINT_TEXTURE_WIDTH;
use paint_palette::paint::Paint;
use paint_palette::paint::PaintId;
use paint_palette::palette::Palette;
use paint_palette::texture::PAINT_TEXTURE_BYTES;
use paint_palette::texture::PaintData;

const RED: ColorU = ColorU { r: 255, g: 0, b: 0, a: 255 };
const GREEN: ColorU = ColorU { r: 0, g: 255, b: 0, a: 255 };
const BLUE: ColorU = ColorU { r: 0, g: 0, b: 255, a: 255 };

fn distance_of(offset: f32) -> u16 {
    f32::round(offset * 65535.0) as u16
}

fn ramp(stops: &[(u16, ColorU)]) -> Paint {
    let mut gradient = LinearGradient::new();
    for &(distance, color) in stops {
        gradient.add_color_stop(distance, color);
    }
    Paint::LinearGradient(Box::new(gradient))
}

fn numbered_color(index: usize) -> Paint {
    Paint::Color(ColorU::new((index >> 8) as u8, index as u8, 7, 255))
}

fn rect(x: i32, y: i32, width: i32, height: i32) -> RectI32 {
    RectI32::new(Point2DI32::new(x, y), Point2DI32::new(width, height))
}

fn texel(data: &PaintData, x: usize, y: usize) -> ColorU {
    let offset = (y * 256 + x) * 4;
    ColorU {
        r: data.texels[offset],
        g: data.texels[offset + 1],
        b: data.texels[offset + 2],
        a: data.texels[offset + 3],
    }
}

fn overlap(a: &RectI32, b: &RectI32) -> bool {
    a.origin().x() < b.origin().x() + b.size().x()
        && b.origin().x() < a.origin().x() + a.size().x()
        && a.origin().y() < b.origin().y() + b.size().y()
        && b.origin().y() < a.origin().y() + a.size().y()
}

#[test]
fn texture_is_256_texels_wide_and_high() {
    assert_eq!(PAINT_TEXTURE_WIDTH, 256);
    assert_eq!(PAINT_TEXTURE_HEIGHT, 256);
    assert_eq!(PAINT_TEXTURE_BYTES, 256 * 256 * 4);
    assert_eq!(PAINT_TEXTURE_U_PER_TEXEL, 65536 / PAINT_TEXTURE_WIDTH);
    assert_eq!(PAINT_TEXTURE_V_PER_TEXEL, 65536 / PAINT_TEXTURE_HEIGHT);
}

#[test]
fn points_and_rectangles_hold_what_they_are_given() {
    let mut point = Point2DI32::new(3, -4);
    assert_eq!(point.x(), 3);
    assert_eq!(point.y(), -4);
    point.set_x(5);
    assert_eq!(point, Point2DI32::new(5, -4));
    point.set_y(6);
    assert_eq!(point, Point2DI32::new(5, 6));
    assert_eq!(Point2DI32::splat(7), Point2DI32::new(7, 7));
    assert_eq!(Point2DI32::default(), Point2DI32::new(0, 0));
    assert_eq!(point.scale_xy(Point2DI32::new(2, -3)), Point2DI32::new(10, -18));
    let area = RectI32::new(Point2DI32::new(1, 2), Point2DI32::new(3, 4));
    assert_eq!(area.origin(), Point2DI32::new(1, 2));
    assert_eq!(area.size(), Point2DI32::new(3, 4));
    assert_eq!(RectI32::default(), rect(0, 0, 0, 0));
}

#[test]
fn empty_palette_builds_an_empty_layout_and_a_blank_texture() {
    let palette = Palette::new();
    assert!(palette.fits_texture());
    let built = palette.build();
    assert_eq!(built.len(), 0);
    let data = built.build_paint_data(&palette);
    assert_eq!(data.size, Point2DI32::new(256, 256));
    assert_eq!(data.texels.len(), 256 * 256 * 4);
    assert!(data.texels.iter().all(|&byte| byte == 0));
}

#[test]
fn layout_of_nothing_paints_a_blank_texture() {
    let built = BuiltPalette::new();
    assert_eq!(built.len(), 0);
    let data = built.build_paint_data(&Palette::new());
    assert_eq!(data.texels, vec![0u8; 256 * 256 * 4]);
}

#[test]
fn colors_are_packed_left_to_right() {
    let mut palette = Palette::new();
    let red = palette.push_paint(&Paint::Color(RED));
    let green = palette.push_paint(&Paint::Color(GREEN));
    let blue = palette.push_paint(&Paint::Color(BLUE));
    let built = palette.build();
    assert_eq!(built.tex_coords(red), rect(0, 0, 1, 1));
    assert_eq!(built.tex_coords(green), rect(1, 0, 1, 1));
    assert_eq!(built.tex_coords(blue), rect(2, 0, 1, 1));
    let data = built.build_paint_data(&palette);
    assert_eq!(&data.texels[0..16], &[255, 0, 0, 255, 0, 255, 0, 255, 0, 0, 255, 255, 0, 0, 0, 0]);
    assert!(data.texels[16..].iter().all(|&byte| byte == 0));
}

#[test]
fn gradients_get_the_first_rows_and_colors_follow() {
    let mut palette = Palette::new();
    let first_color = palette.push_paint(&Paint::Color(RED));
    let first_ramp = palette.push_paint(&ramp(&[(0, RED), (65535, BLUE)]));
    let second_color = palette.push_paint(&Paint::Color(GREEN));
    let second_ramp = palette.push_paint(&ramp(&[(0, GREEN)]));
    let third_color = palette.push_paint(&Paint::Color(BLUE));
    let built = palette.build();
    assert_eq!(built.tex_coords(first_ramp), rect(0, 0, 256, 1));
    assert_eq!(built.tex_coords(second_ramp), rect(0, 1, 256, 1));
    assert_eq!(built.tex_coords(first_color), rect(0, 2, 1, 1));
    assert_eq!(built.tex_coords(second_color), rect(1, 2, 1, 1));
    assert_eq!(built.tex_coords(third_color), rect(2, 2, 1, 1));
}

#[test]
fn colors_wrap_to_the_next_row_after_256() {
    let mut palette = Palette::new();
    let ramp_id = palette.push_paint(&ramp(&[(0, RED)]));
    let mut ids = Vec::new();
    for index in 0..600 {
        ids.push(palette.push_paint(&numbered_color(index)));
    }
    let built = palette.build();
    assert_eq!(built.tex_coords(ramp_id), rect(0, 0, 256, 1));
    assert_eq!(built.tex_coords(ids[0]), rect(0, 1, 1, 1));
    assert_eq!(built.tex_coords(ids[255]), rect(255, 1, 1, 1));
    assert_eq!(built.tex_coords(ids[256]), rect(0, 2, 1, 1));
    assert_eq!(built.tex_coords(ids[511]), rect(255, 2, 1, 1));
    assert_eq!(built.tex_coords(ids[512]), rect(0, 3, 1, 1));
    assert_eq!(built.tex_coords(ids[599]), rect(87, 3, 1, 1));
    let data = built.build_paint_data(&palette);
    assert_eq!(texel(&data, 0, 2), ColorU::new(1, 0, 7, 255));
    assert_eq!(texel(&data, 87, 3), ColorU::new(2, 87, 7, 255));
    assert_eq!(texel(&data, 88, 3), ColorU::new(0, 0, 0, 0));
}

#[test]
fn rectangles_lie_inside_the_texture_and_apart() {
    let mut palette = Palette::new();
    for index in 0..300 {
        palette.push_paint(&numbered_color(index));
        if index % 50 == 0 {
            palette.push_paint(&ramp(&[(index as u16, RED)]));
        }
    }
    assert!(palette.fits_texture());
    let built = palette.build();
    let count = palette.len();
    assert_eq!(count, 306);
    assert_eq!(built.len(), count);
    let rects: Vec<RectI32> = (0..count).map(|index| built.tex_coords(PaintId(index as u16))).collect();
    for (index, area) in rects.iter().enumerate() {
        assert!(0 <= area.origin().x() && area.origin().x() + area.size().x() <= 256);
        assert!(0 <= area.origin().y() && area.origin().y() + area.size().y() <= 256);
        assert!(area.size().x() > 0 && area.size().y() > 0);
        match palette.get(PaintId(index as u16)) {
            Some(Paint::LinearGradient(_)) => {
                assert_eq!(area.size(), Point2DI32::new(256, 1));
                assert_eq!(area.origin().x(), 0);
            }
            Some(Paint::Color(_)) => assert_eq!(area.size(), Point2DI32::new(1, 1)),
            None => panic!("every id below the length is issued"),
        }
        for other in &rects[..index] {
            assert!(!overlap(area, other));
        }
    }
}

#[test]
fn gradient_row_takes_its_stops_in_turn() {
    let mut gradient = LinearGradient::new();
    gradient.add_color_stop(distance_of(0.0), RED);
    gradient.add_color_stop(distance_of(0.5), GREEN);
    gradient.add_color_stop(distance_of(1.0), BLUE);
    let mut palette = Palette::new();
    palette.push_paint(&Paint::Color(ColorU::new(9, 9, 9, 9)));
    let id = palette.push_paint(&Paint::LinearGradient(Box::new(gradient)));
    let built = palette.build();
    let row = built.tex_coords(id);
    assert_eq!(row, rect(0, 0, 256, 1));
    let data = built.build_paint_data(&palette);
    let colors = [RED, GREEN, BLUE];
    for x in 0..256 {
        assert_eq!(texel(&data, x, 0), colors[x % 3]);
    }
    assert_eq!(texel(&data, 0, 0), RED);
    assert_eq!(texel(&data, 1, 0), GREEN);
    assert_eq!(texel(&data, 254, 0), BLUE);
    assert_eq!(texel(&data, 255, 0), RED);
    assert_eq!(texel(&data, 0, 1), ColorU::new(9, 9, 9, 9));
    assert_eq!(texel(&data, 1, 1), ColorU::new(0, 0, 0, 0));
}

#[test]
fn gradient_stops_are_sampled_in_order_of_distance() {
    let mut palette = Palette::new();
    palette.push_paint(&ramp(&[(500, BLUE), (100, RED)]));
    palette.push_paint(&ramp(&[(7, GREEN)]));
    let built = palette.build();
    let data = built.build_paint_data(&palette);
    for x in 0..256 {
        assert_eq!(texel(&data, x, 0), if x % 2 == 0 { RED } else { BLUE });
        assert_eq!(texel(&data, x, 1), GREEN);
        assert_eq!(texel(&data, x, 2), ColorU::new(0, 0, 0, 0));
    }
}

#[test]
fn gradient_without_stops_leaves_its_row_blank() {
    let mut palette = Palette::new();
    let empty = palette.push_paint(&ramp(&[]));
    let color = palette.push_paint(&Paint::Color(GREEN));
    let built = palette.build();
    assert_eq!(built.tex_coords(empty), rect(0, 0, 256, 1));
    assert_eq!(built.tex_coords(color), rect(0, 1, 1, 1));
    let data = built.build_paint_data(&palette);
    for x in 0..256 {
        assert_eq!(texel(&data, x, 0), ColorU::new(0, 0, 0, 0));
    }
    assert_eq!(texel(&data, 0, 1), GREEN);
}

#[test]
fn normalized_coordinates_are_256_to_the_texel() {
    let mut palette = Palette::new();
    palette.push_paint(&ramp(&[(0, RED)]));
    palette.push_paint(&ramp(&[(1, RED)]));
    let mut last = PaintId(0);
    for index in 0..260 {
        last = palette.push_paint(&numbered_color(index));
    }
    let built = palette.build();
    assert_eq!(built.tex_coords(last), rect(3, 3, 1, 1));
    assert_eq!(built.norm_tex_coords(last), Point2DI32::new(768, 768));
    assert_eq!(built.norm_tex_coords(PaintId(0)), Point2DI32::new(0, 0));
    assert_eq!(built.norm_tex_coords(PaintId(1)), Point2DI32::new(0, 256));
    assert_eq!(built.norm_tex_coords(PaintId(2)), Point2DI32::new(0, 512));
    assert_eq!(built.norm_tex_coords(PaintId(257)), Point2DI32::new(65280, 512));
}

#[test]
fn half_texel_is_half_of_256() {
    assert_eq!(BuiltPalette::half_texel(), Point2DI32::new(128, 128));
}

#[test]
fn full_texture_of_colors_fits() {
    let mut palette = Palette::new();
    for index in 0..65536 {
        palette.push_paint(&numbered_color(index));
    }
    assert!(palette.fits_texture());
    let built = palette.build();
    assert_eq!(built.tex_coords(PaintId(65535)), rect(255, 255, 1, 1));
    assert_eq!(built.norm_tex_coords(PaintId(65535)), Point2DI32::new(65280, 65280));
    let data = built.build_paint_data(&palette);
    assert_eq!(texel(&data, 255, 255), ColorU::new(255, 255, 7, 255));
    assert_eq!(texel(&data, 0, 0), ColorU::new(0, 0, 7, 255));
    assert_eq!(texel(&data, 1, 128), ColorU::new(128, 1, 7, 255));
}

#[test]
fn palette_with_too_many_rows_does_not_fit() {
    let mut palette = Palette::new();
    for index in 0..256 {
        palette.push_paint(&ramp(&[(index as u16, RED)]));
    }
    assert!(palette.fits_texture());
    let color = palette.push_paint(&Paint::Color(GREEN));
    assert!(!palette.fits_texture());
    let built = palette.build();
    assert_eq!(built.tex_coords(PaintId(255)), rect(0, 255, 256, 1));
    assert_eq!(built.tex_coords(color), rect(0, 256, 1, 1));
    assert_eq!(built.norm_tex_coords(color), Point2DI32::new(0, 65536));
}

#[test]
fn colors_that_fill_a_row_leave_the_next_row_free() {
    let mut palette = Palette::new();
    for index in 0..255 {
        palette.push_paint(&ramp(&[(index as u16, RED)]));
    }
    for index in 0..256 {
        palette.push_paint(&numbered_color(index));
    }
    assert!(palette.fits_texture());
    palette.push_paint(&numbered_color(256));
    assert!(!palette.fits_texture());
}
