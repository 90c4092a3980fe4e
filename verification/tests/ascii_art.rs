use ascii_art::brightness::bucket;
use ascii_art::pipeline::make_ascii_art;
use ascii_art::raster::Image;
use ascii_art::raster::Pixel;
use ascii_art::render::render;
use ascii_art::render::swap_glyph;
use ascii_art::scale::scale_image;
use ascii_art::scale::scaled_dim;
use ascii_art::scale::validate_scaling;
use ascii_art::scale::Scale;

fn px(r: u8, g: u8, b: u8, a: u8) -> Pixel {
    Pixel { r, g, b, a }
}

fn img(w: u32, h: u32, pixels: Vec<Pixel>) -> Image {
    Image::new(w, h, pixels).unwrap()
}

/// Exact rational form of a positive finite f64: its mantissa over a power
/// of two, the way a command-line factor is handed to the library.
fn scale_from(f: f64) -> Scale {
    assert!(f > 0.0 && f.is_finite() && f < 4294967296.0);
    let bits = f.to_bits();
    let exp = ((bits >> 52) & 0x7ff) as i64;
    let frac = bits & ((1u64 << 52) - 1);
    let (m, e) = if exp == 0 {
        (frac, -1074i64)
    } else {
        (frac | (1u64 << 52), exp - 1075)
    };
    if e >= 0 {
        Scale { positive: true, num: m << e, den: 1 }
    } else if -e > 127 {
        Scale { positive: true, num: 1, den: 1u128 << 127 }
    } else {
        Scale { positive: true, num: m, den: 1u128 << (-e) }
    }
}

fn negative() -> Scale {
    Scale { positive: false, num: 1, den: 1 }
}

#[test]
fn black_opaque_pixel_is_darkest_glyph() {
    let image = img(1, 1, vec![px(0, 0, 0, 255)]);
    assert_eq!(render(&image, false), "@\n");
}

#[test]
fn white_opaque_pixel_is_lightest_glyph() {
    let image = img(1, 1, vec![px(255, 255, 255, 255)]);
    assert_eq!(render(&image, false), " \n");
}

#[test]
fn transparent_white_pixel_is_darkest_glyph() {
    let image = img(1, 1, vec![px(255, 255, 255, 0)]);
    assert_eq!(render(&image, false), "@\n");
}

#[test]
fn mid_gray_pixel_lands_in_middle_bucket() {
    assert_eq!(bucket(&px(128, 128, 128, 255)), 5);
    let image = img(1, 1, vec![px(128, 128, 128, 255)]);
    assert_eq!(render(&image, false), "=\n");
}

#[test]
fn inverted_black_pixel_is_lightest_glyph() {
    let image = img(1, 1, vec![px(0, 0, 0, 255)]);
    assert_eq!(render(&image, true), " \n");
}

#[test]
fn render_is_deterministic() {
    let pixels = vec![px(10, 200, 30, 255), px(255, 0, 0, 128), px(0, 0, 255, 255), px(90, 90, 90, 40)];
    let image = img(2, 2, pixels);
    assert_eq!(render(&image, false), render(&image, false));
    assert_eq!(render(&image, true), render(&image, true));
}

#[test]
fn rendered_text_has_one_newline_per_row_and_one_glyph_per_pixel() {
    let pixels = vec![
        px(0, 0, 0, 255),
        px(50, 60, 70, 255),
        px(255, 255, 255, 255),
        px(120, 10, 220, 200),
        px(5, 5, 5, 5),
        px(200, 200, 200, 255),
    ];
    let image = img(3, 2, pixels);
    let text = render(&image, false);
    assert_eq!(text.chars().filter(|c| *c == '\n').count(), 2);
    assert_eq!(text.chars().filter(|c| *c != '\n').count(), 6);
    assert_eq!(text.len(), 8);
}

#[test]
fn swapping_inverted_glyphs_recovers_plain_rendering() {
    let pixels = vec![
        px(0, 0, 0, 255),
        px(64, 128, 32, 255),
        px(255, 255, 255, 255),
        px(210, 33, 95, 180),
    ];
    let image = img(2, 2, pixels);
    let inverted = render(&image, true);
    let swapped: String = inverted.chars().map(swap_glyph).collect();
    assert_eq!(swapped, render(&image, false));
}

#[test]
fn width_alone_is_rejected() {
    let r = validate_scaling(Some(scale_from(2.0)), None, scale_from(1.0));
    assert!(r.is_err());
}

#[test]
fn height_alone_is_rejected() {
    let r = validate_scaling(None, Some(scale_from(2.0)), scale_from(1.0));
    assert!(r.is_err());
}

#[test]
fn negative_height_is_rejected() {
    let r = validate_scaling(Some(scale_from(2.0)), Some(negative()), scale_from(1.0));
    assert!(r.is_err());
}

#[test]
fn both_positive_axis_factors_are_accepted() {
    let w = scale_from(2.0);
    let h = scale_from(0.5);
    let r = validate_scaling(Some(w), Some(h), scale_from(1.0));
    assert_eq!(r.unwrap(), (w, h));
}

#[test]
fn absent_axis_factors_fall_back_to_uniform() {
    let uniform = scale_from(1.0);
    let r = validate_scaling(None, None, uniform);
    assert_eq!(r.unwrap(), (uniform, uniform));
}

#[test]
fn unit_factors_keep_dimensions_and_output_size() {
    let pixels = vec![
        px(1, 2, 3, 255),
        px(200, 100, 50, 255),
        px(0, 255, 0, 255),
        px(255, 0, 255, 255),
        px(17, 34, 51, 255),
        px(250, 250, 250, 250),
    ];
    let image = img(3, 2, pixels);
    let unit = Scale::unit();
    let scaled = scale_image(&image, &unit, &unit);
    assert_eq!(scaled.width(), 3);
    assert_eq!(scaled.height(), 2);
    let text = render(&scaled, false);
    assert_eq!(text.chars().filter(|c| *c == '\n').count(), 2);
    assert_eq!(text.len(), 8);
}

#[test]
fn tenth_width_factor_truncates_five_pixels_to_nothing() {
    let pixels = vec![
        px(0, 0, 0, 255),
        px(10, 10, 10, 255),
        px(20, 20, 20, 255),
        px(30, 30, 30, 255),
        px(40, 40, 40, 255),
    ];
    let image = img(5, 1, pixels);
    let scaled = scale_image(&image, &scale_from(0.1), &scale_from(1.0));
    assert_eq!(scaled.width(), 0);
    assert_eq!(scaled.height(), 1);
    assert_eq!(render(&scaled, false), "");
}

#[test]
fn scaled_dim_truncates_and_zeroes() {
    assert_eq!(scaled_dim(5, &scale_from(0.1)), 0);
    assert_eq!(scaled_dim(5, &scale_from(0.5)), 2);
    assert_eq!(scaled_dim(5, &scale_from(2.0)), 10);
    assert_eq!(scaled_dim(5, &negative()), 0);
    assert_eq!(scaled_dim(0, &scale_from(3.0)), 0);
}

#[test]
fn halving_a_uniform_image_keeps_its_shade() {
    let pixels = vec![px(0, 0, 0, 255); 4];
    let image = img(2, 2, pixels);
    let half = scale_from(0.5);
    let scaled = scale_image(&image, &half, &half);
    assert_eq!(scaled.width(), 1);
    assert_eq!(scaled.height(), 1);
    assert_eq!(render(&scaled, false), "@\n");
}

#[test]
fn pipeline_renders_with_uniform_default() {
    let image = img(2, 1, vec![px(0, 0, 0, 255), px(255, 255, 255, 255)]);
    let art = make_ascii_art(&image, None, None, scale_from(1.0), false);
    assert_eq!(art.unwrap(), "@ \n");
}

#[test]
fn pipeline_rejects_width_alone_before_any_image_work() {
    let image = img(1, 1, vec![px(0, 0, 0, 255)]);
    let art = make_ascii_art(&image, Some(scale_from(2.0)), None, scale_from(1.0), false);
    assert!(art.is_err());
}

#[test]
fn zero_height_image_renders_empty() {
    let image = img(3, 0, vec![]);
    assert_eq!(render(&image, false), "");
}
