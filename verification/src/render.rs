use vstd::prelude::*;
use crate::brightness::bucket;
use crate::brightness::bucket_of;
use crate::raster::Image;
use crate::raster::Pixel;

verus! {

/// The fixed ten-symbol character ramp, darkest glyph first: index 0 is the
/// glyph of the darkest bucket, index 9 the glyph of the lightest.
pub open spec fn ramp_char(i: int) -> char {
    if i == 0 {
        '@'
    } else if i == 1 {
        '%'
    } else if i == 2 {
        '#'
    } else if i == 3 {
        '*'
    } else if i == 4 {
        '+'
    } else if i == 5 {
        '='
    } else if i == 6 {
        '-'
    } else if i == 7 {
        ':'
    } else if i == 8 {
        '.'
    } else {
        ' '
    }
}

/// The glyph a bucket renders to: the ramp read forward, or backward when
/// the mapping is inverted.
pub open spec fn glyph_of(b: int, invert: bool) -> char {
    if invert {
        ramp_char(9 - b)
    } else {
        ramp_char(b)
    }
}

/// The ramp-reversal mapping on characters: a ramp glyph maps to the glyph
/// at the mirrored ramp position, every other character to itself.
pub open spec fn ramp_swap(c: char) -> char {
    if c == '@' {
        ' '
    } else if c == '%' {
        '.'
    } else if c == '#' {
        ':'
    } else if c == '*' {
        '-'
    } else if c == '+' {
        '='
    } else if c == '=' {
        '+'
    } else if c == '-' {
        '*'
    } else if c == ':' {
        '#'
    } else if c == '.' {
        '%'
    } else if c == ' ' {
        '@'
    } else {
        c
    }
}

/// One rendered row: the glyphs of row `y`, left to right, then a newline.
pub open spec fn row_text(pixels: Seq<Pixel>, w: int, y: int, invert: bool) -> Seq<char> {
    Seq::new(w as nat, |x: int| glyph_of(bucket_of(pixels[y * w + x]), invert)).push('\n')
}

/// The first `h` rendered rows, concatenated.
pub open spec fn render_rows(pixels: Seq<Pixel>, w: int, h: int, invert: bool) -> Seq<char>
    decreases h,
{
    if h <= 0 {
        Seq::empty()
    } else {
        render_rows(pixels, w, h - 1, invert) + row_text(pixels, w, h - 1, invert)
    }
}

/// The full rendered text of a `w` by `h` pixel grid: one glyph per pixel in
/// row-major order, a newline after each row, and nothing at all for a
/// zero-width grid, which has no row ends to mark.
pub open spec fn render_spec(pixels: Seq<Pixel>, w: int, h: int, invert: bool) -> Seq<char> {
    if w <= 0 {
        Seq::empty()
    } else {
        render_rows(pixels, w, h, invert)
    }
}

/// How many times character `c` occurs in `s`.
pub open spec fn count_char(s: Seq<char>, c: char) -> nat
    decreases s.len(),
{
    if s.len() == 0 {
        0
    } else {
        count_char(s.drop_last(), c) + (if s.last() == c {
            1nat
        } else {
            0nat
        })
    }
}

/// Looks up the glyph of a bucket, honoring inversion.
pub fn ramp_glyph(b: u8, invert: bool) -> (c: char)
    requires
        b < 10,
    ensures
        c == glyph_of(b as int, invert),
{
    let i: u8 = if invert {
        9 - b
    } else {
        b
    };
    if i == 0 {
        '@'
    } else if i == 1 {
        '%'
    } else if i == 2 {
        '#'
    } else if i == 3 {
        '*'
    } else if i == 4 {
        '+'
    } else if i == 5 {
        '='
    } else if i == 6 {
        '-'
    } else if i == 7 {
        ':'
    } else if i == 8 {
        '.'
    } else {
        ' '
    }
}

/// Applies the ramp-reversal mapping to one character.
pub fn swap_glyph(c: char) -> (r: char)
    ensures
        r == ramp_swap(c),
{
    if c == '@' {
        ' '
    } else if c == '%' {
        '.'
    } else if c == '#' {
        ':'
    } else if c == '*' {
        '-'
    } else if c == '+' {
        '='
    } else if c == '=' {
        '+'
    } else if c == '-' {
        '*'
    } else if c == ':' {
        '#'
    } else if c == '.' {
        '%'
    } else if c == ' ' {
        '@'
    } else {
        c
    }
}

/// Relies on String::push: appends the one character to the end of the
/// string's character sequence.
#[verifier::external_body]
fn push_char(s: &mut String, c: char)
    ensures
        final(s)@ == old(s)@.push(c),
{
    s.push(c);
}

/// Renders an image as text: one ramp glyph per pixel, row-major, a newline
/// closing each row. The result is a pure function of the pixel grid and the
/// invert flag, so identical inputs always render identically.
pub fn render(img: &Image, invert: bool) -> (text: String)
    requires
        img.wf(),
    ensures
        text@ == render_spec(img.spec_pixels(), img.spec_width() as int, img.spec_height() as int, invert),
{
    let w: u32 = img.width();
    let h: u32 = img.height();
    let mut text = String::new();
    if w == 0 {
        return text;
    }
    let ghost pixels = img.spec_pixels();
    let mut y: u32 = 0;
    while y < h
        invariant
            img.wf(),
            pixels == img.spec_pixels(),
            w == img.spec_width(),
            h == img.spec_height(),
            w > 0,
            y <= h,
            text@ == render_rows(pixels, w as int, y as int, invert),
        decreases h - y,
    {
        let mut x: u32 = 0;
        while x < w
            invariant
                img.wf(),
                pixels == img.spec_pixels(),
                w == img.spec_width(),
                h == img.spec_height(),
                w > 0,
                y < h,
                x <= w,
                text@ == render_rows(pixels, w as int, y as int, invert) + Seq::new(
                    x as nat,
                    |xx: int| glyph_of(bucket_of(pixels[y * w + xx]), invert),
                ),
            decreases w - x,
        {
            let p = img.pixel(x, y);
            let b = bucket(&p);
            let c = ramp_glyph(b, invert);
            push_char(&mut text, c);
            proof {
                assert(text@ =~= render_rows(pixels, w as int, y as int, invert) + Seq::new(
                    (x + 1) as nat,
                    |xx: int| glyph_of(bucket_of(pixels[y * w + xx]), invert),
                ));
            }
            x += 1;
        }
        push_char(&mut text, '\n');
        proof {
            assert(row_text(pixels, w as int, y as int, invert) =~= Seq::new(
                w as nat,
                |xx: int| glyph_of(bucket_of(pixels[y * w + xx]), invert),
            ).push('\n'));
            assert(text@ =~= render_rows(pixels, w as int, (y + 1) as int, invert));
        }
        y += 1;
    }
    text
}

proof fn lemma_count_concat(a: Seq<char>, b: Seq<char>, c: char)
    ensures
        count_char(a + b, c) == count_char(a, c) + count_char(b, c),
    decreases b.len(),
{
    if b.len() == 0 {
        assert(a + b =~= a);
    } else {
        assert((a + b).drop_last() =~= a + b.drop_last());
        lemma_count_concat(a, b.drop_last(), c);
    }
}

proof fn lemma_glyph_run_no_newline(pixels: Seq<Pixel>, w: int, y: int, invert: bool, n: nat)
    ensures
        count_char(Seq::new(n, |x: int| glyph_of(bucket_of(pixels[y * w + x]), invert)), '\n') == 0,
    decreases n,
{
    let s = Seq::new(n, |x: int| glyph_of(bucket_of(pixels[y * w + x]), invert));
    if n > 0 {
        assert(s.drop_last() =~= Seq::new(
            (n - 1) as nat,
            |x: int| glyph_of(bucket_of(pixels[y * w + x]), invert),
        ));
        lemma_glyph_run_no_newline(pixels, w, y, invert, (n - 1) as nat);
    }
}

proof fn lemma_row_text_shape(pixels: Seq<Pixel>, w: int, y: int, invert: bool)
    requires
        w >= 0,
    ensures
        row_text(pixels, w, y, invert).len() == w + 1,
        count_char(row_text(pixels, w, y, invert), '\n') == 1,
{
    let glyphs = Seq::new(w as nat, |x: int| glyph_of(bucket_of(pixels[y * w + x]), invert));
    lemma_glyph_run_no_newline(pixels, w, y, invert, w as nat);
    assert(row_text(pixels, w, y, invert).drop_last() =~= glyphs);
}

proof fn lemma_render_rows_shape(pixels: Seq<Pixel>, w: int, h: int, invert: bool)
    requires
        w >= 0,
        h >= 0,
    ensures
        render_rows(pixels, w, h, invert).len() == h * (w + 1),
        count_char(render_rows(pixels, w, h, invert), '\n') == h,
    decreases h,
{
    if h == 0 {
    } else {
        lemma_render_rows_shape(pixels, w, h - 1, invert);
        lemma_row_text_shape(pixels, w, h - 1, invert);
        lemma_count_concat(
            render_rows(pixels, w, h - 1, invert),
            row_text(pixels, w, h - 1, invert),
            '\n',
        );
        assert(h * (w + 1) == (h - 1) * (w + 1) + (w + 1)) by (nonlinear_arith);
    }
}

/// Dimension law: the text rendered from a `w` by `h` pixel grid of positive
/// width holds exactly `h` newline characters and exactly `w * h` other
/// characters, one per pixel.
pub proof fn lemma_render_dimensions(pixels: Seq<Pixel>, w: int, h: int, invert: bool)
    requires
        w >= 1,
        h >= 0,
    ensures
        render_spec(pixels, w, h, invert).len() == h * (w + 1),
        count_char(render_spec(pixels, w, h, invert), '\n') == h,
        render_spec(pixels, w, h, invert).len() - count_char(render_spec(pixels, w, h, invert), '\n')
            == w * h,
{
    lemma_render_rows_shape(pixels, w, h, invert);
    assert(h * (w + 1) - h == w * h) by (nonlinear_arith);
}

proof fn lemma_swap_undoes_invert(b: int)
    requires
        0 <= b <= 9,
    ensures
        ramp_swap(glyph_of(b, true)) == glyph_of(b, false),
{
}

proof fn lemma_row_text_invert(pixels: Seq<Pixel>, w: int, y: int)
    requires
        w >= 0,
    ensures
        row_text(pixels, w, y, true).map_values(|c: char| ramp_swap(c)) == row_text(
            pixels,
            w,
            y,
            false,
        ),
{
    let swapped = row_text(pixels, w, y, true).map_values(|c: char| ramp_swap(c));
    assert forall|i: int| 0 <= i < w implies swapped[i] == row_text(pixels, w, y, false)[i] by {
        let b = bucket_of(pixels[y * w + i]);
        lemma_swap_undoes_invert(b);
    }
    assert(swapped =~= row_text(pixels, w, y, false));
}

proof fn lemma_render_rows_invert(pixels: Seq<Pixel>, w: int, h: int)
    requires
        w >= 0,
    ensures
        render_rows(pixels, w, h, true).map_values(|c: char| ramp_swap(c)) == render_rows(
            pixels,
            w,
            h,
            false,
        ),
    decreases h,
{
    if h <= 0 {
        assert(render_rows(pixels, w, h, true).map_values(|c: char| ramp_swap(c))
            =~= render_rows(pixels, w, h, false));
    } else {
        lemma_render_rows_invert(pixels, w, h - 1);
        lemma_row_text_invert(pixels, w, h - 1);
        assert(render_rows(pixels, w, h, true).map_values(|c: char| ramp_swap(c))
            =~= render_rows(pixels, w, h - 1, true).map_values(|c: char| ramp_swap(c)) + row_text(
            pixels,
            w,
            h - 1,
            true,
        ).map_values(|c: char| ramp_swap(c)));
        assert(render_rows(pixels, w, h, true).map_values(|c: char| ramp_swap(c))
            =~= render_rows(pixels, w, h, false));
    }
}

/// Inversion involution: swapping every character of an inverted rendering
/// through the ramp-reversal mapping reproduces the uninverted rendering of
/// the same pixel grid.
pub proof fn lemma_invert_involution(pixels: Seq<Pixel>, w: int, h: int)
    ensures
        render_spec(pixels, w, h, true).map_values(|c: char| ramp_swap(c)) == render_spec(
            pixels,
            w,
            h,
            false,
        ),
{
    if w <= 0 {
        assert(render_spec(pixels, w, h, true).map_values(|c: char| ramp_swap(c))
            =~= render_spec(pixels, w, h, false));
    } else {
        lemma_render_rows_invert(pixels, w, h);
    }
}

} // verus!
