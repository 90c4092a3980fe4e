use vstd::prelude::*;
use crate::raster::Pixel;

verus! {

// A pixel's perceptual brightness is sqrt(0.299 r^2 + 0.587 g^2 + 0.114 b^2),
// scaled by the alpha fraction a / 255, and a pixel's bucket is that
// brightness divided by 255.1 / 10 and rounded down. Rather than compute the
// square root, the code below compares squares: brightness is at least
// k * 25.51 exactly when
//     10 * (299 r^2 + 587 g^2 + 114 b^2) * a^2  >=  k^2 * 2551^2 * 255^2,
// which multiplies both sides of the squared inequality by 10^4 * 1000 * 255^2
// and divides by 1000. The constant below is 2551^2 * 255^2.

/// Square of one bucket boundary step, scaled: 2551 * 2551 * 255 * 255.
pub const BUCKET_STEP_SQ: u64 = 423156755025;

/// The weighted channel square sum 299 r^2 + 587 g^2 + 114 b^2, the pixel's
/// squared luminance scaled by 1000.
pub open spec fn weighted_sq(p: Pixel) -> int {
    299 * (p.r as int) * (p.r as int) + 587 * (p.g as int) * (p.g as int) + 114 * (p.b as int) * (
    p.b as int)
}

/// The pixel's squared brightness scaled by 10 * 1000 * 255 * 255: the
/// luminance square sum weighted again by the square of the alpha fraction.
pub open spec fn brightness_sq(p: Pixel) -> int {
    10 * weighted_sq(p) * (p.a as int) * (p.a as int)
}

/// The brightness bucket of a pixel: the number of whole 25.51-wide steps
/// its brightness covers, always between 0 and 9.
pub open spec fn bucket_of(p: Pixel) -> int {
    let l = brightness_sq(p);
    if l >= 81 * BUCKET_STEP_SQ {
        9
    } else if l >= 64 * BUCKET_STEP_SQ {
        8
    } else if l >= 49 * BUCKET_STEP_SQ {
        7
    } else if l >= 36 * BUCKET_STEP_SQ {
        6
    } else if l >= 25 * BUCKET_STEP_SQ {
        5
    } else if l >= 16 * BUCKET_STEP_SQ {
        4
    } else if l >= 9 * BUCKET_STEP_SQ {
        3
    } else if l >= 4 * BUCKET_STEP_SQ {
        2
    } else if l >= 1 * BUCKET_STEP_SQ {
        1
    } else {
        0
    }
}

/// Computes the brightness bucket of a pixel.
pub fn bucket(p: &Pixel) -> (b: u8)
    ensures
        b as int == bucket_of(*p),
        b < 10,
{
    let r: u64 = p.r as u64;
    let g: u64 = p.g as u64;
    let bl: u64 = p.b as u64;
    let a: u64 = p.a as u64;
    proof {
        assert(r * r <= 65025 && g * g <= 65025 && bl * bl <= 65025 && a * a <= 65025)
            by (nonlinear_arith)
            requires
                r <= 255,
                g <= 255,
                bl <= 255,
                a <= 255,
        ;
    }
    let w: u64 = 299 * (r * r) + 587 * (g * g) + 114 * (bl * bl);
    proof {
        assert(10 * (w as int) * ((a * a) as int) <= 10 * 65025000 * 65025)
            by (nonlinear_arith)
            requires
                w <= 65025000,
                a * a <= 65025,
        ;
    }
    let l: u64 = 10 * w * (a * a);
    proof {
        assert(l as int == brightness_sq(*p)) by (nonlinear_arith)
            requires
                l == 10 * w * (a * a),
                w == 299 * (r * r) + 587 * (g * g) + 114 * (bl * bl),
                r == p.r,
                g == p.g,
                bl == p.b,
                a == p.a,
        ;
    }
    if l >= 81 * BUCKET_STEP_SQ {
        9
    } else if l >= 64 * BUCKET_STEP_SQ {
        8
    } else if l >= 49 * BUCKET_STEP_SQ {
        7
    } else if l >= 36 * BUCKET_STEP_SQ {
        6
    } else if l >= 25 * BUCKET_STEP_SQ {
        5
    } else if l >= 16 * BUCKET_STEP_SQ {
        4
    } else if l >= 9 * BUCKET_STEP_SQ {
        3
    } else if l >= 4 * BUCKET_STEP_SQ {
        2
    } else if l >= 1 * BUCKET_STEP_SQ {
        1
    } else {
        0
    }
}

/// A fully transparent pixel is bucketed as fully dark, whatever its color.
pub proof fn lemma_transparent_is_dark(p: Pixel)
    requires
        p.a == 0,
    ensures
        bucket_of(p) == 0,
{
    assert(brightness_sq(p) == 0) by (nonlinear_arith)
        requires
            p.a == 0,
    ;
}

} // verus!
