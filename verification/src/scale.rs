use vstd::prelude::*;
use crate::raster::Image;
use crate::raster::bytes_of;
use crate::raster::pixels_of;

verus! {

/// A scale factor held exactly: a sign and a non-negative rational magnitude
/// `num / den`. A finite binary floating-point factor converts to this form
/// without loss, its denominator being a power of two.
#[derive(Clone, Copy, PartialEq, Eq, Structural, Debug)]
pub struct Scale {
    /// Whether the factor is greater than zero.
    pub positive: bool,
    /// Numerator of the magnitude.
    pub num: u64,
    /// Denominator of the magnitude, at least one.
    pub den: u128,
}

impl Scale {
    /// The denominator is a proper one.
    pub open spec fn wf(&self) -> bool {
        self.den >= 1
    }

    /// Whether the factor is strictly greater than zero.
    pub open spec fn is_positive(&self) -> bool {
        self.positive && self.num > 0
    }

    /// The unit factor, which leaves a dimension unchanged.
    pub fn unit() -> (r: Scale)
        ensures
            r == (Scale { positive: true, num: 1u64, den: 1u128 }),
    {
        Scale { positive: true, num: 1, den: 1 }
    }
}

/// A dimension scaled by a factor: the exact product truncated toward zero,
/// saturated to the `u32` range. A factor that is not positive drags the
/// whole product to or below zero, so the dimension becomes zero.
pub open spec fn scaled_dim_spec(dim: int, s: Scale) -> int {
    if s.positive {
        let q = (dim * s.num) / (s.den as int);
        if q > u32::MAX {
            u32::MAX as int
        } else {
            q
        }
    } else {
        0
    }
}

/// Scales one dimension by a factor, truncating toward zero.
pub fn scaled_dim(dim: u32, s: &Scale) -> (r: u32)
    requires
        s.wf(),
    ensures
        r as int == scaled_dim_spec(dim as int, *s),
{
    if s.positive {
        proof {
            assert((dim as int) * (s.num as int) < 0x1_0000_0000 * 0x1_0000_0000_0000_0000)
                by (nonlinear_arith)
                requires
                    dim < 0x1_0000_0000,
                    s.num < 0x1_0000_0000_0000_0000,
            ;
        }
        let q: u128 = (dim as u128) * (s.num as u128) / s.den;
        if q > (u32::MAX as u128) {
            u32::MAX
        } else {
            q as u32
        }
    } else {
        0
    }
}

/// The unit factor leaves every dimension exactly as it was.
pub proof fn lemma_unit_scale_keeps_dim(dim: u32)
    ensures
        scaled_dim_spec(dim as int, (Scale { positive: true, num: 1u64, den: 1u128 })) == dim,
{
}

/// The error of a partial or non-positive axis scale specification.
#[derive(Clone, Copy, PartialEq, Eq, Structural, Debug)]
pub struct ScaleError;

/// Checks the three scale inputs and settles the effective factor of each
/// axis: with neither axis factor supplied the uniform factor covers both
/// axes, unchecked; with both supplied and both strictly positive they stand
/// themselves; anything else - one axis alone, or a supplied factor that is
/// not positive - is rejected.
pub fn validate_scaling(width: Option<Scale>, height: Option<Scale>, uniform: Scale) -> (r: Result<
    (Scale, Scale),
    ScaleError,
>)
    ensures
        width is None && height is None ==> r == Ok::<(Scale, Scale), ScaleError>(
            (uniform, uniform),
        ),
        width matches Some(wfac) ==> height matches Some(hfac) ==> wfac.is_positive()
            && hfac.is_positive() ==> r == Ok::<(Scale, Scale), ScaleError>((wfac, hfac)),
        r is Err <==> !(width is None && height is None) && !(width matches Some(wfac)
            && height matches Some(hfac) && wfac.is_positive() && hfac.is_positive()),
{
    match (width, height) {
        (None, None) => Ok((uniform, uniform)),
        (Some(wfac), Some(hfac)) => {
            if wfac.positive && wfac.num > 0 && hfac.positive && hfac.num > 0 {
                Ok((wfac, hfac))
            } else {
                Err(ScaleError)
            }
        },
        _ => Err(ScaleError),
    }
}

/// What nearest-neighbor resampling makes of an RGBA byte grid: determined
/// by the source bytes and the source and target dimensions alone.
pub uninterp spec fn nearest_resize(bytes: Seq<u8>, w: int, h: int, nw: int, nh: int) -> Seq<u8>;

/// Relies on image::DynamicImage::resize_exact with FilterType::Nearest: the
/// resampled image is a function of the source bytes and the four dimensions
/// alone, and holds exactly `nw * nh` RGBA pixels, four bytes each.
#[verifier::external_body]
fn resize_rgba(bytes: Vec<u8>, w: u32, h: u32, nw: u32, nh: u32) -> (r: Vec<u8>)
    requires
        bytes@.len() == 4 * ((w as int) * (h as int)),
    ensures
        r@.len() == 4 * ((nw as int) * (nh as int)),
        r@ == nearest_resize(bytes@, w as int, h as int, nw as int, nh as int),
{
    let buf = image::RgbaImage::from_raw(w, h, bytes).unwrap();
    let resized = image::DynamicImage::ImageRgba8(buf).resize_exact(
        nw,
        nh,
        image::imageops::FilterType::Nearest,
    );
    resized.into_rgba8().into_raw()
}

/// Resizes an image by the two factors: each dimension is the truncated
/// product of the old dimension and its factor, and the pixels are the
/// nearest-neighbor resampling of the old grid to those dimensions.
pub fn scale_image(img: &Image, width_factor: &Scale, height_factor: &Scale) -> (r: Image)
    requires
        img.wf(),
        width_factor.wf(),
        height_factor.wf(),
    ensures
        r.wf(),
        r.spec_width() as int == scaled_dim_spec(img.spec_width() as int, *width_factor),
        r.spec_height() as int == scaled_dim_spec(img.spec_height() as int, *height_factor),
        r.spec_pixels() == pixels_of(
            nearest_resize(
                bytes_of(img.spec_pixels()),
                img.spec_width() as int,
                img.spec_height() as int,
                r.spec_width() as int,
                r.spec_height() as int,
            ),
        ),
{
    let nw = scaled_dim(img.width(), width_factor);
    let nh = scaled_dim(img.height(), height_factor);
    let bytes = img.to_rgba_bytes();
    let out = resize_rgba(bytes, img.width(), img.height(), nw, nh);
    let res = Image::from_rgba_bytes(nw, nh, &out);
    match res {
        Some(scaled) => scaled,
        None => {
            proof {
                assert(false);
            }
            vstd::pervasive::unreached()
        },
    }
}

} // verus!
