use vstd::prelude::*;
use crate::raster::Image;
use crate::raster::bytes_of;
use crate::raster::pixels_of;
use crate::render::render;
use crate::render::render_spec;
use crate::scale::Scale;
use crate::scale::ScaleError;
use crate::scale::nearest_resize;
use crate::scale::scale_image;
use crate::scale::scaled_dim_spec;
use crate::scale::validate_scaling;

verus! {

/// The factors that end up on the two axes: the uniform factor on both when
/// neither axis factor is supplied, the two axis factors when both are
/// supplied and strictly positive, and nothing otherwise.
pub open spec fn effective_factors(
    width: Option<Scale>,
    height: Option<Scale>,
    uniform: Scale,
) -> Option<(Scale, Scale)> {
    match (width, height) {
        (None, None) => Some((uniform, uniform)),
        (Some(wfac), Some(hfac)) => if wfac.is_positive() && hfac.is_positive() {
            Some((wfac, hfac))
        } else {
            None
        },
        _ => None,
    }
}

/// The whole rendering pipeline after decoding: settle the effective scale
/// factors, resize the image by them, and render the result as text. Fails
/// exactly when the scale specification is partial or non-positive, before
/// any image work.
pub fn make_ascii_art(
    img: &Image,
    width: Option<Scale>,
    height: Option<Scale>,
    uniform: Scale,
    invert: bool,
) -> (r: Result<String, ScaleError>)
    requires
        img.wf(),
        uniform.wf(),
        width matches Some(wfac) ==> wfac.wf(),
        height matches Some(hfac) ==> hfac.wf(),
    ensures
        r is Ok <==> effective_factors(width, height, uniform) is Some,
        r matches Ok(text) ==> effective_factors(width, height, uniform) matches Some(factors)
            && ({
            let nw = scaled_dim_spec(img.spec_width() as int, factors.0);
            let nh = scaled_dim_spec(img.spec_height() as int, factors.1);
            text@ == render_spec(
                pixels_of(
                    nearest_resize(
                        bytes_of(img.spec_pixels()),
                        img.spec_width() as int,
                        img.spec_height() as int,
                        nw,
                        nh,
                    ),
                ),
                nw,
                nh,
                invert,
            )
        }),
{
    match validate_scaling(width, height, uniform) {
        Err(e) => Err(e),
        Ok((width_factor, height_factor)) => {
            let scaled = scale_image(img, &width_factor, &height_factor);
            Ok(render(&scaled, invert))
        },
    }
}

} // verus!
