use vstd::prelude::*;

verus! {

/// A single pixel: four 8-bit channels (red, green, blue, alpha), the
/// row-major RGBA layout that decoded images are handed over in.
#[derive(Clone, Copy, PartialEq, Eq, Structural, Debug)]
pub struct Pixel {
    pub r: u8,
    pub g: u8,
    pub b: u8,
    pub a: u8,
}

/// The flat RGBA byte sequence of a pixel sequence: four bytes per pixel,
/// in channel order red, green, blue, alpha.
pub open spec fn bytes_of(pixels: Seq<Pixel>) -> Seq<u8> {
    Seq::new(
        4 * pixels.len(),
        |i: int|
            if i % 4 == 0 {
                pixels[i / 4].r
            } else if i % 4 == 1 {
                pixels[i / 4].g
            } else if i % 4 == 2 {
                pixels[i / 4].b
            } else {
                pixels[i / 4].a
            },
    )
}

/// The pixel sequence read back out of a flat RGBA byte sequence.
pub open spec fn pixels_of(bytes: Seq<u8>) -> Seq<Pixel> {
    Seq::new(
        bytes.len() / 4,
        |i: int| Pixel { r: bytes[4 * i], g: bytes[4 * i + 1], b: bytes[4 * i + 2], a: bytes[4 * i + 3] },
    )
}

/// A decoded raster image: a row-major grid of RGBA pixels.
pub struct Image {
    width: u32,
    height: u32,
    pixels: Vec<Pixel>,
}

impl Image {
    pub closed spec fn spec_width(&self) -> u32 {
        self.width
    }

    pub closed spec fn spec_height(&self) -> u32 {
        self.height
    }

    pub closed spec fn spec_pixels(&self) -> Seq<Pixel> {
        self.pixels@
    }

    /// The pixel grid holds exactly one pixel per cell, row-major.
    pub open spec fn wf(&self) -> bool {
        self.spec_pixels().len() == self.spec_width() * self.spec_height()
    }

    pub fn width(&self) -> (w: u32)
        ensures
            w == self.spec_width(),
    {
        self.width
    }

    pub fn height(&self) -> (h: u32)
        ensures
            h == self.spec_height(),
    {
        self.height
    }

    /// Builds an image from its dimensions and pixel grid; rejects a grid
    /// whose length does not match the dimensions.
    pub fn new(width: u32, height: u32, pixels: Vec<Pixel>) -> (r: Option<Image>)
        ensures
            r is Some <==> pixels@.len() == width * height,
            r matches Some(img) ==> img.wf() && img.spec_width() == width && img.spec_height() == height
                && img.spec_pixels() == pixels@,
    {
        proof {
            assert((width as int) * (height as int) < 0x1_0000_0000 * 0x1_0000_0000)
                by (nonlinear_arith)
                requires
                    width < 0x1_0000_0000,
                    height < 0x1_0000_0000,
            ;
        }
        if pixels.len() as u64 == (width as u64) * (height as u64) {
            Some(Image { width, height, pixels })
        } else {
            None
        }
    }

    /// Builds an image from a flat RGBA byte buffer, four bytes per pixel;
    /// rejects a buffer whose length does not match the dimensions.
    pub fn from_rgba_bytes(width: u32, height: u32, bytes: &Vec<u8>) -> (r: Option<Image>)
        ensures
            r is Some <==> bytes@.len() == 4 * (width * height),
            r matches Some(img) ==> img.wf() && img.spec_width() == width && img.spec_height() == height
                && img.spec_pixels() == pixels_of(bytes@),
    {
        proof {
            assert((4 * (width as int)) * (height as int) == 4 * ((width as int) * (height as int))
                && (4 * (width as int)) * (height as int) < 0x40000000000000000)
                by (nonlinear_arith)
                requires
                    width < 0x1_0000_0000,
                    height < 0x1_0000_0000,
            ;
        }
        if bytes.len() as u128 != 4 * (width as u128) * (height as u128) {
            return None;
        }
        let n: usize = bytes.len() / 4;
        let mut pixels: Vec<Pixel> = Vec::new();
        let mut i: usize = 0;
        while i < n
            invariant
                i <= n,
                n == bytes@.len() / 4,
                4 * n <= usize::MAX,
                bytes@.len() == 4 * (width * height),
                pixels@.len() == i,
                forall|j: int| 0 <= j < i ==> pixels@[j] == pixels_of(bytes@)[j],
            decreases n - i,
        {
            let p = Pixel {
                r: bytes[4 * i],
                g: bytes[4 * i + 1],
                b: bytes[4 * i + 2],
                a: bytes[4 * i + 3],
            };
            pixels.push(p);
            i += 1;
        }
        proof {
            assert(pixels@ =~= pixels_of(bytes@));
        }
        Image::new(width, height, pixels)
    }

    /// The pixel at column `x` of row `y`.
    pub fn pixel(&self, x: u32, y: u32) -> (p: Pixel)
        requires
            self.wf(),
            x < self.spec_width(),
            y < self.spec_height(),
        ensures
            p == self.spec_pixels()[y * self.spec_width() + x],
    {
        // Binding the length keeps the row-major index visibly within the
        // addressable range.
        let _len: usize = self.pixels.len();
        proof {
            assert((y as int) * (self.width as int) + (x as int) < (self.width as int) * (self.height as int))
                by (nonlinear_arith)
                requires
                    x < self.width,
                    y < self.height,
            ;
        }
        self.pixels[(y as usize) * (self.width as usize) + (x as usize)]
    }

    /// The image flattened to its RGBA bytes, four per pixel, row-major.
    pub fn to_rgba_bytes(&self) -> (r: Vec<u8>)
        ensures
            r@ == bytes_of(self.spec_pixels()),
    {
        let n: usize = self.pixels.len();
        let mut out: Vec<u8> = Vec::new();
        let mut i: usize = 0;
        while i < n
            invariant
                i <= n,
                n == self.pixels@.len(),
                out@.len() == 4 * i,
                forall|j: int| 0 <= j < 4 * i ==> out@[j] == bytes_of(self.pixels@)[j],
            decreases n - i,
        {
            let p = self.pixels[i];
            out.push(p.r);
            out.push(p.g);
            out.push(p.b);
            out.push(p.a);
            i += 1;
        }
        proof {
            assert(out@ =~= bytes_of(self.spec_pixels()));
        }
        out
    }
}

} // verus!
