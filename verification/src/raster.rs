//! Grayscale rasters: the mathematical model and the buffer that holds one.
use vstd::prelude::*;

verus! {

/// A grayscale picture as a value: its sides and its luminances, row by row
/// from the top, each row from the left.
pub ghost struct Raster {
    pub width: nat,
    pub height: nat,
    pub pixels: Seq<u8>,
}

impl Raster {
    /// There is exactly one luminance for each pixel.
    pub open spec fn wf(self) -> bool {
        self.pixels.len() == self.width * self.height
    }

    /// Both sides are multiples of eight, so the picture is a grid of tiles.
    pub open spec fn tiled(self) -> bool {
        self.width % 8 == 0 && self.height % 8 == 0
    }

    /// The number of tiles in one row of tiles.
    pub open spec fn tiles_across(self) -> nat {
        self.width / 8
    }

    /// The number of rows of tiles.
    pub open spec fn tiles_down(self) -> nat {
        self.height / 8
    }

    /// The luminance of the pixel in column `x` of row `y`.
    pub open spec fn at(self, x: int, y: int) -> u8 {
        self.pixels[y * self.width + x]
    }
}

/// The place of pixel `(x, y)` in the row-major buffer lies inside it.
pub proof fn index_in_bounds(width: nat, height: nat, x: int, y: int)
    requires
        0 <= x < width,
        0 <= y < height,
    ensures
        0 <= y * width <= y * width + x < width * height,
{
    assert(y * width >= 0) by (nonlinear_arith)
        requires
            0 <= y,
            0 <= width,
    ;
    assert((y + 1) * width <= height * width) by (nonlinear_arith)
        requires
            y + 1 <= height,
            0 <= width,
    ;
    assert((y + 1) * width == y * width + width) by (nonlinear_arith);
    assert(height * width == width * height) by (nonlinear_arith);
}

/// An owned 8-bit grayscale image.
#[derive(Debug, PartialEq, Eq)]
pub struct LumaImage {
    width: u32,
    height: u32,
    pixels: Vec<u8>,
}

impl View for LumaImage {
    type V = Raster;

    closed spec fn view(&self) -> Raster {
        Raster { width: self.width as nat, height: self.height as nat, pixels: self.pixels@ }
    }
}

impl Clone for LumaImage {
    fn clone(&self) -> (out: Self)
        ensures
            out@ == self@,
    {
        proof {
            use_type_invariant(self);
        }
        let pixels: Vec<u8> = self.pixels.clone();
        assert(pixels@ =~= self.pixels@);
        LumaImage { width: self.width, height: self.height, pixels }
    }
}

impl LumaImage {
    #[verifier::type_invariant]
    closed spec fn inv(&self) -> bool {
        self.pixels@.len() == self.width * self.height
    }

    /// Makes an image of the given sides from its luminances in row-major
    /// order. There must be exactly one for each pixel.
    pub fn new(width: u32, height: u32, pixels: Vec<u8>) -> (out: Option<LumaImage>)
        ensures
            out.is_some() <==> pixels@.len() == width * height,
            out.is_some() ==> out.unwrap()@ == (Raster {
                width: width as nat,
                height: height as nat,
                pixels: pixels@,
            }),
    {
        assert(width * height <= u64::MAX) by (nonlinear_arith)
            requires
                width <= u32::MAX,
                height <= u32::MAX,
        ;
        let area: u64 = (width as u64) * (height as u64);
        if pixels.len() as u64 == area {
            Some(LumaImage { width, height, pixels })
        } else {
            None
        }
    }

    /// The width in pixels.
    pub fn width(&self) -> (w: u32)
        ensures
            w == self@.width,
    {
        self.width
    }

    /// The height in pixels.
    pub fn height(&self) -> (h: u32)
        ensures
            h == self@.height,
    {
        self.height
    }

    /// The luminances in row-major order, one for each pixel.
    pub fn as_raw(&self) -> (samples: &Vec<u8>)
        ensures
            samples@ == self@.pixels,
            self@.wf(),
    {
        proof {
            use_type_invariant(self);
        }
        &self.pixels
    }

    /// The luminance of the pixel in column `x` of row `y`.
    pub fn get_pixel(&self, x: u32, y: u32) -> (lum: u8)
        requires
            x < self@.width,
            y < self@.height,
        ensures
            lum == self@.at(x as int, y as int),
    {
        let row: usize = y as usize;
        let stride: usize = self.width as usize;
        let len: usize = self.pixels.len();
        proof {
            use_type_invariant(self);
            index_in_bounds(self.width as nat, self.height as nat, x as int, y as int);
            assert(row * stride == y * self.width) by (nonlinear_arith)
                requires
                    row == y,
                    stride == self.width,
            ;
            assert(row * stride + x < len);
        }
        self.pixels[row * stride + (x as usize)]
    }
}

} // verus!
