//! Pictures decoded by the `image` crate.
use crate::encode::{encode_tiles, encoding, GameBoy2bpp, InvalidDimensions};
use crate::raster::{LumaImage, Raster};
use image::DynamicImage;
use vstd::prelude::*;

verus! {

/// `image::DynamicImage`, a decoded picture in any of the crate's pixel
/// formats. Nothing inside it is visible to the proofs.
#[verifier::external_type_specification]
#[verifier::external_body]
pub struct ExDynamicImage(image::DynamicImage);

/// What `DynamicImage::width` returns for a picture.
pub uninterp spec fn image_width(img: DynamicImage) -> nat;

/// What `DynamicImage::height` returns for a picture.
pub uninterp spec fn image_height(img: DynamicImage) -> nat;

/// The sample buffer of the 8-bit grayscale picture that
/// `DynamicImage::into_luma8` makes of a picture: one luminance for each
/// pixel, row by row from the top, each row from the left.
pub uninterp spec fn image_luma(img: DynamicImage) -> Seq<u8>;

/// `DynamicImage::width`: the width of the picture in pixels. Assumed: the
/// call returns the width that `image_width` names.
pub assume_specification[ DynamicImage::width ](img: &DynamicImage) -> (w: u32)
    ensures
        w == image_width(*img),
;

/// `DynamicImage::height`: the height of the picture in pixels. Assumed: the
/// call returns the height that `image_height` names.
pub assume_specification[ DynamicImage::height ](img: &DynamicImage) -> (h: u32)
    ensures
        h == image_height(*img),
;

/// `DynamicImage::into_luma8`, followed by `ImageBuffer::into_raw` on its
/// result. Assumed: the buffer is the one that `image_luma` names, and it
/// holds at least one sample for each pixel of the picture, whose sides the
/// conversion keeps. (A buffer may be longer than its picture.)
#[verifier::external_body]
fn luma_samples(img: DynamicImage) -> (samples: Vec<u8>)
    ensures
        samples@ == image_luma(img),
        samples@.len() >= image_width(img) * image_height(img),
{
    img.into_luma8().into_raw()
}

/// The grayscale raster of a decoded picture: its sides, and the samples
/// that belong to its pixels.
pub open spec fn luma_raster(img: DynamicImage) -> Raster {
    Raster {
        width: image_width(img),
        height: image_height(img),
        pixels: image_luma(img).subrange(0, (image_width(img) * image_height(img)) as int),
    }
}

/// Converts a decoded picture to an 8-bit grayscale image of the same sides.
pub fn to_luma(img: DynamicImage) -> (out: LumaImage)
    ensures
        out@ == luma_raster(img),
{
    let width: u32 = img.width();
    let height: u32 = img.height();
    let mut pixels: Vec<u8> = luma_samples(img);
    let len: usize = pixels.len();
    let columns: usize = width as usize;
    let rows: usize = height as usize;
    assert(columns * rows == width * height) by (nonlinear_arith)
        requires
            columns == width,
            rows == height,
    ;
    if columns * rows < len {
        pixels.truncate(columns * rows);
    }
    assert(pixels@ =~= image_luma(img).subrange(0, width * height));
    LumaImage::new(width, height, pixels).unwrap()
}

impl GameBoy2bpp for DynamicImage {
    open spec fn raster(&self) -> Raster {
        luma_raster(*self)
    }

    fn into_gb2bpp(self) -> (out: Vec<u8>) {
        let img: LumaImage = to_luma(self);
        encode_tiles(&img)
    }
}

/// Encodes a decoded picture, or refuses it where a side is not a multiple of
/// eight.
pub fn encode_image(img: DynamicImage) -> (out: Result<Vec<u8>, InvalidDimensions>)
    ensures
        out.is_ok() <==> luma_raster(img).tiled(),
        out matches Ok(bytes) ==> bytes@ == encoding(luma_raster(img)) && bytes@.len() == (
        image_width(img) / 8) * (image_height(img) / 8) * 16,
        out matches Err(e) ==> e.width == image_width(img) && e.height == image_height(img),
{
    let width: u32 = img.width();
    let height: u32 = img.height();
    if width % 8 == 0 && height % 8 == 0 {
        Ok(img.into_gb2bpp())
    } else {
        Err(InvalidDimensions { width, height })
    }
}

} // verus!
