//! Game Boy 2bpp tile encoding of 8-bit grayscale images.
//!
//! An image whose sides are multiples of eight is cut into 8×8 tiles, taken in
//! row-major order. Every pixel is quantized to one of four shades, and every
//! row of a tile becomes two bytes: the low bits of its eight shades, then the
//! high bits, leftmost pixel in the most significant bit.
pub mod shade;
pub mod pack;
pub mod raster;
pub mod encode;
pub mod decoded;
pub mod laws;

pub use crate::decoded::{encode_image, to_luma};
pub use crate::encode::{encode, GameBoy2bpp, InvalidDimensions};
pub use crate::raster::LumaImage;
