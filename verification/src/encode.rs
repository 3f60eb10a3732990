//! The tile encoding: its definition on rasters and the encoder itself.
use crate::pack::{packed, with_column};
use crate::raster::{LumaImage, Raster};
use crate::shade::{plane_bit, quantize, shade_of};
use vstd::arithmetic::div_mod::lemma_fundamental_div_mod_converse;
use vstd::prelude::*;

verus! {

/// The bits of one plane in one row of a tile, from the left: those of the
/// shades of the eight pixels of row `row` of tile `(tile_x, tile_y)`.
pub open spec fn row_bits(r: Raster, tile_x: int, tile_y: int, row: int, plane: int) -> Seq<u8> {
    Seq::new(8, |col: int| plane_bit(shade_of(r.at(tile_x * 8 + col, tile_y * 8 + row)), plane))
}

/// The byte of one plane for one row of a tile.
pub open spec fn row_byte(r: Raster, tile_x: int, tile_y: int, row: int, plane: int) -> u8 {
    packed(row_bits(r, tile_x, tile_y, row, plane), 8)
}

/// The sixteen bytes of a tile: for each row from the top, the byte of the
/// low plane and then the byte of the high plane.
pub open spec fn tile_encoding(r: Raster, tile_x: int, tile_y: int) -> Seq<u8> {
    Seq::new(16, |k: int| row_byte(r, tile_x, tile_y, k / 2, k % 2))
}

/// The number of bytes in the encoding: sixteen for each tile.
pub open spec fn encoded_len(r: Raster) -> nat {
    r.tiles_across() * r.tiles_down() * 16
}

/// Byte `i` of the encoding. Tiles follow each other in row-major order, so
/// byte `i` belongs to tile number `i / 16`.
pub open spec fn encoded_byte(r: Raster, i: int) -> u8 {
    let tile = i / 16;
    let tile_x = tile % (r.tiles_across() as int);
    let tile_y = tile / (r.tiles_across() as int);
    row_byte(r, tile_x, tile_y, (i % 16) / 2, i % 2)
}

/// The encoding of a raster whose sides are multiples of eight.
pub open spec fn encoding(r: Raster) -> Seq<u8> {
    Seq::new(encoded_len(r), |i: int| encoded_byte(r, i))
}

/// The place in the encoding of the byte of `plane` for row `row` of tile
/// `(tile_x, tile_y)`.
pub open spec fn byte_index(r: Raster, tile_x: int, tile_y: int, row: int, plane: int) -> int {
    (tile_y * r.tiles_across() + tile_x) * 16 + row * 2 + plane
}

/// `byte_index` is the place that `encoded_byte` reads back: the byte there
/// is the row byte of that tile, row and plane, and it lies inside the
/// encoding.
pub proof fn byte_index_is_exact(r: Raster, tile_x: int, tile_y: int, row: int, plane: int)
    requires
        0 <= tile_x < r.tiles_across(),
        0 <= tile_y < r.tiles_down(),
        0 <= row < 8,
        0 <= plane < 2,
    ensures
        0 <= byte_index(r, tile_x, tile_y, row, plane) < encoded_len(r),
        encoded_byte(r, byte_index(r, tile_x, tile_y, row, plane)) == row_byte(
            r,
            tile_x,
            tile_y,
            row,
            plane,
        ),
{
    let across = r.tiles_across() as int;
    let down = r.tiles_down() as int;
    let tile = tile_y * across + tile_x;
    let i = byte_index(r, tile_x, tile_y, row, plane);
    lemma_fundamental_div_mod_converse(tile, across, tile_y, tile_x);
    assert(0 <= tile_y * across) by (nonlinear_arith)
        requires
            0 <= tile_y,
            0 <= across,
    ;
    assert(tile_y * across + across <= down * across) by (nonlinear_arith)
        requires
            tile_y + 1 <= down,
            0 <= across,
    ;
    assert(across * down * 16 == (down * across) * 16) by (nonlinear_arith);
    assert(i == tile * 16 + (row * 2 + plane));
    assert(i / 16 == tile);
    assert(i % 16 == row * 2 + plane);
}

/// The sides that an image was refused for: at least one of them is not a
/// multiple of eight.
#[derive(Debug, Clone, Copy, PartialEq, Eq, Structural)]
pub struct InvalidDimensions {
    pub width: u32,
    pub height: u32,
}

impl InvalidDimensions {
    /// What is wrong with such sides, in words.
    pub fn message(&self) -> (text: String)
        ensures
            text@ == "Image dimensions must be a multiple of 8"@,
    {
        "Image dimensions must be a multiple of 8".to_owned()
    }
}

/// A picture that can be turned into Game Boy 2bpp tile data.
///
/// Each pixel takes two bits, so there are four shades. The picture is cut
/// into 8×8 tiles, and each tile is written row by row; a row is two bytes,
/// first the low bits of its eight pixels, then the high bits.
pub trait GameBoy2bpp: Sized {
    /// The grayscale picture that the value stands for.
    spec fn raster(&self) -> Raster;

    /// Converts the picture into tile data. Its sides must be multiples of
    /// eight.
    fn into_gb2bpp(self) -> (out: Vec<u8>)
        requires
            self.raster().tiled(),
        ensures
            out@ == encoding(self.raster()),
            out@.len() == (self.raster().width / 8) * (self.raster().height / 8) * 16,
    ;
}

impl GameBoy2bpp for LumaImage {
    open spec fn raster(&self) -> Raster {
        self@
    }

    fn into_gb2bpp(self) -> (out: Vec<u8>) {
        encode_tiles(&self)
    }
}

/// Encodes one row of a tile: the byte of the low plane and the byte of the
/// high plane.
pub fn row_planes(img: &LumaImage, tile_x: u32, tile_y: u32, row: u32) -> (out: (u8, u8))
    requires
        tile_x < img@.tiles_across(),
        tile_y < img@.tiles_down(),
        row < 8,
    ensures
        out.0 == row_byte(img@, tile_x as int, tile_y as int, row as int, 0),
        out.1 == row_byte(img@, tile_x as int, tile_y as int, row as int, 1),
{
    let ghost low = row_bits(img@, tile_x as int, tile_y as int, row as int, 0);
    let ghost high = row_bits(img@, tile_x as int, tile_y as int, row as int, 1);
    let width: u32 = img.width();
    let height: u32 = img.height();
    let y: u32 = tile_y * 8 + row;
    let mut byte1: u8 = 0;
    let mut byte2: u8 = 0;
    let mut col: u8 = 0;
    while col < 8
        invariant
            col <= 8,
            tile_x < img@.tiles_across(),
            width == img@.width,
            y == tile_y * 8 + row,
            y < img@.height,
            low == row_bits(img@, tile_x as int, tile_y as int, row as int, 0),
            high == row_bits(img@, tile_x as int, tile_y as int, row as int, 1),
            byte1 == packed(low, col as nat),
            byte2 == packed(high, col as nat),
        decreases 8 - col,
    {
        let x: u32 = tile_x * 8 + col as u32;
        let value: u8 = quantize(img.get_pixel(x, y));
        byte1 = with_column(byte1, value & 1, col);
        byte2 = with_column(byte2, (value >> 1) & 1, col);
        col += 1;
    }
    (byte1, byte2)
}

/// Encodes an image whose sides are multiples of eight.
pub fn encode_tiles(img: &LumaImage) -> (out: Vec<u8>)
    requires
        img@.tiled(),
    ensures
        out@ == encoding(img@),
        out@.len() == (img@.width / 8) * (img@.height / 8) * 16,
{
    let across: u32 = img.width() / 8;
    let down: u32 = img.height() / 8;
    let mut result: Vec<u8> = Vec::new();
    let mut tile_y: u32 = 0;
    while tile_y < down
        invariant
            tile_y <= down,
            across == img@.tiles_across(),
            down == img@.tiles_down(),
            result@.len() == tile_y * across * 16,
            forall|i: int| 0 <= i < result@.len() ==> result@[i] == encoded_byte(img@, i),
        decreases down - tile_y,
    {
        let mut tile_x: u32 = 0;
        while tile_x < across
            invariant
                tile_x <= across,
                tile_y < down,
                across == img@.tiles_across(),
                down == img@.tiles_down(),
                result@.len() == (tile_y * across + tile_x) * 16,
                forall|i: int| 0 <= i < result@.len() ==> result@[i] == encoded_byte(img@, i),
            decreases across - tile_x,
        {
            let mut row: u32 = 0;
            while row < 8
                invariant
                    row <= 8,
                    tile_x < across,
                    tile_y < down,
                    across == img@.tiles_across(),
                    down == img@.tiles_down(),
                    result@.len() == (tile_y * across + tile_x) * 16 + row * 2,
                    forall|i: int| 0 <= i < result@.len() ==> result@[i] == encoded_byte(img@, i),
                decreases 8 - row,
            {
                let (byte1, byte2) = row_planes(img, tile_x, tile_y, row);
                proof {
                    byte_index_is_exact(img@, tile_x as int, tile_y as int, row as int, 0);
                    byte_index_is_exact(img@, tile_x as int, tile_y as int, row as int, 1);
                }
                result.push(byte1);
                result.push(byte2);
                row += 1;
            }
            tile_x += 1;
        }
        tile_y += 1;
        assert((tile_y - 1) * across + across == tile_y * across) by (nonlinear_arith);
    }
    assert(result@.len() == encoded_len(img@)) by (nonlinear_arith)
        requires
            result@.len() == down * across * 16,
            across == img@.tiles_across(),
            down == img@.tiles_down(),
            encoded_len(img@) == img@.tiles_across() * img@.tiles_down() * 16,
    ;
    assert(result@ =~= encoding(img@));
    result
}

/// Encodes an image, or refuses it where a side is not a multiple of eight.
pub fn encode(img: &LumaImage) -> (out: Result<Vec<u8>, InvalidDimensions>)
    ensures
        out.is_ok() <==> img@.tiled(),
        out matches Ok(bytes) ==> bytes@ == encoding(img@) && bytes@.len() == (img@.width / 8) * (
        img@.height / 8) * 16,
        out matches Err(e) ==> e.width == img@.width && e.height == img@.height,
{
    let width: u32 = img.width();
    let height: u32 = img.height();
    if width % 8 == 0 && height % 8 == 0 {
        Ok(encode_tiles(img))
    } else {
        Err(InvalidDimensions { width, height })
    }
}

} // verus!
