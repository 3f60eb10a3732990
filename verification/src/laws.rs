//! What holds of the encoding of every raster.
use crate::encode::{
    byte_index, byte_index_is_exact, encoded_byte, encoded_len, encoding, row_bits, row_byte,
    tile_encoding,
};
use crate::pack::{bit_is_set, packed, packed_column};
use crate::raster::Raster;
use crate::shade::{plane_bit, plane_bits_are_binary_digits, shade_of};
use vstd::prelude::*;

verus! {

/// The encoding has sixteen bytes for each tile of the raster.
pub proof fn encoding_len(r: Raster)
    ensures
        encoding(r).len() == (r.width / 8) * (r.height / 8) * 16,
{
}

/// The encoding is a function of the raster: the same picture always gives
/// the same bytes.
pub proof fn encoding_is_deterministic(a: Raster, b: Raster)
    requires
        a.width == b.width,
        a.height == b.height,
        a.pixels =~= b.pixels,
    ensures
        encoding(a) == encoding(b),
{
    assert(a == b);
}

/// The plane bits of a row are binary digits.
pub proof fn row_bits_are_binary(r: Raster, tile_x: int, tile_y: int, row: int, plane: int)
    ensures
        row_bits(r, tile_x, tile_y, row, plane).len() == 8,
        forall|c: int|
            0 <= c < 8 ==> #[trigger] row_bits(r, tile_x, tile_y, row, plane)[c] <= 1,
{
    let bits = row_bits(r, tile_x, tile_y, row, plane);
    assert forall|c: int| 0 <= c < 8 implies #[trigger] bits[c] <= 1 by {
        let shade = shade_of(r.at(tile_x * 8 + c, tile_y * 8 + row));
        plane_bits_are_binary_digits(shade);
    }
}

/// Only the shades count: two rasters of the same sides whose pixels have
/// the same shades have the same encoding.
pub proof fn encoding_depends_on_shades_only(a: Raster, b: Raster)
    requires
        a.width == b.width,
        a.height == b.height,
        forall|x: int, y: int|
            0 <= x < a.width && 0 <= y < a.height ==> shade_of(#[trigger] a.at(x, y)) == shade_of(
                b.at(x, y),
            ),
    ensures
        encoding(a) == encoding(b),
{
    assert forall|i: int| 0 <= i < encoded_len(a) implies encoded_byte(a, i) == encoded_byte(
        b,
        i,
    ) by {
        let across = a.tiles_across() as int;
        let down = a.tiles_down() as int;
        let tile = i / 16;
        let row = (i % 16) / 2;
        let plane = i % 2;
        assert(tile < across * down);
        assert(across > 0) by (nonlinear_arith)
            requires
                0 <= tile < across * down,
                0 <= across,
        ;
        let tile_x = tile % across;
        let tile_y = tile / across;
        vstd::arithmetic::div_mod::lemma_fundamental_div_mod(tile, across);
        assert(0 <= tile_y < down) by (nonlinear_arith)
            requires
                0 <= tile < across * down,
                0 < across,
                tile == across * tile_y + tile_x,
                0 <= tile_x < across,
        ;
        let bits_a = row_bits(a, tile_x, tile_y, row, plane);
        let bits_b = row_bits(b, tile_x, tile_y, row, plane);
        assert forall|col: int| 0 <= col < 8 implies #[trigger] bits_a[col] == bits_b[col] by {
            assert(0 <= tile_x * 8 + col < a.width);
            assert(0 <= tile_y * 8 + row < a.height);
        }
        assert(bits_a =~= bits_b);
    }
    assert(encoding(a) =~= encoding(b));
}

/// Tiles follow each other in row-major order: the sixteen bytes of tile
/// `(tile_x, tile_y)` start at sixteen times its number, which counts the
/// tiles of the rows above it and those to its left.
pub proof fn tile_bytes_are_contiguous(r: Raster, tile_x: int, tile_y: int)
    requires
        0 <= tile_x < r.tiles_across(),
        0 <= tile_y < r.tiles_down(),
    ensures
        0 <= (tile_y * r.tiles_across() + tile_x) * 16,
        (tile_y * r.tiles_across() + tile_x) * 16 + 16 <= encoding(r).len(),
        encoding(r).subrange(
            (tile_y * r.tiles_across() + tile_x) * 16,
            (tile_y * r.tiles_across() + tile_x) * 16 + 16,
        ) == tile_encoding(r, tile_x, tile_y),
{
    let start = (tile_y * r.tiles_across() + tile_x) * 16;
    byte_index_is_exact(r, tile_x, tile_y, 0, 0);
    byte_index_is_exact(r, tile_x, tile_y, 7, 1);
    let part = encoding(r).subrange(start, start + 16);
    assert forall|k: int| 0 <= k < 16 implies part[k] == tile_encoding(r, tile_x, tile_y)[k] by {
        byte_index_is_exact(r, tile_x, tile_y, k / 2, k % 2);
        assert(byte_index(r, tile_x, tile_y, k / 2, k % 2) == start + k);
    }
    assert(part =~= tile_encoding(r, tile_x, tile_y));
}

/// Every pixel can be read back from the encoding: in the two bytes of its
/// row of its tile, the bit of its column, counted from the most significant
/// bit, is the low and the high bit of its shade.
pub proof fn pixel_bits_in_encoding(r: Raster, x: int, y: int, plane: int)
    requires
        r.tiled(),
        0 <= x < r.width,
        0 <= y < r.height,
        0 <= plane < 2,
    ensures
        0 <= byte_index(r, x / 8, y / 8, y % 8, plane) < encoding(r).len(),
        bit_is_set(encoding(r)[byte_index(r, x / 8, y / 8, y % 8, plane)], (7 - x % 8) as u8) == (
        plane_bit(shade_of(r.at(x, y)), plane) == 1),
{
    byte_index_is_exact(r, x / 8, y / 8, y % 8, plane);
    let bits = row_bits(r, x / 8, y / 8, y % 8, plane);
    row_bits_are_binary(r, x / 8, y / 8, y % 8, plane);
    packed_column(bits, x % 8);
    assert(bits[x % 8] == plane_bit(shade_of(r.at((x / 8) * 8 + x % 8, (y / 8) * 8 + y % 8)), plane));
}

/// A row of eight equal bits packs to a byte of eight equal bits.
pub proof fn packed_uniform(bits: Seq<u8>, bit: u8)
    requires
        bits.len() == 8,
        bit <= 1,
        forall|c: int| 0 <= c < 8 ==> bits[c] == bit,
    ensures
        packed(bits, 8) == (if bit == 1 {
            0xFFu8
        } else {
            0x00u8
        }),
{
    reveal_with_fuel(packed, 9);
    assert(bit <= 1 ==> (0u8 | (bit << 7u8) | (bit << 6u8) | (bit << 5u8) | (bit << 4u8) | (bit
        << 3u8) | (bit << 2u8) | (bit << 1u8) | (bit << 0u8)) == (if bit == 1 {
        0xFFu8
    } else {
        0x00u8
    })) by (bit_vector);
}

/// A picture of one luminance encodes to bytes of eight equal bits: every
/// low-plane byte repeats the low bit of the shade, every high-plane byte its
/// high bit.
pub proof fn solid_encoding(r: Raster, lum: u8)
    requires
        r.wf(),
        r.tiled(),
        forall|k: int| 0 <= k < r.pixels.len() ==> r.pixels[k] == lum,
    ensures
        forall|i: int|
            0 <= i < encoding(r).len() ==> #[trigger] encoding(r)[i] == (if plane_bit(
                shade_of(lum),
                i % 2,
            ) == 1 {
                0xFFu8
            } else {
                0x00u8
            }),
{
    assert forall|i: int| 0 <= i < encoding(r).len() implies #[trigger] encoding(r)[i] == (
    if plane_bit(shade_of(lum), i % 2) == 1 {
        0xFFu8
    } else {
        0x00u8
    }) by {
        let across = r.tiles_across() as int;
        let down = r.tiles_down() as int;
        let tile = i / 16;
        let row = (i % 16) / 2;
        let plane = i % 2;
        assert(tile < across * down);
        assert(across > 0) by (nonlinear_arith)
            requires
                0 <= tile < across * down,
                0 <= across,
        ;
        let tile_x = tile % across;
        let tile_y = tile / across;
        vstd::arithmetic::div_mod::lemma_fundamental_div_mod(tile, across);
        assert(0 <= tile_y < down) by (nonlinear_arith)
            requires
                0 <= tile < across * down,
                0 < across,
                tile == across * tile_y + tile_x,
                0 <= tile_x < across,
        ;
        let bits = row_bits(r, tile_x, tile_y, row, plane);
        let bit = plane_bit(shade_of(lum), plane);
        plane_bits_are_binary_digits(shade_of(lum));
        assert forall|c: int| 0 <= c < 8 implies bits[c] == bit by {
            crate::raster::index_in_bounds(r.width, r.height, tile_x * 8 + c, tile_y * 8 + row);
        }
        packed_uniform(bits, bit);
        assert(encoding(r)[i] == row_byte(r, tile_x, tile_y, row, plane));
    }
}

} // verus!
