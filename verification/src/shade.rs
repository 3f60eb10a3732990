//! Quantization of luminance to the four shades of the hardware.
use vstd::prelude::*;

verus! {

/// The shade of a luminance: dark pixels get the high shades, and each shade
/// covers a quarter of the luminance range.
pub open spec fn shade_of(lum: u8) -> u8 {
    if lum <= 63 {
        3
    } else if lum <= 127 {
        2
    } else if lum <= 191 {
        1
    } else {
        0
    }
}

/// Bit `plane` of a shade, as 0 or 1: plane 0 holds the low bits, plane 1 the
/// high bits.
pub open spec fn plane_bit(shade: u8, plane: int) -> u8 {
    if plane == 0 {
        shade & 1
    } else {
        (shade >> 1) & 1
    }
}

/// Quantizes a luminance to its shade.
pub fn quantize(lum: u8) -> (shade: u8)
    ensures
        shade == shade_of(lum),
{
    match lum {
        0..=63 => 3,
        64..=127 => 2,
        128..=191 => 1,
        _ => 0,
    }
}

/// A shade is at most 3 and is the quarter of the range that the luminance
/// lies in, counted from the bright end.
pub proof fn shade_is_inverted_quarter(lum: u8)
    ensures
        shade_of(lum) <= 3,
        shade_of(lum) == 3 - lum / 64,
{
}

/// A brighter pixel never gets a darker shade.
pub proof fn shade_is_antitone(a: u8, b: u8)
    requires
        a <= b,
    ensures
        shade_of(a) >= shade_of(b),
{
}

/// The two plane bits of a shade are its binary digits.
pub proof fn plane_bits_are_binary_digits(shade: u8)
    requires
        shade <= 3,
    ensures
        plane_bit(shade, 0) <= 1,
        plane_bit(shade, 1) <= 1,
        shade == 2 * plane_bit(shade, 1) + plane_bit(shade, 0),
{
    assert(shade <= 3 ==> (shade & 1) <= 1 && ((shade >> 1) & 1) <= 1 && shade == 2 * ((shade >> 1)
        & 1) + (shade & 1)) by (bit_vector);
}

} // verus!
