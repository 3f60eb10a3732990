//! Packing eight one-bit values into a byte, leftmost column first.
use vstd::prelude::*;

verus! {

/// The byte that holds the first `n` of `bits`, column `col` at bit `7 - col`;
/// the bits of the later columns are clear.
pub open spec fn packed(bits: Seq<u8>, n: nat) -> u8
    decreases n,
{
    if n == 0 {
        0
    } else {
        packed(bits, (n - 1) as nat) | (bits[n - 1] << ((8 - n) as u8))
    }
}

/// Whether bit `k` of `byte` is set.
pub open spec fn bit_is_set(byte: u8, k: u8) -> bool {
    (byte >> k) & 1 == 1
}

/// Adds column `col` to a byte that holds the columns before it.
pub fn with_column(byte: u8, bit: u8, col: u8) -> (out: u8)
    requires
        col < 8,
    ensures
        out == byte | (bit << ((7 - col) as u8)),
{
    byte | (bit << (7 - col))
}

proof fn or_of_eight(m0: u8, m1: u8, m2: u8, m3: u8, m4: u8, m5: u8, m6: u8, m7: u8, k: u8)
    by (bit_vector)
    requires
        m0 <= 1,
        m1 <= 1,
        m2 <= 1,
        m3 <= 1,
        m4 <= 1,
        m5 <= 1,
        m6 <= 1,
        m7 <= 1,
        k < 8,
    ensures
        (((0u8 | (m0 << 7u8) | (m1 << 6u8) | (m2 << 5u8) | (m3 << 4u8) | (m4 << 3u8) | (m5 << 2u8)
            | (m6 << 1u8) | (m7 << 0u8)) >> k) & 1) == (if k == 7 {
            m0
        } else if k == 6 {
            m1
        } else if k == 5 {
            m2
        } else if k == 4 {
            m3
        } else if k == 3 {
            m4
        } else if k == 2 {
            m5
        } else if k == 1 {
            m6
        } else {
            m7
        }),
{
}

/// Column `col` of eight packed bits sits at bit `7 - col` of the byte, so a
/// byte is fixed by its eight columns.
pub proof fn packed_column(bits: Seq<u8>, col: int)
    requires
        bits.len() == 8,
        forall|c: int| 0 <= c < 8 ==> bits[c] <= 1,
        0 <= col < 8,
    ensures
        bit_is_set(packed(bits, 8), (7 - col) as u8) == (bits[col] == 1),
{
    reveal_with_fuel(packed, 9);
    or_of_eight(
        bits[0],
        bits[1],
        bits[2],
        bits[3],
        bits[4],
        bits[5],
        bits[6],
        bits[7],
        (7 - col) as u8,
    );
}

} // verus!
