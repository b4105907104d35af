//! Bit-level utilities of the emulator: sign extension of narrow immediate
//! fields, byte swapping, and big-endian word decoding.

use vstd::prelude::*;

verus! {

/// The low `n` bits all set: the mask that an `n`-bit field occupies.
pub open spec fn mask(n: u16) -> u16
    recommends
        1 <= n <= 16,
{
    ((1u32 << n) - 1) as u16
}

/// A 16-bit word read as a two's-complement number.
pub open spec fn signed16(x: u16) -> int {
    if x >= 0x8000 {
        x - 0x10000
    } else {
        x as int
    }
}

/// `x`, assumed to fit in `n` bits, read as an `n`-bit two's-complement
/// number.
pub open spec fn signed_val(x: u16, n: u16) -> int
    recommends
        1 <= n <= 15,
        x & mask(n) == x,
{
    if (x >> ((n - 1) as u16)) & 1 != 0 {
        x - (1u32 << n)
    } else {
        x as int
    }
}

/// The two's-complement extension of the low `n` bits of `x` to 16 bits:
/// if bit `n-1` is set, every bit above it becomes 1.
pub open spec fn sign_extend_spec(x: u16, n: u16) -> u16
    recommends
        1 <= n <= 15,
{
    if (x >> ((n - 1) as u16)) & 1 != 0 {
        x | (0xFFFFu16 << n)
    } else {
        x
    }
}

/// Widens the low `bit_count` bits of `x` to a 16-bit two's-complement word.
pub fn sign_extend(x: u16, bit_count: i32) -> (r: u16)
    requires
        1 <= bit_count <= 15,
    ensures
        r == sign_extend_spec(x, bit_count as u16),
{
    let n: u16 = bit_count as u16;
    if (x >> (n - 1)) & 1 != 0 {
        x | (0xFFFFu16 << n)
    } else {
        x
    }
}

/// Sign extension preserves the numeric value: the extended word, read as a
/// 16-bit signed number, equals the masked input read as an `n`-bit signed
/// number, and its low `n` bits are the input unchanged.
pub proof fn lemma_sign_extend_preserves_value(v: u16, n: u16)
    requires
        1 <= n <= 15,
    ensures
        signed16(sign_extend_spec(v & mask(n), n)) == signed_val(v & mask(n), n),
        sign_extend_spec(v & mask(n), n) & mask(n) == v & mask(n),
{
    assert(signed16(sign_extend_spec(v & mask(n), n)) == signed_val(v & mask(n), n))
        by (bit_vector)
        requires
            1 <= n <= 15,
    ;
    assert(sign_extend_spec(v & mask(n), n) & mask(n) == v & mask(n)) by (bit_vector)
        requires
            1 <= n <= 15,
    ;
}

/// The high and low bytes of `x`, exchanged.
pub open spec fn swap16_spec(x: u16) -> u16 {
    (x << 8) | (x >> 8)
}

/// Exchanges the high and low bytes of `x`.
pub fn swap16(x: u16) -> (r: u16)
    ensures
        r == swap16_spec(x),
{
    x << 8 | x >> 8
}

/// Swapping the bytes of a word twice restores the word.
pub proof fn lemma_swap16_involutive(x: u16)
    ensures
        swap16_spec(swap16_spec(x)) == x,
{
    assert(swap16_spec(swap16_spec(x)) == x) by (bit_vector);
}

/// The big-endian word at byte offset `i`: `bytes[i]` is the high byte and
/// `bytes[i+1]` the low byte.
pub open spec fn be_word(bytes: Seq<u8>, i: int) -> u16
    recommends
        0 <= i,
        i + 1 < bytes.len(),
{
    ((bytes[i] as u16) * 256 + (bytes[i + 1] as u16)) as u16
}

/// Combines `mem[ind]` (high byte) and `mem[ind + 1]` (low byte) into a word.
pub fn get16(mem: &[u8], ind: usize) -> (r: u16)
    requires
        ind + 1 < mem@.len(),
    ensures
        r == be_word(mem@, ind as int),
{
    let hi: u16 = mem[ind] as u16;
    let lo: u16 = mem[ind + 1] as u16;
    assert(hi << 8 == hi * 256) by (bit_vector)
        requires
            hi <= 0xFF,
    ;
    (hi << 8) + lo
}

} // verus!
