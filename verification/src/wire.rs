//! Little-endian wire encoding of the 32-bit integers used by the device
//! protocol, together with the conversion between unsigned wire words and
//! the signed values they carry (two's complement).

use vstd::prelude::*;

verus! {

/// The unsigned value of four little-endian bytes.
pub open spec fn le_u32_val(b0: u8, b1: u8, b2: u8, b3: u8) -> int {
    b0 + 0x100 * b1 + 0x1_0000 * b2 + 0x100_0000 * b3
}

/// The signed (two's complement) reading of an unsigned 32-bit value.
pub open spec fn as_signed_32(u: int) -> int {
    if u < 0x8000_0000 {
        u
    } else {
        u - 0x1_0000_0000
    }
}

/// The unsigned 32-bit word that carries a signed value on the wire.
pub open spec fn as_unsigned_32(t: int) -> int {
    if t >= 0 {
        t
    } else {
        t + 0x1_0000_0000
    }
}

pub fn le_u32(b0: u8, b1: u8, b2: u8, b3: u8) -> (u: u32)
    ensures
        u == le_u32_val(b0, b1, b2, b3),
{
    b0 as u32 + 0x100 * (b1 as u32) + 0x1_0000 * (b2 as u32) + 0x100_0000 * (b3 as u32)
}

pub fn le_i32(b0: u8, b1: u8, b2: u8, b3: u8) -> (t: i32)
    ensures
        t == as_signed_32(le_u32_val(b0, b1, b2, b3)),
{
    let u = le_u32(b0, b1, b2, b3);
    if u < 0x8000_0000 {
        u as i32
    } else {
        ((u - 0x8000_0000) as i32) + i32::MIN
    }
}

/// The unsigned 32-bit word for a signed value.
pub fn u32_of_i32(t: i32) -> (u: u32)
    ensures
        u == as_unsigned_32(t as int),
{
    if t >= 0 {
        t as u32
    } else {
        ((t - i32::MIN) as u32) + 0x8000_0000
    }
}

/// Appends the four little-endian bytes of `u` to `out`.
pub fn push_le_u32(out: &mut Vec<u8>, u: u32)
    ensures
        final(out)@ =~= old(out)@ + le_u32_bytes(u as int),
{
    out.push((u % 0x100) as u8);
    out.push(((u / 0x100) % 0x100) as u8);
    out.push(((u / 0x1_0000) % 0x100) as u8);
    out.push(((u / 0x100_0000) % 0x100) as u8);
}

/// The lowest little-endian byte of an unsigned 32-bit value.
pub open spec fn le_byte_0(u: int) -> u8 {
    (u % 0x100) as u8
}

/// The second little-endian byte of an unsigned 32-bit value.
pub open spec fn le_byte_1(u: int) -> u8 {
    ((u / 0x100) % 0x100) as u8
}

/// The third little-endian byte of an unsigned 32-bit value.
pub open spec fn le_byte_2(u: int) -> u8 {
    ((u / 0x1_0000) % 0x100) as u8
}

/// The highest little-endian byte of an unsigned 32-bit value.
pub open spec fn le_byte_3(u: int) -> u8 {
    ((u / 0x100_0000) % 0x100) as u8
}

/// The four little-endian bytes of an unsigned 32-bit value.
pub open spec fn le_u32_bytes(u: int) -> Seq<u8> {
    seq![le_byte_0(u), le_byte_1(u), le_byte_2(u), le_byte_3(u)]
}

/// Reading four little-endian bytes undoes writing a 32-bit value as bytes,
/// and writing the bytes of a value read undoes the read.
pub proof fn lemma_le_u32_roundtrip(u: int)
    requires
        0 <= u < 0x1_0000_0000,
    ensures
        le_u32_val(le_byte_0(u), le_byte_1(u), le_byte_2(u), le_byte_3(u)) == u,
{
    assert(u == 0x100 * (u / 0x100) + u % 0x100) by {
        vstd::arithmetic::div_mod::lemma_fundamental_div_mod(u, 0x100);
    }
    assert(u / 0x100 == 0x100 * (u / 0x1_0000) + (u / 0x100) % 0x100) by {
        vstd::arithmetic::div_mod::lemma_fundamental_div_mod(u / 0x100, 0x100);
        assert(u / 0x100 / 0x100 == u / 0x1_0000) by {
            vstd::arithmetic::div_mod::lemma_div_denominator(u, 0x100, 0x100);
        }
    }
    assert(u / 0x1_0000 == 0x100 * (u / 0x100_0000) + (u / 0x1_0000) % 0x100) by {
        vstd::arithmetic::div_mod::lemma_fundamental_div_mod(u / 0x1_0000, 0x100);
        assert(u / 0x1_0000 / 0x100 == u / 0x100_0000) by {
            vstd::arithmetic::div_mod::lemma_div_denominator(u, 0x1_0000, 0x100);
        }
    }
    assert((u / 0x100_0000) % 0x100 == u / 0x100_0000) by {
        assert(u / 0x100_0000 < 0x100) by {
            vstd::arithmetic::div_mod::lemma_div_is_ordered(u, 0xFFFF_FFFF, 0x100_0000);
        }
        vstd::arithmetic::div_mod::lemma_div_pos_is_pos(u, 0x100_0000);
        vstd::arithmetic::div_mod::lemma_small_mod((u / 0x100_0000) as nat, 0x100);
    }
}

/// Writing four bytes and reading them back yields each byte unchanged.
pub proof fn lemma_le_u32_bytes_of_val(b0: u8, b1: u8, b2: u8, b3: u8)
    ensures
        le_u32_bytes(le_u32_val(b0, b1, b2, b3)) =~= seq![b0, b1, b2, b3],
{
    let u = le_u32_val(b0, b1, b2, b3);
    assert(u % 0x100 == b0 as int) by {
        vstd::arithmetic::div_mod::lemma_mod_multiples_vanish(
            b1 + 0x100 * b2 + 0x1_0000 * b3,
            b0 as int,
            0x100,
        );
    }
    assert(u / 0x100 == b1 + 0x100 * b2 + 0x1_0000 * b3) by {
        vstd::arithmetic::div_mod::lemma_div_multiples_vanish_fancy(
            b1 + 0x100 * b2 + 0x1_0000 * b3,
            b0 as int,
            0x100,
        );
    }
    assert((u / 0x100) % 0x100 == b1 as int) by {
        vstd::arithmetic::div_mod::lemma_mod_multiples_vanish(b2 + 0x100 * b3, b1 as int, 0x100);
    }
    assert(u / 0x100 / 0x100 == b2 + 0x100 * b3) by {
        vstd::arithmetic::div_mod::lemma_div_multiples_vanish_fancy(
            b2 + 0x100 * b3,
            b1 as int,
            0x100,
        );
    }
    assert(u / 0x1_0000 == b2 + 0x100 * b3) by {
        vstd::arithmetic::div_mod::lemma_div_denominator(u, 0x100, 0x100);
    }
    assert((u / 0x1_0000) % 0x100 == b2 as int) by {
        vstd::arithmetic::div_mod::lemma_mod_multiples_vanish(b3 as int, b2 as int, 0x100);
    }
    assert(u / 0x1_0000 / 0x100 == b3 as int) by {
        vstd::arithmetic::div_mod::lemma_div_multiples_vanish_fancy(b3 as int, b2 as int, 0x100);
    }
    assert(u / 0x100_0000 == b3 as int) by {
        vstd::arithmetic::div_mod::lemma_div_denominator(u, 0x1_0000, 0x100);
    }
}

} // verus!
