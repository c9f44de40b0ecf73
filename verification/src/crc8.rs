//! CRC-8 with the CCITT polynomial x^8 + x^2 + x + 1 (0x07), initial value 0,
//! no reflection and no final xor.

use vstd::prelude::*;

verus! {

/// One shift of the CRC register, feeding in a zero bit.
pub open spec fn crc8_shift(c: u8) -> u8 {
    if c & 0x80u8 != 0 {
        ((c << 1u8) ^ 0x07u8) as u8
    } else {
        (c << 1u8) as u8
    }
}

/// The register after `n` shifts starting from `c`.
pub open spec fn crc8_shifts(c: u8, n: nat) -> u8
    decreases n,
{
    if n == 0 {
        c
    } else {
        crc8_shift(crc8_shifts(c, (n - 1) as nat))
    }
}

/// The register after absorbing one byte.
pub open spec fn crc8_update(crc: u8, b: u8) -> u8 {
    crc8_shifts(crc ^ b, 8)
}

/// CRC-8/CCITT of a byte sequence.
pub open spec fn crc8(data: Seq<u8>) -> u8
    decreases data.len(),
{
    if data.len() == 0 {
        0
    } else {
        crc8_update(crc8(data.drop_last()), data.last())
    }
}

/// A buffer is valid when it is at least two bytes long and its last byte is
/// the CRC of all the bytes before it.
pub open spec fn crc8_valid(data: Seq<u8>) -> bool {
    &&& data.len() >= 2
    &&& crc8(data.drop_last()) == data.last()
}

fn crc8_update_exec(crc: u8, b: u8) -> (r: u8)
    ensures
        r == crc8_update(crc, b),
{
    let mut c: u8 = crc ^ b;
    let mut i: u8 = 0;
    while i < 8
        invariant
            i <= 8,
            c == crc8_shifts(crc ^ b, i as nat),
        decreases 8 - i,
    {
        if c & 0x80 != 0 {
            c = (c << 1u8) ^ 0x07;
        } else {
            c = c << 1u8;
        }
        i = i + 1;
    }
    c
}

/// CRC-8/CCITT over the whole of `data`.
pub fn crc8_ccitt_buffer(data: &[u8]) -> (crc: u8)
    ensures
        crc == crc8(data@),
{
    let mut crc: u8 = 0;
    let mut i: usize = 0;
    while i < data.len()
        invariant
            i <= data@.len(),
            crc == crc8(data@.take(i as int)),
        decreases data@.len() - i,
    {
        proof {
            assert(data@.take(i + 1).drop_last() =~= data@.take(i as int));
        }
        crc = crc8_update_exec(crc, data[i]);
        i = i + 1;
    }
    proof {
        assert(data@.take(data@.len() as int) =~= data@);
    }
    crc
}

/// Whether the last byte of `data` is the CRC of the bytes before it
/// (false for buffers shorter than two bytes).
pub fn crc8_ccitt_validate(data: &[u8]) -> (ok: bool)
    ensures
        ok == crc8_valid(data@),
{
    if data.len() < 2 {
        return false;
    }
    let body = &data[0..data.len() - 1];
    proof {
        assert(body@ =~= data@.drop_last());
    }
    crc8_ccitt_buffer(body) == data[data.len() - 1]
}

/// Appending the CRC of a buffer makes the buffer valid.
pub proof fn lemma_crc8_append_valid(data: Seq<u8>)
    requires
        data.len() >= 1,
    ensures
        crc8_valid(data.push(crc8(data))),
{
    assert(data.push(crc8(data)).drop_last() =~= data);
}

/// One shift of the register loses no information: distinct registers stay
/// distinct.
proof fn lemma_shift_injective(x: u8, y: u8)
    requires
        x != y,
    ensures
        crc8_shift(x) != crc8_shift(y),
{
    assert(x != y ==> (if x & 0x80u8 != 0 {
        ((x << 1u8) ^ 0x07u8) as u8
    } else {
        (x << 1u8) as u8
    }) != (if y & 0x80u8 != 0 {
        ((y << 1u8) ^ 0x07u8) as u8
    } else {
        (y << 1u8) as u8
    })) by (bit_vector);
}

proof fn lemma_shifts_injective(x: u8, y: u8, n: nat)
    requires
        x != y,
    ensures
        crc8_shifts(x, n) != crc8_shifts(y, n),
    decreases n,
{
    if n > 0 {
        lemma_shifts_injective(x, y, (n - 1) as nat);
        lemma_shift_injective(crc8_shifts(x, (n - 1) as nat), crc8_shifts(y, (n - 1) as nat));
    }
}

/// Absorbing the same byte into two different registers, or two different
/// bytes into the same register, gives different registers.
proof fn lemma_update_injective(c1: u8, b1: u8, c2: u8, b2: u8)
    requires
        c1 == c2 && b1 != b2 || c1 != c2 && b1 == b2,
    ensures
        crc8_update(c1, b1) != crc8_update(c2, b2),
{
    assert(c1 == c2 && b1 != b2 || c1 != c2 && b1 == b2 ==> c1 ^ b1 != c2 ^ b2) by (bit_vector);
    lemma_shifts_injective(c1 ^ b1, c2 ^ b2, 8);
}

/// The CRC detects every change of a single byte, and so every single-bit
/// error: replacing the byte at `i` by any other value changes the CRC.
pub proof fn lemma_crc8_detects_byte_change(data: Seq<u8>, i: int, v: u8)
    requires
        0 <= i < data.len(),
        v != data[i],
    ensures
        crc8(data.update(i, v)) != crc8(data),
    decreases data.len(),
{
    let d2 = data.update(i, v);
    if i == data.len() - 1 {
        assert(d2.drop_last() =~= data.drop_last());
        lemma_update_injective(crc8(data.drop_last()), d2.last(), crc8(data.drop_last()), data.last());
    } else {
        assert(d2.drop_last() =~= data.drop_last().update(i, v));
        lemma_crc8_detects_byte_change(data.drop_last(), i, v);
        lemma_update_injective(crc8(d2.drop_last()), d2.last(), crc8(data.drop_last()), data.last());
    }
}

} // verus!
