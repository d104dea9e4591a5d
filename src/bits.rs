//! Bit and nibble extraction from raw report bytes.
use vstd::prelude::*;

verus! {

/// Bit `i` (0 = least significant) of `byte`.
pub open spec fn bit_at(byte: u8, i: int) -> bool {
    (byte as int / vstd::arithmetic::power2::pow2(i as nat) as int) % 2 == 1
}

/// The 4-bit value held in the low (`high == false`) or high half of `byte`.
pub open spec fn nibble_of(byte: u8, high: bool) -> int {
    if high {
        byte as int / 16
    } else {
        byte as int % 16
    }
}

/// Exec form of `bit_at` for a bit position below eight.
pub fn bit_set(byte: u8, i: u8) -> (r: bool)
    requires
        i < 8,
    ensures
        r == bit_at(byte, i as int),
{
    proof {
        lemma_shift_is_div(byte, i);
    }
    ((byte >> i) & 1) != 0
}

proof fn lemma_shift_is_div(byte: u8, i: u8)
    requires
        i < 8,
    ensures
        ((byte >> i) & 1 != 0) == bit_at(byte, i as int),
        (byte >> i) as int == byte as int / vstd::arithmetic::power2::pow2(i as nat) as int,
{
    vstd::bits::lemma_u8_shr_is_div(byte, i);
    let s = byte >> i;
    assert((s & 1) == s % 2) by (bit_vector);
}

/// Splits `hex` into its eight bits, least significant first.
pub fn hex2bool(hex: u8, bin: &mut [bool; 8])
    ensures
        forall|i: int| 0 <= i < 8 ==> final(bin)@[i] == bit_at(hex, i),
{
    let mut i: u8 = 0;
    while i < 8
        invariant
            i <= 8,
            forall|k: int| 0 <= k < i ==> bin@[k] == bit_at(hex, k),
        decreases 8 - i,
    {
        bin[i as usize] = bit_set(hex, i);
        i = i + 1;
    }
}

/// Splits `hex` into its eight bits as 0/1 bytes, least significant first.
pub fn hex2bin(hex: u8, bin: &mut [u8; 8])
    ensures
        forall|i: int| 0 <= i < 8 ==> final(bin)@[i] == (if bit_at(hex, i) { 1u8 } else { 0u8 }),
{
    let mut i: u8 = 0;
    while i < 8
        invariant
            i <= 8,
            forall|k: int| 0 <= k < i ==> bin@[k] == (if bit_at(hex, k) { 1u8 } else { 0u8 }),
        decreases 8 - i,
    {
        bin[i as usize] = if bit_set(hex, i) { 1 } else { 0 };
        i = i + 1;
    }
}

/// The low or high 4-bit half of `byte`.
pub fn nibble(byte: u8, high: bool) -> (r: u8)
    ensures
        r as int == nibble_of(byte, high),
        r < 16,
{
    if high {
        byte / 16
    } else {
        byte % 16
    }
}

} // verus!
