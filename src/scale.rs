//! Knob scaling onto the 7-bit MIDI range and encoder direction.
use vstd::prelude::*;

verus! {

/// `num / den` rounded to the nearest integer (halves upward), for `num >= 0`, `den > 0`.
pub open spec fn round_ratio(num: int, den: int) -> int {
    (2 * num + den) / (2 * den)
}

/// A 4-bit knob reading (the low half of `v`) scaled to 0..=127:
/// round(v / 15 * 127).
pub open spec fn knob4_spec(v: u8) -> int {
    round_ratio((v as int % 16) * 127, 15)
}

/// A 12-bit knob reading (`hi`'s low half above the byte `lo`) scaled to
/// 0..=127: round(combined / 4095 * 127).
pub open spec fn knob12_spec(lo: u8, hi: u8) -> int {
    round_ratio(((hi as int % 16) * 256 + lo as int) * 127, 4095)
}

/// The value-based knob rule: the 4-bit form when the two byte values are
/// equal, else the 12-bit form.
pub open spec fn knob_scale(i: u8, j: u8) -> int {
    if i == j {
        knob4_spec(i)
    } else {
        knob12_spec(i, j)
    }
}

/// Scales a single-byte knob's 4-bit reading to 0..=127.
pub fn knob_4bit(v: u8) -> (r: u8)
    ensures
        r as int == knob4_spec(v),
        r <= 127,
{
    let n: u32 = (v & 0x0F) as u32;
    assert(v & 0x0F == v % 16) by (bit_vector);
    let r: u32 = (n * 254 + 15) / 30;
    assert(r <= 127);
    r as u8
}

/// Scales a two-byte knob's 12-bit reading to 0..=127.
pub fn knob_12bit(lo: u8, hi: u8) -> (r: u8)
    ensures
        r as int == knob12_spec(lo, hi),
        r <= 127,
{
    let combined: u32 = ((((hi & 0x0F) as u16) << 8u16) | (lo as u16)) as u32;
    assert(((((hi & 0x0F) as u16) << 8u16) | (lo as u16)) == (hi % 16) as u16 * 256 + lo as u16)
        by (bit_vector);
    let scaled: u32 = (combined * 254 + 4095) / 8190;
    assert(scaled <= 127);
    scaled as u8
}

/// Scales a raw pair of knob bytes to 0..=127, choosing the form by their
/// values (see `knob_scale`).
pub fn knob_to_midi(i: u8, j: u8) -> (r: u8)
    ensures
        r as int == knob_scale(i, j),
        r <= 127,
{
    if i == j {
        knob_4bit(i)
    } else {
        knob_12bit(i, j)
    }
}

/// The velocity that an encoder move from `prev` to `curr` (both 0..=15) reports:
/// 1 for a clockwise step, 127 for a counter-clockwise one, where 15 -> 0 and
/// 0 -> 15 are the wrap-around steps.
pub open spec fn encoder_velocity_spec(prev: u8, curr: u8) -> u8 {
    if prev == 15 && curr == 0 {
        1
    } else if prev == 0 && curr == 15 {
        127
    } else if curr > prev {
        1
    } else {
        127
    }
}

/// Direction of an encoder move, as a MIDI relative velocity.
pub fn encoder_velocity(prev: u8, curr: u8) -> (r: u8)
    ensures
        r == encoder_velocity_spec(prev, curr),
{
    if prev == 15 && curr == 0 {
        1
    } else if prev == 0 && curr == 15 {
        127
    } else if curr > prev {
        1
    } else {
        127
    }
}

} // verus!
