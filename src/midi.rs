//! MIDI messages emitted by the engine and the channel rules that pick their status byte.
use vstd::prelude::*;

verus! {

/// Control-change status on the base channel.
pub const BASE_CHANNEL: u8 = 0xB0;
/// Status used for knobs whose FX button is held.
pub const FX_HOLD_CHANNEL: u8 = 0xB2;
/// Inbound status whose value drives an LED slot directly.
pub const LED_CHANNEL: u8 = 0xB2;
/// Press velocity of a pulse.
pub const VELOCITY_ON: u8 = 127;
/// Release velocity of a pulse.
pub const VELOCITY_OFF: u8 = 0;
/// Held at least this long (with shift on), a release is a long press.
pub const LONG_PRESS_MS: u64 = 800;
/// Added to a control's code for a long press.
pub const LONG_PRESS_OFFSET: u8 = 32;

/// One three-byte MIDI message.
#[derive(Clone, Copy, Debug, PartialEq, Eq, Structural)]
pub struct MidiEvent {
    pub status: u8,
    pub data1: u8,
    pub data2: u8,
}

impl MidiEvent {
    /// The wire bytes of the message.
    pub fn to_bytes(&self) -> (r: [u8; 3])
        ensures
            r@ == seq![self.status, self.data1, self.data2],
    {
        let r = [self.status, self.data1, self.data2];
        assert(r@ =~= seq![self.status, self.data1, self.data2]);
        r
    }
}

pub open spec fn cc(status: u8, code: u8, value: u8) -> MidiEvent {
    MidiEvent { status, data1: code, data2: value }
}

/// Base status shifted by one channel while shift is active.
pub open spec fn shifted_status(shift: bool) -> u8 {
    if shift {
        (BASE_CHANNEL + 1) as u8
    } else {
        BASE_CHANNEL
    }
}

pub fn shifted_channel(shift: bool) -> (r: u8)
    ensures
        r == shifted_status(shift),
{
    if shift {
        BASE_CHANNEL + 1
    } else {
        BASE_CHANNEL
    }
}

/// Position in the FX-hold mask of a button code: the FX units' play and
/// three effect buttons (codes 8..=15) each own one bit.
pub open spec fn fx_slot(code: u8) -> Option<u8> {
    if code == 8 {
        Some(0u8)
    } else if code == 10 {
        Some(1u8)
    } else if code == 12 {
        Some(2u8)
    } else if code == 14 {
        Some(3u8)
    } else if code == 9 {
        Some(4u8)
    } else if code == 11 {
        Some(5u8)
    } else if code == 13 {
        Some(6u8)
    } else if code == 15 {
        Some(7u8)
    } else {
        None
    }
}

/// The mask bit of a button code, if it is an FX-hold button.
pub open spec fn fx_hold_bit_spec(code: u8) -> Option<u8> {
    match fx_slot(code) {
        Some(s) => Some((1u8 << s) as u8),
        None => None,
    }
}

/// The mask bit of an FX-hold button code.
pub fn fx_hold_bit(code: u8) -> (r: Option<u8>)
    ensures
        r == fx_hold_bit_spec(code),
{
    if code == 8 {
        Some(1u8 << 0u8)
    } else if code == 10 {
        Some(1u8 << 1u8)
    } else if code == 12 {
        Some(1u8 << 2u8)
    } else if code == 14 {
        Some(1u8 << 3u8)
    } else if code == 9 {
        Some(1u8 << 4u8)
    } else if code == 11 {
        Some(1u8 << 5u8)
    } else if code == 13 {
        Some(1u8 << 6u8)
    } else if code == 15 {
        Some(1u8 << 7u8)
    } else {
        None
    }
}

/// A knob with code `k` (0..=7) belongs to the FX-hold button with code `k + 8`;
/// it is rerouted while that button's bit is set in `mask`.
pub open spec fn knob_fx_held(mask: u8, code: u8) -> bool {
    code < 8 && match fx_hold_bit_spec((code + 8) as u8) {
        Some(b) => mask & b != 0,
        None => false,
    }
}

/// Exec form of `knob_fx_held`.
pub fn fx_alt_cc_for_knob(mask: u8, code: u8) -> (r: bool)
    ensures
        r == knob_fx_held(mask, code),
{
    if code >= 8 {
        return false;
    }
    match fx_hold_bit(code + 8) {
        Some(b) => mask & b != 0,
        None => false,
    }
}

/// Status of a knob event: the FX-hold channel while its FX button is held,
/// else the shift-modulated base channel.
pub open spec fn knob_status(mask: u8, shift: bool, code: u8) -> u8 {
    if knob_fx_held(mask, code) {
        FX_HOLD_CHANNEL
    } else {
        shifted_status(shift)
    }
}

/// Code sent for a release: shifted up by the long-press offset (saturating) when long.
pub open spec fn release_code(code: u8, long: bool) -> u8 {
    if long {
        if code as int + LONG_PRESS_OFFSET as int > 255 {
            255u8
        } else {
            (code + LONG_PRESS_OFFSET) as u8
        }
    } else {
        code
    }
}

pub fn long_press_cc(code: u8, long: bool) -> (r: u8)
    ensures
        r == release_code(code, long),
{
    if long {
        code.saturating_add(LONG_PRESS_OFFSET)
    } else {
        code
    }
}

} // verus!
