//! The frame decoder: per-control state, debounce and edge rules for buttons,
//! scaling for knobs and direction for encoders, with the modifier latches.
use vstd::prelude::*;
use crate::bits::{bit_at, bit_set, nibble, nibble_of};
use crate::board::{
    button_of, desc_wf, is_button, Board, ButtonDesc, Control, ControlDescriptor, ControlRole,
    NibbleSelect, FRAME_LEN,
};
use crate::leds::{led_write, LedConfig, LedState, LedView, LED_BRIGHT, LED_DIM};
use crate::midi::{
    cc, fx_alt_cc_for_knob, fx_hold_bit, fx_hold_bit_spec, knob_status, long_press_cc,
    release_code, shifted_channel, shifted_status, MidiEvent, BASE_CHANNEL, FX_HOLD_CHANNEL,
    LONG_PRESS_MS, VELOCITY_OFF, VELOCITY_ON,
};
use crate::scale::{encoder_velocity, encoder_velocity_spec, knob4_spec, knob12_spec, knob_4bit, knob_12bit};

verus! {

/// Byte indices below this one carry knob and encoder noise: buttons there are ignored.
pub const FIRST_BUTTON_BYTE: u8 = 8;
/// Buttons on this byte pick up encoder cross-talk.
pub const CROSSTALK_BYTE: u8 = 23;
/// Encoder bytes whose changes gate the cross-talk byte.
pub const ENCODER_BYTE_A: usize = 17;
pub const ENCODER_BYTE_B: usize = 18;
/// Frames the encoder bytes must stay unchanged before the cross-talk byte is read.
pub const QUIET_FRAMES: u8 = 3;
/// From this byte index on, one stable read accepts a transition; below it, three.
pub const FAST_DEBOUNCE_BYTE: u8 = 19;
/// Largest debounce count.
pub const DEBOUNCE_MAX: u8 = 3;

/// The mutable record of one control. Buttons use `pressed`, `previous`,
/// `debounce_count` and `press_started_at`; knobs and encoders use `level`.
#[derive(Clone, Copy, Debug, PartialEq, Eq, Structural)]
pub struct ControlState {
    pub pressed: bool,
    pub previous: bool,
    pub debounce_count: u8,
    /// Milliseconds timestamp of the accepted press that is still held.
    pub press_started_at: Option<u64>,
    /// A knob's value (0..=127) or an encoder's position (0..=15).
    pub level: u8,
}

impl ControlState {
    pub open spec fn zero() -> ControlState {
        ControlState {
            pressed: false,
            previous: false,
            debounce_count: 0,
            press_started_at: None,
            level: 0,
        }
    }
}

/// What the button pass of a frame has decided so far.
pub struct Pass {
    pub shift: bool,
    pub hotcue: bool,
    pub fx_mask: u8,
    /// Byte indices that produced an accepted button transition this frame.
    pub consumed: Seq<bool>,
    /// Events sent at once (press and release of play, cue and hotcue Hold buttons).
    pub immediate: Seq<MidiEvent>,
    /// (status, code) of each on/off pulse sent at the end of the frame.
    pub pulses: Seq<(u8, u8)>,
    /// LED slot and level that a modifier toggle asks for.
    pub led_update: Option<(u8, u8)>,
}

pub open spec fn start_pass(shift: bool, hotcue: bool, fx_mask: u8) -> Pass {
    Pass {
        shift,
        hotcue,
        fx_mask,
        consumed: Seq::new(FRAME_LEN as nat, |i: int| false),
        immediate: Seq::empty(),
        pulses: Seq::empty(),
        led_update: None,
    }
}

/// A button is skipped in the ignored region, on the cross-talk byte while the
/// encoders are not yet quiet, as a Hotcue control outside hotcue mode, and as a
/// Toggle or Hold control marked `hotcue_ignore` inside it.
pub open spec fn button_skipped(d: ControlDescriptor, hotcue: bool, quiet: u8) -> bool {
    let b = button_of(d);
    ||| b.byte_i < FIRST_BUTTON_BYTE
    ||| (b.byte_i == CROSSTALK_BYTE && quiet < QUIET_FRAMES)
    ||| (d is Hotcue && !hotcue)
    ||| (!(d is Hotcue) && b.hotcue_ignore && hotcue)
}

/// Stable reads needed before a transition on this byte is accepted.
pub open spec fn debounce_needed(byte_i: u8) -> u8 {
    if byte_i >= FAST_DEBOUNCE_BYTE {
        1
    } else {
        3
    }
}

/// A raw bit that differs from `pressed` restarts the count at 1; one that
/// matches counts up, saturating at 3.
pub open spec fn debounced(s: ControlState, bit: bool) -> ControlState {
    if bit != s.pressed {
        ControlState { pressed: bit, debounce_count: 1, ..s }
    } else if s.debounce_count < DEBOUNCE_MAX {
        ControlState { debounce_count: (s.debounce_count + 1) as u8, ..s }
    } else {
        s
    }
}

pub open spec fn transition_accepted(s: ControlState, byte_i: u8) -> bool {
    s.pressed != s.previous && s.debounce_count >= debounce_needed(byte_i)
}

/// Play and shift controls always use the base channel; the rest follow shift.
pub open spec fn role_status(role: ControlRole, shift: bool) -> u8 {
    if role == ControlRole::Play || role == ControlRole::Shift {
        BASE_CHANNEL
    } else {
        shifted_status(shift)
    }
}

/// Hold controls with these roles send their press and release at once.
pub open spec fn sends_at_once(role: ControlRole) -> bool {
    role == ControlRole::Play || role == ControlRole::Cue || role == ControlRole::HotcueButton
}

/// Milliseconds since the recorded press, 0 if none was recorded.
pub open spec fn elapsed_since(start: Option<u64>, now: u64) -> u64 {
    match start {
        Some(t) => if now >= t {
            (now - t) as u64
        } else {
            0
        },
        None => 0,
    }
}

/// A release is long iff shift is active, the control is not a play, cue or
/// shift control, not an FX-hold button, and was held at least 800 ms.
pub open spec fn is_long_press(shift: bool, role: ControlRole, code: u8, elapsed: u64) -> bool {
    &&& shift
    &&& role != ControlRole::Play
    &&& role != ControlRole::Cue
    &&& role != ControlRole::Shift
    &&& fx_hold_bit_spec(code) is None
    &&& elapsed >= LONG_PRESS_MS
}

pub open spec fn modifier_level(on: bool) -> u8 {
    if on {
        LED_BRIGHT
    } else {
        LED_DIM
    }
}

pub open spec fn press_effects(d: ControlDescriptor, role: ControlRole, b: ButtonDesc, p: Pass) -> Pass {
    let pa = if d is Toggle && role == ControlRole::HotcueMode {
        Pass { hotcue: !p.hotcue, led_update: Some((b.led_index, modifier_level(!p.hotcue))), ..p }
    } else {
        p
    };
    let pb = match fx_hold_bit_spec(b.out_code) {
        Some(m) => if !(d is Hotcue) {
            Pass { fx_mask: pa.fx_mask | m, ..pa }
        } else {
            pa
        },
        None => pa,
    };
    if d is Hold && sends_at_once(role) {
        Pass {
            immediate: pb.immediate.push(cc(role_status(role, pb.shift), b.out_code, VELOCITY_ON)),
            ..pb
        }
    } else {
        pb
    }
}

pub open spec fn release_effects(
    d: ControlDescriptor,
    role: ControlRole,
    b: ButtonDesc,
    elapsed: u64,
    p: Pass,
) -> Pass {
    let pa = match fx_hold_bit_spec(b.out_code) {
        Some(m) => if !(d is Hotcue) {
            Pass { fx_mask: p.fx_mask & !m, ..p }
        } else {
            p
        },
        None => p,
    };
    if d is Hold && sends_at_once(role) {
        Pass {
            immediate: pa.immediate.push(cc(role_status(role, pa.shift), b.out_code, VELOCITY_OFF)),
            ..pa
        }
    } else if d is Hold && role == ControlRole::Shift {
        Pass { shift: !pa.shift, led_update: Some((b.led_index, modifier_level(!pa.shift))), ..pa }
    } else {
        let long = is_long_press(pa.shift, role, b.out_code, elapsed);
        Pass {
            pulses: pa.pulses.push((role_status(role, pa.shift), release_code(b.out_code, long))),
            ..pa
        }
    }
}

/// One button of one frame: debounce, accept, and apply the press or release.
pub open spec fn button_step(
    d: ControlDescriptor,
    role: ControlRole,
    s: ControlState,
    f: Seq<u8>,
    now: u64,
    quiet: u8,
    p: Pass,
) -> (ControlState, Pass) {
    if !is_button(d) || button_skipped(d, p.hotcue, quiet) {
        (s, p)
    } else {
        let b = button_of(d);
        let s1 = debounced(s, bit_at(f[b.byte_i as int], b.bit_j as int));
        if !transition_accepted(s1, b.byte_i) {
            (s1, p)
        } else {
            let pa = Pass { consumed: p.consumed.update(b.byte_i as int, true), ..p };
            if s1.pressed {
                (
                    ControlState { previous: true, debounce_count: 0, press_started_at: Some(now), ..s1 },
                    press_effects(d, role, b, pa),
                )
            } else {
                (
                    ControlState { previous: false, debounce_count: 0, press_started_at: None, ..s1 },
                    release_effects(d, role, b, elapsed_since(s1.press_started_at, now), pa),
                )
            }
        }
    }
}

/// Exec accumulator of the button pass.
struct Scratch {
    shift: bool,
    hotcue: bool,
    fx_mask: u8,
    consumed: Vec<bool>,
    immediate: Vec<MidiEvent>,
    pulses: Vec<(u8, u8)>,
    led_update: Option<(u8, u8)>,
}

impl View for Scratch {
    type V = Pass;

    closed spec fn view(&self) -> Pass {
        Pass {
            shift: self.shift,
            hotcue: self.hotcue,
            fx_mask: self.fx_mask,
            consumed: self.consumed@,
            immediate: self.immediate@,
            pulses: self.pulses@,
            led_update: self.led_update,
        }
    }
}

fn elapsed_ms(start: Option<u64>, now: u64) -> (r: u64)
    ensures
        r == elapsed_since(start, now),
{
    match start {
        Some(t) => if now >= t {
            now - t
        } else {
            0
        },
        None => 0,
    }
}

fn role_channel(role: ControlRole, shift: bool) -> (r: u8)
    ensures
        r == role_status(role, shift),
{
    match role {
        ControlRole::Play | ControlRole::Shift => BASE_CHANNEL,
        _ => shifted_channel(shift),
    }
}

fn modifier_led(on: bool) -> (r: u8)
    ensures
        r == modifier_level(on),
{
    if on {
        LED_BRIGHT
    } else {
        LED_DIM
    }
}

fn apply_press(d: ControlDescriptor, role: ControlRole, b: ButtonDesc, acc: &mut Scratch)
    ensures
        final(acc)@ == press_effects(d, role, b, old(acc)@),
{
    let is_hotcue_kind = match d {
        ControlDescriptor::Hotcue(_) => true,
        _ => false,
    };
    let is_toggle = match d {
        ControlDescriptor::Toggle(_) => true,
        _ => false,
    };
    let is_hold = match d {
        ControlDescriptor::Hold(_) => true,
        _ => false,
    };
    if is_toggle && role == ControlRole::HotcueMode {
        acc.hotcue = !acc.hotcue;
        acc.led_update = Some((b.led_index, modifier_led(acc.hotcue)));
    }
    if let Some(m) = fx_hold_bit(b.out_code) {
        if !is_hotcue_kind {
            acc.fx_mask = acc.fx_mask | m;
        }
    }
    if is_hold && (role == ControlRole::Play || role == ControlRole::Cue || role == ControlRole::HotcueButton) {
        let status = role_channel(role, acc.shift);
        acc.immediate.push(MidiEvent { status, data1: b.out_code, data2: VELOCITY_ON });
    }
}

fn apply_release(d: ControlDescriptor, role: ControlRole, b: ButtonDesc, elapsed: u64, acc: &mut Scratch)
    ensures
        final(acc)@ == release_effects(d, role, b, elapsed, old(acc)@),
{
    let is_hotcue_kind = match d {
        ControlDescriptor::Hotcue(_) => true,
        _ => false,
    };
    let is_hold = match d {
        ControlDescriptor::Hold(_) => true,
        _ => false,
    };
    let fx_bit = fx_hold_bit(b.out_code);
    if let Some(m) = fx_bit {
        if !is_hotcue_kind {
            acc.fx_mask = acc.fx_mask & !m;
        }
    }
    if is_hold && (role == ControlRole::Play || role == ControlRole::Cue || role == ControlRole::HotcueButton) {
        let status = role_channel(role, acc.shift);
        acc.immediate.push(MidiEvent { status, data1: b.out_code, data2: VELOCITY_OFF });
    } else if is_hold && role == ControlRole::Shift {
        acc.shift = !acc.shift;
        acc.led_update = Some((b.led_index, modifier_led(acc.shift)));
    } else {
        let long = acc.shift && role != ControlRole::Play && role != ControlRole::Cue
            && role != ControlRole::Shift && fx_bit.is_none() && elapsed >= LONG_PRESS_MS;
        let status = role_channel(role, acc.shift);
        acc.pulses.push((status, long_press_cc(b.out_code, long)));
    }
}

fn button_step_exec(
    d: ControlDescriptor,
    role: ControlRole,
    s: ControlState,
    frame: &[u8; 64],
    now: u64,
    quiet: u8,
    acc: &mut Scratch,
) -> (r: ControlState)
    requires
        desc_wf(d),
        old(acc)@.consumed.len() == FRAME_LEN,
        s.debounce_count <= DEBOUNCE_MAX,
    ensures
        (r, final(acc)@) == button_step(d, role, s, frame@, now, quiet, old(acc)@),
        final(acc)@.consumed.len() == FRAME_LEN,
        r.debounce_count <= DEBOUNCE_MAX,
{
    let (b, is_hotcue_kind) = match d {
        ControlDescriptor::Toggle(b) | ControlDescriptor::Hold(b) => (b, false),
        ControlDescriptor::Hotcue(b) => (b, true),
        _ => {
            return s;
        },
    };
    if b.byte_i < FIRST_BUTTON_BYTE || (b.byte_i == CROSSTALK_BYTE && quiet < QUIET_FRAMES)
        || (is_hotcue_kind && !acc.hotcue) || (!is_hotcue_kind && b.hotcue_ignore && acc.hotcue) {
        return s;
    }
    let bit = bit_set(frame[b.byte_i as usize], b.bit_j);
    let mut s1 = s;
    if bit != s.pressed {
        s1.pressed = bit;
        s1.debounce_count = 1;
    } else if s.debounce_count < DEBOUNCE_MAX {
        s1.debounce_count = s.debounce_count + 1;
    }
    let needed: u8 = if b.byte_i >= FAST_DEBOUNCE_BYTE { 1 } else { 3 };
    if !(s1.pressed != s1.previous && s1.debounce_count >= needed) {
        return s1;
    }
    acc.consumed.set(b.byte_i as usize, true);
    let mut s2 = s1;
    s2.previous = s1.pressed;
    s2.debounce_count = 0;
    if s1.pressed {
        s2.press_started_at = Some(now);
        apply_press(d, role, b, acc);
    } else {
        s2.press_started_at = None;
        let elapsed = elapsed_ms(s1.press_started_at, now);
        apply_release(d, role, b, elapsed, acc);
    }
    s2
}

/// A knob's value in frame `f`: a single-byte knob (both sources at the same
/// index) reads 4 bits, a two-byte knob 12 bits (see `knob4_spec`, `knob12_spec`).
pub open spec fn knob_reading(byte_i: u8, byte_j: u8, f: Seq<u8>) -> u8 {
    if byte_i == byte_j {
        knob4_spec(f[byte_i as int]) as u8
    } else {
        knob12_spec(f[byte_i as int], f[byte_j as int]) as u8
    }
}

fn knob_reading_exec(byte_i: u8, byte_j: u8, frame: &[u8; 64]) -> (r: u8)
    requires
        byte_i < FRAME_LEN,
        byte_j < FRAME_LEN,
    ensures
        r == knob_reading(byte_i, byte_j, frame@),
        r <= 127,
{
    if byte_i == byte_j {
        knob_4bit(frame[byte_i as usize])
    } else {
        knob_12bit(frame[byte_i as usize], frame[byte_j as usize])
    }
}

/// One knob or encoder of one frame, after the button pass: a changed value is
/// stored, and sent unless a button on one of its bytes fired this frame.
pub open spec fn level_step(d: ControlDescriptor, s: ControlState, f: Seq<u8>, p: Pass) -> (ControlState, Option<MidiEvent>) {
    match d {
        ControlDescriptor::Knob { byte_i, byte_j, out_code } => {
            let v = knob_reading(byte_i, byte_j, f);
            if v == s.level {
                (s, None)
            } else if p.consumed[byte_i as int] || p.consumed[byte_j as int] {
                (ControlState { level: v, ..s }, None)
            } else {
                (ControlState { level: v, ..s }, Some(cc(knob_status(p.fx_mask, p.shift, out_code), out_code, v)))
            }
        },
        ControlDescriptor::Encoder { byte_i, nibble, out_code } => {
            let pos = nibble_of(f[byte_i as int], nibble == NibbleSelect::High) as u8;
            if pos == s.level {
                (s, None)
            } else if p.consumed[byte_i as int] {
                (ControlState { level: pos, ..s }, None)
            } else {
                (
                    ControlState { level: pos, ..s },
                    Some(cc(shifted_status(p.shift), out_code, encoder_velocity_spec(s.level, pos))),
                )
            }
        },
        _ => (s, None),
    }
}

pub open spec fn opt_seq(e: Option<MidiEvent>) -> Seq<MidiEvent> {
    match e {
        Some(x) => seq![x],
        None => Seq::empty(),
    }
}

/// The button pass over the first `k` controls.
pub open spec fn button_pass(
    cs: Seq<Control>,
    ss: Seq<ControlState>,
    f: Seq<u8>,
    now: u64,
    quiet: u8,
    pstart: Pass,
    k: nat,
) -> (Seq<ControlState>, Pass)
    decreases k,
{
    if k == 0 {
        (ss, pstart)
    } else {
        let (ss1, pa) = button_pass(cs, ss, f, now, quiet, pstart, (k - 1) as nat);
        let (s2, pb) = button_step(cs[k - 1].desc, cs[k - 1].role, ss1[k - 1], f, now, quiet, pa);
        (ss1.update(k - 1, s2), pb)
    }
}

/// The knob and encoder pass over the first `k` controls.
pub open spec fn level_pass(cs: Seq<Control>, ss: Seq<ControlState>, f: Seq<u8>, p: Pass, k: nat) -> (Seq<ControlState>, Seq<MidiEvent>)
    decreases k,
{
    if k == 0 {
        (ss, Seq::empty())
    } else {
        let (ss1, ev) = level_pass(cs, ss, f, p, (k - 1) as nat);
        let (s2, e) = level_step(cs[k - 1].desc, ss1[k - 1], f, p);
        (ss1.update(k - 1, s2), ev + opt_seq(e))
    }
}

/// Each pending pulse as its press (127) then release (0) message.
pub open spec fn pulse_events(ps: Seq<(u8, u8)>) -> Seq<MidiEvent>
    decreases ps.len(),
{
    if ps.len() == 0 {
        Seq::empty()
    } else {
        let (st, code) = ps.last();
        pulse_events(ps.drop_last()) + seq![cc(st, code, VELOCITY_ON), cc(st, code, VELOCITY_OFF)]
    }
}

/// The first frame only records where each control stands.
pub open spec fn init_state(d: ControlDescriptor, s: ControlState, f: Seq<u8>) -> ControlState {
    match d {
        ControlDescriptor::Toggle(b) | ControlDescriptor::Hold(b) | ControlDescriptor::Hotcue(b) => {
            if b.byte_i < FIRST_BUTTON_BYTE {
                s
            } else {
                let bit = bit_at(f[b.byte_i as int], b.bit_j as int);
                ControlState { pressed: bit, previous: bit, ..s }
            }
        },
        ControlDescriptor::Knob { byte_i, byte_j, .. } => ControlState {
            level: knob_reading(byte_i, byte_j, f),
            ..s
        },
        ControlDescriptor::Encoder { byte_i, nibble, .. } => ControlState {
            level: nibble_of(f[byte_i as int], nibble == NibbleSelect::High) as u8,
            ..s
        },
    }
}

/// Encoder activity (a change of byte 17 or 18) restarts the quiet count; else it counts up to 3.
pub open spec fn next_quiet(q: u8, prev: Seq<u8>, f: Seq<u8>) -> u8 {
    if f[ENCODER_BYTE_A as int] != prev[ENCODER_BYTE_A as int] || f[ENCODER_BYTE_B as int] != prev[ENCODER_BYTE_B as int] {
        0
    } else if q < QUIET_FRAMES {
        (q + 1) as u8
    } else {
        q
    }
}

/// The decoding state of one connected device.
pub struct EngineModel {
    pub states: Seq<ControlState>,
    pub shift: bool,
    pub hotcue: bool,
    pub fx_mask: u8,
    pub initialized: bool,
    pub quiet: u8,
    pub previous_frame: Seq<u8>,
    pub leds: LedView,
}

/// Result of decoding frame `f` at time `now` from state `m`: the new state,
/// the events in the order they are sent, and whether an LED changed.
pub open spec fn decode_spec(cs: Seq<Control>, bank: u8, m: EngineModel, f: Seq<u8>, now: u64) -> (EngineModel, Seq<MidiEvent>, bool) {
    if !m.initialized {
        (
            EngineModel {
                states: Seq::new(cs.len(), |k: int| init_state(cs[k].desc, m.states[k], f)),
                initialized: true,
                previous_frame: f,
                ..m
            },
            Seq::empty(),
            false,
        )
    } else {
        let q = next_quiet(m.quiet, m.previous_frame, f);
        let (ss, p) = button_pass(cs, m.states, f, now, q, start_pass(m.shift, m.hotcue, m.fx_mask), cs.len());
        let (ss2, lev) = level_pass(cs, ss, f, p, cs.len());
        let leds = match p.led_update {
            Some((i, v)) => led_write(m.leds, bank, i as int, v),
            None => m.leds,
        };
        (
            EngineModel {
                states: ss2,
                shift: p.shift,
                hotcue: p.hotcue,
                fx_mask: p.fx_mask,
                initialized: true,
                quiet: q,
                previous_frame: f,
                leds,
            },
            p.immediate + lev + pulse_events(p.pulses),
            p.led_update is Some,
        )
    }
}

/// The LED slot that inbound messages for output code `code` address: that of
/// the last button (in board order) sending `code`.
pub open spec fn code_led(cs: Seq<Control>, code: u8) -> Option<u8>
    decreases cs.len(),
{
    if cs.len() == 0 {
        None
    } else if is_button(cs.last().desc) && button_of(cs.last().desc).out_code == code {
        Some(button_of(cs.last().desc).led_index)
    } else {
        code_led(cs.drop_last(), code)
    }
}

/// The LED slot of the last button with the shift role.
pub open spec fn shift_led_of(cs: Seq<Control>) -> Option<u8>
    decreases cs.len(),
{
    if cs.len() == 0 {
        None
    } else if is_button(cs.last().desc) && cs.last().role == ControlRole::Shift {
        Some(button_of(cs.last().desc).led_index)
    } else {
        shift_led_of(cs.drop_last())
    }
}

/// Every debounce count lies in 0..=3.
pub open spec fn counts_bounded(ss: Seq<ControlState>) -> bool {
    forall|t: int| 0 <= t < ss.len() ==> (#[trigger] ss[t]).debounce_count <= DEBOUNCE_MAX
}

/// The events and LED outcome of one decoded frame.
pub struct FrameOutput {
    pub events: Vec<MidiEvent>,
    pub leds_changed: bool,
}

/// Decoder and LED state for one connected device.
pub struct Engine {
    pub board: Board,
    pub states: Vec<ControlState>,
    pub shift_active: bool,
    pub hotcue_mode: bool,
    pub fx_hold_mask: u8,
    pub initialized: bool,
    pub encoder_quiet_count: u8,
    pub previous_frame: [u8; 64],
    pub leds: LedState,
    pub config: LedConfig,
    /// Output code to LED slot, for all 256 codes.
    pub led_table: Vec<Option<u8>>,
    pub shift_led: Option<u8>,
    pub test_index: u8,
    pub test_tick: u8,
}

impl Engine {
    pub open spec fn wf(&self) -> bool {
        &&& self.board.wf()
        &&& self.states@.len() == self.board.controls@.len()
        &&& self.leds@.wf()
        &&& self.led_table@.len() == 256
        &&& forall|c: int| 0 <= c < 256 ==> self.led_table@[c] == code_led(self.board.controls@, c as u8)
        &&& self.shift_led == shift_led_of(self.board.controls@)
        &&& self.test_index < 32
        &&& self.encoder_quiet_count <= QUIET_FRAMES
        &&& counts_bounded(self.states@)
    }

    pub open spec fn model(&self) -> EngineModel {
        EngineModel {
            states: self.states@,
            shift: self.shift_active,
            hotcue: self.hotcue_mode,
            fx_mask: self.fx_hold_mask,
            initialized: self.initialized,
            quiet: self.encoder_quiet_count,
            previous_frame: self.previous_frame@,
            leds: self.leds@,
        }
    }

    /// Every field but the control states is that of `other`.
    pub open spec fn same_but_states(&self, other: &Engine) -> bool {
        &&& self.same_setup(other)
        &&& self.leds == other.leds
        &&& self.shift_active == other.shift_active
        &&& self.hotcue_mode == other.hotcue_mode
        &&& self.fx_hold_mask == other.fx_hold_mask
        &&& self.initialized == other.initialized
        &&& self.encoder_quiet_count == other.encoder_quiet_count
        &&& self.previous_frame == other.previous_frame
        &&& self.test_index == other.test_index
        &&& self.test_tick == other.test_tick
    }

    /// Board, configuration and lookup tables are those of `other`.
    pub open spec fn same_setup(&self, other: &Engine) -> bool {
        &&& self.board == other.board
        &&& self.config == other.config
        &&& self.led_table == other.led_table
        &&& self.shift_led == other.shift_led
    }
}

fn level_step_exec(d: ControlDescriptor, s: ControlState, frame: &[u8; 64], acc: &Scratch) -> (r: (ControlState, Option<MidiEvent>))
    requires
        desc_wf(d),
        acc@.consumed.len() == FRAME_LEN,
    ensures
        r == level_step(d, s, frame@, acc@),
{
    match d {
        ControlDescriptor::Knob { byte_i, byte_j, out_code } => {
            let v = knob_reading_exec(byte_i, byte_j, frame);
            if v == s.level {
                (s, None)
            } else if acc.consumed[byte_i as usize] || acc.consumed[byte_j as usize] {
                (ControlState { level: v, ..s }, None)
            } else {
                let status = if fx_alt_cc_for_knob(acc.fx_mask, out_code) {
                    FX_HOLD_CHANNEL
                } else {
                    shifted_channel(acc.shift)
                };
                (ControlState { level: v, ..s }, Some(MidiEvent { status, data1: out_code, data2: v }))
            }
        },
        ControlDescriptor::Encoder { byte_i, nibble: half, out_code } => {
            let pos = nibble(frame[byte_i as usize], half == NibbleSelect::High);
            if pos == s.level {
                (s, None)
            } else if acc.consumed[byte_i as usize] {
                (ControlState { level: pos, ..s }, None)
            } else {
                let velocity = encoder_velocity(s.level, pos);
                (
                    ControlState { level: pos, ..s },
                    Some(MidiEvent { status: shifted_channel(acc.shift), data1: out_code, data2: velocity }),
                )
            }
        },
        _ => (s, None),
    }
}

fn init_state_exec(d: ControlDescriptor, s: ControlState, frame: &[u8; 64]) -> (r: ControlState)
    requires
        desc_wf(d),
    ensures
        r == init_state(d, s, frame@),
{
    match d {
        ControlDescriptor::Toggle(b) | ControlDescriptor::Hold(b) | ControlDescriptor::Hotcue(b) => {
            if b.byte_i < FIRST_BUTTON_BYTE {
                s
            } else {
                let bit = bit_set(frame[b.byte_i as usize], b.bit_j);
                ControlState { pressed: bit, previous: bit, ..s }
            }
        },
        ControlDescriptor::Knob { byte_i, byte_j, .. } => ControlState {
            level: knob_reading_exec(byte_i, byte_j, frame),
            ..s
        },
        ControlDescriptor::Encoder { byte_i, nibble: half, .. } => ControlState {
            level: nibble(frame[byte_i as usize], half == NibbleSelect::High),
            ..s
        },
    }
}

proof fn lemma_pulse_events_step(ps: Seq<(u8, u8)>, k: int)
    requires
        0 <= k < ps.len(),
    ensures
        pulse_events(ps.take(k + 1)) == pulse_events(ps.take(k)) + seq![
            cc(ps[k].0, ps[k].1, VELOCITY_ON),
            cc(ps[k].0, ps[k].1, VELOCITY_OFF),
        ],
{
    assert(ps.take(k + 1).drop_last() =~= ps.take(k));
}

proof fn lemma_code_led_step(cs: Seq<Control>, k: int, c: u8)
    requires
        0 <= k < cs.len(),
    ensures
        code_led(cs.take(k + 1), c) == (if is_button(cs[k].desc) && button_of(cs[k].desc).out_code == c {
            Some(button_of(cs[k].desc).led_index)
        } else {
            code_led(cs.take(k), c)
        }),
        shift_led_of(cs.take(k + 1)) == (if is_button(cs[k].desc) && cs[k].role == ControlRole::Shift {
            Some(button_of(cs[k].desc).led_index)
        } else {
            shift_led_of(cs.take(k))
        }),
{
    assert(cs.take(k + 1).drop_last() =~= cs.take(k));
    assert(cs.take(k + 1).last() == cs[k]);
}

impl Engine {
    /// A fresh engine for one device: no frame seen, every control at rest,
    /// modifiers off, LEDs dark but the hotcue overlay, and the lookup from
    /// output code to LED slot built from the board.
    pub fn new(board: Board, config: LedConfig) -> (r: Engine)
        requires
            board.wf(),
        ensures
            r.wf(),
            r.board == board,
            r.config == config,
            r.states@ == Seq::new(board.controls@.len(), |k: int| ControlState::zero()),
            !r.shift_active,
            !r.hotcue_mode,
            r.fx_hold_mask == 0,
            !r.initialized,
            r.encoder_quiet_count == 0,
            r.previous_frame@ == Seq::new(FRAME_LEN as nat, |i: int| 0u8),
            r.leds@ == crate::leds::led_cleared(r.leds@),
            r.leds@.hotcue == Seq::new(crate::leds::HOTCUE_LEN as nat, |i: int| crate::leds::HOTCUE_INITIAL),
            r.test_index == 0,
            r.test_tick == 0,
    {
        let n = board.controls.len();
        let mut states: Vec<ControlState> = Vec::new();
        let mut table: Vec<Option<u8>> = Vec::new();
        let mut c: usize = 0;
        while c < 256
            invariant
                c <= 256,
                table@ == Seq::new(c as nat, |i: int| None::<u8>),
            decreases 256 - c,
        {
            table.push(None);
            c = c + 1;
            assert(table@ =~= Seq::new(c as nat, |i: int| None::<u8>));
        }
        let mut shift_led: Option<u8> = None;
        let mut k: usize = 0;
        while k < n
            invariant
                n == board.controls@.len(),
                board.wf(),
                k <= n,
                states@ == Seq::new(k as nat, |t: int| ControlState::zero()),
                table@.len() == 256,
                forall|c: int| 0 <= c < 256 ==> table@[c] == code_led(board.controls@.take(k as int), c as u8),
                shift_led == shift_led_of(board.controls@.take(k as int)),
            decreases n - k,
        {
            states.push(ControlState {
                pressed: false,
                previous: false,
                debounce_count: 0,
                press_started_at: None,
                level: 0,
            });
            assert(states@ =~= Seq::new((k + 1) as nat, |t: int| ControlState::zero()));
            let d = board.controls[k].desc;
            let role = board.controls[k].role;
            proof {
                assert forall|c: int| 0 <= c < 256 implies #[trigger] code_led(board.controls@.take(k + 1), c as u8)
                    == (if is_button(d) && button_of(d).out_code == c as u8 {
                        Some(button_of(d).led_index)
                    } else {
                        code_led(board.controls@.take(k as int), c as u8)
                    }) by {
                    lemma_code_led_step(board.controls@, k as int, c as u8);
                }
                lemma_code_led_step(board.controls@, k as int, 0);
            }
            match d {
                ControlDescriptor::Toggle(b) | ControlDescriptor::Hold(b) | ControlDescriptor::Hotcue(b) => {
                    table.set(b.out_code as usize, Some(b.led_index));
                    if role == ControlRole::Shift {
                        shift_led = Some(b.led_index);
                    }
                },
                _ => {},
            }
            k = k + 1;
        }
        assert(board.controls@.take(n as int) =~= board.controls@);
        let r = Engine {
            board,
            states,
            shift_active: false,
            hotcue_mode: false,
            fx_hold_mask: 0,
            initialized: false,
            encoder_quiet_count: 0,
            previous_frame: [0u8; 64],
            leds: LedState::new(),
            config,
            led_table: table,
            shift_led,
            test_index: 0,
            test_tick: 0,
        };
        assert(r.previous_frame@ =~= Seq::new(FRAME_LEN as nat, |i: int| 0u8));
        r
    }

    /// Decodes one frame taken at `now_ms`. The first frame after construction
    /// only records where each control stands and emits nothing; later frames
    /// run the button pass, then the knob and encoder pass, and return the
    /// events in sending order (see `decode_spec`).
    pub fn decode(&mut self, frame: &[u8; 64], now_ms: u64) -> (r: FrameOutput)
        requires
            old(self).wf(),
        ensures
            final(self).wf(),
            final(self).same_setup(old(self)),
            final(self).test_index == old(self).test_index,
            final(self).test_tick == old(self).test_tick,
            (final(self).model(), r.events@, r.leds_changed) == decode_spec(
                old(self).board.controls@,
                old(self).config.bank,
                old(self).model(),
                frame@,
                now_ms,
            ),
    {
        let n = self.board.controls.len();
        if !self.initialized {
            let mut k: usize = 0;
            while k < n
                invariant
                    n == self.board.controls@.len(),
                    self.states@.len() == n,
                    old(self).states@.len() == n,
                    self.same_but_states(old(self)),
                    self.board.wf(),
                    counts_bounded(old(self).states@),
                    counts_bounded(self.states@),
                    k <= n,
                    forall|t: int| 0 <= t < k ==> self.states@[t] == init_state(
                        self.board.controls@[t].desc,
                        old(self).states@[t],
                        frame@,
                    ),
                    forall|t: int| k <= t < n ==> self.states@[t] == old(self).states@[t],
                decreases n - k,
            {
                let d = self.board.controls[k].desc;
                let s = init_state_exec(d, self.states[k], frame);
                self.states.set(k, s);
                k = k + 1;
            }
            self.initialized = true;
            self.previous_frame = *frame;
            assert(self.states@ =~= Seq::new(n as nat, |k: int| init_state(self.board.controls@[k].desc, old(self).states@[k], frame@)));
            return FrameOutput { events: Vec::new(), leds_changed: false };
        }
        let quiet: u8 = if frame[ENCODER_BYTE_A] != self.previous_frame[ENCODER_BYTE_A]
            || frame[ENCODER_BYTE_B] != self.previous_frame[ENCODER_BYTE_B] {
            0
        } else if self.encoder_quiet_count < QUIET_FRAMES {
            self.encoder_quiet_count + 1
        } else {
            self.encoder_quiet_count
        };
        let mut consumed: Vec<bool> = Vec::new();
        let mut i: usize = 0;
        while i < FRAME_LEN
            invariant
                i <= FRAME_LEN,
                consumed@ == Seq::new(i as nat, |t: int| false),
            decreases FRAME_LEN - i,
        {
            consumed.push(false);
            i = i + 1;
            assert(consumed@ =~= Seq::new(i as nat, |t: int| false));
        }
        let mut acc = Scratch {
            shift: self.shift_active,
            hotcue: self.hotcue_mode,
            fx_mask: self.fx_hold_mask,
            consumed,
            immediate: Vec::new(),
            pulses: Vec::new(),
            led_update: None,
        };
        let ghost pstart = start_pass(self.shift_active, self.hotcue_mode, self.fx_hold_mask);
        assert(acc@ == pstart);
        let mut k: usize = 0;
        while k < n
            invariant
                n == self.board.controls@.len(),
                self.same_but_states(old(self)),
                self.board.wf(),
                counts_bounded(self.states@),
                k <= n,
                (self.states@, acc@) == button_pass(self.board.controls@, old(self).states@, frame@, now_ms, quiet, pstart, k as nat),
                self.states@.len() == n,
                acc@.consumed.len() == FRAME_LEN,
            decreases n - k,
        {
            let d = self.board.controls[k].desc;
            let role = self.board.controls[k].role;
            let s = button_step_exec(d, role, self.states[k], frame, now_ms, quiet, &mut acc);
            self.states.set(k, s);
            k = k + 1;
        }
        let ghost pf = acc@;
        let ghost ss = self.states@;
        let mut events: Vec<MidiEvent> = Vec::new();
        std::mem::swap(&mut events, &mut acc.immediate);
        let ghost imm = events@;
        k = 0;
        while k < n
            invariant
                n == self.board.controls@.len(),
                self.same_but_states(old(self)),
                self.board.wf(),
                counts_bounded(self.states@),
                k <= n,
                acc.consumed@ == pf.consumed,
                acc.shift == pf.shift,
                acc.fx_mask == pf.fx_mask,
                acc.consumed@.len() == FRAME_LEN,
                (self.states@, events@) == ({
                    let (a, b) = level_pass(self.board.controls@, ss, frame@, pf, k as nat);
                    (a, imm + b)
                }),
                self.states@.len() == n,
            decreases n - k,
        {
            let d = self.board.controls[k].desc;
            let (s, e) = level_step_exec(d, self.states[k], frame, &acc);
            self.states.set(k, s);
            match e {
                Some(x) => {
                    events.push(x);
                },
                None => {},
            }
            proof {
                let (a, b) = level_pass(self.board.controls@, ss, frame@, pf, k as nat);
                assert(imm + (b + opt_seq(e)) =~= (imm + b) + opt_seq(e));
            }
            k = k + 1;
        }
        let ghost before_pulses = events@;
        let mut j: usize = 0;
        while j < acc.pulses.len()
            invariant
                j <= acc.pulses@.len(),
                acc.pulses@ == pf.pulses,
                events@ == before_pulses + pulse_events(pf.pulses.take(j as int)),
            decreases acc.pulses@.len() - j,
        {
            let (st, code) = acc.pulses[j];
            events.push(MidiEvent { status: st, data1: code, data2: VELOCITY_ON });
            events.push(MidiEvent { status: st, data1: code, data2: VELOCITY_OFF });
            proof {
                lemma_pulse_events_step(pf.pulses, j as int);
                assert(events@ =~= before_pulses + pulse_events(pf.pulses.take(j + 1)));
            }
            j = j + 1;
        }
        assert(pf.pulses.take(pf.pulses.len() as int) =~= pf.pulses);
        self.shift_active = acc.shift;
        self.hotcue_mode = acc.hotcue;
        self.fx_hold_mask = acc.fx_mask;
        self.encoder_quiet_count = quiet;
        self.previous_frame = *frame;
        let leds_changed = match acc.led_update {
            Some((idx, val)) => {
                self.leds.set_led_idx(self.config.bank, idx as usize, val);
                true
            },
            None => false,
        };
        FrameOutput { events, leds_changed }
    }
}

} // verus!
