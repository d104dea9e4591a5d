//! Properties of the decoder and the LED synchronizer, proved over their specifications.
use vstd::prelude::*;
use crate::bits::{bit_at, nibble_of};
use crate::board::{button_of, desc_wf, is_button, Control, ControlDescriptor, ControlRole, NibbleSelect, FRAME_LEN};
use crate::engine::{
    level_pass, pulse_events, next_quiet, start_pass, button_pass, button_skipped, button_step, debounce_needed, decode_spec, level_step,
    release_effects, role_status, sends_at_once, ControlState, EngineModel, Pass,
    FAST_DEBOUNCE_BYTE, FIRST_BUTTON_BYTE, CROSSTALK_BYTE, elapsed_since,
};
use crate::leds::{
    feature_fallbacks, write_payloads, zeros, LedConfig, LedView, BANK_80, BANK_81, BANK80_LEN,
    BANK81_LEN, LEGACY_LEN,
};
use crate::midi::{cc, fx_hold_bit_spec, release_code, MidiEvent, BASE_CHANNEL, LONG_PRESS_MS, LONG_PRESS_OFFSET, VELOCITY_OFF, VELOCITY_ON};
use crate::sync::{midi_led_target, startup_continues, startup_leds_spec};

verus! {

/// The first frame after construction never produces an event, whatever its bits.
pub proof fn first_frame_is_silent(cs: Seq<Control>, bank: u8, m: EngineModel, f: Seq<u8>, now: u64)
    requires
        !m.initialized,
    ensures
        decode_spec(cs, bank, m, f, now).1.len() == 0,
        !decode_spec(cs, bank, m, f, now).2,
        decode_spec(cs, bank, m, f, now).0.initialized,
{
}

/// A settled button whose raw bit flips fires on the first read of the new bit
/// when it sits at byte 19 or above. Below byte 19 the first and second reads
/// change nothing the frame reports (no event, no latch, no consumed byte) and
/// the third identical read fires.
pub proof fn debounce_needs_stable_reads(
    d: ControlDescriptor,
    role: ControlRole,
    s: ControlState,
    f: Seq<u8>,
    now1: u64,
    now2: u64,
    now3: u64,
    quiet: u8,
    p: Pass,
)
    requires
        is_button(d),
        desc_wf(d),
        f.len() == FRAME_LEN,
        !button_skipped(d, p.hotcue, quiet),
        s.pressed == s.previous,
        bit_at(f[button_of(d).byte_i as int], button_of(d).bit_j as int) != s.pressed,
    ensures
        ({
            let (s1, pa) = button_step(d, role, s, f, now1, quiet, p);
            let (s2, pb) = button_step(d, role, s1, f, now2, quiet, pa);
            let (s3, pc) = button_step(d, role, s2, f, now3, quiet, pb);
            if button_of(d).byte_i >= FAST_DEBOUNCE_BYTE {
                s1.previous != s.previous
            } else {
                &&& pa == p && s1.previous == s.previous
                &&& pb == p && s2.previous == s.previous
                &&& s3.previous != s.previous
            }
        }),
{
}

/// Every accepted transition comes after the required number of stable reads:
/// the debounce count (reads since the raw bit last changed) reaches the
/// threshold of the control's byte.
pub proof fn transitions_are_debounced(
    d: ControlDescriptor,
    role: ControlRole,
    s: ControlState,
    f: Seq<u8>,
    now: u64,
    quiet: u8,
    p: Pass,
)
    requires
        is_button(d),
    ensures
        ({
            let (s1, pa) = button_step(d, role, s, f, now, quiet, p);
            let b = button_of(d);
            let bit = bit_at(f[b.byte_i as int], b.bit_j as int);
            let count = if bit != s.pressed {
                1
            } else if s.debounce_count < 3 {
                s.debounce_count + 1
            } else {
                s.debounce_count as int
            };
            s1.previous != s.previous ==> count >= debounce_needed(b.byte_i)
        }),
{
}

/// A knob or encoder fed the same bytes twice sends at most once: the second
/// read of identical bytes emits nothing and changes nothing.
pub proof fn stable_input_sends_once(d: ControlDescriptor, s: ControlState, f: Seq<u8>, p: Pass, pb: Pass)
    requires
        desc_wf(d),
        f.len() == FRAME_LEN,
    ensures
        ({
            let (s1, e1) = level_step(d, s, f, p);
            let (s2, e2) = level_step(d, s1, f, pb);
            e2 is None && s2 == s1
        }),
{
}

/// What a knob or encoder reads from frame `f`.
pub open spec fn reading(d: ControlDescriptor, f: Seq<u8>) -> u8 {
    match d {
        ControlDescriptor::Knob { byte_i, byte_j, .. } => crate::engine::knob_reading(byte_i, byte_j, f),
        ControlDescriptor::Encoder { byte_i, nibble, .. } => nibble_of(f[byte_i as int], nibble == NibbleSelect::High) as u8,
        _ => 0,
    }
}

pub open spec fn is_level(d: ControlDescriptor) -> bool {
    d is Knob || d is Encoder
}

/// Every knob and encoder holds what it reads from `f`.
pub open spec fn settled(cs: Seq<Control>, ss: Seq<ControlState>, f: Seq<u8>) -> bool {
    forall|t: int| 0 <= t < cs.len() && is_level(cs[t].desc) ==> (#[trigger] ss[t]).level == reading(cs[t].desc, f)
}

proof fn lemma_button_pass_keeps_levels(cs: Seq<Control>, ss: Seq<ControlState>, f: Seq<u8>, now: u64, q: u8, pstart: Pass, k: nat)
    requires
        k <= cs.len(),
        ss.len() == cs.len(),
    ensures
        button_pass(cs, ss, f, now, q, pstart, k).0.len() == ss.len(),
        forall|t: int| 0 <= t < cs.len() && is_level(cs[t].desc) ==> #[trigger] button_pass(cs, ss, f, now, q, pstart, k).0[t] == ss[t],
    decreases k,
{
    if k > 0 {
        lemma_button_pass_keeps_levels(cs, ss, f, now, q, pstart, (k - 1) as nat);
    }
}

proof fn lemma_level_pass_settles(cs: Seq<Control>, ss: Seq<ControlState>, f: Seq<u8>, p: Pass, k: nat)
    requires
        k <= cs.len(),
        ss.len() == cs.len(),
    ensures
        level_pass(cs, ss, f, p, k).0.len() == ss.len(),
        forall|t: int| 0 <= t < k && is_level(cs[t].desc) ==> (#[trigger] level_pass(cs, ss, f, p, k).0[t]).level == reading(cs[t].desc, f),
    decreases k,
{
    if k > 0 {
        lemma_level_pass_settles(cs, ss, f, p, (k - 1) as nat);
    }
}

proof fn lemma_level_pass_quiet(cs: Seq<Control>, ss: Seq<ControlState>, f: Seq<u8>, p: Pass, k: nat)
    requires
        k <= cs.len(),
        ss.len() == cs.len(),
        settled(cs, ss, f),
    ensures
        level_pass(cs, ss, f, p, k).0 == ss,
        level_pass(cs, ss, f, p, k).1 == Seq::<MidiEvent>::empty(),
    decreases k,
{
    if k > 0 {
        lemma_level_pass_quiet(cs, ss, f, p, (k - 1) as nat);
        let t = k - 1;
        if is_level(cs[t].desc) {
            assert(ss[t].level == reading(cs[t].desc, f));
        }
        assert(ss.update(t, ss[t]) =~= ss);
        assert(Seq::<MidiEvent>::empty() + Seq::<MidiEvent>::empty() =~= Seq::<MidiEvent>::empty());
    }
}

/// Decoding the same frame twice, the second decode sends no knob or encoder
/// event: all it sends comes from buttons (their immediate events, then their
/// pulses).
pub proof fn repeated_frame_sends_only_button_events(
    cs: Seq<Control>,
    bank: u8,
    m: EngineModel,
    f: Seq<u8>,
    now1: u64,
    now2: u64,
)
    requires
        m.states.len() == cs.len(),
    ensures
        ({
            let m1 = decode_spec(cs, bank, m, f, now1).0;
            let q = next_quiet(m1.quiet, m1.previous_frame, f);
            let (ss, p) = button_pass(cs, m1.states, f, now2, q, start_pass(m1.shift, m1.hotcue, m1.fx_mask), cs.len());
            decode_spec(cs, bank, m1, f, now2).1 == p.immediate + pulse_events(p.pulses)
        }),
{
    let m1 = decode_spec(cs, bank, m, f, now1).0;
    if m.initialized {
        let q0 = next_quiet(m.quiet, m.previous_frame, f);
        let (ss0, pstart) = button_pass(cs, m.states, f, now1, q0, start_pass(m.shift, m.hotcue, m.fx_mask), cs.len());
        lemma_button_pass_keeps_levels(cs, m.states, f, now1, q0, start_pass(m.shift, m.hotcue, m.fx_mask), cs.len());
        lemma_level_pass_settles(cs, ss0, f, pstart, cs.len());
    }
    assert(settled(cs, m1.states, f));
    assert(m1.initialized);
    let q = next_quiet(m1.quiet, m1.previous_frame, f);
    let p00 = start_pass(m1.shift, m1.hotcue, m1.fx_mask);
    lemma_button_pass_keeps_levels(cs, m1.states, f, now2, q, p00, cs.len());
    let (ss, p) = button_pass(cs, m1.states, f, now2, q, p00, cs.len());
    assert(settled(cs, ss, f));
    lemma_level_pass_quiet(cs, ss, f, p, cs.len());
    assert(p.immediate + Seq::<MidiEvent>::empty() =~= p.immediate);
}

proof fn lemma_level_pass_index(cs: Seq<Control>, ss: Seq<ControlState>, f: Seq<u8>, p: Pass, k: nat)
    requires
        k <= cs.len(),
        ss.len() == cs.len(),
    ensures
        level_pass(cs, ss, f, p, k).0.len() == ss.len(),
        forall|t: int| 0 <= t < k ==> #[trigger] level_pass(cs, ss, f, p, k).0[t] == level_step(cs[t].desc, ss[t], f, p).0,
        forall|t: int| k <= t < ss.len() ==> #[trigger] level_pass(cs, ss, f, p, k).0[t] == ss[t],
    decreases k,
{
    if k > 0 {
        lemma_level_pass_index(cs, ss, f, p, (k - 1) as nat);
    }
}

proof fn lemma_button_pass_index(cs: Seq<Control>, ss: Seq<ControlState>, f: Seq<u8>, now: u64, q: u8, pstart: Pass, k: nat)
    requires
        k <= cs.len(),
        ss.len() == cs.len(),
    ensures
        button_pass(cs, ss, f, now, q, pstart, k).0.len() == ss.len(),
        forall|t: int| 0 <= t < k ==> #[trigger] button_pass(cs, ss, f, now, q, pstart, k).0[t]
            == button_step(cs[t].desc, cs[t].role, ss[t], f, now, q, button_pass(cs, ss, f, now, q, pstart, t as nat).1).0,
        forall|t: int| k <= t < ss.len() ==> #[trigger] button_pass(cs, ss, f, now, q, pstart, k).0[t] == ss[t],
    decreases k,
{
    if k > 0 {
        lemma_button_pass_index(cs, ss, f, now, q, pstart, (k - 1) as nat);
    }
}

/// The knob or encoder reads the same source bytes in `f1` and `f2`.
pub open spec fn same_source_bytes(d: ControlDescriptor, f1: Seq<u8>, f2: Seq<u8>) -> bool {
    match d {
        ControlDescriptor::Knob { byte_i, byte_j, .. } => f1[byte_i as int] == f2[byte_i as int] && f1[byte_j as int] == f2[byte_j as int],
        ControlDescriptor::Encoder { byte_i, .. } => f1[byte_i as int] == f2[byte_i as int],
        _ => false,
    }
}

/// The second of two decodes sends nothing for knob or encoder `t` when its
/// source bytes are unchanged, whatever else changed: its step in the knob and
/// encoder pass emits no event and keeps its state, so it ends the second
/// frame as it ended the first.
pub proof fn unchanged_bytes_send_nothing(
    cs: Seq<Control>,
    bank: u8,
    m: EngineModel,
    f1: Seq<u8>,
    f2: Seq<u8>,
    now1: u64,
    now2: u64,
    t: int,
)
    requires
        m.states.len() == cs.len(),
        0 <= t < cs.len(),
        is_level(cs[t].desc),
        same_source_bytes(cs[t].desc, f1, f2),
    ensures
        ({
            let m1 = decode_spec(cs, bank, m, f1, now1).0;
            let q = next_quiet(m1.quiet, m1.previous_frame, f2);
            let (ss, p) = button_pass(cs, m1.states, f2, now2, q, start_pass(m1.shift, m1.hotcue, m1.fx_mask), cs.len());
            &&& level_step(cs[t].desc, m1.states[t], f2, p) == (m1.states[t], None::<MidiEvent>)
            &&& decode_spec(cs, bank, m1, f2, now2).0.states[t] == m1.states[t]
        }),
{
    let m1 = decode_spec(cs, bank, m, f1, now1).0;
    if m.initialized {
        let q0 = next_quiet(m.quiet, m.previous_frame, f1);
        let (ss0, pz) = button_pass(cs, m.states, f1, now1, q0, start_pass(m.shift, m.hotcue, m.fx_mask), cs.len());
        lemma_button_pass_keeps_levels(cs, m.states, f1, now1, q0, start_pass(m.shift, m.hotcue, m.fx_mask), cs.len());
        lemma_level_pass_settles(cs, ss0, f1, pz, cs.len());
    }
    assert(m1.states[t].level == reading(cs[t].desc, f1));
    assert(reading(cs[t].desc, f1) == reading(cs[t].desc, f2));
    let q = next_quiet(m1.quiet, m1.previous_frame, f2);
    let ps = start_pass(m1.shift, m1.hotcue, m1.fx_mask);
    lemma_button_pass_keeps_levels(cs, m1.states, f2, now2, q, ps, cs.len());
    let (ss, p) = button_pass(cs, m1.states, f2, now2, q, ps, cs.len());
    assert(ss[t] == m1.states[t]);
    lemma_level_pass_index(cs, ss, f2, p, cs.len());
}

/// A Toggle or Hold button that no mode or quiet count can skip.
pub open spec fn ungated(d: ControlDescriptor) -> bool {
    &&& (d is Toggle || d is Hold)
    &&& !button_of(d).hotcue_ignore
    &&& button_of(d).byte_i >= FIRST_BUTTON_BYTE
    &&& button_of(d).byte_i != CROSSTALK_BYTE
}

proof fn lemma_ungated_state(
    d: ControlDescriptor,
    role: ControlRole,
    s: ControlState,
    f: Seq<u8>,
    now: u64,
    q1: u8,
    q2: u8,
    pa: Pass,
    pb: Pass,
)
    requires
        ungated(d),
    ensures
        button_step(d, role, s, f, now, q1, pa).0 == button_step(d, role, s, f, now, q2, pb).0,
{
}

proof fn lemma_decode_len(cs: Seq<Control>, bank: u8, m: EngineModel, f: Seq<u8>, now: u64)
    requires
        m.states.len() == cs.len(),
    ensures
        decode_spec(cs, bank, m, f, now).0.states.len() == cs.len(),
        decode_spec(cs, bank, m, f, now).0.initialized,
{
    if m.initialized {
        let q = next_quiet(m.quiet, m.previous_frame, f);
        let ps = start_pass(m.shift, m.hotcue, m.fx_mask);
        lemma_button_pass_index(cs, m.states, f, now, q, ps, cs.len());
        let (ss, p) = button_pass(cs, m.states, f, now, q, ps, cs.len());
        lemma_level_pass_index(cs, ss, f, p, cs.len());
    }
}

proof fn lemma_decode_button_state(cs: Seq<Control>, bank: u8, m: EngineModel, f: Seq<u8>, now: u64, j: int)
    requires
        m.initialized,
        m.states.len() == cs.len(),
        0 <= j < cs.len(),
        ungated(cs[j].desc),
    ensures
        decode_spec(cs, bank, m, f, now).0.states[j]
            == button_step(cs[j].desc, cs[j].role, m.states[j], f, now, 0, start_pass(false, false, 0)).0,
{
    let q = next_quiet(m.quiet, m.previous_frame, f);
    let ps = start_pass(m.shift, m.hotcue, m.fx_mask);
    lemma_button_pass_index(cs, m.states, f, now, q, ps, cs.len());
    let (ss, p) = button_pass(cs, m.states, f, now, q, ps, cs.len());
    lemma_level_pass_index(cs, ss, f, p, cs.len());
    let pj = button_pass(cs, m.states, f, now, q, ps, j as nat).1;
    lemma_ungated_state(cs[j].desc, cs[j].role, m.states[j], f, now, q, 0, pj, start_pass(false, false, 0));
}

/// Over whole decoded frames: a settled button that no mode can skip, fed the
/// same flipped bit frame after frame, latches the new state on the first
/// frame at byte 19 or above; below byte 19 it keeps its latched state on the
/// first and second frames and latches on the third.
pub proof fn decoded_frames_debounce(
    cs: Seq<Control>,
    bank: u8,
    m: EngineModel,
    f: Seq<u8>,
    now1: u64,
    now2: u64,
    now3: u64,
    j: int,
)
    requires
        m.initialized,
        m.states.len() == cs.len(),
        0 <= j < cs.len(),
        ungated(cs[j].desc),
        m.states[j].pressed == m.states[j].previous,
        bit_at(f[button_of(cs[j].desc).byte_i as int], button_of(cs[j].desc).bit_j as int) != m.states[j].pressed,
    ensures
        ({
            let m1 = decode_spec(cs, bank, m, f, now1).0;
            let m2 = decode_spec(cs, bank, m1, f, now2).0;
            let m3 = decode_spec(cs, bank, m2, f, now3).0;
            if button_of(cs[j].desc).byte_i >= FAST_DEBOUNCE_BYTE {
                m1.states[j].previous != m.states[j].previous
            } else {
                &&& m1.states[j].previous == m.states[j].previous
                &&& m2.states[j].previous == m.states[j].previous
                &&& m3.states[j].previous != m.states[j].previous
            }
        }),
{
    let m1 = decode_spec(cs, bank, m, f, now1).0;
    lemma_decode_len(cs, bank, m, f, now1);
    let m2 = decode_spec(cs, bank, m1, f, now2).0;
    lemma_decode_len(cs, bank, m1, f, now2);
    lemma_decode_button_state(cs, bank, m, f, now1, j);
    lemma_decode_button_state(cs, bank, m1, f, now2, j);
    lemma_decode_button_state(cs, bank, m2, f, now3, j);
}

proof fn lemma_immediate_grows(cs: Seq<Control>, ss: Seq<ControlState>, f: Seq<u8>, now: u64, q: u8, pstart: Pass, t: nat, k: nat)
    requires
        t <= k <= cs.len(),
    ensures
        ({
            let it = button_pass(cs, ss, f, now, q, pstart, t).1.immediate;
            let ik = button_pass(cs, ss, f, now, q, pstart, k).1.immediate;
            it.len() <= ik.len() && forall|i: int| 0 <= i < it.len() ==> ik[i] == it[i]
        }),
    decreases k,
{
    if k > t {
        lemma_immediate_grows(cs, ss, f, now, q, pstart, t, (k - 1) as nat);
    }
}

/// When a play button that no mode can skip accepts a press in a decoded
/// frame, the frame's events hold its press message on the base channel.
pub proof fn accepted_play_press_is_sent(cs: Seq<Control>, bank: u8, m: EngineModel, f: Seq<u8>, now: u64, j: int)
    requires
        m.initialized,
        m.states.len() == cs.len(),
        0 <= j < cs.len(),
        ungated(cs[j].desc),
        cs[j].desc is Hold,
        cs[j].role == ControlRole::Play,
        !m.states[j].previous,
        decode_spec(cs, bank, m, f, now).0.states[j].previous,
    ensures
        decode_spec(cs, bank, m, f, now).1.contains(cc(BASE_CHANNEL, button_of(cs[j].desc).out_code, VELOCITY_ON)),
{
    lemma_decode_button_state(cs, bank, m, f, now, j);
    let q = next_quiet(m.quiet, m.previous_frame, f);
    let ps = start_pass(m.shift, m.hotcue, m.fx_mask);
    lemma_button_pass_index(cs, m.states, f, now, q, ps, (j + 1) as nat);
    lemma_button_pass_index(cs, m.states, f, now, q, ps, j as nat);
    let pj = button_pass(cs, m.states, f, now, q, ps, j as nat).1;
    lemma_ungated_state(cs[j].desc, cs[j].role, m.states[j], f, now, q, 0, pj, start_pass(false, false, 0));
    let pk = button_pass(cs, m.states, f, now, q, ps, (j + 1) as nat).1;
    let ev = cc(BASE_CHANNEL, button_of(cs[j].desc).out_code, VELOCITY_ON);
    assert(pk.immediate == pj.immediate.push(ev));
    lemma_immediate_grows(cs, m.states, f, now, q, ps, (j + 1) as nat, cs.len());
    let (ss, p) = button_pass(cs, m.states, f, now, q, ps, cs.len());
    let i = pj.immediate.len() as int;
    assert(p.immediate[i] == ev);
    let (ss2, lev) = level_pass(cs, ss, f, p, cs.len());
    let events = decode_spec(cs, bank, m, f, now).1;
    assert(events == p.immediate + lev + pulse_events(p.pulses));
    assert(events[i] == ev);
}

proof fn lemma_pulses_grow(cs: Seq<Control>, ss: Seq<ControlState>, f: Seq<u8>, now: u64, q: u8, pstart: Pass, t: nat, k: nat)
    requires
        t <= k <= cs.len(),
    ensures
        ({
            let pt = button_pass(cs, ss, f, now, q, pstart, t).1.pulses;
            let pk = button_pass(cs, ss, f, now, q, pstart, k).1.pulses;
            pt.len() <= pk.len() && forall|i: int| 0 <= i < pt.len() ==> pk[i] == pt[i]
        }),
    decreases k,
{
    if k > t {
        lemma_pulses_grow(cs, ss, f, now, q, pstart, t, (k - 1) as nat);
    }
}

/// No Hold control with the shift role among the first `k` controls.
pub open spec fn no_shift_hold_before(cs: Seq<Control>, k: int) -> bool {
    forall|t: int| 0 <= t < k ==> !((#[trigger] cs[t]).desc is Hold && cs[t].role == ControlRole::Shift)
}

proof fn lemma_shift_kept(cs: Seq<Control>, ss: Seq<ControlState>, f: Seq<u8>, now: u64, q: u8, pstart: Pass, k: nat)
    requires
        k <= cs.len(),
        no_shift_hold_before(cs, k as int),
    ensures
        button_pass(cs, ss, f, now, q, pstart, k).1.shift == pstart.shift,
    decreases k,
{
    if k > 0 {
        assert(!(cs[k - 1].desc is Hold && cs[k - 1].role == ControlRole::Shift));
        lemma_shift_kept(cs, ss, f, now, q, pstart, (k - 1) as nat);
    }
}

proof fn lemma_pulse_events_index(ps: Seq<(u8, u8)>)
    ensures
        pulse_events(ps).len() == 2 * ps.len(),
        forall|i: int| 0 <= i < ps.len() ==> {
            &&& pulse_events(ps)[2 * i] == cc(ps[i].0, ps[i].1, VELOCITY_ON)
            &&& pulse_events(ps)[2 * i + 1] == cc(ps[i].0, ps[i].1, VELOCITY_OFF)
        },
    decreases ps.len(),
{
    if ps.len() > 0 {
        lemma_pulse_events_index(ps.drop_last());
        assert forall|i: int| 0 <= i < ps.len() implies {
            &&& pulse_events(ps)[2 * i] == cc(ps[i].0, ps[i].1, VELOCITY_ON)
            &&& pulse_events(ps)[2 * i + 1] == cc(ps[i].0, ps[i].1, VELOCITY_OFF)
        } by {
            if i < ps.len() - 1 {
                assert(ps.drop_last()[i] == ps[i]);
            }
        }
    }
}

/// Over a whole decoded frame: when a Toggle button that no mode can skip
/// accepts a release (and no shift Hold control comes before it on the board),
/// the frame's events hold its press and release pulse, on the base channel
/// shifted by the frame's starting shift state unless it is a play or shift
/// control, with the control's code plus 32 (saturating) exactly when shift is
/// active, it is not a play, cue or shift control, not an FX-hold button, and
/// it was held at least 800 ms.
pub proof fn decoded_release_code(cs: Seq<Control>, bank: u8, m: EngineModel, f: Seq<u8>, now: u64, j: int)
    requires
        m.initialized,
        m.states.len() == cs.len(),
        0 <= j < cs.len(),
        ungated(cs[j].desc),
        cs[j].desc is Toggle,
        no_shift_hold_before(cs, j),
        m.states[j].previous,
        !decode_spec(cs, bank, m, f, now).0.states[j].previous,
    ensures
        ({
            let events = decode_spec(cs, bank, m, f, now).1;
            let role = cs[j].role;
            let code = button_of(cs[j].desc).out_code;
            let elapsed = elapsed_since(m.states[j].press_started_at, now);
            let long = m.shift && role != ControlRole::Play && role != ControlRole::Cue
                && role != ControlRole::Shift && fx_hold_bit_spec(code) is None && elapsed >= LONG_PRESS_MS;
            let st = role_status(role, m.shift);
            let sent = release_code(code, long);
            exists|i: int| 0 <= i && i + 1 < events.len()
                && #[trigger] events[i] == cc(st, sent, VELOCITY_ON) && events[i + 1] == cc(st, sent, VELOCITY_OFF)
        }),
{
    lemma_decode_button_state(cs, bank, m, f, now, j);
    let q = next_quiet(m.quiet, m.previous_frame, f);
    let ps = start_pass(m.shift, m.hotcue, m.fx_mask);
    lemma_button_pass_index(cs, m.states, f, now, q, ps, (j + 1) as nat);
    lemma_button_pass_index(cs, m.states, f, now, q, ps, j as nat);
    let pj = button_pass(cs, m.states, f, now, q, ps, j as nat).1;
    lemma_shift_kept(cs, m.states, f, now, q, ps, j as nat);
    lemma_ungated_state(cs[j].desc, cs[j].role, m.states[j], f, now, q, 0, pj, start_pass(false, false, 0));
    let pk = button_pass(cs, m.states, f, now, q, ps, (j + 1) as nat).1;
    let role = cs[j].role;
    let code = button_of(cs[j].desc).out_code;
    let elapsed = elapsed_since(m.states[j].press_started_at, now);
    let long = m.shift && role != ControlRole::Play && role != ControlRole::Cue
        && role != ControlRole::Shift && fx_hold_bit_spec(code) is None && elapsed >= LONG_PRESS_MS;
    let st = role_status(role, m.shift);
    let sent = release_code(code, long);
    assert(pk.pulses == pj.pulses.push((st, sent)));
    lemma_pulses_grow(cs, m.states, f, now, q, ps, (j + 1) as nat, cs.len());
    let (ss, p) = button_pass(cs, m.states, f, now, q, ps, cs.len());
    let k = pj.pulses.len() as int;
    assert(p.pulses[k] == (st, sent));
    lemma_pulse_events_index(p.pulses);
    let (ss2, lev) = level_pass(cs, ss, f, p, cs.len());
    let events = decode_spec(cs, bank, m, f, now).1;
    assert(events == p.immediate + lev + pulse_events(p.pulses));
    let i = p.immediate.len() + lev.len() + 2 * k;
    assert(events[i] == cc(st, sent, VELOCITY_ON));
    assert(events[i + 1] == cc(st, sent, VELOCITY_OFF));
}

/// A release that sends a pulse sends the control's code plus 32 (saturating)
/// exactly when shift is active, the control is not a play, cue or shift
/// control, not an FX-hold button, and was held at least 800 ms; otherwise the
/// plain code.
pub proof fn long_press_rule(
    d: ControlDescriptor,
    role: ControlRole,
    elapsed: u64,
    p: Pass,
)
    requires
        is_button(d),
        !(d is Hold && (sends_at_once(role) || role == ControlRole::Shift)),
    ensures
        ({
            let b = button_of(d);
            let pa = release_effects(d, role, b, elapsed, p);
            let long = p.shift && role != ControlRole::Play && role != ControlRole::Cue
                && role != ControlRole::Shift && fx_hold_bit_spec(b.out_code) is None
                && elapsed >= LONG_PRESS_MS;
            &&& pa.pulses.len() == p.pulses.len() + 1
            &&& pa.pulses.last().0 == role_status(role, p.shift)
            &&& pa.pulses.last().1 as int == (if long {
                if b.out_code as int + LONG_PRESS_OFFSET as int > 255 {
                    255
                } else {
                    b.out_code as int + LONG_PRESS_OFFSET as int
                }
            } else {
                b.out_code as int
            })
        }),
{
}

/// A knob or encoder that reads a byte on which a button fired this frame
/// stores its new value but sends nothing.
pub proof fn shared_byte_is_silent(d: ControlDescriptor, s: ControlState, f: Seq<u8>, p: Pass)
    requires
        match d {
            ControlDescriptor::Knob { byte_i, byte_j, .. } => p.consumed[byte_i as int] || p.consumed[byte_j as int],
            ControlDescriptor::Encoder { byte_i, .. } => p.consumed[byte_i as int],
            _ => false,
        },
    ensures
        level_step(d, s, f, p).1 is None,
{
}

proof fn lemma_step_claims(d: ControlDescriptor, role: ControlRole, s: ControlState, f: Seq<u8>, now: u64, quiet: u8, p: Pass)
    requires
        desc_wf(d),
        p.consumed.len() == FRAME_LEN,
    ensures
        ({
            let (s1, pa) = button_step(d, role, s, f, now, quiet, p);
            &&& pa.consumed.len() == FRAME_LEN
            &&& forall|i: int| 0 <= i < FRAME_LEN && p.consumed[i] ==> pa.consumed[i]
            &&& (is_button(d) && s1.previous != s.previous) ==> pa.consumed[button_of(d).byte_i as int]
        }),
{
}

/// In the button pass, every button whose accepted transition changed its
/// latched state claims its byte, and claims are never released, so the knob
/// and encoder pass sees every byte on which a button fired this frame.
pub proof fn fired_buttons_claim_bytes(
    cs: Seq<Control>,
    ss: Seq<ControlState>,
    f: Seq<u8>,
    now: u64,
    quiet: u8,
    pstart: Pass,
    k: nat,
)
    requires
        k <= cs.len(),
        ss.len() == cs.len(),
        pstart.consumed.len() == FRAME_LEN,
        forall|t: int| 0 <= t < cs.len() ==> desc_wf(#[trigger] cs[t].desc),
    ensures
        ({
            let (ss2, p) = button_pass(cs, ss, f, now, quiet, pstart, k);
            &&& ss2.len() == ss.len()
            &&& p.consumed.len() == FRAME_LEN
            &&& forall|t: int| k <= t < ss.len() ==> ss2[t] == ss[t]
            &&& forall|i: int| 0 <= i < FRAME_LEN && pstart.consumed[i] ==> p.consumed[i]
            &&& forall|j: int|
                0 <= j < k && is_button(cs[j].desc) && (#[trigger] ss2[j]).previous != ss[j].previous
                    ==> p.consumed[button_of(cs[j].desc).byte_i as int]
        }),
    decreases k,
{
    if k > 0 {
        fired_buttons_claim_bytes(cs, ss, f, now, quiet, pstart, (k - 1) as nat);
        let (ss1, pa) = button_pass(cs, ss, f, now, quiet, pstart, (k - 1) as nat);
        lemma_step_claims(cs[k - 1].desc, cs[k - 1].role, ss1[k - 1], f, now, quiet, pa);
    }
}

/// Whether a knob or encoder reads byte `b`.
pub open spec fn reads_byte(d: ControlDescriptor, b: u8) -> bool {
    match d {
        ControlDescriptor::Knob { byte_i, byte_j, .. } => byte_i == b || byte_j == b,
        ControlDescriptor::Encoder { byte_i, .. } => byte_i == b,
        _ => false,
    }
}

/// Within one decoded frame: when button `j` fires in the button pass, every
/// knob or encoder `t` reading that button's byte sends nothing in the knob and
/// encoder pass, whatever its stored value.
pub proof fn fired_button_silences_shared_byte(
    cs: Seq<Control>,
    m: EngineModel,
    f: Seq<u8>,
    now: u64,
    j: int,
    t: int,
    s: ControlState,
)
    requires
        m.states.len() == cs.len(),
        forall|k: int| 0 <= k < cs.len() ==> desc_wf(#[trigger] cs[k].desc),
        0 <= j < cs.len(),
        is_button(cs[j].desc),
        reads_byte(cs[t].desc, button_of(cs[j].desc).byte_i),
        ({
            let q = next_quiet(m.quiet, m.previous_frame, f);
            let (ss, p) = button_pass(cs, m.states, f, now, q, start_pass(m.shift, m.hotcue, m.fx_mask), cs.len());
            ss[j].previous != m.states[j].previous
        }),
    ensures
        ({
            let q = next_quiet(m.quiet, m.previous_frame, f);
            let (ss, p) = button_pass(cs, m.states, f, now, q, start_pass(m.shift, m.hotcue, m.fx_mask), cs.len());
            level_step(cs[t].desc, s, f, p).1 is None
        }),
{
    let q = next_quiet(m.quiet, m.previous_frame, f);
    let pstart = start_pass(m.shift, m.hotcue, m.fx_mask);
    fired_buttons_claim_bytes(cs, m.states, f, now, q, pstart, cs.len());
    let (ss, p) = button_pass(cs, m.states, f, now, q, pstart, cs.len());
    assert(ss[j].previous != m.states[j].previous);
    shared_byte_is_silent(cs[t].desc, s, f, p);
}

/// Writes and the report kinds tried while clearing: every candidate output
/// report with all data bytes zero.
pub open spec fn cleared_writes() -> Seq<Seq<u8>> {
    seq![
        zeros(LEGACY_LEN as nat),
        seq![0u8] + zeros(LEGACY_LEN as nat),
        seq![1u8] + zeros(LEGACY_LEN as nat),
        seq![BANK_80] + zeros(BANK80_LEN as nat),
        seq![BANK_81] + zeros(BANK81_LEN as nat),
    ]
}

/// A clear request darkens every slot of every bank, ends the session after
/// the start-up write, and tries every candidate output report with zero data,
/// then all of them again as feature reports followed by the seven zeroed
/// feature-report fallbacks.
pub proof fn clear_darkens_and_tries_every_encoding(v: LedView, hotcue_mode: bool, cfg: LedConfig)
    requires
        v.wf(),
        cfg.clear,
    ensures
        startup_leds_spec(v, cfg).all_dark(),
        startup_leds_spec(v, cfg).wf(),
        !startup_continues(cfg),
        write_payloads(v, hotcue_mode, cfg) == cleared_writes(),
        feature_fallbacks(cfg).len() == 7,
        forall|i: int|
            0 <= i < 7 ==> {
                let r = #[trigger] feature_fallbacks(cfg)[i];
                r.len() >= 1 && forall|t: int| 1 <= t < r.len() ==> r[t] == 0u8
            },
{
    assert(write_payloads(v, hotcue_mode, cfg) =~= cleared_writes());
}

/// Inbound MIDI never sets the shift control's LED, and every slot it sets is
/// within the range addressable under the configuration.
pub proof fn inbound_spares_shift_led(cfg: LedConfig, table: Seq<Option<u8>>, shift_led: Option<u8>, msg: Seq<u8>)
    ensures
        match midi_led_target(cfg, table, shift_led, msg) {
            Some((slot, _)) => shift_led != Some(slot) && (slot as int) < crate::sync::addressable_slots(cfg),
            None => true,
        },
{
}

} // verus!
