use easy_kontrol::board::{Board, ButtonDesc, ControlDescriptor, NibbleSelect};
use easy_kontrol::engine::Engine;
use easy_kontrol::leds::LedConfig;
use easy_kontrol::midi::MidiEvent;

fn button(byte_i: u8, bit_j: u8, led_index: u8, out_code: u8) -> ButtonDesc {
    ButtonDesc { byte_i, bit_j, led_index, out_code, hotcue_ignore: false }
}

fn engine(entries: Vec<(&str, ControlDescriptor)>) -> Engine {
    let entries = entries.into_iter().map(|(n, d)| (n.to_string(), d)).collect();
    Engine::new(Board::new(entries).unwrap(), LedConfig::standard())
}

fn frame(bytes: &[(usize, u8)]) -> [u8; 64] {
    let mut f = [0u8; 64];
    for (i, v) in bytes {
        f[*i] = *v;
    }
    f
}

fn ev(status: u8, data1: u8, data2: u8) -> MidiEvent {
    MidiEvent { status, data1, data2 }
}

#[test]
fn first_frame_never_emits() {
    let mut e = engine(vec![
        ("DECK_A_BUTTON_PLAY", ControlDescriptor::Hold(button(20, 0, 1, 70))),
        ("KNOB", ControlDescriptor::Knob { byte_i: 2, byte_j: 3, out_code: 1 }),
        ("ENC", ControlDescriptor::Encoder { byte_i: 4, nibble: NibbleSelect::High, out_code: 30 }),
    ]);
    let out = e.decode(&[0xFF; 64], 0);
    assert!(out.events.is_empty());
    assert!(!out.leds_changed);
    assert!(e.initialized);
    // The stale state is recorded, so the same frame again is silent too.
    let out = e.decode(&[0xFF; 64], 10);
    assert!(out.events.is_empty());
    assert!(e.states[0].pressed && e.states[0].previous);
    assert_eq!(e.states[1].level, 127);
    assert_eq!(e.states[2].level, 15);
}

#[test]
fn toggle_scenario_press_then_release() {
    let mut e = engine(vec![("LOOP", ControlDescriptor::Toggle(button(19, 2, 4, 20)))]);
    let f0 = frame(&[]);
    let out = e.decode(&f0, 0);
    assert!(out.events.is_empty());
    assert!(!e.states[0].pressed && !e.states[0].previous);
    assert_eq!(e.states[0].debounce_count, 0);
    assert_eq!(e.states[0].press_started_at, None);
    assert!(!e.shift_active && !e.hotcue_mode);
    assert_eq!(e.fx_hold_mask, 0);

    let f1 = frame(&[(19, 0b100)]);
    let out = e.decode(&f1, 100);
    assert!(out.events.is_empty());
    assert!(e.states[0].pressed && e.states[0].previous);
    assert_eq!(e.states[0].press_started_at, Some(100));

    let out = e.decode(&f1, 150);
    assert!(out.events.is_empty());

    let out = e.decode(&f0, 200);
    assert_eq!(out.events, vec![ev(0xB0, 20, 127), ev(0xB0, 20, 0)]);
    assert_eq!(e.states[0].press_started_at, None);
}

#[test]
fn low_bytes_need_three_stable_reads() {
    let mut e = engine(vec![("DECK_A_BUTTON_PLAY", ControlDescriptor::Hold(button(10, 0, 1, 70)))]);
    e.decode(&frame(&[]), 0);
    let on = frame(&[(10, 1)]);
    assert!(e.decode(&on, 1).events.is_empty());
    assert!(e.decode(&on, 2).events.is_empty());
    assert_eq!(e.decode(&on, 3).events, vec![ev(0xB0, 70, 127)]);
    let off = frame(&[]);
    assert!(e.decode(&off, 4).events.is_empty());
    assert!(e.decode(&off, 5).events.is_empty());
    assert_eq!(e.decode(&off, 6).events, vec![ev(0xB0, 70, 0)]);
}

#[test]
fn bouncing_bit_restarts_the_count() {
    let mut e = engine(vec![("DECK_B_BUTTON_CUE", ControlDescriptor::Hold(button(12, 3, 1, 71)))]);
    e.decode(&frame(&[]), 0);
    let on = frame(&[(12, 0b1000)]);
    assert!(e.decode(&on, 1).events.is_empty());
    assert!(e.decode(&on, 2).events.is_empty());
    assert!(e.decode(&frame(&[]), 3).events.is_empty());
    assert!(e.decode(&on, 4).events.is_empty());
    assert!(e.decode(&on, 5).events.is_empty());
    assert_eq!(e.decode(&on, 6).events, vec![ev(0xB0, 71, 127)]);
}

#[test]
fn high_bytes_fire_on_first_read() {
    let mut e = engine(vec![("DECK_B_BUTTON_PLAY", ControlDescriptor::Hold(button(19, 0, 1, 72)))]);
    e.decode(&frame(&[]), 0);
    assert_eq!(e.decode(&frame(&[(19, 1)]), 1).events, vec![ev(0xB0, 72, 127)]);
    assert_eq!(e.decode(&frame(&[]), 2).events, vec![ev(0xB0, 72, 0)]);
}

#[test]
fn ignored_region_never_fires() {
    let mut e = engine(vec![("DECK_A_BUTTON_PLAY", ControlDescriptor::Hold(button(3, 0, 1, 70)))]);
    e.decode(&frame(&[]), 0);
    for t in 1..6 {
        assert!(e.decode(&frame(&[(3, 1)]), t).events.is_empty());
    }
    assert!(!e.states[0].pressed);
}

#[test]
fn crosstalk_byte_waits_for_quiet_encoders() {
    let mut e = engine(vec![("DECK_A_BUTTON_PLAY", ControlDescriptor::Hold(button(23, 0, 1, 73)))]);
    e.decode(&frame(&[]), 0);
    let on = frame(&[(23, 1)]);
    assert!(e.decode(&on, 1).events.is_empty());
    assert!(e.decode(&on, 2).events.is_empty());
    assert_eq!(e.encoder_quiet_count, 2);
    assert_eq!(e.decode(&on, 3).events, vec![ev(0xB0, 73, 127)]);
    // Encoder activity on byte 17 silences byte 23 again.
    assert!(e.decode(&frame(&[(17, 5)]), 4).events.is_empty());
    assert_eq!(e.encoder_quiet_count, 0);
    assert!(e.states[0].pressed);
}

fn shift_board() -> Engine {
    engine(vec![
        ("SHIFT", ControlDescriptor::Hold(button(20, 0, 5, 40))),
        ("LOOP", ControlDescriptor::Toggle(button(21, 1, 6, 50))),
        ("FX1_1", ControlDescriptor::Toggle(button(21, 2, 7, 10))),
        ("DECK_A_BUTTON_PLAY", ControlDescriptor::Toggle(button(21, 3, 8, 60))),
    ])
}

fn latch_shift(e: &mut Engine) {
    e.decode(&frame(&[]), 0);
    assert!(e.decode(&frame(&[(20, 1)]), 1).events.is_empty());
    let out = e.decode(&frame(&[]), 2);
    assert!(out.events.is_empty());
    assert!(out.leds_changed);
    assert!(e.shift_active);
}

#[test]
fn shift_latches_on_release_and_lights() {
    let mut e = shift_board();
    latch_shift(&mut e);
    assert_eq!(e.leds.bank80[5], 127);
    e.decode(&frame(&[(20, 1)]), 3);
    let out = e.decode(&frame(&[]), 4);
    assert!(out.events.is_empty());
    assert!(out.leds_changed);
    assert!(!e.shift_active);
    assert_eq!(e.leds.bank80[5], 0);
}

#[test]
fn long_press_adds_offset() {
    let mut e = shift_board();
    latch_shift(&mut e);
    e.decode(&frame(&[(21, 0b10)]), 100);
    let out = e.decode(&frame(&[]), 900);
    assert_eq!(out.events, vec![ev(0xB1, 82, 127), ev(0xB1, 82, 0)]);
}

#[test]
fn short_hold_keeps_code() {
    let mut e = shift_board();
    latch_shift(&mut e);
    e.decode(&frame(&[(21, 0b10)]), 100);
    let out = e.decode(&frame(&[]), 899);
    assert_eq!(out.events, vec![ev(0xB1, 50, 127), ev(0xB1, 50, 0)]);
}

#[test]
fn long_press_needs_shift() {
    let mut e = shift_board();
    e.decode(&frame(&[]), 0);
    e.decode(&frame(&[(21, 0b10)]), 100);
    let out = e.decode(&frame(&[]), 5000);
    assert_eq!(out.events, vec![ev(0xB0, 50, 127), ev(0xB0, 50, 0)]);
}

#[test]
fn long_press_skips_fx_and_play() {
    let mut e = shift_board();
    latch_shift(&mut e);
    e.decode(&frame(&[(21, 0b100)]), 100);
    assert_eq!(e.fx_hold_mask, 0b10);
    let out = e.decode(&frame(&[]), 5000);
    assert_eq!(out.events, vec![ev(0xB1, 10, 127), ev(0xB1, 10, 0)]);
    assert_eq!(e.fx_hold_mask, 0);
    e.decode(&frame(&[(21, 0b1000)]), 6000);
    let out = e.decode(&frame(&[]), 9000);
    assert_eq!(out.events, vec![ev(0xB0, 60, 127), ev(0xB0, 60, 0)]);
}

#[test]
fn knob_sharing_fired_byte_is_silent() {
    let mut e = engine(vec![
        ("SYNC", ControlDescriptor::Toggle(button(20, 7, 1, 61))),
        ("KNOB", ControlDescriptor::Knob { byte_i: 20, byte_j: 20, out_code: 1 }),
    ]);
    e.decode(&frame(&[]), 0);
    let out = e.decode(&frame(&[(20, 0x85)]), 1);
    assert!(out.events.is_empty());
    assert_eq!(e.states[1].level, 42);
    assert!(e.decode(&frame(&[(20, 0x85)]), 2).events.is_empty());
    let out = e.decode(&frame(&[(20, 0x86)]), 3);
    assert_eq!(out.events, vec![ev(0xB0, 1, 51)]);
}

#[test]
fn encoder_sharing_fired_byte_is_silent() {
    let mut e = engine(vec![
        ("SYNC", ControlDescriptor::Toggle(button(22, 7, 1, 61))),
        ("ENC", ControlDescriptor::Encoder { byte_i: 22, nibble: NibbleSelect::Low, out_code: 30 }),
    ]);
    e.decode(&frame(&[]), 0);
    assert!(e.decode(&frame(&[(22, 0x81)]), 1).events.is_empty());
    assert_eq!(e.states[1].level, 1);
    assert_eq!(e.decode(&frame(&[(22, 0x82)]), 2).events, vec![ev(0xB0, 30, 1)]);
}

#[test]
fn knob_sends_once_on_stable_input() {
    let mut e = engine(vec![("KNOB", ControlDescriptor::Knob { byte_i: 10, byte_j: 11, out_code: 2 })]);
    e.decode(&frame(&[]), 0);
    let f = frame(&[(10, 0x00), (11, 0x08)]);
    assert_eq!(e.decode(&f, 1).events, vec![ev(0xB0, 2, 64)]);
    assert!(e.decode(&f, 2).events.is_empty());
    assert!(e.decode(&f, 3).events.is_empty());
}

#[test]
fn fx_hold_reroutes_knob() {
    let mut e = engine(vec![
        ("FX1_PLAY", ControlDescriptor::Hold(button(22, 0, 1, 8))),
        ("FX1_DRYWET", ControlDescriptor::Knob { byte_i: 10, byte_j: 11, out_code: 0 }),
    ]);
    e.decode(&frame(&[]), 0);
    assert!(e.decode(&frame(&[(22, 1)]), 1).events.is_empty());
    assert_eq!(e.fx_hold_mask, 1);
    let out = e.decode(&frame(&[(22, 1), (10, 0xFF), (11, 0x0F)]), 2);
    assert_eq!(out.events, vec![ev(0xB2, 0, 127)]);
    // Release sends the FX button's own pulse and ends the rerouting.
    let out = e.decode(&frame(&[(10, 0xFF), (11, 0x0F)]), 3);
    assert_eq!(out.events, vec![ev(0xB0, 8, 127), ev(0xB0, 8, 0)]);
    assert_eq!(e.fx_hold_mask, 0);
    let out = e.decode(&frame(&[]), 4);
    assert_eq!(out.events, vec![ev(0xB0, 0, 0)]);
}

#[test]
fn encoder_wrap_directions() {
    let mut e = engine(vec![("ENC", ControlDescriptor::Encoder { byte_i: 5, nibble: NibbleSelect::Low, out_code: 30 })]);
    e.decode(&frame(&[(5, 0x0F)]), 0);
    assert_eq!(e.decode(&frame(&[(5, 0x00)]), 1).events, vec![ev(0xB0, 30, 1)]);
    assert_eq!(e.decode(&frame(&[(5, 0x0F)]), 2).events, vec![ev(0xB0, 30, 127)]);
    assert_eq!(e.decode(&frame(&[(5, 0x03)]), 3).events, vec![ev(0xB0, 30, 127)]);
    assert_eq!(e.decode(&frame(&[(5, 0x05)]), 4).events, vec![ev(0xB0, 30, 1)]);
}

#[test]
fn encoder_high_half_and_shift_channel() {
    let mut e = engine(vec![
        ("SHIFT", ControlDescriptor::Hold(button(20, 0, 5, 40))),
        ("ENC", ControlDescriptor::Encoder { byte_i: 6, nibble: NibbleSelect::High, out_code: 31 }),
    ]);
    latch_shift(&mut e);
    assert_eq!(e.decode(&frame(&[(6, 0x2F)]), 3).events, vec![ev(0xB1, 31, 1)]);
}

#[test]
fn hotcue_mode_gates_hotcue_controls() {
    let mut ignored = button(26, 0, 10, 90);
    ignored.hotcue_ignore = true;
    let mut e = engine(vec![
        ("HOTCUE", ControlDescriptor::Toggle(button(24, 0, 7, 80))),
        ("DECK_A_HOTCUE_1", ControlDescriptor::Hotcue(button(25, 0, 9, 81))),
        ("BROWSE", ControlDescriptor::Toggle(ignored)),
    ]);
    e.decode(&frame(&[]), 0);
    assert!(e.decode(&frame(&[(25, 1)]), 1).events.is_empty());
    assert!(e.decode(&frame(&[]), 2).events.is_empty());
    let out = e.decode(&frame(&[(24, 1)]), 3);
    assert!(out.events.is_empty());
    assert!(out.leds_changed);
    assert!(e.hotcue_mode);
    assert_eq!(e.decode(&frame(&[]), 4).events, vec![ev(0xB0, 80, 127), ev(0xB0, 80, 0)]);
    assert!(e.decode(&frame(&[(25, 1)]), 5).events.is_empty());
    assert_eq!(e.decode(&frame(&[]), 6).events, vec![ev(0xB0, 81, 127), ev(0xB0, 81, 0)]);
    assert!(e.decode(&frame(&[(26, 1)]), 7).events.is_empty());
    assert!(e.decode(&frame(&[]), 8).events.is_empty());
}

#[test]
fn immediate_events_precede_knobs_and_pulses() {
    let mut e = engine(vec![
        ("LOOP", ControlDescriptor::Toggle(button(21, 1, 6, 50))),
        ("DECK_A_BUTTON_CUE", ControlDescriptor::Hold(button(22, 0, 1, 74))),
        ("KNOB", ControlDescriptor::Knob { byte_i: 30, byte_j: 30, out_code: 3 }),
    ]);
    e.decode(&frame(&[]), 0);
    e.decode(&frame(&[(21, 0b10)]), 1);
    let out = e.decode(&frame(&[(22, 1), (30, 15)]), 2);
    assert_eq!(
        out.events,
        vec![ev(0xB0, 74, 127), ev(0xB0, 3, 127), ev(0xB0, 50, 127), ev(0xB0, 50, 0)]
    );
}

#[test]
fn two_byte_knob_with_equal_values_reads_twelve_bits() {
    let mut e = engine(vec![("KNOB", ControlDescriptor::Knob { byte_i: 1, byte_j: 2, out_code: 9 })]);
    e.decode(&frame(&[]), 0);
    let out = e.decode(&frame(&[(1, 5), (2, 5)]), 1);
    assert_eq!(out.events, vec![ev(0xB0, 9, 40)]);
    assert_eq!(e.states[0].level, 40);
}

#[test]
fn single_byte_knob_reads_four_bits() {
    let mut e = engine(vec![("KNOB", ControlDescriptor::Knob { byte_i: 9, byte_j: 9, out_code: 4 })]);
    e.decode(&frame(&[]), 0);
    let out = e.decode(&frame(&[(9, 0xF7)]), 1);
    assert_eq!(out.events, vec![ev(0xB0, 4, 59)]);
}

#[test]
fn knob_with_unchanged_bytes_stays_silent_while_others_move() {
    let mut e = engine(vec![
        ("KNOB", ControlDescriptor::Knob { byte_i: 10, byte_j: 11, out_code: 2 }),
        ("KNOB2", ControlDescriptor::Knob { byte_i: 12, byte_j: 12, out_code: 3 }),
    ]);
    e.decode(&frame(&[]), 0);
    assert_eq!(e.decode(&frame(&[(10, 0xFF), (11, 0x0F)]), 1).events, vec![ev(0xB0, 2, 127)]);
    let out = e.decode(&frame(&[(10, 0xFF), (11, 0x0F), (12, 15)]), 2);
    assert_eq!(out.events, vec![ev(0xB0, 3, 127)]);
    assert_eq!(e.states[0].level, 127);
}

#[test]
fn quiet_count_saturates_at_three() {
    let mut e = engine(vec![("LOOP", ControlDescriptor::Toggle(button(21, 1, 6, 50)))]);
    e.decode(&frame(&[]), 0);
    for t in 1..8 {
        e.decode(&frame(&[]), t);
        assert!(e.encoder_quiet_count <= 3);
    }
    assert_eq!(e.encoder_quiet_count, 3);
}
