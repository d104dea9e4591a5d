use easy_kontrol::board::{Board, ButtonDesc, ControlDescriptor};
use easy_kontrol::engine::Engine;
use easy_kontrol::leds::{any_succeeded, LedConfig};

fn button(byte_i: u8, bit_j: u8, led_index: u8, out_code: u8) -> ButtonDesc {
    ButtonDesc { byte_i, bit_j, led_index, out_code, hotcue_ignore: false }
}

fn engine_with(config: LedConfig) -> Engine {
    let board = Board::new(vec![
        ("SHIFT".to_string(), ControlDescriptor::Hold(button(20, 0, 5, 40))),
        ("LOOP".to_string(), ControlDescriptor::Toggle(button(21, 1, 6, 50))),
    ])
    .unwrap();
    Engine::new(board, config)
}

fn legacy_config() -> LedConfig {
    let mut c = LedConfig::standard();
    c.bank = 0;
    c.report_filter = None;
    c
}

#[test]
fn inbound_notes_and_cc_are_two_level() {
    let mut e = engine_with(LedConfig::standard());
    assert!(e.apply_midi(&[0x90, 50, 100]));
    assert_eq!(e.leds.bank80[6], 127);
    assert!(e.apply_midi(&[0x80, 50, 0]));
    assert_eq!(e.leds.bank80[6], 0);
    assert!(e.apply_midi(&[0xB0, 50, 1]));
    assert_eq!(e.leds.bank80[6], 127);
    assert!(e.apply_midi(&[0x91, 30, 3]));
    assert_eq!(e.leds.bank80[30], 127);
}

#[test]
fn led_channel_passes_value_by_index() {
    let mut e = engine_with(LedConfig::standard());
    assert!(e.apply_midi(&[0xB2, 40, 55]));
    assert_eq!(e.leds.bank80[40], 55);
    assert!(e.apply_midi(&[0xB2, 50, 9]));
    assert_eq!(e.leds.bank80[50], 9);
    assert_eq!(e.leds.bank80[6], 0);
}

#[test]
fn inbound_never_sets_shift_led() {
    let mut e = engine_with(LedConfig::standard());
    assert!(!e.apply_midi(&[0x90, 40, 127]));
    assert!(!e.apply_midi(&[0xB2, 5, 10]));
    assert_eq!(e.leds.bank80[5], 0);
}

#[test]
fn inbound_drops_bad_messages() {
    let mut e = engine_with(LedConfig::standard());
    assert!(!e.apply_midi(&[0xB2, 51, 1]));
    assert!(!e.apply_midi(&[0x90, 99, 1]));
    assert!(!e.apply_midi(&[0x90, 50]));
    assert!(!e.apply_midi(&[0xE0, 50, 1]));
    assert!(e.leds.bank80.iter().all(|v| *v == 0));
}

#[test]
fn legacy_bank_addresses_legacy_then_extension() {
    let mut e = engine_with(legacy_config());
    assert!(e.apply_midi(&[0xB2, 31, 7]));
    assert_eq!(e.leds.legacy[31], 7);
    assert!(!e.apply_midi(&[0xB2, 40, 9]));
    let mut c = legacy_config();
    c.ext_enabled = true;
    let mut e = engine_with(c);
    assert!(e.apply_midi(&[0xB2, 40, 9]));
    assert_eq!(e.leds.ext[8], 9);
    assert!(e.apply_midi(&[0xB2, 89, 4]));
    assert_eq!(e.leds.ext[57], 4);
    assert!(!e.apply_midi(&[0xB2, 90, 4]));
}

#[test]
fn bank81_addresses_ninety_slots() {
    let mut c = LedConfig::standard();
    c.bank = 0x81;
    let mut e = engine_with(c);
    assert!(e.apply_midi(&[0xB2, 89, 3]));
    assert_eq!(e.leds.bank81[89], 3);
}

#[test]
fn standard_plan_broadcasts_every_candidate() {
    let mut e = engine_with(LedConfig::standard());
    e.apply_midi(&[0xB2, 0, 11]);
    let plan = e.led_plan();
    let lens: Vec<usize> = plan.writes.iter().map(|p| p.len()).collect();
    assert_eq!(lens, vec![32, 33, 33, 52]);
    assert_eq!(plan.writes[3][0], 0x80);
    assert_eq!(plan.writes[3][1], 11);
    assert_eq!(plan.writes[0][0], 0);
    assert_eq!(plan.features, plan.writes);
}

#[test]
fn report_filter_keeps_bank80_only() {
    let mut c = LedConfig::standard();
    c.report_filter = Some(0x80);
    let mut e = engine_with(c);
    e.apply_midi(&[0xB2, 0, 11]);
    let plan = e.led_plan();
    assert_eq!(plan.writes.len(), 1);
    assert_eq!(plan.writes[0].len(), 52);
    assert_eq!(plan.writes[0][1], 11);
}

#[test]
fn unfiltered_plan_tries_every_legacy_encoding() {
    let mut e = engine_with(legacy_config());
    e.apply_midi(&[0xB2, 2, 33]);
    let plan = e.led_plan();
    let lens: Vec<usize> = plan.writes.iter().map(|p| p.len()).collect();
    assert_eq!(lens, vec![32, 33, 33, 52]);
    assert_eq!(plan.writes[0][2], 33);
    assert_eq!(plan.writes[1][0], 0);
    assert_eq!(plan.writes[1][3], 33);
    assert_eq!(plan.writes[2][0], 1);
    assert_eq!(plan.writes[3][0], 0x80);
    assert_eq!(plan.writes[3][3], 33);
    assert!(plan.writes[3][33..].iter().all(|v| *v == 0));
}

#[test]
fn extended_bank_payload_carries_extension() {
    let mut c = legacy_config();
    c.ext_enabled = true;
    let mut e = engine_with(c);
    e.apply_midi(&[0xB2, 40, 9]);
    let plan = e.led_plan();
    assert_eq!(plan.writes.len(), 5);
    let p81 = &plan.writes[4];
    assert_eq!(p81.len(), 91);
    assert_eq!(p81[0], 0x81);
    assert_eq!(p81[41], 9);
}

#[test]
fn hotcue_overlay_shows_in_legacy_payloads() {
    let mut e = engine_with(legacy_config());
    e.hotcue_mode = true;
    let plan = e.led_plan();
    let raw = &plan.writes[0];
    assert_eq!(raw[8], 0);
    assert!(raw[9..25].iter().all(|v| *v == 5));
    assert_eq!(raw[25], 0);
}

#[test]
fn fill_all_lights_every_data_byte() {
    let mut c = legacy_config();
    c.fill_all = true;
    let e = engine_with(c);
    let plan = e.led_plan();
    assert!(plan.writes[0].iter().all(|v| *v == 127));
    assert_eq!(plan.writes[1][0], 0);
    assert!(plan.writes[1][1..].iter().all(|v| *v == 127));
}

#[test]
fn clear_darkens_every_bank_and_tries_every_encoding() {
    let mut c = LedConfig::standard();
    c.clear = true;
    let mut e = engine_with(c);
    e.apply_midi(&[0xB2, 3, 99]);
    e.leds.legacy[4] = 1;
    e.leds.ext[5] = 2;
    e.leds.bank81[6] = 3;
    assert!(!e.startup_leds());
    assert!(e.leds.legacy.iter().all(|v| *v == 0));
    assert!(e.leds.ext.iter().all(|v| *v == 0));
    assert!(e.leds.bank80.iter().all(|v| *v == 0));
    assert!(e.leds.bank81.iter().all(|v| *v == 0));
    let plan = e.led_plan();
    let lens: Vec<usize> = plan.writes.iter().map(|p| p.len()).collect();
    assert_eq!(lens, vec![32, 33, 33, 52, 91]);
    assert_eq!(plan.features.len(), 12);
    let heads: Vec<u8> = plan.features[5..].iter().map(|p| p[0]).collect();
    assert_eq!(heads, vec![0xD0, 0xD1, 0xD2, 0xD8, 0xD9, 0xF0, 0xF1]);
    let flens: Vec<usize> = plan.features[5..].iter().map(|p| p.len()).collect();
    assert_eq!(flens, vec![33, 33, 33, 33, 33, 9, 17]);
    for p in plan.writes.iter() {
        let skip = if p.len() == 32 { 0 } else { 1 };
        assert!(p[skip..].iter().all(|v| *v == 0));
    }
    for p in plan.features.iter() {
        assert!(p[1..].iter().all(|v| *v == 0));
    }
}

#[test]
fn single_index_lights_one_slot() {
    let mut c = LedConfig::standard();
    c.single_index = Some(3);
    let mut e = engine_with(c);
    e.apply_midi(&[0xB2, 7, 99]);
    assert!(e.startup_leds());
    assert_eq!(e.leds.bank80[3], 127);
    assert_eq!(e.leds.bank80[7], 0);
    let mut c = legacy_config();
    c.single_index = Some(40);
    c.once = true;
    let mut e = engine_with(c);
    assert!(!e.startup_leds());
    assert_eq!(e.leds.ext[8], 127);
}

#[test]
fn plain_startup_changes_nothing() {
    let mut e = engine_with(LedConfig::standard());
    e.apply_midi(&[0xB2, 7, 99]);
    assert!(e.startup_leds());
    assert_eq!(e.leds.bank80[7], 99);
}

#[test]
fn test_pattern_walks_legacy_slots() {
    let mut c = legacy_config();
    c.test_pattern = true;
    let mut e = engine_with(c);
    for _ in 0..7 {
        assert!(!e.test_pattern_tick());
    }
    assert!(e.test_pattern_tick());
    assert_eq!(e.leds.legacy[0], 127);
    assert_eq!(e.test_index, 1);
    for _ in 0..8 {
        e.test_pattern_tick();
    }
    assert_eq!(e.leds.legacy[0], 0);
    assert_eq!(e.leds.legacy[1], 127);
    let mut idle = engine_with(legacy_config());
    assert!(!idle.test_pattern_tick());
    assert_eq!(idle.test_tick, 0);
}

#[test]
fn shift_toggle_lights_its_led() {
    let mut e = engine_with(LedConfig::standard());
    e.decode(&[0u8; 64], 0);
    let mut f = [0u8; 64];
    f[20] = 1;
    e.decode(&f, 1);
    let out = e.decode(&[0u8; 64], 2);
    assert!(out.leds_changed);
    assert_eq!(e.led_plan().writes[3][6], 127);
}

#[test]
fn success_needs_one_candidate() {
    assert!(!any_succeeded(&[]));
    assert!(!any_succeeded(&[false, false]));
    assert!(any_succeeded(&[false, true, false]));
}
