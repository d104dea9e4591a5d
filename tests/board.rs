use easy_kontrol::board::{
    has_prefix, role_of_name, same_text, Board, BoardError, ButtonDesc, ControlDescriptor,
    ControlRole, NibbleSelect,
};

fn button(byte_i: u8, bit_j: u8) -> ControlDescriptor {
    ControlDescriptor::Toggle(ButtonDesc { byte_i, bit_j, led_index: 0, out_code: 1, hotcue_ignore: false })
}

#[test]
fn roles_follow_names() {
    assert_eq!(role_of_name("DECK_A_BUTTON_PLAY"), ControlRole::Play);
    assert_eq!(role_of_name("DECK_B_BUTTON_PLAY"), ControlRole::Play);
    assert_eq!(role_of_name("DECK_A_BUTTON_CUE"), ControlRole::Cue);
    assert_eq!(role_of_name("DECK_B_BUTTON_CUE"), ControlRole::Cue);
    assert_eq!(role_of_name("SHIFT"), ControlRole::Shift);
    assert_eq!(role_of_name("HOTCUE"), ControlRole::HotcueMode);
    assert_eq!(role_of_name("DECK_A_HOTCUE_3"), ControlRole::HotcueButton);
    assert_eq!(role_of_name("DECK_B_HOTCUE"), ControlRole::HotcueButton);
    assert_eq!(role_of_name("SHIFTED"), ControlRole::Plain);
    assert_eq!(role_of_name("DECK_A_BUTTON_PLAYX"), ControlRole::Plain);
    assert_eq!(role_of_name(""), ControlRole::Plain);
}

#[test]
fn text_helpers() {
    assert!(has_prefix("DECK_A_HOTCUE_1", "DECK_A_HOTCUE"));
    assert!(!has_prefix("DECK_A", "DECK_A_HOTCUE"));
    assert!(has_prefix("abc", ""));
    assert!(same_text("SHIFT", "SHIFT"));
    assert!(!same_text("SHIFT", "SHIF"));
}

#[test]
fn board_keeps_order_and_roles() {
    let b = Board::new(vec![
        ("SHIFT".to_string(), button(20, 0)),
        ("KNOB".to_string(), ControlDescriptor::Knob { byte_i: 1, byte_j: 63, out_code: 2 }),
        ("ENC".to_string(), ControlDescriptor::Encoder { byte_i: 63, nibble: NibbleSelect::High, out_code: 3 }),
    ])
    .unwrap();
    assert_eq!(b.len(), 3);
    assert_eq!(b.controls[0].role, ControlRole::Shift);
    assert_eq!(b.controls[1].name, "KNOB");
    assert_eq!(b.controls[2].role, ControlRole::Plain);
}

#[test]
fn board_refuses_byte_outside_frame() {
    let r = Board::new(vec![("A".to_string(), button(20, 0)), ("B".to_string(), button(64, 0))]);
    assert_eq!(r.unwrap_err(), BoardError::ByteOutOfRange(1));
    let r = Board::new(vec![(
        "K".to_string(),
        ControlDescriptor::Knob { byte_i: 3, byte_j: 70, out_code: 0 },
    )]);
    assert_eq!(r.unwrap_err(), BoardError::ByteOutOfRange(0));
}

#[test]
fn board_refuses_bit_above_seven() {
    let r = Board::new(vec![("A".to_string(), button(20, 8)), ("B".to_string(), button(99, 0))]);
    assert_eq!(r.unwrap_err(), BoardError::BitOutOfRange(0));
}

#[test]
fn empty_board_is_valid() {
    let b = Board::new(Vec::new()).unwrap();
    assert_eq!(b.len(), 0);
}
