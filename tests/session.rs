use easy_kontrol::session::{
    apply_menu_command, contains_text, frame_from_read, is_timeout_message, menu_label_number,
    next_phase, MenuCommand, ReadOutcome, SessionEvent, SessionPhase,
};

#[test]
fn long_read_drops_report_id() {
    let mut buf = [0u8; 65];
    for (i, b) in buf.iter_mut().enumerate() {
        *b = i as u8;
    }
    let f = frame_from_read(&buf, 65);
    assert_eq!(f[0], 1);
    assert_eq!(f[63], 64);
}

#[test]
fn short_read_is_zero_padded() {
    let buf = [7u8; 65];
    let f = frame_from_read(&buf, 10);
    assert!(f[..10].iter().all(|v| *v == 7));
    assert!(f[10..].iter().all(|v| *v == 0));
    let f = frame_from_read(&buf, 64);
    assert!(f.iter().all(|v| *v == 7));
    let f = frame_from_read(&buf, 0);
    assert!(f.iter().all(|v| *v == 0));
}

#[test]
fn timeouts_are_transient() {
    assert!(is_timeout_message("hid read timeout"));
    assert!(is_timeout_message("Timeout expired"));
    assert!(!is_timeout_message("device disconnected"));
    assert!(!is_timeout_message("TIMEOUT"));
    assert!(!is_timeout_message(""));
    assert!(contains_text("abcabd", "abd"));
    assert!(!contains_text("ab", "abc"));
}

#[test]
fn session_lifecycle() {
    let mut p = SessionPhase::Idle;
    p = next_phase(p, SessionEvent::RunFlag(true));
    assert_eq!(p, SessionPhase::Idle);
    p = next_phase(p, SessionEvent::DeviceOpened);
    assert_eq!(p, SessionPhase::Initializing);
    p = next_phase(p, SessionEvent::PortsReady);
    assert_eq!(p, SessionPhase::Running);
    p = next_phase(p, SessionEvent::Read(ReadOutcome::Timeout));
    assert_eq!(p, SessionPhase::Running);
    p = next_phase(p, SessionEvent::Read(ReadOutcome::Data(64)));
    assert_eq!(p, SessionPhase::Running);
    p = next_phase(p, SessionEvent::RunFlag(false));
    assert_eq!(p, SessionPhase::Paused);
    p = next_phase(p, SessionEvent::Read(ReadOutcome::Failed));
    assert_eq!(p, SessionPhase::Paused);
    p = next_phase(p, SessionEvent::RunFlag(true));
    assert_eq!(p, SessionPhase::Running);
    p = next_phase(p, SessionEvent::Read(ReadOutcome::Failed));
    assert_eq!(p, SessionPhase::Terminated);
    p = next_phase(p, SessionEvent::RunFlag(true));
    assert_eq!(p, SessionPhase::Terminated);
}

#[test]
fn port_failure_ends_initialization() {
    let p = next_phase(SessionPhase::Initializing, SessionEvent::PortsFailed);
    assert_eq!(p, SessionPhase::Terminated);
}

#[test]
fn menu_commands() {
    assert_eq!(apply_menu_command(MenuCommand::Start, false), (true, false));
    assert_eq!(apply_menu_command(MenuCommand::Stop, true), (false, false));
    assert_eq!(apply_menu_command(MenuCommand::Quit, true), (true, true));
}

#[test]
fn menu_numbers_only_for_several_devices() {
    assert_eq!(menu_label_number(0, 1), None);
    assert_eq!(menu_label_number(0, 2), Some(1));
    assert_eq!(menu_label_number(1, 2), Some(2));
}
