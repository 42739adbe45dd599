//! Tests of the mouse module.
use terminal::grid::{MouseEncoding, MouseMode};
use terminal::mouse::{should_report_motion, MouseButton, MouseEvent, MouseEventType};

#[test]
fn test_sgr_left_click() {
    let event = MouseEvent {
        button: MouseButton::Left,
        event_type: MouseEventType::Press,
        col: 10,
        row: 5,
        shift: false,
        ctrl: false,
        alt: false,
    };
    assert_eq!(event.encode(MouseEncoding::SGR), "\x1b[<0;10;5M");
}

#[test]
fn test_sgr_left_release() {
    let event = MouseEvent {
        button: MouseButton::Left,
        event_type: MouseEventType::Release,
        col: 10,
        row: 5,
        shift: false,
        ctrl: false,
        alt: false,
    };
    assert_eq!(event.encode(MouseEncoding::SGR), "\x1b[<0;10;5m");
}

#[test]
fn test_sgr_right_click_with_ctrl() {
    let event = MouseEvent {
        button: MouseButton::Right,
        event_type: MouseEventType::Press,
        col: 20,
        row: 15,
        shift: false,
        ctrl: true,
        alt: false,
    };
    // Right=2 + ctrl=8 = 10
    assert_eq!(event.encode(MouseEncoding::SGR), "\x1b[<10;20;15M");
}

#[test]
fn test_sgr_motion() {
    let event = MouseEvent {
        button: MouseButton::Left,
        event_type: MouseEventType::Motion,
        col: 30,
        row: 25,
        shift: false,
        ctrl: false,
        alt: false,
    };
    assert_eq!(event.encode(MouseEncoding::SGR), "\x1b[<32;30;25M");
}

#[test]
fn test_sgr_wheel_up() {
    let event = MouseEvent {
        button: MouseButton::WheelUp,
        event_type: MouseEventType::Press,
        col: 5,
        row: 5,
        shift: false,
        ctrl: false,
        alt: false,
    };
    assert_eq!(event.encode(MouseEncoding::SGR), "\x1b[<64;5;5M");
}

#[test]
fn test_x10_left_click() {
    let event = MouseEvent {
        button: MouseButton::Left,
        event_type: MouseEventType::Press,
        col: 10,
        row: 5,
        shift: false,
        ctrl: false,
        alt: false,
    };
    let encoded = event.encode(MouseEncoding::X10);
    // Left=0+32=32=' ', col=10+32=42='*', row=5+32=37='%'
    assert_eq!(encoded, "\x1b[M *%");
}

#[test]
fn test_x10_release() {
    let event = MouseEvent {
        button: MouseButton::Left,
        event_type: MouseEventType::Release,
        col: 10,
        row: 5,
        shift: false,
        ctrl: false,
        alt: false,
    };
    let encoded = event.encode(MouseEncoding::X10);
    // Release should encode button as 3
    assert!(encoded.contains('\x1b'));
    assert!(encoded.contains('M'));
}

#[test]
fn test_should_report_motion() {
    assert!(!should_report_motion(MouseMode::Off, false));
    assert!(!should_report_motion(MouseMode::Normal, false));
    assert!(!should_report_motion(MouseMode::ButtonEvent, false));
    assert!(should_report_motion(MouseMode::ButtonEvent, true));
    assert!(should_report_motion(MouseMode::AnyEvent, false));
    assert!(should_report_motion(MouseMode::AnyEvent, true));
}
