//! The parser, and the actions that it hands to a performer.
use terminal::parser::{Action, Parser};
use terminal::record::ActionLog;

type Collector = ActionLog;

fn last(log: &Collector) -> Option<&Action> {
    log.actions.last()
}

fn drain(log: &mut Collector) -> Vec<Action> {
    std::mem::take(&mut log.actions)
}

fn feed(parser: &mut Parser, performer: &mut Collector, input: &[u8]) {
    for &b in input {
        parser.advance(performer, b);
    }
}

// -- Basic printing --

#[test]
fn test_print_ascii() {
    let mut p = Parser::new();
    let mut c = Collector::new();
    feed(&mut p, &mut c, b"ABC");
    assert_eq!(c.actions.len(), 3);
    match &c.actions[0] {
        Action::Print(ch) => assert_eq!(*ch, 'A'),
        other => panic!("expected Print, got {:?}", other),
    }
}

#[test]
fn test_print_space_and_del() {
    let mut p = Parser::new();
    let mut c = Collector::new();
    feed(&mut p, &mut c, b" A");
    // space is printable (0x20)
    assert_eq!(c.actions.len(), 2);
    match &c.actions[0] {
        Action::Print(ch) => assert_eq!(*ch, ' '),
        other => panic!("expected Print(' '), got {:?}", other),
    }
}

// -- Control characters --

#[test]
fn test_execute_c0() {
    let mut p = Parser::new();
    let mut c = Collector::new();
    feed(&mut p, &mut c, b"\x08"); // BS
    assert_eq!(c.actions.len(), 1);
    match &c.actions[0] {
        Action::Execute(byte) => assert_eq!(*byte, 0x08),
        other => panic!("expected Execute, got {:?}", other),
    }
}

#[test]
fn test_bel_does_not_crash() {
    let mut p = Parser::new();
    let mut c = Collector::new();
    feed(&mut p, &mut c, b"\x07"); // BEL
                                   // BEL is a C0 control, should be emitted as Execute
    assert_eq!(c.actions.len(), 1);
}

// -- ESC sequences --

#[test]
fn test_escape_simple() {
    let mut p = Parser::new();
    let mut c = Collector::new();
    feed(&mut p, &mut c, b"\x1bc"); // ESC c = RIS
    assert_eq!(c.actions.len(), 1);
    match &c.actions[0] {
        Action::EscDispatch {
            final_byte,
            intermediates,
            ..
        } => {
            assert_eq!(*final_byte, b'c');
            assert!(intermediates.is_empty());
        }
        other => panic!("expected EscDispatch, got {:?}", other),
    }
}

#[test]
fn test_escape_intermediate() {
    let mut p = Parser::new();
    let mut c = Collector::new();
    feed(&mut p, &mut c, b"\x1b(0"); // ESC ( 0 = designate G0 charset
    match &c.actions[0] {
        Action::EscDispatch {
            final_byte,
            intermediates,
            ..
        } => {
            assert_eq!(*final_byte, b'0');
            assert_eq!(intermediates, &[b'(']);
        }
        other => panic!("expected EscDispatch, got {:?}", other),
    }
}

// -- CSI sequences --

#[test]
fn test_csi_cursor_position() {
    let mut p = Parser::new();
    let mut c = Collector::new();
    feed(&mut p, &mut c, b"\x1b[10;20H"); // CUP row=10 col=20
    assert_eq!(c.actions.len(), 1);
    match &c.actions[0] {
        Action::CsiDispatch {
            params, final_byte, ..
        } => {
            assert_eq!(*final_byte, b'H');
            assert_eq!(params.len(), 2);
            assert_eq!(params[0], vec![10]);
            assert_eq!(params[1], vec![20]);
        }
        other => panic!("expected CsiDispatch, got {:?}", other),
    }
}

#[test]
fn test_csi_cursor_up() {
    let mut p = Parser::new();
    let mut c = Collector::new();
    feed(&mut p, &mut c, b"\x1b[5A"); // CUU 5
    match &c.actions[0] {
        Action::CsiDispatch {
            params, final_byte, ..
        } => {
            assert_eq!(*final_byte, b'A');
            assert_eq!(params[0], vec![5]);
        }
        other => panic!("expected CsiDispatch, got {:?}", other),
    }
}

#[test]
fn test_csi_erase_line() {
    let mut p = Parser::new();
    let mut c = Collector::new();
    feed(&mut p, &mut c, b"\x1b[2K"); // EL entire line
    match &c.actions[0] {
        Action::CsiDispatch {
            params, final_byte, ..
        } => {
            assert_eq!(*final_byte, b'K');
            assert_eq!(params[0], vec![2]);
        }
        other => panic!("expected CsiDispatch, got {:?}", other),
    }
}

#[test]
fn test_csi_no_params() {
    let mut p = Parser::new();
    let mut c = Collector::new();
    feed(&mut p, &mut c, b"\x1b[H"); // CUP with no params (defaults to 1;1)
    match &c.actions[0] {
        Action::CsiDispatch {
            params, final_byte, ..
        } => {
            assert_eq!(*final_byte, b'H');
            // Should have one param with value 0 (default)
            assert_eq!(params.len(), 1);
            assert_eq!(params[0], vec![0]);
        }
        other => panic!("expected CsiDispatch, got {:?}", other),
    }
}

// -- SGR (Select Graphic Rendition) --

#[test]
fn mod_test_sgr_reset() {
    let mut p = Parser::new();
    let mut c = Collector::new();
    feed(&mut p, &mut c, b"\x1b[0m");
    match &c.actions[0] {
        Action::CsiDispatch {
            params, final_byte, ..
        } => {
            assert_eq!(*final_byte, b'm');
            assert_eq!(params[0], vec![0]);
        }
        other => panic!("expected CsiDispatch, got {:?}", other),
    }
}

#[test]
fn test_sgr_bold_and_color() {
    let mut p = Parser::new();
    let mut c = Collector::new();
    feed(&mut p, &mut c, b"\x1b[1;31m"); // bold + red
    match &c.actions[0] {
        Action::CsiDispatch {
            params, final_byte, ..
        } => {
            assert_eq!(*final_byte, b'm');
            assert_eq!(params.len(), 2);
            assert_eq!(params[0], vec![1]);
            assert_eq!(params[1], vec![31]);
        }
        other => panic!("expected CsiDispatch, got {:?}", other),
    }
}

#[test]
fn test_sgr_256_color() {
    let mut p = Parser::new();
    let mut c = Collector::new();
    feed(&mut p, &mut c, b"\x1b[38;5;200m"); // fg 256-color
    match &c.actions[0] {
        Action::CsiDispatch {
            params, final_byte, ..
        } => {
            assert_eq!(*final_byte, b'm');
            // 38;5;200 — the parser collects these as separate params
            // param 0 = 38, param 1 = 5, param 2 = 200
            assert!(params.len() >= 2);
        }
        other => panic!("expected CsiDispatch, got {:?}", other),
    }
}

#[test]
fn mod_test_sgr_truecolor() {
    let mut p = Parser::new();
    let mut c = Collector::new();
    feed(&mut p, &mut c, b"\x1b[38;2;255;128;0m"); // fg truecolor
    match &c.actions[0] {
        Action::CsiDispatch {
            params, final_byte, ..
        } => {
            assert_eq!(*final_byte, b'm');
            assert!(params.len() >= 2);
        }
        other => panic!("expected CsiDispatch, got {:?}", other),
    }
}

// -- Private modes (?h / ?l) --

#[test]
fn test_private_mode_set() {
    let mut p = Parser::new();
    let mut c = Collector::new();
    feed(&mut p, &mut c, b"\x1b[?25h"); // show cursor
    match &c.actions[0] {
        Action::CsiDispatch {
            params,
            intermediates,
            final_byte,
            ..
        } => {
            assert_eq!(*final_byte, b'h');
            assert_eq!(intermediates, &[b'?']);
            assert_eq!(params[0], vec![25]);
        }
        other => panic!("expected CsiDispatch, got {:?}", other),
    }
}

#[test]
fn test_private_mode_reset() {
    let mut p = Parser::new();
    let mut c = Collector::new();
    feed(&mut p, &mut c, b"\x1b[?25l"); // hide cursor
    match &c.actions[0] {
        Action::CsiDispatch {
            final_byte,
            intermediates,
            ..
        } => {
            assert_eq!(*final_byte, b'l');
            assert_eq!(intermediates, &[b'?']);
        }
        other => panic!("expected CsiDispatch, got {:?}", other),
    }
}

#[test]
fn test_private_mode_alt_screen() {
    let mut p = Parser::new();
    let mut c = Collector::new();
    feed(&mut p, &mut c, b"\x1b[?1049h"); // enter alt screen
    match &c.actions[0] {
        Action::CsiDispatch {
            params, final_byte, ..
        } => {
            assert_eq!(*final_byte, b'h');
            assert_eq!(params[0], vec![1049]);
        }
        other => panic!("expected CsiDispatch, got {:?}", other),
    }
}

// -- UTF-8 --

#[test]
fn test_utf8_2byte() {
    let mut p = Parser::new();
    let mut c = Collector::new();
    // 'ñ' = U+00F1 = 0xC3 0xB1
    feed(&mut p, &mut c, b"\xc3\xb1");
    assert_eq!(c.actions.len(), 1);
    match &c.actions[0] {
        Action::Print(ch) => assert_eq!(*ch, 'ñ'),
        other => panic!("expected Print, got {:?}", other),
    }
}

#[test]
fn test_utf8_3byte() {
    let mut p = Parser::new();
    let mut c = Collector::new();
    // '€' = U+20AC = 0xE2 0x82 0xAC
    feed(&mut p, &mut c, b"\xe2\x82\xac");
    assert_eq!(c.actions.len(), 1);
    match &c.actions[0] {
        Action::Print(ch) => assert_eq!(*ch, '€'),
        other => panic!("expected Print, got {:?}", other),
    }
}

#[test]
fn test_utf8_4byte() {
    let mut p = Parser::new();
    let mut c = Collector::new();
    // '😀' = U+1F600 = 0xF0 0x9F 0x98 0x80
    feed(&mut p, &mut c, b"\xf0\x9f\x98\x80");
    assert_eq!(c.actions.len(), 1);
    match &c.actions[0] {
        Action::Print(ch) => assert_eq!(*ch, '😀'),
        other => panic!("expected Print, got {:?}", other),
    }
}

#[test]
fn test_advance_bytes_handles_malformed_control_stream() {
    let mut parser = Parser::new();
    let mut collector = Collector::new();
    let mut input = Vec::with_capacity(120_000);
    input.extend_from_slice(b"\x1b]");
    input.extend(std::iter::repeat(b'x').take(110_000));
    input.extend_from_slice(b"\x07after\x1bP1$r\x1b\\done");

    parser.advance_bytes(&mut collector, &input);

    assert!(collector
        .actions
        .iter()
        .any(|action| { matches!(action, Action::Print('a')) }));
    assert!(collector
        .actions
        .iter()
        .any(|action| { matches!(action, Action::Print('d')) }));
}

#[test]
fn test_advance_bytes_handles_every_byte_without_panicking() {
    let mut parser = Parser::new();
    let mut collector = Collector::new();
    let input: Vec<u8> = (0..=u8::MAX).cycle().take(16_384).collect();

    parser.advance_bytes(&mut collector, &input);
}

#[test]
fn test_utf8_invalid_sequence() {
    let mut p = Parser::new();
    let mut c = Collector::new();
    // Invalid: 0xC0 (start of 2-byte) followed by non-continuation byte
    feed(&mut p, &mut c, b"\xc0\x41");
    // Should emit replacement char + reprocess 'A'
    assert!(c.actions.len() >= 2);
    match &c.actions[0] {
        Action::Print(ch) => assert_eq!(*ch, '\u{FFFD}'),
        other => panic!("expected Print(replacement), got {:?}", other),
    }
}

// -- OSC sequences --

#[test]
fn test_osc_title() {
    let mut p = Parser::new();
    let mut c = Collector::new();
    // OSC 0 ; title BEL
    feed(&mut p, &mut c, b"\x1b]0;My Title\x07");
    assert_eq!(c.actions.len(), 1);
    match &c.actions[0] {
        Action::OscDispatch { params } => {
            assert_eq!(params.len(), 2);
            assert_eq!(params[0], b"0");
            assert_eq!(params[1], b"My Title");
        }
        other => panic!("expected OscDispatch, got {:?}", other),
    }
}

#[test]
fn test_osc_terminates_on_bel() {
    let mut p = Parser::new();
    let mut c = Collector::new();
    feed(&mut p, &mut c, b"\x1b]0;title\x07");
    assert_eq!(c.actions.len(), 1);
}

#[test]
fn test_osc_terminates_on_st() {
    let mut p = Parser::new();
    let mut c = Collector::new();
    // OSC terminated by ST (ESC \). Williams' spec: the ESC cancels the
    // string but dispatch happens on state exit, so the OSC must be
    // delivered with its content, followed by the ESC dispatch.
    feed(&mut p, &mut c, b"\x1b]0;title\x1b\\");
    assert_eq!(c.actions.len(), 2, "OSC dispatch + ESC dispatch");
    match &c.actions[0] {
        Action::OscDispatch { params } => {
            assert_eq!(params.len(), 2);
            assert_eq!(params[0], b"0");
            assert_eq!(params[1], b"title");
        }
        other => panic!("expected OscDispatch with content, got {:?}", other),
    }
    match &c.actions[1] {
        Action::EscDispatch { final_byte, .. } => assert_eq!(*final_byte, b'\\'),
        other => panic!("expected EscDispatch(\\), got {:?}", other),
    }
}

#[test]
fn test_osc_multibyte_utf8_terminated_on_st() {
    // Mirrors Alacritty vte's osc_containing_string_terminator test:
    // multibyte UTF-8 inside an ST-terminated OSC must survive intact.
    let mut p = Parser::new();
    let mut c = Collector::new();
    feed(&mut p, &mut c, b"\x1b]2;\xe6\x9c\xaa\x1b\\");
    match &c.actions[0] {
        Action::OscDispatch { params } => {
            assert_eq!(params[0], b"2");
            assert_eq!(params[1], b"\xe6\x9c\xaa");
        }
        other => panic!("expected OscDispatch, got {:?}", other),
    }
}

#[test]
fn test_osc_8bit_st_byte_treated_as_data() {
    // 0x9C is the 8-bit ST, but inside an OSC it is indistinguishable
    // from a UTF-8 continuation byte. We follow xterm/vte and treat it
    // as string data; the OSC is terminated by BEL/ESC instead.
    let mut p = Parser::new();
    let mut c = Collector::new();
    feed(&mut p, &mut c, b"\x1b]0;ti\x9ctle\x07");
    assert_eq!(c.actions.len(), 1);
    match &c.actions[0] {
        Action::OscDispatch { params } => {
            assert_eq!(params[0], b"0");
            assert_eq!(params[1], b"ti\x9ctle"); // 0x9C preserved as data
        }
        other => panic!("expected OscDispatch, got {:?}", other),
    }
}

#[test]
fn test_osc_aborted_by_can_not_dispatched() {
    // CAN (0x18) aborts the string WITHOUT dispatching it.
    let mut p = Parser::new();
    let mut c = Collector::new();
    feed(&mut p, &mut c, b"\x1b]0;title\x18");
    // Only the Execute(CAN); no OscDispatch.
    assert_eq!(c.actions.len(), 1);
    match &c.actions[0] {
        Action::Execute(byte) => assert_eq!(*byte, 0x18),
        other => panic!("expected Execute(CAN), got {:?}", other),
    }
}

// -- DECSC / DECRC (save/restore cursor) --

#[test]
fn test_decsc_decrc() {
    let mut p = Parser::new();
    let mut c = Collector::new();
    // ESC 7 = DECSC, ESC 8 = DECRC
    feed(&mut p, &mut c, b"\x1b7\x1b8");
    assert_eq!(c.actions.len(), 2);
    match &c.actions[0] {
        Action::EscDispatch { final_byte, .. } => assert_eq!(*final_byte, b'7'),
        other => panic!("expected EscDispatch(7), got {:?}", other),
    }
    match &c.actions[1] {
        Action::EscDispatch { final_byte, .. } => assert_eq!(*final_byte, b'8'),
        other => panic!("expected EscDispatch(8), got {:?}", other),
    }
}

// -- Mixed sequences --

#[test]
fn test_mixed_text_and_csi() {
    let mut p = Parser::new();
    let mut c = Collector::new();
    feed(&mut p, &mut c, b"Hello\x1b[1mWorld");
    // H e l l o ESC [ 1 m W o r l d
    assert_eq!(c.actions.len(), 11);
    // Check first char
    match &c.actions[0] {
        Action::Print(ch) => assert_eq!(*ch, 'H'),
        other => panic!("expected Print, got {:?}", other),
    }
    // Check SGR
    match &c.actions[5] {
        Action::CsiDispatch { final_byte, .. } => assert_eq!(*final_byte, b'm'),
        other => panic!("expected CsiDispatch, got {:?}", other),
    }
}

// -- State machine edge cases --

#[test]
fn test_consecutive_escapes() {
    let mut p = Parser::new();
    let mut c = Collector::new();
    // Two ESC sequences back to back
    feed(&mut p, &mut c, b"\x1b[H\x1b[2J");
    assert_eq!(c.actions.len(), 2);
}

#[test]
fn test_csi_param_overflow() {
    let mut p = Parser::new();
    let mut c = Collector::new();
    // Very large param — should not panic
    feed(&mut p, &mut c, b"\x1b[99999H");
    match &c.actions[0] {
        Action::CsiDispatch {
            params, final_byte, ..
        } => {
            assert_eq!(*final_byte, b'H');
            // 99999 clamped to u16::MAX? No, it saturates at u16
            assert_eq!(params[0], vec![99999.min(u16::MAX as u32) as u16]);
        }
        other => panic!("expected CsiDispatch, got {:?}", other),
    }
}
