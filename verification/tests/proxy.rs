use lep::cli::PredictMode;
use lep::command::Command;
use lep::emulator::Emulator;
use lep::input::InputHandler;
use lep::server_buffer::ServerOutputBuffer;

// ========================================================================
// ServerOutputBuffer Tests
// ========================================================================

#[test]
fn test_server_buffer_complete_ascii() {
    let mut buf = ServerOutputBuffer::new();

    let result = buf.process(b"hello");
    assert_eq!(result, b"hello");
}

#[test]
fn test_server_buffer_complete_utf8() {
    let mut buf = ServerOutputBuffer::new();

    // Complete UTF-8 "안녕"
    let result = buf.process("안녕".as_bytes());
    assert_eq!(result, "안녕".as_bytes());
}

#[test]
fn test_server_buffer_incomplete_utf8() {
    let mut buf = ServerOutputBuffer::new();

    // "가" is 0xEA 0xB0 0x80 in UTF-8
    // Send first 2 bytes (incomplete)
    let result = buf.process(&[0xEA, 0xB0]);
    assert!(result.is_empty()); // Should buffer incomplete bytes

    // Send the last byte
    let result = buf.process(&[0x80]);
    assert_eq!(result, "가".as_bytes());
}

#[test]
fn test_server_buffer_mixed_complete_incomplete() {
    let mut buf = ServerOutputBuffer::new();

    // "ab" + incomplete UTF-8 start
    let result = buf.process(&[b'a', b'b', 0xEA]);
    assert_eq!(result, b"ab"); // Only complete bytes

    // Complete the sequence
    let result = buf.process(&[0xB0, 0x80]);
    assert_eq!(result, "가".as_bytes());
}

#[test]
fn test_server_buffer_escape_sequences() {
    let mut buf = ServerOutputBuffer::new();

    // Escape sequence should pass through
    let result = buf.process(b"\x1b[1;1H");
    assert_eq!(result, b"\x1b[1;1H");
}

// ========================================================================
// PredictMode Tests
// ========================================================================

#[test]
fn test_predict_mode_from_str() {
    assert_eq!(
        PredictMode::from_str("always").unwrap(),
        PredictMode::Always
    );
    assert_eq!(PredictMode::from_str("auto").unwrap(), PredictMode::Auto);
    assert_eq!(PredictMode::from_str("never").unwrap(), PredictMode::Never);
    assert_eq!(PredictMode::from_str("none").unwrap(), PredictMode::Never);
    assert_eq!(PredictMode::from_str("off").unwrap(), PredictMode::Never);
    assert_eq!(
        PredictMode::from_str("ALWAYS").unwrap(),
        PredictMode::Always
    );
    assert!(PredictMode::from_str("invalid").is_err());
}

// ========================================================================
// InputHandler Tests
// ========================================================================

#[test]
fn test_input_handler_ascii() {
    let handler = InputHandler::new();
    let emu = Emulator::new(80, 24);

    // Test that we can create commands for ASCII chars
    let cmd = handler.create_char_command('a', &emu);
    assert!(matches!(
        cmd,
        Command::Char {
            ch: 'a',
            width: 1,
            ..
        }
    ));
}

#[test]
fn test_input_handler_wide_char() {
    let handler = InputHandler::new();
    let emu = Emulator::new(80, 24);

    // Wide character should have width 2
    let cmd = handler.create_char_command('가', &emu);
    assert!(matches!(
        cmd,
        Command::Char {
            ch: '가',
            width: 2,
            ..
        }
    ));
}

#[test]
fn test_input_handler_disabled() {
    let mut handler = InputHandler::new();
    let emu = Emulator::new(80, 24);

    handler.set_enabled(false);

    // When disabled, should return None
    let result = handler.handle_byte(b'a', &emu, false);
    assert!(result.is_none());
}
