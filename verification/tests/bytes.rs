use lep::alt_screen::AltScreen;
use lep::ansi;
use lep::osc::OscState;
use lep::output::{extract_server_events, read_output};
use lep::server_buffer::ServerOutputBuffer;
use lep::utf8::{decode_utf8_char, push_char};

#[test]
fn characters_of_every_length_survive_encoding() {
    for c in ['a', '\u{7f}', 'é', '\u{7ff}', '가', '\u{ffff}', '😀', '\u{10ffff}'] {
        let mut bytes = Vec::new();
        push_char(&mut bytes, c);
        let mut buf = [0u8; 4];
        assert_eq!(bytes, c.encode_utf8(&mut buf).as_bytes());
        let len = bytes.len();
        bytes.extend_from_slice(b"more");
        assert_eq!(decode_utf8_char(&bytes), Some((c, len)));
    }
}

#[test]
fn what_is_no_character_is_not_decoded() {
    assert_eq!(decode_utf8_char(b""), None);
    // a continuation byte, an incomplete character, a lead byte without its continuation
    assert_eq!(decode_utf8_char(&[0x80]), None);
    assert_eq!(decode_utf8_char(&[0xEA, 0xB0]), None);
    assert_eq!(decode_utf8_char(&[0xEA, 0x41, 0x80]), None);
    // a byte that never occurs, a surrogate, a number beyond the last character
    assert_eq!(decode_utf8_char(&[0xFF, 0x80, 0x80, 0x80]), None);
    assert_eq!(decode_utf8_char(&[0xED, 0xA0, 0x80]), None);
    assert_eq!(decode_utf8_char(&[0xF7, 0xBF, 0xBF, 0xBF]), None);
    // an encoding need not be the shortest
    assert_eq!(decode_utf8_char(&[0xC1, 0x81]), Some(('A', 2)));
}

#[test]
fn only_printable_characters_are_events() {
    assert_eq!(extract_server_events("a가b".as_bytes()), vec!['a', '가', 'b']);
    assert_eq!(extract_server_events(b"\x1b[31mred\x1b[0m\r\n\x08\x7f"), vec!['r', 'e', 'd']);
    // an unfinished sequence takes all that follows; a stray byte is passed over
    assert_eq!(extract_server_events(b"x\x1b[12;"), vec!['x']);
    assert_eq!(extract_server_events(&[0x80, b'y']), vec!['y']);
    assert_eq!(extract_server_events(b"\x1b[3~z"), vec!['z']);
    assert_eq!(read_output(b"\x08 \x08\x7f\x1b[D\r"), (vec![' '], 3));
}

#[test]
fn the_overlays_of_cursor_and_underline_print_nothing() {
    let mut out = Vec::new();
    ansi::push_move_to(&mut out, 0, 99);
    ansi::push_underline_on(&mut out);
    ansi::push_underline_off(&mut out);
    assert_eq!(out, b"\x1b[1;100H\x1b[4m\x1b[24m".to_vec());
    assert!(extract_server_events(&out).is_empty());
}

#[test]
fn numbers_are_written_in_decimal() {
    for n in [0usize, 7, 10, 99, 100, 65_535, 1_000_000] {
        let mut out = Vec::new();
        ansi::push_decimal(&mut out, n);
        assert_eq!(out, n.to_string().into_bytes());
    }
}

#[test]
fn the_alternate_screen_is_seen_in_pieces() {
    let mut w = AltScreen::new();
    assert!(!w.scan(b"text\x1b[?10"));
    assert!(!w.is_active());
    assert!(w.scan(b"49h"));
    assert!(w.is_active());
    assert!(!w.scan(b"\x1b[?47l"));
    assert!(!w.is_active());
}

#[test]
fn one_byte_completes_the_switch() {
    let mut w = AltScreen::new();
    for &byte in b"\x1b[?47" {
        assert!(!w.detect_alt_screen(byte));
    }
    assert!(w.detect_alt_screen(b'h'));
    assert!(w.is_active());
}

#[test]
fn other_modes_switch_nothing() {
    let mut w = AltScreen::new();
    assert!(!w.scan(b"\x1b[?25h\x1b[?2004h\x1b[1049h\x1b[?1047h\x1b[?h"));
    assert!(!w.is_active());
    // a sequence that grows too long is given up, however long it grows
    assert!(!w.scan(b"\x1b[?111111111111111111h"));
    assert!(!w.scan(b"\x1b[?00000001049h"));
    assert!(!w.is_active());
    // entering and leaving at once has entered
    assert!(w.scan(b"\x1b[?1049h\x1b[?1049l"));
    assert!(!w.is_active());
}

#[test]
fn text_in_any_chunks_comes_out_whole() {
    let text = "aé가😀z";
    for size in 1..=text.len() {
        let mut buf = ServerOutputBuffer::new();
        let mut shown = Vec::new();
        for chunk in text.as_bytes().chunks(size) {
            let out = buf.process(chunk);
            assert!(String::from_utf8(out.clone()).is_ok());
            shown.extend(out);
        }
        assert_eq!(shown, text.as_bytes());
        assert_eq!(buf.find_complete_utf8_len(), 0);
    }
}

#[test]
fn only_the_end_of_the_stream_is_held_back() {
    let mut buf = ServerOutputBuffer::new();
    assert_eq!(buf.process(b"a\x80\x80\x80\x80"), b"a".to_vec());
    assert_eq!(buf.process(b"b"), b"\x80\x80\x80\x80b".to_vec());
    // a whole character is not cut by what follows it
    let mut bytes = "😀".as_bytes().to_vec();
    bytes.push(0x80);
    assert_eq!(buf.process(&bytes), "😀".as_bytes());
    assert_eq!(buf.process(b"c"), b"\x80c".to_vec());
}

#[test]
fn what_is_too_many_in_a_colour_is_left_out() {
    let mut state = OscState::Outside;
    let long = format!("\x1b]10;#{}\x07#{}", "f".repeat(30), "f".repeat(30));
    let kept = format!("\x1b]10;#{}\x07#{}", "f".repeat(22), "f".repeat(30));
    assert_eq!(state.tame(long.as_bytes()), kept.into_bytes());
    assert_eq!(state, OscState::Outside);
    // in pieces, and with control characters between the digits
    assert_eq!(state.tame(b"\x1b]4;0;#0123456789"), b"\x1b]4;0;#0123456789".to_vec());
    assert_eq!(state.tame(b"\x00abcdef012345"), b"\x00abcdef012345".to_vec());
    assert_eq!(state, OscState::Colour(22));
    assert_eq!(state.tame(b"67;#8\x1b\\"), b";#8\x1b\\".to_vec());
    assert_eq!(OscState::Escape.advance(b']'), OscState::Start);
    assert_eq!(OscState::Start.advance(b'x'), OscState::Other);
    assert_eq!(OscState::Colour(22).advance(b'+'), OscState::TooLong);
}

#[test]
fn all_of_a_colour_counts_towards_its_length() {
    let mut state = OscState::Outside;
    for (digits, others) in [(17, 34), (9, 18), (0, 30), (22, 1)] {
        let long = format!("\x1b]10;#{}{}\x07", "0".repeat(digits), "x".repeat(others));
        let kept = format!("\x1b]10;#{}{}\x07", "0".repeat(digits), "x".repeat(22 - digits));
        assert_eq!(state.tame(long.as_bytes()), kept.into_bytes());
        assert_eq!(state, OscState::Outside);
    }
    assert_eq!(OscState::Colour(3).advance(b'x'), OscState::Colour(4));
    assert_eq!(OscState::Colour(22).advance(b'x'), OscState::TooLong);
    assert_eq!(OscState::TooLong.advance(0xEA), OscState::TooLong);
    assert_eq!(OscState::TooLong.advance(0x00), OscState::TooLong);
    assert_eq!(OscState::TooLong.advance(b';'), OscState::Start);
    // a parameter that is no colour has no limit
    let title = format!("\x1b]0;{}\x07", "x".repeat(300));
    assert_eq!(state.tame(title.as_bytes()), title.into_bytes());
}

#[test]
fn bytes_that_are_no_text_pass_or_wait() {
    let mut buf = ServerOutputBuffer::new();
    // a byte that never starts a character is not waited for
    assert_eq!(buf.process(&[0xFF]), vec![0xFF]);
    // continuation bytes without a start are held back until something else comes
    assert!(buf.process(&[0x80, 0x80, 0x80, 0x80, 0x80]).is_empty());
    assert_eq!(
        buf.process(b"a"),
        vec![0x80, 0x80, 0x80, 0x80, 0x80, b'a']
    );
    assert!(buf.process(b"").is_empty());
}
