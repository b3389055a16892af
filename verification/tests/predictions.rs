use lep::command::{Command, Direction};
use lep::emulator::{Emulator, VerifyResult};
use lep::input::InputHandler;
use lep::output::extract_server_events;

#[test]
fn a_cursor_move_goes_one_cell_and_is_never_underlined() {
    let to = |direction| Command::cursor_move(2, 3, direction).execute(true);
    assert_eq!(to(Direction::Left), b"\x1b[3;3H".to_vec());
    assert_eq!(to(Direction::Right), b"\x1b[3;5H".to_vec());
    assert_eq!(to(Direction::Up), b"\x1b[2;4H".to_vec());
    assert_eq!(to(Direction::Down), b"\x1b[4;4H".to_vec());
    assert_eq!(
        Command::cursor_move(0, 0, Direction::Left).execute(false),
        b"\x1b[1;1H".to_vec()
    );
    assert_eq!(
        Command::cursor_move(0, 0, Direction::Up).execute(false),
        b"\x1b[1;1H".to_vec()
    );
    assert_eq!(Command::cursor_move(0, 0, Direction::Up).cursor_delta(), 0);
}

#[test]
fn a_command_tells_what_it_predicts() {
    let ch = Command::char(0, 0, '가', ' ', 2);
    let bs = Command::backspace(0, 0, ' ', 3);
    let mv = Command::cursor_move(0, 0, Direction::Down);
    assert_eq!((ch.width(), bs.width(), mv.width()), (2, 3, 1));
    assert_eq!((ch.is_char(), bs.is_char(), mv.is_char()), (true, false, false));
    assert_eq!(ch.as_char(), Some(('가', 2)));
    assert_eq!(bs.as_char(), None);
}

#[test]
fn an_overlay_prints_the_prediction_whether_underlined_or_not() {
    let ch = Command::char(4, 7, '가', ' ', 2);
    let bs = Command::backspace(4, 7, 'x', 2);
    for flagging in [false, true] {
        assert_eq!(extract_server_events(&ch.execute(flagging)), vec!['가']);
        assert_eq!(extract_server_events(&bs.execute(flagging)), vec![' ', ' ']);
    }
}

#[test]
fn undoing_shows_what_the_server_has() {
    let mut emu = Emulator::new(80, 24);
    emu.feed_and_verify(b"hi");
    let over = Command::char(0, 1, 'x', ' ', 1);
    assert_eq!(over.undo(emu.screen()), b"\x1b[1;2Hi".to_vec());
    let erased = Command::backspace(0, 0, 'h', 1);
    assert_eq!(erased.undo(emu.screen()), b"\x1b[1;1Hh".to_vec());
    let behind = Command::char(0, 5, '가', ' ', 2);
    assert_eq!(behind.undo(emu.screen()), b"\x1b[1;6H  ".to_vec());
    let moved = Command::cursor_move(3, 4, Direction::Right);
    assert_eq!(moved.undo(emu.screen()), b"\x1b[4;5H".to_vec());
    assert_eq!(over.undo_showing('\0'), b"\x1b[1;2H ".to_vec());
}

#[test]
fn predictions_are_undone_newest_first() {
    let mut emu = Emulator::new(80, 24);
    emu.feed_and_verify(b"ab");
    emu.push_command(Command::backspace(0, 1, 'b', 1));
    emu.push_command(Command::char(0, 1, 'x', 'b', 1));
    emu.push_command(Command::char(0, 2, 'y', ' ', 1));
    assert_eq!(
        emu.rollback_all(),
        b"\x1b[1;3H \x1b[1;2Hb\x1b[1;2Hb\x1b[1;3H".to_vec()
    );
    assert_eq!(emu.pending_count(), 0);
}

#[test]
fn predictions_can_be_taken_off_again() {
    let mut emu = Emulator::new(80, 24);
    assert_eq!(emu.pop_command(), None);
    assert_eq!(emu.pop_last_char_command(), None);
    emu.push_command(Command::char(0, 0, 'a', ' ', 1));
    emu.push_command(Command::char(0, 1, 'b', ' ', 1));
    emu.push_command(Command::backspace(0, 1, ' ', 1));
    assert_eq!(emu.pending_backspace_count(), 1);
    assert_eq!(emu.pending_cursor_delta(), 1);
    assert_eq!(
        emu.pop_last_char_command(),
        Some(Command::char(0, 1, 'b', ' ', 1))
    );
    assert_eq!(emu.pop_command(), Some(Command::backspace(0, 1, ' ', 1)));
    assert_eq!(emu.pop_command(), Some(Command::char(0, 0, 'a', ' ', 1)));
    assert_eq!(emu.pending_count(), 0);
}

#[test]
fn the_first_column_holds_the_end_of_the_predictions_back() {
    let mut emu = Emulator::new(80, 24);
    emu.push_command(Command::backspace(0, 0, ' ', 1));
    emu.push_command(Command::backspace(0, 0, ' ', 1));
    assert_eq!(emu.pending_cursor_delta(), -2);
    assert_eq!(emu.pending_width(), 2);
    assert_eq!(emu.prediction_end_cursor(), (0, 0));
}

#[test]
fn a_move_to_the_left_confirms_a_backspace_for_each_column() {
    let mut emu = Emulator::new(80, 24);
    emu.feed_and_verify(b"hello");
    for col in [4usize, 3, 2] {
        emu.push_command(Command::backspace(0, col, ' ', 1));
    }
    let result = emu.feed_and_verify(b"\x08\x08");
    assert!(matches!(result, VerifyResult::Confirmed(2)));
    assert_eq!(emu.pending_count(), 1);
    // more columns than there are backspaces
    let result = emu.feed_and_verify(b"\r");
    assert!(matches!(result, VerifyResult::Confirmed(1)));
    assert_eq!(emu.pending_count(), 0);
}

#[test]
fn the_usual_answer_to_a_backspace_confirms_it() {
    let mut emu = Emulator::new(80, 24);
    emu.feed_and_verify(b"hello ");
    emu.push_command(Command::backspace(0, 5, ' ', 1));
    let result = emu.feed_and_verify(b"\x08 \x08");
    assert!(matches!(result, VerifyResult::Confirmed(1)));
    assert_eq!(emu.pending_count(), 0);
    assert_eq!(emu.server_cursor(), (0, 5));
    assert_eq!(emu.prediction_end_cursor(), (0, 5));
}

#[test]
fn a_delete_character_confirms_a_backspace() {
    let mut emu = Emulator::new(80, 24);
    emu.feed_and_verify(b"hello ");
    for col in [5usize, 4, 3] {
        emu.push_command(Command::backspace(0, col, ' ', 1));
    }
    assert!(matches!(emu.feed_and_verify(b"\x7f"), VerifyResult::Confirmed(1)));
    assert!(matches!(emu.feed_and_verify(b"\x7f\x7f\x7f"), VerifyResult::Confirmed(2)));
    assert_eq!(emu.pending_count(), 0);
    // it says nothing of a predicted character
    emu.push_command(Command::char(0, 6, 'x', ' ', 1));
    assert!(matches!(emu.feed_and_verify(b"\x7f"), VerifyResult::Pending));
}

#[test]
fn a_blank_that_moves_right_contradicts_a_backspace() {
    let mut emu = Emulator::new(80, 24);
    emu.feed_and_verify(b"hello");
    emu.push_command(Command::backspace(0, 4, 'o', 1));
    assert!(matches!(emu.feed_and_verify(b" "), VerifyResult::Rollback(_)));
}

#[test]
fn a_probe_measures_its_echo_and_is_never_drawn() {
    let mut emu = Emulator::new(80, 24);
    emu.push_probe_at(Command::char(0, 0, 'a', ' ', 1), 0);
    assert!(!emu.any_shown());
    assert_eq!(emu.newest(), Some(Command::char(0, 0, 'a', ' ', 1)));
    assert!(matches!(emu.feed_and_verify_at(b"a", 7), VerifyResult::Confirmed(1)));
    assert_eq!(emu.get_srtt(), Some(7));
    emu.push_probe_at(Command::char(0, 1, 'b', ' ', 1), 0);
    emu.check_glitch_at(u64::MAX);
    assert!(!emu.should_predict());
    match emu.feed_and_verify_at(b"x", 1_000) {
        // nothing but the cursor
        VerifyResult::Rollback(undo) => assert_eq!(undo, b"\x1b[1;3H".to_vec()),
        _ => panic!("no contradiction"),
    }
    assert_eq!(emu.measurements().srtt, Some(7));
}

#[test]
fn colours_of_any_length_leave_the_screen_as_it_is() {
    let mut emu = Emulator::new(80, 24);
    for digits in [3usize, 12, 22, 23, 47, 49, 200, 2_000] {
        let colour = format!("\x1b]4;1;#{}\x07", "0".repeat(digits));
        for piece in colour.as_bytes().chunks(5) {
            assert!(matches!(emu.feed_and_verify(piece), VerifyResult::Pending));
        }
        assert_eq!(emu.server_cursor(), (0, 0));
    }
    emu.feed_and_verify(b"#0000000000000000000000000000000000000000000000000");
    assert_eq!(emu.server_cursor(), (0, 50));
    assert_eq!(emu.char_at(0, 49), '0');
}

#[test]
fn colours_may_hold_more_than_digits() {
    let mut emu = Emulator::new(80, 24);
    for (digits, others) in [(17, 34), (9, 18), (17, 33), (16, 34), (30, 60)] {
        let colour = format!("\x1b]10;#{}{}\x07", "0".repeat(digits), "x".repeat(others));
        assert!(matches!(emu.feed_and_verify(colour.as_bytes()), VerifyResult::Pending));
        assert_eq!(emu.server_cursor(), (0, 0));
    }
    emu.feed_and_verify(b"a");
    assert_eq!(emu.char_at(0, 0), 'a');
}

#[test]
fn a_character_in_pieces_hides_no_escape() {
    let mut emu = Emulator::new(80, 24);
    emu.feed_and_verify(&[0xC4]);
    assert_eq!(emu.server_cursor(), (0, 0));
    let mut rest = vec![0xB8, 0x1b, 0xF0, b']', b'#'];
    rest.extend([b'0'; 30]);
    emu.feed_and_verify(&rest);
    // the character, and then a command that goes on
    assert_eq!(emu.char_at(0, 0), '\u{138}');
    assert_eq!(emu.server_cursor(), (0, 1));
    let mut text = vec![0x07, b'#'];
    text.extend([b'0'; 30]);
    emu.feed_and_verify(&text);
    assert_eq!(emu.server_cursor(), (0, 32));
    assert_eq!(emu.char_at(0, 31), '0');
}

#[test]
fn characters_may_arrive_in_pieces() {
    let mut emu = Emulator::new(80, 24);
    for byte in "a가😀b".as_bytes() {
        emu.feed_and_verify(&[*byte]);
    }
    assert_eq!(emu.char_at(0, 1), '가');
    assert_eq!(emu.char_at(0, 5), 'b');
    assert_eq!(emu.server_cursor(), (0, 6));
    // one that is given up leaves a mark, and what follows is shown
    emu.feed_and_verify(&[0xEA]);
    assert_eq!(emu.server_cursor(), (0, 6));
    emu.feed_and_verify(b"c\x1b[0md");
    assert_eq!(emu.char_at(0, 6), '\u{fffd}');
    assert_eq!(emu.char_at(0, 7), 'c');
    assert_eq!(emu.char_at(0, 8), 'd');
}

#[test]
fn a_result_fits_what_becomes_of_the_predictions() {
    let mut emu = Emulator::new(80, 24);
    for (i, ch) in ['a', 'b', 'c'].into_iter().enumerate() {
        emu.push_command_at(Command::char(0, i, ch, ' ', 1), 0);
    }
    assert!(matches!(emu.feed_and_verify_at(b"\x1b[0m", 3), VerifyResult::Pending));
    assert_eq!((emu.pending_count(), emu.get_srtt()), (3, None));
    assert!(matches!(emu.feed_and_verify_at(b"ab", 4), VerifyResult::Confirmed(2)));
    assert_eq!((emu.pending_count(), emu.get_srtt()), (1, Some(4)));
    assert_eq!(emu.newest(), Some(Command::char(0, 2, 'c', ' ', 1)));
    assert!(matches!(emu.feed_and_verify_at(b"x", 4), VerifyResult::Rollback(_)));
    assert_eq!((emu.pending_count(), emu.get_srtt()), (0, Some(4)));
    emu.push_command_at(Command::char(0, 3, 'd', ' ', 1), 0);
    assert!(matches!(emu.feed_and_verify_at(b"\x1b[?1049h", 90), VerifyResult::Pending));
    assert_eq!((emu.pending_count(), emu.get_srtt()), (0, Some(4)));
}

#[test]
fn a_printed_character_contradicts_a_backspace() {
    let mut emu = Emulator::new(80, 24);
    emu.feed_and_verify(b"hello");
    emu.push_command(Command::backspace(0, 4, 'o', 1));
    let result = emu.feed_and_verify(b"x");
    match result {
        // the erased cell and then the cursor behind the new character
        VerifyResult::Rollback(undo) => assert_eq!(undo, b"\x1b[1;5Ho\x1b[1;7H".to_vec()),
        _ => panic!("no contradiction"),
    }
}

#[test]
fn characters_before_the_wrong_one_are_confirmed_and_not_undone() {
    let mut emu = Emulator::new(80, 24);
    emu.push_command(Command::char(0, 0, 'a', ' ', 1));
    emu.push_command(Command::char(0, 1, 'b', ' ', 1));
    match emu.feed_and_verify(b"ax") {
        VerifyResult::Rollback(undo) => assert_eq!(undo, b"\x1b[1;2Hx\x1b[1;3H".to_vec()),
        _ => panic!("no contradiction"),
    }
    assert_eq!(emu.pending_count(), 0);
}

#[test]
fn a_predicted_cursor_move_is_neither_confirmed_nor_contradicted() {
    let mut emu = Emulator::new(80, 24);
    emu.push_command(Command::cursor_move(0, 0, Direction::Right));
    assert!(matches!(emu.feed_and_verify(b"x"), VerifyResult::Pending));
    assert!(matches!(emu.feed_and_verify(b"\x1b[C"), VerifyResult::Pending));
    assert_eq!(emu.pending_count(), 1);
}

#[test]
fn output_without_effect_leaves_predictions_pending() {
    let mut emu = Emulator::new(80, 24);
    emu.push_command(Command::char(0, 0, 'a', ' ', 1));
    assert!(matches!(emu.feed_and_verify(b"\x1b[0m\x07"), VerifyResult::Pending));
    assert_eq!(emu.pending_count(), 1);
}

#[test]
fn a_verdict_can_be_passed_on_given_positions() {
    let mut emu = Emulator::new(80, 24);
    emu.push_command_at(Command::char(0, 3, 'a', ' ', 1), 0);
    assert!(matches!(emu.verify(b"", (0, 3), (0, 3), 0), VerifyResult::Pending));
    assert!(matches!(emu.verify(b"a", (0, 3), (0, 4), 0), VerifyResult::Confirmed(1)));
    emu.push_command_at(Command::backspace(0, 3, 'a', 1), 0);
    assert!(matches!(emu.verify_backspaces(0, 0), VerifyResult::Pending));
    assert!(matches!(emu.verify_backspaces(5, 0), VerifyResult::Confirmed(1)));
    assert!(matches!(emu.verify_backspaces(5, 0), VerifyResult::Pending));
}

#[test]
fn the_width_of_a_character_is_given_or_looked_up() {
    let handler = InputHandler::new();
    let emu = Emulator::new(80, 24);
    assert_eq!(
        handler.create_command('x', Some(2), &emu),
        Command::char(0, 0, 'x', ' ', 2)
    );
    assert_eq!(
        handler.create_command('x', None, &emu),
        Command::char(0, 0, 'x', ' ', 1)
    );
    // a combining mark takes no column, a control character is given one
    assert_eq!(handler.create_char_command('\u{301}', &emu).width(), 0);
    assert_eq!(handler.create_char_command('\u{9b}', &emu).width(), 1);
    assert_eq!(handler.create_char_command('😀', &emu).width(), 2);
}

#[test]
fn input_bytes_complete_characters() {
    let mut handler = InputHandler::new();
    assert_eq!(handler.take_byte(b'a'), Some('a'));
    let bytes = "😀".as_bytes();
    assert_eq!(handler.take_byte(bytes[0]), None);
    assert_eq!(handler.take_byte(bytes[1]), None);
    assert_eq!(handler.take_byte(bytes[2]), None);
    assert_eq!(handler.take_byte(bytes[3]), Some('😀'));
    // what is no character after five bytes is given up
    for _ in 0..5 {
        assert_eq!(handler.take_byte(0x80), None);
    }
    assert_eq!(handler.take_byte(0xC3), None);
    assert_eq!(handler.take_byte(0xA9), Some('é'));
    // an arrow key, and a printable character behind a lone escape
    assert_eq!(handler.take_byte(0x1b), None);
    assert_eq!(handler.take_byte(b'['), None);
    assert_eq!(handler.take_byte(b'A'), None);
    assert_eq!(handler.take_byte(0x1b), None);
    assert_eq!(handler.handle_escape_byte(b'x'), Some('x'));
    assert_eq!(handler.take_byte(0x1b), None);
    assert_eq!(handler.take_byte(b'\r'), None);
    assert_eq!(handler.take_byte(b'y'), Some('y'));
}

#[test]
fn a_handler_predicts_where_it_is_told_to() {
    let mut handler = InputHandler::new();
    let mut emu = Emulator::new(80, 24);
    assert!(handler.predicts_on(&emu, false));
    assert!(!handler.predicts_on(&emu, true));
    let mut state = emu.measurements();
    state.srtt_trigger = true;
    emu.set_measurements(state);
    assert!(handler.predicts_on(&emu, true));
    emu.feed_and_verify(b"\x1b[?1049h");
    assert!(!handler.predicts_on(&emu, true));
    assert_eq!(handler.handle_byte(b'a', &emu, true), None);
    handler.set_ignore_alt_screen(true);
    assert_eq!(
        handler.handle_byte(b'a', &emu, true),
        Some(Command::char(0, 0, 'a', ' ', 1))
    );
    handler.set_enabled(false);
    assert!(!handler.predicts_on(&emu, false));
}
