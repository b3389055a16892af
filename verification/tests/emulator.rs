use lep::adaptive::SRTT_TRIGGER_HIGH;
use lep::clock::MILLISECOND;
use lep::command::Command;
use lep::emulator::{Emulator, VerifyResult};
use std::time::{Duration, Instant};

/// Lets some time pass.
fn pause(millis: u64) {
    let start = Instant::now();
    while start.elapsed() < Duration::from_millis(millis) {}
}

#[test]
fn test_emulator_char_confirmed() {
    let mut emu = Emulator::new(80, 24);

    // Add prediction
    let cmd = Command::char(0, 0, 'a', ' ', 1);
    emu.push_command(cmd);
    assert_eq!(emu.pending_count(), 1);

    // Server echoes 'a'
    let result = emu.feed_and_verify(b"a");
    assert!(matches!(result, VerifyResult::Confirmed(1)));
    assert_eq!(emu.pending_count(), 0);
}

#[test]
fn test_emulator_char_failed() {
    let mut emu = Emulator::new(80, 24);

    // Add prediction
    let cmd = Command::char(0, 0, 'a', ' ', 1);
    emu.push_command(cmd);

    // Server echoes 'x' instead
    let result = emu.feed_and_verify(b"x");
    assert!(matches!(result, VerifyResult::Rollback(_)));
    assert_eq!(emu.pending_count(), 0);
}

#[test]
fn test_emulator_multiple_commands() {
    let mut emu = Emulator::new(80, 24);

    // Add predictions
    emu.push_command(Command::char(0, 0, 'a', ' ', 1));
    emu.push_command(Command::char(0, 1, 'b', ' ', 1));
    emu.push_command(Command::char(0, 2, 'c', ' ', 1));
    assert_eq!(emu.pending_count(), 3);

    // Server echoes 'a'
    let result = emu.feed_and_verify(b"a");
    assert!(matches!(result, VerifyResult::Confirmed(1)));
    assert_eq!(emu.pending_count(), 2);

    // Server echoes 'bc'
    let result = emu.feed_and_verify(b"bc");
    assert!(matches!(result, VerifyResult::Confirmed(2)));
    assert_eq!(emu.pending_count(), 0);
}

#[test]
fn test_emulator_server_cursor() {
    let mut emu = Emulator::new(80, 24);

    assert_eq!(emu.server_cursor(), (0, 0));

    emu.feed_and_verify(b"hello");
    assert_eq!(emu.server_cursor(), (0, 5));
}

#[test]
fn test_emulator_pending_width() {
    let mut emu = Emulator::new(80, 24);

    emu.push_command(Command::char(0, 0, 'a', ' ', 1));
    emu.push_command(Command::char(0, 1, '가', ' ', 2));
    assert_eq!(emu.pending_width(), 3);
}

#[test]
fn test_emulator_alt_screen() {
    let mut emu = Emulator::new(80, 24);

    emu.push_command(Command::char(0, 0, 'a', ' ', 1));
    assert_eq!(emu.pending_count(), 1);

    // Enter alternate screen
    emu.feed_and_verify(b"\x1b[?1049h");
    assert!(emu.in_alt_screen());
    assert_eq!(emu.pending_count(), 0); // cleared

    // Exit alternate screen
    emu.feed_and_verify(b"\x1b[?1049l");
    assert!(!emu.in_alt_screen());
}

/// A confirmed backspace leaves the cursor where the server has it
#[test]
fn test_backspace_confirmed_clears_delta() {
    let mut emu = Emulator::new(80, 24);

    // Server echoes "hello " (simulating already confirmed chars)
    emu.feed_and_verify(b"hello ");
    assert_eq!(emu.server_cursor(), (0, 6));
    assert_eq!(emu.prediction_end_cursor(), (0, 6));

    // User presses backspace - Backspace command pushed
    // col=5 is the target position (where space will appear)
    let bs_cmd = Command::backspace(0, 5, ' ', 1);
    emu.push_command(bs_cmd);

    // prediction_end_cursor moves left by 1 (delta = -1)
    assert_eq!(emu.prediction_end_cursor(), (0, 5));

    // Server processes backspace (sends "\b \b")
    emu.feed_and_verify(b"\x08 \x08"); // backspace, space, backspace

    // After server confirms backspace, pending should be empty
    assert_eq!(emu.pending_count(), 0);
    assert_eq!(emu.server_cursor(), (0, 5));
    assert_eq!(emu.prediction_end_cursor(), (0, 5));
}

/// Multiple backspaces accumulate delta
///
/// Each Backspace has delta=-1, so prediction_end_cursor moves left
#[test]
fn test_multiple_backspace_targets_correct_positions() {
    let mut emu = Emulator::new(80, 24);

    // Server echoes "hello"
    emu.feed_and_verify(b"hello");
    assert_eq!(emu.server_cursor(), (0, 5));
    assert_eq!(emu.char_at(0, 4), 'o');
    assert_eq!(emu.char_at(0, 3), 'l');
    assert_eq!(emu.char_at(0, 2), 'l');

    // First backspace: targets col 4 (where 'o' is), original='o'
    let bs1 = Command::backspace(0, 4, 'o', 1);
    emu.push_command(bs1);
    // prediction_end_cursor moves left by 1
    assert_eq!(emu.prediction_end_cursor(), (0, 4));

    // Second backspace: targets col 3 (where 'l' is), original='l'
    let bs2 = Command::backspace(0, 3, 'l', 1);
    emu.push_command(bs2);
    assert_eq!(emu.prediction_end_cursor(), (0, 3));

    // Third backspace: targets col 2 (where 'l' is), original='l'
    let bs3 = Command::backspace(0, 2, 'l', 1);
    emu.push_command(bs3);
    assert_eq!(emu.prediction_end_cursor(), (0, 2));

    // All backspaces should be Pending
    assert_eq!(emu.pending_count(), 3);
}

/// The end of the predictions tells which cell the next backspace erases
#[test]
fn test_backspace_char_at_uses_correct_position() {
    let mut emu = Emulator::new(80, 24);

    // Server echoes "hello"
    emu.feed_and_verify(b"hello");
    assert_eq!(emu.server_cursor(), (0, 5));

    // First backspace: prediction_end is (0, 5), target = 5 - 1 = 4
    let (row, col) = emu.prediction_end_cursor();
    assert_eq!((row, col), (0, 5));
    let target_col = col - 1; // 4
    let original_char = emu.char_at(row, target_col);
    assert_eq!(original_char, 'o', "First backspace should target 'o'");

    let bs1 = Command::backspace(row, target_col, original_char, 1);
    emu.push_command(bs1);

    // prediction_end_cursor moves left (delta=-1)
    assert_eq!(emu.prediction_end_cursor(), (0, 4));
    assert_eq!(emu.server_cursor(), (0, 5)); // server unchanged

    // Second backspace: prediction_end is now (0, 4), target = 4 - 1 = 3
    let (row, col) = emu.prediction_end_cursor();
    let target_col = col - 1; // 3
    let original_char = emu.char_at(row, target_col);
    assert_eq!(original_char, 'l', "Second backspace should target 'l'");

    let bs2 = Command::backspace(row, target_col, original_char, 1);
    emu.push_command(bs2);

    assert_eq!(emu.prediction_end_cursor(), (0, 3));
    assert_eq!(emu.pending_count(), 2);
}

/// A DEL from the server is taken in without trouble
#[test]
fn test_server_echoes_del() {
    let mut emu = Emulator::new(80, 24);

    // Server echoes "hello"
    emu.feed_and_verify(b"hello");
    assert_eq!(emu.server_cursor(), (0, 5));
    assert_eq!(emu.char_at(0, 4), 'o');

    // Server echoes \x7f (DEL)
    emu.feed_and_verify(b"\x7f");

    println!("cursor after DEL: {:?}", emu.server_cursor());
    println!("char at 0,4: {:?}", emu.char_at(0, 4));
    println!("char at 0,5: {:?}", emu.char_at(0, 5));
}

/// Multiple backspaces accumulate delta
///
/// prediction_end_cursor moves left with each backspace
#[test]
fn test_multiple_backspace_verify_bug() {
    let mut emu = Emulator::new(80, 24);

    // Server echoes "hello " (6 chars, cursor at col 6)
    emu.feed_and_verify(b"hello ");
    assert_eq!(emu.server_cursor(), (0, 6));

    // User types 3 backspaces
    // Backspace 1: targets col 5 (where ' ' is), original=' '
    let bs1 = Command::backspace(0, 5, ' ', 1);
    emu.push_command(bs1);

    // Backspace 2: targets col 4 (where 'o' is), original='o'
    let bs2 = Command::backspace(0, 4, 'o', 1);
    emu.push_command(bs2);

    // Backspace 3: targets col 3 (where 'l' is), original='l'
    let bs3 = Command::backspace(0, 3, 'l', 1);
    emu.push_command(bs3);

    assert_eq!(emu.pending_count(), 3);
    // prediction_end_cursor moves left by 3 (delta=-1 each)
    assert_eq!(emu.prediction_end_cursor(), (0, 3));

    // Server echoes \x7f - this doesn't change emulator state much
    let result = emu.feed_and_verify(b"\x7f");
    println!(
        "After first \\x7f: result={:?}, pending={}",
        result,
        emu.pending_count()
    );
}

/// vim hjkl: Char prediction + cursor move (no printable char) = rollback
///
/// In vim normal mode, pressing 'h' moves cursor left instead of inserting 'h'.
/// If we predicted 'h' as a Char, server response will be cursor move only.
/// This should trigger rollback.
#[test]
fn test_vim_hjkl_rollback() {
    let mut emu = Emulator::new(80, 24);

    // Set up: cursor at col 5 (simulate being in middle of line)
    emu.feed_and_verify(b"hello");
    assert_eq!(emu.server_cursor(), (0, 5));

    // User types 'h' - we predict it as Char insertion
    let cmd = Command::char(0, 5, 'h', ' ', 1);
    emu.push_command(cmd);
    assert_eq!(emu.pending_count(), 1);

    // vim sends cursor left escape sequence instead of 'h'
    // \x1b[D = cursor left
    let result = emu.feed_and_verify(b"\x1b[D");

    // Should rollback because Char prediction got cursor move instead
    assert!(matches!(result, VerifyResult::Rollback(_)));
    assert_eq!(emu.pending_count(), 0);
    // Cursor should be at col 4 now (moved left by vim)
    assert_eq!(emu.server_cursor(), (0, 4));
}

/// vim 'l' (cursor right): same pattern as 'h'
#[test]
fn test_vim_l_cursor_right_rollback() {
    let mut emu = Emulator::new(80, 24);

    // Set up: cursor at col 3
    emu.feed_and_verify(b"abc");
    assert_eq!(emu.server_cursor(), (0, 3));

    // Move cursor back to col 1 (simulate being in middle)
    emu.feed_and_verify(b"\x1b[1;2H"); // move to col 1 (0-indexed)
    assert_eq!(emu.server_cursor(), (0, 1));

    // User types 'l' - we predict it as Char insertion
    let cmd = Command::char(0, 1, 'l', 'b', 1);
    emu.push_command(cmd);

    // vim sends cursor right escape sequence
    // \x1b[C = cursor right
    let result = emu.feed_and_verify(b"\x1b[C");

    // Should rollback
    assert!(matches!(result, VerifyResult::Rollback(_)));
    assert_eq!(emu.pending_count(), 0);
}

/// vim 'j' (cursor down): Char prediction + row change = rollback
#[test]
fn test_vim_j_cursor_down_rollback() {
    let mut emu = Emulator::new(80, 24);

    // Set up: two lines, cursor at row 0
    emu.feed_and_verify(b"line1\r\nline2");
    emu.feed_and_verify(b"\x1b[1;3H"); // move to row 0, col 2
    assert_eq!(emu.server_cursor(), (0, 2));

    // User types 'j' - we predict it as Char insertion
    let cmd = Command::char(0, 2, 'j', 'n', 1);
    emu.push_command(cmd);

    // vim sends cursor down
    // \x1b[B = cursor down
    let result = emu.feed_and_verify(b"\x1b[B");

    // Should rollback
    assert!(matches!(result, VerifyResult::Rollback(_)));
    assert_eq!(emu.pending_count(), 0);
}

// ========================================================================
// Adaptive Prediction Tests
// ========================================================================

#[test]
fn test_adaptive_initial_state() {
    let emu = Emulator::new(80, 24);

    // Initially, no SRTT data, so should_predict is false
    assert!(!emu.should_predict());
    assert!(!emu.should_flag());
    assert!(emu.get_srtt().is_none());
}

#[test]
fn test_adaptive_srtt_trigger() {
    let mut emu = Emulator::new(80, 24);

    // Add a prediction
    let cmd = Command::char(0, 0, 'a', ' ', 1);
    emu.push_command(cmd);

    // Simulate slow RTT (50ms) - should trigger prediction
    pause(50);
    let result = emu.feed_and_verify(b"a");
    assert!(matches!(result, VerifyResult::Confirmed(1)));

    // SRTT should be set now
    assert!(emu.get_srtt().is_some());
    let srtt = emu.get_srtt().unwrap();

    // If SRTT > 30ms, should_predict should be true
    if srtt > SRTT_TRIGGER_HIGH {
        assert!(emu.should_predict());
    }
}

#[test]
fn test_adaptive_glitch_trigger() {
    let mut emu = Emulator::new(80, 24);

    // Initially no glitch
    assert_eq!(emu.measurements().glitch_trigger, 0);

    // Add a long-pending prediction (simulate glitch)
    let cmd = Command::char(0, 0, 'a', ' ', 1);
    emu.push_command(cmd);

    // The prediction has hardly waited, so this is no glitch yet
    emu.check_glitch();
}

#[test]
fn test_adaptive_reset() {
    let mut emu = Emulator::new(80, 24);

    // Manually set some state
    let mut state = emu.measurements();
    state.srtt_trigger = true;
    state.glitch_trigger = 5;
    state.flagging = true;
    emu.set_measurements(state);

    // Reset
    emu.reset_adaptive();

    // All adaptive state should be cleared
    assert!(!emu.measurements().srtt_trigger);
    assert_eq!(emu.measurements().glitch_trigger, 0);
    assert!(!emu.measurements().flagging);
}

#[test]
fn test_adaptive_flagging_hysteresis() {
    let mut emu = Emulator::new(80, 24);

    // Set high SRTT to trigger flagging
    let mut state = emu.measurements();
    state.srtt = Some(100 * MILLISECOND);
    emu.set_measurements(state); // > FLAG_TRIGGER_HIGH (80ms)
    emu.update_triggers();
    assert!(emu.should_flag());

    // Lower SRTT below FLAG_TRIGGER_LOW
    let mut state = emu.measurements();
    state.srtt = Some(40 * MILLISECOND);
    emu.set_measurements(state); // < FLAG_TRIGGER_LOW (50ms)
    emu.update_triggers();
    assert!(!emu.should_flag());
}

#[test]
fn test_rtt_measured_on_rollback() {
    let mut emu = Emulator::new(80, 24);

    // No SRTT initially
    assert!(emu.get_srtt().is_none());

    // Set up: cursor at col 5
    emu.feed_and_verify(b"hello");
    assert_eq!(emu.server_cursor(), (0, 5));

    // User types 'h' - we predict it as Char insertion
    let cmd = Command::char(0, 5, 'h', ' ', 1);
    emu.push_command(cmd);

    // Small delay to get measurable RTT
    pause(10);

    // vim sends cursor left - triggers rollback
    let result = emu.feed_and_verify(b"\x1b[D");
    assert!(matches!(result, VerifyResult::Rollback(_)));

    // SRTT should now be set even though it was a rollback
    assert!(emu.get_srtt().is_some());
    let srtt = emu.get_srtt().unwrap();
    assert!(srtt >= 10 * MILLISECOND);
}

#[test]
fn test_rtt_measured_on_char_mismatch() {
    let mut emu = Emulator::new(80, 24);

    // No SRTT initially
    assert!(emu.get_srtt().is_none());

    // Add prediction for 'a'
    let cmd = Command::char(0, 0, 'a', ' ', 1);
    emu.push_command(cmd);

    // Small delay
    pause(10);

    // Server echoes 'x' instead - mismatch rollback
    let result = emu.feed_and_verify(b"x");
    assert!(matches!(result, VerifyResult::Rollback(_)));

    // SRTT should be set
    assert!(emu.get_srtt().is_some());
}

// ========================================================================
// Wide Character Tests
// ========================================================================

#[test]
fn test_wide_char_confirmed() {
    let mut emu = Emulator::new(80, 24);

    // Add prediction for wide character '가' (width 2)
    let cmd = Command::char(0, 0, '가', ' ', 2);
    emu.push_command(cmd);
    assert_eq!(emu.pending_count(), 1);

    // Server echoes '가'
    let result = emu.feed_and_verify("가".as_bytes());
    assert!(matches!(result, VerifyResult::Confirmed(1)));
    assert_eq!(emu.pending_count(), 0);
    // Cursor should be at col 2 (moved by width)
    assert_eq!(emu.server_cursor(), (0, 2));
}

#[test]
fn test_multiple_wide_chars_confirmed() {
    let mut emu = Emulator::new(80, 24);

    // Add predictions for "안녕" (2 wide chars, each width 2)
    emu.push_command(Command::char(0, 0, '안', ' ', 2));
    emu.push_command(Command::char(0, 2, '녕', ' ', 2));
    assert_eq!(emu.pending_count(), 2);

    // Server echoes both
    let result = emu.feed_and_verify("안녕".as_bytes());
    assert!(matches!(result, VerifyResult::Confirmed(2)));
    assert_eq!(emu.pending_count(), 0);
    assert_eq!(emu.server_cursor(), (0, 4));
}

#[test]
fn test_mixed_ascii_wide_chars() {
    let mut emu = Emulator::new(80, 24);

    // "a가b" - ascii, wide, ascii
    emu.push_command(Command::char(0, 0, 'a', ' ', 1));
    emu.push_command(Command::char(0, 1, '가', ' ', 2));
    emu.push_command(Command::char(0, 3, 'b', ' ', 1));
    assert_eq!(emu.pending_count(), 3);

    // Server echoes "a가b"
    let result = emu.feed_and_verify("a가b".as_bytes());
    assert!(matches!(result, VerifyResult::Confirmed(3)));
    assert_eq!(emu.server_cursor(), (0, 4));
}

// ========================================================================
// Timeout Tests
// ========================================================================

#[test]
fn test_timeout_no_pending() {
    let mut emu = Emulator::new(80, 24);

    // No pending commands, timeout should return None
    let result = emu.check_timeout();
    assert!(result.is_none());
}

#[test]
fn test_time_until_expire() {
    let mut emu = Emulator::new(80, 24);

    // No pending, should be None
    assert!(emu.time_until_expire().is_none());

    // Add command
    emu.push_command(Command::char(0, 0, 'a', ' ', 1));

    // Should have some time until expire
    let time = emu.time_until_expire();
    assert!(time.is_some());
    assert!(time.unwrap() > 0);
}

// ========================================================================
// Rollback Tests
// ========================================================================

#[test]
fn test_rollback_restores_original() {
    let mut emu = Emulator::new(80, 24);

    // Server has "hello"
    emu.feed_and_verify(b"hello");
    assert_eq!(emu.server_cursor(), (0, 5));

    // Add prediction at col 5
    emu.push_command(Command::char(0, 5, 'x', ' ', 1));

    // Rollback
    let undo = emu.rollback_all();

    // Should contain cursor positioning
    let undo_str = String::from_utf8_lossy(&undo);
    assert!(undo_str.contains("\x1b[")); // escape sequence
    assert_eq!(emu.pending_count(), 0);
}
