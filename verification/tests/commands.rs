use lep::command::{Command, Direction};

#[test]
fn test_char_execute_with_flag() {
    let cmd = Command::char(0, 0, 'a', ' ', 1);
    let output = cmd.execute(true);
    let output_str = String::from_utf8_lossy(&output);
    assert!(output_str.contains("\x1b[1;1H")); // move to (0,0)
    assert!(output_str.contains("\x1b[4m")); // underline on
    assert!(output_str.contains('a'));
    assert!(output_str.contains("\x1b[24m")); // underline off
}

#[test]
fn test_char_execute_without_flag() {
    let cmd = Command::char(0, 0, 'a', ' ', 1);
    let output = cmd.execute(false);
    let output_str = String::from_utf8_lossy(&output);
    assert!(output_str.contains("\x1b[1;1H")); // move to (0,0)
    assert!(!output_str.contains("\x1b[4m")); // no underline
    assert!(output_str.contains('a'));
}

#[test]
fn test_char_execute_wide() {
    let cmd = Command::char(0, 0, '가', ' ', 2);
    let output = cmd.execute(true);
    let output_str = String::from_utf8_lossy(&output);
    assert!(output_str.contains('가'));
}

#[test]
fn test_backspace_execute() {
    // Backspace at col 2, original char 'c'
    let cmd = Command::backspace(0, 2, 'c', 1);
    let output = cmd.execute(true);
    let output_str = String::from_utf8_lossy(&output);
    assert!(output_str.contains("\x1b[1;3H")); // move to (0,2) - 1-indexed
    assert!(output_str.contains("\x1b[4m")); // underline on
    assert!(output_str.contains(' ')); // space to clear
}

#[test]
fn test_cursor_delta() {
    assert_eq!(Command::char(0, 0, 'a', ' ', 1).cursor_delta(), 1);
    assert_eq!(Command::char(0, 0, '가', ' ', 2).cursor_delta(), 2);
    // Backspace moves cursor left
    assert_eq!(Command::backspace(0, 2, 'c', 1).cursor_delta(), -1);
    assert_eq!(
        Command::cursor_move(0, 5, Direction::Left).cursor_delta(),
        -1
    );
    assert_eq!(
        Command::cursor_move(0, 5, Direction::Right).cursor_delta(),
        1
    );
}
