use lep::cli::PredictMode;
use lep::clock::{MILLISECOND, SECOND};
use lep::session::{InputOutcome, Session};

/// The bytes that show the predictions, all of which lie on the screen.
fn shown(outcome: InputOutcome) -> Vec<u8> {
    match outcome {
        InputOutcome::Shown { overlay, .. } => overlay,
        InputOutcome::OffScreen(_) => panic!("off the screen"),
    }
}

#[test]
fn typed_text_is_shown_underlined_and_confirmed_by_its_echo() {
    let mut s = Session::new(PredictMode::Always, 80, 24);
    let out = shown(s.on_input_at(b"ab", 0));
    assert_eq!(
        out,
        b"\x1b[1;1H\x1b[4ma\x1b[24m\x1b[1;2H\x1b[4mb\x1b[24m".to_vec()
    );
    assert_eq!(s.pending_count(), 2);
    let reply = s.on_output_at(b"ab", 40 * MILLISECOND);
    assert_eq!(reply, Some(b"\x1b[1;1Hab".to_vec()));
    assert_eq!(s.pending_count(), 0);
}

#[test]
fn what_is_typed_is_sent_as_it_stands() {
    for mode in [PredictMode::Always, PredictMode::Auto, PredictMode::Never] {
        let mut s = Session::new(mode, 80, 24);
        let mut sent = Vec::new();
        for typed in [b"ab\x7f".as_slice(), b"\x1b[A", &[0xEA, 0xB0], &[0x80], b"\r"] {
            match s.on_input_at(typed, 0) {
                InputOutcome::Shown { forward, .. } => sent.extend(forward),
                InputOutcome::OffScreen(_) => panic!("off the screen"),
            }
        }
        assert_eq!(sent, b"ab\x7f\x1b[A\xEA\xB0\x80\r".to_vec());
    }
}

#[test]
fn an_echo_in_part_leaves_the_rest_pending() {
    let mut s = Session::new(PredictMode::Always, 80, 24);
    shown(s.on_input_at(b"abc", 0));
    let reply = s.on_output_at(b"a", 0);
    assert_eq!(reply, Some(b"\x1b[1;1Ha\x1b[1;4H".to_vec()));
    assert_eq!(s.pending_count(), 2);
}

#[test]
fn another_answer_is_undone_first() {
    let mut s = Session::new(PredictMode::Always, 80, 24);
    shown(s.on_input_at(b"ab", 0));
    let reply = s.on_output_at(b"x", 0);
    // newest first: the second cell, the first cell (the server has an x there), the cursor
    assert_eq!(
        reply,
        Some(b"\x1b[1;2H \x1b[1;1Hx\x1b[1;2H\x1b[1;1Hx".to_vec())
    );
    assert_eq!(s.pending_count(), 0);
}

#[test]
fn a_wide_character_takes_two_columns() {
    let mut s = Session::new(PredictMode::Always, 80, 24);
    let out = shown(s.on_input_at("가b".as_bytes(), 0));
    assert_eq!(
        out,
        "\x1b[1;1H\x1b[4m가\x1b[24m\x1b[1;3H\x1b[4mb\x1b[24m".as_bytes()
    );
    assert_eq!(s.pending_count(), 2);
}

#[test]
fn a_character_is_predicted_once_however_its_bytes_come() {
    let mut s = Session::new(PredictMode::Always, 80, 24);
    for &byte in &"가".as_bytes()[..2] {
        assert!(shown(s.on_input_at(&[byte], 0)).is_empty());
    }
    assert_eq!(s.pending_count(), 0);
    let last = "가".as_bytes()[2];
    assert_eq!(
        shown(s.on_input_at(&[last], 0)),
        "\x1b[1;1H\x1b[4m가\x1b[24m".as_bytes()
    );
    assert_eq!(s.pending_count(), 1);
}

#[test]
fn backspace_blanks_the_cell_before_the_cursor() {
    let mut s = Session::new(PredictMode::Always, 80, 24);
    s.on_output_at(b"hello", 0);
    let out = shown(s.on_input_at(b"\x7f", 0));
    assert_eq!(out, b"\x1b[1;5H\x1b[4m \x1b[24m".to_vec());
    let reply = s.on_output_at(b"\x08\x1b[K", 0);
    assert_eq!(reply, Some(b"\x1b[1;6H\x08\x1b[K".to_vec()));
    assert_eq!(s.pending_count(), 0);
}

#[test]
fn backspace_in_the_first_column_predicts_nothing() {
    let mut s = Session::new(PredictMode::Always, 80, 24);
    assert!(shown(s.on_input_at(b"\x08", 0)).is_empty());
    assert_eq!(s.pending_count(), 0);
}

#[test]
fn a_typed_character_can_be_taken_back() {
    let mut s = Session::new(PredictMode::Always, 80, 24);
    let out = shown(s.on_input_at(b"a\x7f", 0));
    assert_eq!(
        out,
        b"\x1b[1;1H\x1b[4ma\x1b[24m\x1b[1;1H\x1b[4m \x1b[24m".to_vec()
    );
    assert_eq!(s.pending_count(), 2);
    // the two cancel out, so the server's bytes need no repositioning
    assert_eq!(s.on_output_at(b"a", 0), Some(b"a\x1b[1;1H".to_vec()));
    assert_eq!(s.pending_count(), 1);
}

#[test]
fn predictions_stop_at_the_right_margin() {
    let mut s = Session::new(PredictMode::Always, 4, 2);
    match s.on_input_at(b"abcdef", 0) {
        InputOutcome::OffScreen(out) => {
            assert!(out.ends_with(b"\x1b[1;4H\x1b[4md\x1b[24m"));
        }
        InputOutcome::Shown { .. } => panic!("nothing lies beyond the margin"),
    }
    assert_eq!(s.pending_count(), 4);
}

#[test]
fn escape_sequences_and_control_keys_predict_nothing() {
    let mut s = Session::new(PredictMode::Always, 80, 24);
    assert!(shown(s.on_input_at(b"\x1b[A\x1b[D\r\t\x03", 0)).is_empty());
    assert_eq!(s.pending_count(), 0);
    // a printable character behind a lone escape counts
    assert_eq!(
        shown(s.on_input_at(b"\x1bq", 0)),
        b"\x1b[1;1H\x1b[4mq\x1b[24m".to_vec()
    );
}

#[test]
fn never_is_a_pure_passthrough() {
    let mut s = Session::new(PredictMode::Never, 80, 24);
    assert_eq!(s.on_output_at(b"hello", 0), Some(b"hello".to_vec()));
    assert!(shown(s.on_input_at(b"a\x7f\x08", 0)).is_empty());
    assert_eq!(s.pending_count(), 0);
    assert_eq!(s.on_output_at(b"\x1b[2J", 0), Some(b"\x1b[2J".to_vec()));
    assert_eq!(s.on_timeout_at(100 * SECOND), None);
    assert!(s.on_resize(40, 10).is_empty());
}

#[test]
fn auto_is_silent_until_slow_round_trips_were_measured() {
    let mut s = Session::new(PredictMode::Auto, 80, 24);
    assert!(shown(s.on_input_at(b"l", 0)).is_empty());
    // what was typed waits for its echo to be measured, and nothing is repositioned
    assert_eq!(s.pending_count(), 1);
    assert_eq!(s.measurements().srtt, None);
    assert_eq!(s.on_output_at(b"l", 100 * MILLISECOND), Some(b"l".to_vec()));
    assert_eq!(s.measurements().srtt, Some(100 * MILLISECOND));
    // from now on predictions are shown before their echo, underlined above 80 ms
    assert_eq!(
        shown(s.on_input_at(b"s", 200 * MILLISECOND)),
        b"\x1b[1;2H\x1b[4ms\x1b[24m".to_vec()
    );
    assert_eq!(
        s.on_output_at(b"s", 300 * MILLISECOND),
        Some(b"\x1b[1;2Hs".to_vec())
    );
}

#[test]
fn auto_predicts_behind_what_is_still_being_measured() {
    let mut s = Session::new(PredictMode::Auto, 80, 24);
    assert!(shown(s.on_input_at(b"ab", 0)).is_empty());
    assert_eq!(s.on_output_at(b"a", 60 * MILLISECOND), Some(b"a".to_vec()));
    assert_eq!(
        shown(s.on_input_at(b"c", 70 * MILLISECOND)),
        b"\x1b[1;3Hc".to_vec()
    );
    assert_eq!(
        s.on_output_at(b"bc", 100 * MILLISECOND),
        Some(b"\x1b[1;2Hbc".to_vec())
    );
    assert_eq!(s.pending_count(), 0);
}

#[test]
fn auto_stays_silent_on_a_quick_connection() {
    let mut s = Session::new(PredictMode::Auto, 80, 24);
    for i in 0..20u64 {
        assert!(shown(s.on_input_at(b"x", i * SECOND)).is_empty());
        let reply = s.on_output_at(b"x", i * SECOND + 10 * MILLISECOND);
        assert_eq!(reply, Some(b"x".to_vec()));
    }
    assert_eq!(s.measurements().srtt, Some(10 * MILLISECOND));
}

#[test]
fn auto_learns_nothing_from_keys_that_are_not_echoed() {
    let mut s = Session::new(PredictMode::Auto, 80, 24);
    s.on_output_at(b"Password: ", 0);
    assert!(shown(s.on_input_at(b"secret", 0)).is_empty());
    // neither another answer nor the lack of one measures anything or is undone
    assert_eq!(
        s.on_output_at(b"\r\nWelcome", 3 * SECOND),
        Some(b"\r\nWelcome".to_vec())
    );
    assert_eq!(s.pending_count(), 0);
    assert!(shown(s.on_input_at(b"x", 4 * SECOND)).is_empty());
    assert_eq!(s.on_timeout_at(20 * SECOND), None);
    assert_eq!(s.pending_count(), 0);
    assert_eq!(s.measurements().srtt, None);
    assert_eq!(s.measurements().glitch_trigger, 0);
}

#[test]
fn auto_predicts_nothing_beyond_the_right_margin() {
    let mut s = Session::new(PredictMode::Auto, 4, 2);
    assert!(shown(s.on_input_at(b"abcdef", 0)).is_empty());
    assert_eq!(s.pending_count(), 4);
    assert!(s.on_resize(8, 2).is_empty());
}

#[test]
fn auto_measures_nothing_on_the_alternate_screen() {
    let mut s = Session::new(PredictMode::Auto, 80, 24);
    s.on_output_at(b"\x1b[?1049h", 0);
    assert!(shown(s.on_input_at(b"j\x7f", 0)).is_empty());
    assert_eq!(s.pending_count(), 0);
}

#[test]
fn backspace_takes_a_wide_character_back_whole() {
    let mut s = Session::new(PredictMode::Always, 80, 24);
    shown(s.on_input_at("가".as_bytes(), 0));
    assert_eq!(
        shown(s.on_input_at(b"\x7f", 0)),
        b"\x1b[1;1H\x1b[4m  \x1b[24m".to_vec()
    );
    // and the next character is predicted where the wide one stood
    assert_eq!(
        shown(s.on_input_at(b"x", 0)),
        b"\x1b[1;1H\x1b[4mx\x1b[24m".to_vec()
    );
}

#[test]
fn backspace_takes_a_wide_character_of_the_server_whole() {
    let mut s = Session::new(PredictMode::Always, 80, 24);
    s.on_output_at("a가b".as_bytes(), 0);
    // one column, then two, then one
    assert_eq!(
        shown(s.on_input_at(b"\x7f\x7f\x7f", 0)),
        b"\x1b[1;4H\x1b[4m \x1b[24m\x1b[1;2H\x1b[4m  \x1b[24m\x1b[1;1H\x1b[4m \x1b[24m".to_vec()
    );
    assert_eq!(s.pending_count(), 3);
    let mut s = Session::new(PredictMode::Always, 80, 24);
    s.on_output_at("가".as_bytes(), 0);
    shown(s.on_input_at(b"\x7f", 0));
    assert_eq!(
        s.on_output_at(b"\x08\x08\x1b[K", 0),
        Some(b"\x1b[1;3H\x08\x08\x1b[K".to_vec())
    );
    assert_eq!(s.pending_count(), 0);
    // what was written over a wide character is erased by itself
    let mut s = Session::new(PredictMode::Always, 80, 24);
    s.on_output_at("가\x08x".as_bytes(), 0);
    assert_eq!(
        shown(s.on_input_at(b"\x7f", 0)),
        b"\x1b[1;2H\x1b[4m \x1b[24m".to_vec()
    );
}

#[test]
fn a_backspace_that_the_server_performs_is_confirmed() {
    let mut s = Session::new(PredictMode::Always, 80, 24);
    s.on_output_at(b"hello", 0);
    shown(s.on_input_at(b"\x7f", 0));
    assert_eq!(
        s.on_output_at(b"\x08 \x08", 0),
        Some(b"\x1b[1;6H\x08 \x08".to_vec())
    );
    assert_eq!(s.pending_count(), 0);
}

#[test]
fn always_predicts_on_the_alternate_screen() {
    let mut s = Session::new(PredictMode::Always, 80, 24);
    s.on_output_at(b"\x1b[?1049h", 0);
    shown(s.on_input_at(b"a", 0));
    assert_eq!(s.pending_count(), 1);
    // entering it once more drops what was predicted
    s.on_output_at(b"\x1b[?47h", 0);
    assert_eq!(s.pending_count(), 0);
}

#[test]
fn a_character_in_part_is_held_back() {
    let mut s = Session::new(PredictMode::Never, 80, 24);
    assert_eq!(s.on_output_at(&[0xEA, 0xB0], 0), None);
    assert_eq!(s.on_output_at(&[0x80], 0), Some("가".as_bytes().to_vec()));
}

#[test]
fn unanswered_predictions_expire() {
    let mut s = Session::new(PredictMode::Always, 80, 24);
    assert_eq!(s.poll_timeout_at(0), None);
    shown(s.on_input_at(b"a", SECOND));
    assert_eq!(s.poll_timeout_at(SECOND), Some(5_000));
    assert_eq!(s.poll_timeout_at(6 * SECOND - MILLISECOND / 2), Some(1));
    assert_eq!(s.on_timeout_at(6 * SECOND - 1), None);
    assert_eq!(
        s.on_timeout_at(6 * SECOND),
        Some(b"\x1b[1;1H \x1b[1;1H".to_vec())
    );
    assert_eq!(s.pending_count(), 0);
}

#[test]
fn round_trips_set_the_timeout() {
    let mut s = Session::new(PredictMode::Always, 80, 24);
    shown(s.on_input_at(b"a", 0));
    s.on_output_at(b"a", SECOND);
    shown(s.on_input_at(b"b", 2 * SECOND));
    // three times the one second that was measured
    assert_eq!(s.poll_timeout_at(2 * SECOND), Some(3_000));
    assert_eq!(s.poll_timeout_at(5 * SECOND), Some(1));
}

#[test]
fn a_new_window_size_starts_afresh() {
    let mut s = Session::new(PredictMode::Always, 80, 24);
    s.on_output_at(b"hello", 0);
    shown(s.on_input_at(b"x", 0));
    assert_eq!(s.on_resize(4, 2), b"\x1b[1;6H \x1b[1;6H".to_vec());
    assert_eq!(s.pending_count(), 0);
    // the next prediction is made on the new, empty screen
    assert_eq!(
        shown(s.on_input_at(b"y", 0)),
        b"\x1b[1;1H\x1b[4my\x1b[24m".to_vec()
    );
}

#[test]
fn typing_now_waiting_now_and_answering_now() {
    let mut s = Session::new(PredictMode::Always, 80, 24);
    assert_eq!(s.poll_timeout(), None);
    assert_eq!(
        shown(s.on_input(b"a")),
        b"\x1b[1;1H\x1b[4ma\x1b[24m".to_vec()
    );
    let ms = s.poll_timeout().unwrap();
    assert!((1..=5_000).contains(&ms));
    assert_eq!(s.on_timeout(), None);
    assert_eq!(s.on_output(b"a"), Some(b"\x1b[1;1Ha".to_vec()));
}
