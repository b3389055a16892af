use lep::adaptive::{Adaptive, GLITCH_REPAIR_COUNT, MAX_TIMEOUT, MIN_TIMEOUT};
use lep::clock::{MILLISECOND, SECOND};
use lep::command::Command;
use lep::emulator::{Emulator, VerifyResult};

#[test]
fn the_first_sample_is_taken_as_it_is_and_later_ones_weigh_an_eighth() {
    let mut a = Adaptive::new();
    a.update_srtt(80 * MILLISECOND, 0, false);
    assert_eq!(a.srtt, Some(80 * MILLISECOND));
    a.update_srtt(160 * MILLISECOND, 0, false);
    assert_eq!(a.srtt, Some(90 * MILLISECOND));
    a.update_srtt(10 * MILLISECOND, 0, false);
    assert_eq!(a.srtt, Some(80 * MILLISECOND));
}

#[test]
fn the_smoothed_time_is_what_floating_point_would_give() {
    let mut a = Adaptive::new();
    let mut float: f64 = 12_345_678.0;
    a.update_srtt(12_345_678, 0, false);
    for i in 0..50u64 {
        let sample = (i * 7_919_123) % 900_000_001;
        a.update_srtt(sample, 0, false);
        float = (0.125 * sample as f64 + (1.0 - 0.125) * float).trunc();
        assert_eq!(a.srtt, Some(float as u64));
    }
}

#[test]
fn predictions_follow_the_round_trip_with_hysteresis() {
    let mut a = Adaptive::new();
    a.srtt = Some(30 * MILLISECOND);
    a.update_triggers(false);
    assert!(!a.srtt_trigger);
    a.srtt = Some(30 * MILLISECOND + 1);
    a.update_triggers(false);
    assert!(a.srtt_trigger);
    a.srtt = Some(25 * MILLISECOND);
    a.update_triggers(false);
    assert!(a.srtt_trigger);
    // never hidden while predictions are pending
    a.srtt = Some(20 * MILLISECOND);
    a.update_triggers(true);
    assert!(a.srtt_trigger);
    a.update_triggers(false);
    assert!(!a.srtt_trigger);
}

#[test]
fn underlining_follows_the_round_trip_with_hysteresis() {
    let mut a = Adaptive::new();
    a.srtt = Some(80 * MILLISECOND);
    a.update_triggers(false);
    assert!(!a.flagging);
    a.srtt = Some(81 * MILLISECOND);
    a.update_triggers(false);
    assert!(a.flagging);
    a.srtt = Some(51 * MILLISECOND);
    a.update_triggers(false);
    assert!(a.flagging);
    a.srtt = Some(50 * MILLISECOND);
    a.update_triggers(false);
    assert!(!a.flagging);
    a.glitch_trigger = GLITCH_REPAIR_COUNT + 1;
    a.update_triggers(false);
    assert!(a.flagging);
}

#[test]
fn a_glitch_takes_quick_answers_far_apart_to_heal() {
    let mut a = Adaptive::new();
    a.note_wait(249 * MILLISECOND);
    assert_eq!(a.glitch_trigger, 0);
    a.note_wait(250 * MILLISECOND);
    assert_eq!(a.glitch_trigger, 10);
    a.update_srtt(MILLISECOND, SECOND, false);
    assert_eq!(a.glitch_trigger, 9);
    // too soon
    a.update_srtt(MILLISECOND, SECOND + 149 * MILLISECOND, false);
    assert_eq!(a.glitch_trigger, 9);
    a.update_srtt(MILLISECOND, SECOND + 150 * MILLISECOND, false);
    assert_eq!(a.glitch_trigger, 8);
    // too slow
    a.update_srtt(250 * MILLISECOND, 5 * SECOND, false);
    assert_eq!(a.glitch_trigger, 8);
    a.note_wait(5 * SECOND);
    assert_eq!(a.glitch_trigger, 20);
    assert!(a.flagging);
}

#[test]
fn the_timeout_is_three_round_trips_within_bounds() {
    let mut a = Adaptive::new();
    assert_eq!(a.prediction_timeout(), 5 * SECOND);
    a.srtt = Some(100 * MILLISECOND);
    assert_eq!(a.prediction_timeout(), MIN_TIMEOUT);
    a.srtt = Some(SECOND);
    assert_eq!(a.prediction_timeout(), 3 * SECOND);
    a.srtt = Some(u64::MAX);
    assert_eq!(a.prediction_timeout(), MAX_TIMEOUT);
}

#[test]
fn a_slow_answer_turns_predictions_on() {
    let mut emu = Emulator::new(80, 24);
    emu.push_command_at(Command::char(0, 0, 'a', ' ', 1), 0);
    let result = emu.feed_and_verify_at(b"a", 50 * MILLISECOND);
    assert!(matches!(result, VerifyResult::Confirmed(1)));
    assert_eq!(emu.get_srtt(), Some(50 * MILLISECOND));
    assert!(emu.should_predict());
    assert!(!emu.should_flag());
    emu.update_srtt(450 * MILLISECOND, SECOND);
    assert_eq!(emu.get_srtt(), Some(100 * MILLISECOND));
    assert!(emu.should_flag());
    assert_eq!(emu.prediction_timeout(), MIN_TIMEOUT);
    emu.reset_adaptive();
    assert!(!emu.should_predict());
    assert_eq!(emu.get_srtt(), Some(100 * MILLISECOND));
}

#[test]
fn a_long_wait_is_a_glitch() {
    let mut emu = Emulator::new(80, 24);
    emu.check_glitch_at(SECOND);
    assert!(!emu.should_predict());
    emu.push_command_at(Command::char(0, 0, 'a', ' ', 1), 0);
    emu.check_glitch_at(249 * MILLISECOND);
    assert!(!emu.should_predict());
    emu.check_glitch_at(250 * MILLISECOND);
    assert!(emu.should_predict());
    assert!(!emu.should_flag());
    emu.check_glitch_at(5 * SECOND);
    assert!(emu.should_flag());
}

#[test]
fn time_runs_out_exactly_at_the_timeout() {
    let mut emu = Emulator::new(80, 24);
    assert_eq!(emu.time_until_expire_at(0), None);
    emu.push_command_at(Command::char(0, 0, 'a', ' ', 1), SECOND);
    assert_eq!(emu.time_until_expire_at(0), Some(5 * SECOND));
    assert_eq!(emu.time_until_expire_at(2 * SECOND), Some(4 * SECOND));
    assert_eq!(emu.time_until_expire_at(6 * SECOND), Some(0));
    assert!(emu.check_timeout_at(6 * SECOND - 1).is_none());
    assert_eq!(
        emu.check_timeout_at(6 * SECOND),
        Some(b"\x1b[1;1H \x1b[1;1H".to_vec())
    );
    assert_eq!(emu.pending_count(), 0);
}
