use logweb::clock::{now_realtime_usec, usec_from_parts, usec_since_epoch};
use logweb::pacing::{
    next_reconnect_delay, send_pause, validate_options, OptionsError, RECONNECT_INITIAL_DELAY_NS,
    RECONNECT_MAX_DELAY_NS,
};
use logweb::journal::{
    field_value_start, message_field, message_or_placeholder, next_source_step, sd_result,
    source_field, usable_source, OsError, SourceStep, SOURCE_FIELD_COUNT,
};
use logweb::text::{push_decimal, push_signed_decimal};
use logweb::wake::{
    timed_wait_action, wait_action, wake_must_unpark, TimedWaitAction, WaitAction, EMPTY,
    NOTIFIED, PARKED,
};

#[test]
fn microseconds_saturate() {
    assert_eq!(usec_from_parts(2, 500), 2_000_500);
    assert_eq!(usec_from_parts(u64::MAX, 0), u64::MAX);
    assert_eq!(usec_from_parts(18_446_744_073_709, 999_999), u64::MAX);
    assert_eq!(usec_from_parts(18_446_744_073_709, 551_615), u64::MAX);
    assert_eq!(usec_from_parts(18_446_744_073_709, 551_614), u64::MAX - 1);
    assert!(now_realtime_usec() > 1_600_000_000_000_000);
}

#[test]
fn journal_results() {
    assert_eq!(sd_result(3), Ok(3));
    assert_eq!(sd_result(-5), Err(OsError { code: 5 }));
    assert_eq!(field_value_start(-2, false, 20, 8), Ok(None));
    assert_eq!(field_value_start(-13, false, 20, 8), Err(OsError { code: 13 }));
    assert_eq!(field_value_start(0, true, 20, 8), Ok(None));
    assert_eq!(field_value_start(0, false, 8, 8), Ok(None));
    assert_eq!(field_value_start(1, false, 12, 8), Ok(Some(8)));
    assert!(usable_source(Some(b"nginx.service")));
    assert!(!usable_source(Some(&b""[..])));
    assert!(!usable_source(None));
}

#[test]
fn wake_protocol_actions() {
    assert_eq!(wait_action(NOTIFIED), WaitAction::Consume);
    assert_eq!(wait_action(EMPTY), WaitAction::Announce);
    assert_eq!(wait_action(PARKED), WaitAction::Park);
    assert_eq!(timed_wait_action(PARKED, 3, 10), TimedWaitAction::ParkFor(7));
    assert_eq!(timed_wait_action(PARKED, 10, 10), TimedWaitAction::GiveUp);
    assert_eq!(timed_wait_action(NOTIFIED, 10, 10), TimedWaitAction::Consume);
    assert!(wake_must_unpark(PARKED));
    assert!(!wake_must_unpark(EMPTY));
    assert!(!wake_must_unpark(NOTIFIED));
}

#[test]
fn decimal_rendering() {
    let mut s = String::from("n=");
    push_decimal(&mut s, 0);
    push_decimal(&mut s, 1_234_567_890);
    push_signed_decimal(&mut s, -42);
    push_signed_decimal(&mut s, i64::MIN);
    assert_eq!(s, "n=01234567890-42-9223372036854775808");
    let mut m = String::new();
    push_decimal(&mut m, u64::MAX);
    assert_eq!(m, u64::MAX.to_string());
}

#[test]
fn forwarder_pacing() {
    assert_eq!(validate_options(500, 1), Ok(()));
    let err = validate_options(0, 0).unwrap_err();
    assert_eq!(err, OptionsError::ZeroSendInterval);
    assert_eq!(err.message(), "--send-interval-ms must be greater than zero");
    let err = validate_options(1, 0).unwrap_err();
    assert_eq!(err.message(), "--max-pending-bytes must be greater than zero");
    assert_eq!(send_pause(200, 500), 300);
    assert_eq!(send_pause(500, 500), 0);
    assert_eq!(send_pause(900, 500), 0);
    let mut delay = RECONNECT_INITIAL_DELAY_NS;
    let mut seen = Vec::new();
    for _ in 0..10 {
        delay = next_reconnect_delay(delay);
        seen.push(delay / 1_000_000);
    }
    assert_eq!(seen, vec![500, 1000, 2000, 4000, 8000, 16000, 30000, 30000, 30000, 30000]);
    assert!(delay <= RECONNECT_MAX_DELAY_NS);
}

#[test]
fn source_fields_in_order_of_preference() {
    assert_eq!(SOURCE_FIELD_COUNT, 6);
    assert_eq!(source_field(0), b"_SYSTEMD_UNIT\0");
    assert_eq!(source_field(2), b"SYSLOG_IDENTIFIER\0");
    assert_eq!(source_field(5), b"_PID\0");
    assert_eq!(message_field(), b"MESSAGE\0");
}

#[test]
fn source_search_takes_first_usable_field() {
    assert_eq!(next_source_step(0, Some(&b"sshd.service"[..])), SourceStep::Use);
    assert_eq!(next_source_step(0, Some(&b""[..])), SourceStep::Read(1));
    assert_eq!(next_source_step(3, None), SourceStep::Read(4));
    assert_eq!(next_source_step(5, None), SourceStep::Placeholder);
    assert_eq!(next_source_step(5, Some(&b"42"[..])), SourceStep::Use);
}

#[test]
fn missing_message_becomes_placeholder() {
    assert_eq!(message_or_placeholder(Some(&b"hello"[..])), b"hello");
    assert_eq!(message_or_placeholder(None), b"[PLACEHOLDER]");
}

#[test]
fn clock_reading_before_epoch_is_zero() {
    assert_eq!(usec_since_epoch(None), 0);
    assert_eq!(usec_since_epoch(Some((3, 7))), 3_000_007);
    assert_eq!(usec_since_epoch(Some((u64::MAX, 1))), u64::MAX);
}

#[test]
fn long_reconnect_delay_is_capped() {
    assert_eq!(next_reconnect_delay(1_000_000_000_000), RECONNECT_MAX_DELAY_NS);
    assert_eq!(next_reconnect_delay(20_000_000_000), RECONNECT_MAX_DELAY_NS);
    assert_eq!(next_reconnect_delay(1_000_000_000), 2_000_000_000);
}
