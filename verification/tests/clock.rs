use watch_party::clock::{estimate_delta, shift, shift_msg, ClockError};
use watch_party::message::ServerMsg;

#[test]
fn delta_takes_off_half_the_trip() {
    assert_eq!(estimate_delta(10_000_000, 2_000, 9_000), Ok(999_000));
    assert_eq!(estimate_delta(10_000_000, 2_001, 9_000), Ok(999_000));
    assert_eq!(estimate_delta(5_000, 0, 5), Ok(0));
}

#[test]
fn even_trip_tells_the_delta() {
    let (now, rtt, delta) = (7_654_321_987u128, 30_000_000u128, 1_234_567_890u128);
    let looked_at = now - rtt / 2 - delta;
    let found = estimate_delta(now, rtt, looked_at / 1000).unwrap();
    assert!(delta <= found && found < delta + 1000);
}

#[test]
fn even_trip_keeps_in_step() {
    let (now, rtt, delta) = (7_654_321_987u128, 30_000_000u128, 1_234_567_890u128);
    let found = estimate_delta(now, rtt, (now - rtt / 2 - delta) / 1000).unwrap();
    let told = shift(9_000_000, found).unwrap() * 1000 + delta;
    assert!(9_000_000_000 - 2000 < told && told <= 9_000_000_000);
}

#[test]
fn delta_of_a_client_that_started_first() {
    assert_eq!(estimate_delta(5_000, 0, 6), Err(ClockError::BeforeStart));
    assert_eq!(estimate_delta(5_000, 2, 5), Err(ClockError::BeforeStart));
}

#[test]
fn delta_of_a_clock_out_of_range() {
    assert_eq!(estimate_delta(u128::MAX, 0, u64::MAX as u128 + 1), Err(ClockError::OutOfRange));
    assert_eq!(
        estimate_delta(u64::MAX as u128 * 1000, 0, u64::MAX as u128),
        Ok(0)
    );
}

#[test]
fn shift_goes_back_by_the_delta() {
    assert_eq!(shift(1_500_000, 400_000_000), Ok(1_100_000));
    assert_eq!(shift(9, 8_500), Ok(0));
    assert_eq!(shift(9, 7_500), Ok(1));
    assert_eq!(shift(9, 0), Ok(9));
}

#[test]
fn shift_before_the_start() {
    assert_eq!(shift(9, 9_000), Ok(0));
    assert_eq!(shift(9, 9_001), Err(ClockError::BeforeStart));
}

#[test]
fn shift_out_of_range() {
    assert_eq!(shift(u64::MAX as u128, 0), Ok(u64::MAX as u128));
    assert_eq!(shift(u64::MAX as u128 + 1, 0), Err(ClockError::OutOfRange));
}

#[test]
fn shift_of_a_message() {
    let start = ServerMsg::StartPlayingAt { unix_time_micro: 1_500_000, playback_time_frames: 77 };
    assert_eq!(
        shift_msg(start, 400_000_000),
        Ok(ServerMsg::StartPlayingAt { unix_time_micro: 1_100_000, playback_time_frames: 77 })
    );
    let early = ServerMsg::StartPlayingAt { unix_time_micro: 1, playback_time_frames: 77 };
    assert_eq!(shift_msg(early, 400_000_000), Err(ClockError::BeforeStart));
}

#[test]
fn other_messages_are_not_shifted() {
    let pause = ServerMsg::PauseAt { playback_time_frames: 77 };
    assert_eq!(shift_msg(pause.clone(), 400_000_000), Ok(pause));
    let wow = ServerMsg::Error("wow".to_string());
    assert_eq!(shift_msg(wow.clone(), 400_000_000), Ok(wow));
}

#[test]
fn two_clients_are_in_step() {
    let (a, b) = (123_456_789u128, 987_654_321u128);
    let told_a = shift(2_000_000, a).unwrap() * 1000 + a;
    let told_b = shift(2_000_000, b).unwrap() * 1000 + b;
    assert!(told_a.abs_diff(told_b) < 1000);
    assert!(told_a <= 2_000_000_000 && 2_000_000_000 - told_a < 1000);
}
