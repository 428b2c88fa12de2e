use watch_party::clock::ClockError;
use watch_party::console::Command;
use watch_party::message::{ContentHash, Download, ServerMsg};
use watch_party::room::{
    Reaction, Room, State, VideoDescription, DURATION_MAX_NANOS, PLAYBACK_START_BUF_NANOS,
};

fn description() -> VideoDescription {
    VideoDescription {
        hash: ContentHash::Sha256("ab".to_string()),
        name: "f.mp4".to_string(),
        download: Download::Https("https://e.org/f".to_string()),
    }
}

fn playing(unix_time_micro: u128, playback_time_frames: u64) -> State {
    State::StartPlayingAt { unix_time_micro, playback_time_frames }
}

fn paused(playback_time_frames: u64) -> State {
    State::PauseAt { playback_time_frames }
}

#[test]
fn a_loaded_video_stands_at_its_first_frame() {
    let video = description().clone().load();
    assert_eq!(
        video.loaded,
        ServerMsg::LoadVideo {
            hash: ContentHash::Sha256("ab".to_string()),
            name: "f.mp4".to_string(),
            download: Download::Https("https://e.org/f".to_string()),
        }
    );
    assert_eq!(video.state, paused(0));
    assert_eq!(video.clone(), video);
}

#[test]
fn states_become_messages() {
    assert_eq!(
        ServerMsg::from(playing(12, 34)),
        ServerMsg::StartPlayingAt { unix_time_micro: 12, playback_time_frames: 34 }
    );
    assert_eq!(ServerMsg::from(paused(34)), ServerMsg::PauseAt { playback_time_frames: 34 });
}

#[test]
fn start_buffer_is_half_a_second() {
    assert_eq!(PLAYBACK_START_BUF_NANOS, 500_000_000);
}

#[test]
fn played_time() {
    assert_eq!(playing(1_000_000, 10).played_nanos(3_000_000_000), Ok(Some(2_500_000_000)));
    assert_eq!(playing(1_000_000, 10).played_nanos(999_999_999), Ok(Some(500_000_000)));
    assert_eq!(paused(10).played_nanos(3_000_000_000), Ok(None));
}

#[test]
fn played_time_out_of_range() {
    assert_eq!(playing(u64::MAX as u128 + 1, 0).played_nanos(0), Err(ClockError::OutOfRange));
    assert_eq!(playing(u64::MAX as u128, 0).played_nanos(0), Ok(Some(500_000_000)));
}

#[test]
fn pause_counts_from_the_command() {
    let (play, pause) = (7_000_000_123u128, 19_000_000_456u128);
    let nanos = paused(5).toggle(play, 0).unwrap().played_nanos(pause).unwrap().unwrap();
    assert!(pause - play <= nanos && nanos < pause - play + 1000);
    assert_eq!(nanos, 12_000_000_456);
}

#[test]
fn toggling_takes_turns() {
    assert_eq!(paused(90).toggle(2_000_000_999, 5), Ok(playing(2_500_000, 90)));
    assert_eq!(playing(2_500_000, 90).toggle(9_000_000_000, 420), Ok(paused(510)));
}

#[test]
fn toggling_that_cannot_be_told() {
    assert!(playing(0, u64::MAX - 3).can_toggle(u128::MAX, 3));
    assert!(!playing(0, u64::MAX - 3).can_toggle(0, 4));
    let last = DURATION_MAX_NANOS - PLAYBACK_START_BUF_NANOS;
    assert!(paused(u64::MAX).can_toggle(last, u64::MAX));
    assert!(!paused(0).can_toggle(last + 1, 0));
    assert_eq!(DURATION_MAX_NANOS, std::time::Duration::MAX.as_nanos());
}

#[test]
fn pausing_what_began_out_of_range_fails() {
    let state = playing(u64::MAX as u128 + 1, u64::MAX);
    assert!(state.can_toggle(5, 9));
    assert_eq!(state.toggle(5, 9), Err(ClockError::OutOfRange));
    let mut room = Room { current: Some(description().load()) };
    room.current.as_mut().unwrap().state = state;
    let before = room.current.clone();
    assert_eq!(room.react(Command::Toggle, 5, 9), Err(ClockError::OutOfRange));
    assert_eq!(room.current, before);
    assert_eq!(playing(u64::MAX as u128, 1).toggle(5, 9), Ok(paused(10)));
}

#[test]
fn commands_without_a_video() {
    let mut room = Room { current: None };
    assert_eq!(room.react(Command::Toggle, 5, 0), Ok(Reaction::NoVideo));
    assert_eq!(room.react(Command::Exit, 5, 0), Ok(Reaction::Quit));
    assert_eq!(
        room.react(Command::Test, 5, 0),
        Ok(Reaction::Broadcast(ServerMsg::Error("wow".to_string())))
    );
    assert_eq!(
        room.react(Command::Unknown("x y".to_string()), 5, 0),
        Ok(Reaction::NotACommand("x y".to_string()))
    );
    assert_eq!(room, Room { current: None });
}

#[test]
fn commands_with_a_video() {
    let mut room = Room { current: Some(description().load()) };
    let before = room.current.clone();
    room.react(Command::Test, 5, 0).unwrap();
    room.react(Command::Unknown("x".to_string()), 5, 0).unwrap();
    room.react(Command::Exit, 5, 0).unwrap();
    assert_eq!(room.current, before);
    assert_eq!(
        room.react(Command::Toggle, 1_000_000_000, 0),
        Ok(Reaction::Broadcast(ServerMsg::StartPlayingAt {
            unix_time_micro: 1_500_000,
            playback_time_frames: 0
        }))
    );
    assert_eq!(room.current.as_ref().unwrap().state, playing(1_500_000, 0));
    assert_eq!(
        room.react(Command::Toggle, 3_500_000_000, 150),
        Ok(Reaction::Broadcast(ServerMsg::PauseAt { playback_time_frames: 150 }))
    );
    let after = room.current.unwrap();
    assert_eq!(after.state, paused(150));
    assert_eq!(after.loaded, before.unwrap().loaded);
}
