use watch_party::client::{hello, react, Action};
use watch_party::clock::{shift_msg, ClockError};
use watch_party::console::Command;
use watch_party::content::{next_load_step, LoadStep};
use watch_party::message::{ClientMsg, ContentHash, Download, ServerMsg};
use watch_party::room::{Reaction, Room, VideoDescription};
use watch_party::samples::Sample;
use watch_party::session::{Event, Session, SYNC_ROUNDS};
use watch_party::wire::{
    client_frame, decode_server_msg, encode_server_msg, server_frame, u32_from_le,
};

fn description() -> VideoDescription {
    VideoDescription {
        hash: ContentHash::Sha256("ab".to_string()),
        name: "f.mp4".to_string(),
        download: Download::Https("https://e.org/f".to_string()),
    }
}

fn live(delta_nanos: u128, room: &Room) -> (Session, Vec<ServerMsg>) {
    let samples = vec![Sample { rtt_nanos: 1, delta_nanos }; SYNC_ROUNDS];
    let step = Session::Average(samples)
        .step(Event::Averaged { delta_nanos, current: room.current.clone() });
    (step.session, step.send)
}

#[test]
fn hello_bytes() {
    assert_eq!(hello(), b"wpsy\0\0\0\0".to_vec());
}

#[test]
fn reactions_of_a_client() {
    assert_eq!(
        react(ServerMsg::Error("no".to_string()), 5),
        Ok(Action::Report("no".to_string()))
    );
    assert_eq!(
        react(ServerMsg::RequestTime { id: 3 }, 1_234_999),
        Ok(Action::Answer(ClientMsg::CurrentTime { id: 3, unix_time_micro: 1_234 }))
    );
    assert_eq!(
        react(ServerMsg::PauseAt { playback_time_frames: 60 }, 5),
        Ok(Action::Pause { frame: 60 })
    );
    assert_eq!(
        react(description().load().loaded, 5),
        Ok(Action::Load {
            hash: description().hash,
            name: description().name,
            download: description().download,
        })
    );
}

#[test]
fn early_and_late_clients() {
    let start = |unix_time_micro| ServerMsg::StartPlayingAt {
        unix_time_micro,
        playback_time_frames: 60,
    };
    assert_eq!(react(start(10), 4_000), Ok(Action::PlayLater { frame: 60, wake_nanos: 10_000 }));
    assert_eq!(react(start(10), 10_000), Ok(Action::PlayLater { frame: 60, wake_nanos: 10_000 }));
    assert_eq!(react(start(10), 10_001), Ok(Action::PlayNow { frame: 60, late_nanos: 1 }));
    assert_eq!(react(start(10), 14_000), Ok(Action::PlayNow { frame: 60, late_nanos: 4_000 }));
    assert_eq!(react(start(u64::MAX as u128 + 1), 0), Err(ClockError::OutOfRange));
}

#[test]
fn a_client_in_time_plays_at_the_moment() {
    let start = ServerMsg::StartPlayingAt { unix_time_micro: 10_500_000, playback_time_frames: 60 };
    assert_eq!(
        react(start.clone(), 10_000_000_000),
        Ok(Action::PlayLater { frame: 60, wake_nanos: 10_500_000_000 })
    );
    let delta_nanos = 123_456_789u128;
    match react(shift_msg(start, delta_nanos).unwrap(), 10_000_000_000) {
        Ok(Action::PlayLater { frame: 60, wake_nanos }) => {
            let at = wake_nanos + delta_nanos;
            assert!(10_500_000_000 - 1000 < at && at <= 10_500_000_000);
        }
        other => panic!("{other:?}"),
    }
}

#[test]
fn early_and_late_clients_play_in_step() {
    let start = ServerMsg::StartPlayingAt { unix_time_micro: 2_000_000, playback_time_frames: 60 };
    let (delta_a, delta_b) = (123_456_789u128, 987_654_321u128);
    let at_a = match react(shift_msg(start.clone(), delta_a).unwrap(), 1_500_000_000) {
        Ok(Action::PlayLater { frame: 60, wake_nanos }) => wake_nanos + delta_a,
        other => panic!("{other:?}"),
    };
    let client_b = 3_000_000_000u128;
    let at_b = match react(shift_msg(start, delta_b).unwrap(), client_b) {
        Ok(Action::PlayNow { frame: 60, late_nanos }) => client_b + delta_b - late_nanos,
        other => panic!("{other:?}"),
    };
    assert!(at_a.abs_diff(at_b) < 1000);
}

#[test]
fn a_late_client_catches_up() {
    let delta_nanos = 123_456_789u128;
    let start = ServerMsg::StartPlayingAt { unix_time_micro: 2_000_000, playback_time_frames: 60 };
    let told = shift_msg(start, delta_nanos).unwrap();
    let client_nanos = 2_345_678_901u128;
    let server_late = client_nanos + delta_nanos - 2_000_000_000;
    match react(told, client_nanos) {
        Ok(Action::PlayNow { frame: 60, late_nanos }) => {
            assert!(server_late <= late_nanos && late_nanos < server_late + 1000)
        }
        other => panic!("{other:?}"),
    }
}

#[test]
fn a_client_is_let_in_and_synced() {
    let hello = hello();
    let magic = [hello[0], hello[1], hello[2], hello[3]];
    let version = u32_from_le(&[hello[4], hello[5], hello[6], hello[7]]);
    let step = Session::new().step(Event::Magic(magic));
    let mut step = step.session.step(Event::Version(version));
    let delta_nanos = 3_000_000_000u128;
    let mut asked = 0;
    while let Some(question) = step.send.pop() {
        let sent = server_frame(&question).unwrap();
        let heard = decode_server_msg(&sent[4..]).unwrap();
        let client_nanos = 1_000_000 * asked as u128;
        let said = match react(heard, client_nanos) {
            Ok(Action::Answer(msg)) => msg,
            other => panic!("{other:?}"),
        };
        let ClientMsg::CurrentTime { id, .. } = said;
        assert_eq!(id, asked);
        let rtt_nanos = 20_000 + 2 * asked as u128;
        step = step.session.step(Event::Reply {
            now_nanos: client_nanos + delta_nanos + rtt_nanos / 2,
            rtt_nanos,
            payload: client_frame(&said)[4..].to_vec(),
        });
        asked += 1;
    }
    assert_eq!(asked, 100);
    match step.session {
        Session::Average(samples) => {
            assert_eq!(samples.len(), 100);
            assert!(samples.iter().all(|sample| sample.delta_nanos == delta_nanos));
        }
        other => panic!("{other:?}"),
    }
}

#[test]
fn joining_late_is_hearing_the_same() {
    let mut room = Room { current: Some(description().load()) };
    let delta_nanos = 1_234_567u128;
    let (mut early, _) = live(delta_nanos, &room);
    for (now_nanos, frames) in [(1_000_000_000u128, 0u64), (5_000_000_000, 240), (6_000_000_000, 0)] {
        let msg = match room.react(Command::Toggle, now_nanos, frames) {
            Ok(Reaction::Broadcast(msg)) => msg,
            other => panic!("{other:?}"),
        };
        let step = early.step(Event::Broadcast(msg));
        let (joined, told) = live(delta_nanos, &room);
        assert_eq!(joined, step.session);
        assert_eq!(told[0], description().load().loaded);
        assert_eq!(told[1..], step.send[..]);
        early = step.session;
    }
}

#[test]
fn a_joining_client_downloads_the_video() {
    let room = Room { current: Some(description().load()) };
    let (_, told) = live(7, &room);
    let heard = decode_server_msg(&encode_server_msg(&told[0])).unwrap();
    match react(heard, 5) {
        Ok(Action::Load { hash, name, download }) => {
            assert_eq!(name, "f.mp4");
            assert_eq!(
                next_load_step(None, &hash, download),
                LoadStep::Fetch("https://e.org/f".to_string())
            );
        }
        other => panic!("{other:?}"),
    }
    assert_eq!(told[1], ServerMsg::PauseAt { playback_time_frames: 0 });
}

#[test]
fn clients_hear_everything_in_order() {
    let (mut session, _) = live(1_000, &Room { current: None });
    let mut heard: Vec<ServerMsg> = Vec::new();
    let said = vec![
        ServerMsg::Error("wow".to_string()),
        ServerMsg::StartPlayingAt { unix_time_micro: 9, playback_time_frames: 1 },
        ServerMsg::PauseAt { playback_time_frames: 2 },
    ];
    for msg in said {
        let step = session.step(Event::Broadcast(msg));
        heard.extend(step.send);
        session = step.session;
    }
    assert_eq!(session, Session::Live(1_000));
    assert_eq!(
        heard,
        vec![
            ServerMsg::Error("wow".to_string()),
            ServerMsg::StartPlayingAt { unix_time_micro: 8, playback_time_frames: 1 },
            ServerMsg::PauseAt { playback_time_frames: 2 },
        ]
    );
}
