use watch_party::clock::ClockError;
use watch_party::codec::DecodeError;
use watch_party::message::{ClientMsg, ContentHash, Download, ServerMsg};
use watch_party::room::{CurrentVideo, State};
use watch_party::samples::Sample;
use watch_party::session::{is_magic, take_sample, Event, Fault, Session, Step, SYNC_ROUNDS};
use watch_party::wire::encode_client_msg;

fn loaded() -> ServerMsg {
    ServerMsg::LoadVideo {
        hash: ContentHash::Sha256("ab".to_string()),
        name: "f.mp4".to_string(),
        download: Download::Nowhere,
    }
}

fn answer(id: u32, unix_time_micro: u128) -> Vec<u8> {
    encode_client_msg(&ClientMsg::CurrentTime { id, unix_time_micro })
}

fn let_in() -> Session {
    let step = Session::new().step(Event::Magic(*b"wpsy"));
    assert_eq!(step, Step { session: Session::Version, send: vec![], fault: None });
    let step = step.session.step(Event::Version(0));
    assert_eq!(step.send, vec![ServerMsg::RequestTime { id: 0 }]);
    assert_eq!(step.fault, None);
    step.session
}

fn averaged(delta_nanos: u128, current: Option<CurrentVideo>) -> Step {
    let samples = vec![Sample { rtt_nanos: 1, delta_nanos: 1 }; SYNC_ROUNDS];
    Session::Average(samples).step(Event::Averaged { delta_nanos, current })
}

#[test]
fn magic_bytes() {
    assert!(is_magic(b"wpsy"));
    for other in [b"Wpsy", b"wPsy", b"wpSy", b"wpsY"] {
        assert!(!is_magic(other));
    }
}

#[test]
fn wrong_magic_bytes_are_refused() {
    assert_eq!(
        Session::new().step(Event::Magic(*b"GET ")),
        Step {
            session: Session::Closed,
            send: vec![ServerMsg::Error("Bad magic number".to_string())],
            fault: Some(Fault::BadMagic),
        }
    );
}

#[test]
fn another_version_is_refused() {
    assert_eq!(
        Session::Version.step(Event::Version(1)),
        Step {
            session: Session::Closed,
            send: vec![ServerMsg::Error("Unsupported version".to_string())],
            fault: Some(Fault::WrongVersion),
        }
    );
}

#[test]
fn a_hundred_questions_in_order() {
    assert_eq!(SYNC_ROUNDS, 100);
    let mut session = let_in();
    let mut expected: Vec<Sample> = Vec::new();
    for id in 0..100u32 {
        let rtt_nanos = 2_000 + id as u128;
        let now_nanos = 50_000_000 + 1_000_000 * id as u128;
        let payload = answer(id, now_nanos / 1000 - 40_000);
        let step = session.step(Event::Reply { now_nanos, rtt_nanos, payload });
        expected.push(Sample { rtt_nanos, delta_nanos: 40_000_000 - rtt_nanos / 2 });
        assert_eq!(step.fault, None);
        if id < 99 {
            assert_eq!(step.send, vec![ServerMsg::RequestTime { id: id + 1 }]);
            assert_eq!(step.session, Session::Sync(expected.clone()));
        } else {
            assert_eq!(step.send, vec![]);
            assert_eq!(step.session, Session::Average(expected.clone()));
        }
        session = step.session;
    }
}

#[test]
fn answers_may_have_any_number() {
    let payload = answer(77, 5);
    let step = let_in().step(Event::Reply { now_nanos: 9_000, rtt_nanos: 2_000, payload });
    assert_eq!(step.session, Session::Sync(vec![Sample { rtt_nanos: 2_000, delta_nanos: 3_000 }]));
}

#[test]
fn samples_and_their_faults() {
    assert_eq!(
        take_sample(9_000, 2_000, &answer(0, 5)),
        Ok(Sample { rtt_nanos: 2_000, delta_nanos: 3_000 })
    );
    assert_eq!(
        take_sample(9_000, 2_000, &vec![]),
        Err(Fault::BadReply(DecodeError::UnexpectedEnd))
    );
    assert_eq!(
        take_sample(9_000, 2_000, &vec![9]),
        Err(Fault::BadReply(DecodeError::UnknownVariant))
    );
    assert_eq!(
        take_sample(9_000, 2_000, &vec![0x80; 9]),
        Err(Fault::BadReply(DecodeError::BadVarint))
    );
    assert_eq!(
        take_sample(9_000, 2_000, &answer(0, 9)),
        Err(Fault::Clock(ClockError::BeforeStart))
    );
    assert_eq!(
        take_sample(9_000, 2_000, &answer(0, u128::MAX)),
        Err(Fault::Clock(ClockError::OutOfRange))
    );
}

#[test]
fn a_bad_answer_drops_the_client() {
    let step = let_in().step(Event::Reply { now_nanos: 9_000, rtt_nanos: 0, payload: vec![1] });
    assert_eq!(
        step,
        Step {
            session: Session::Closed,
            send: vec![],
            fault: Some(Fault::BadReply(DecodeError::UnknownVariant)),
        }
    );
}

#[test]
fn joining_an_empty_room() {
    assert_eq!(
        averaged(7, None),
        Step { session: Session::Live(7), send: vec![], fault: None }
    );
}

#[test]
fn joining_a_video_that_stands() {
    let state = State::PauseAt { playback_time_frames: 60 };
    assert_eq!(
        averaged(7, Some(CurrentVideo { loaded: loaded(), state })),
        Step {
            session: Session::Live(7),
            send: vec![loaded(), ServerMsg::PauseAt { playback_time_frames: 60 }],
            fault: None,
        }
    );
}

#[test]
fn joining_a_video_that_plays() {
    let state = State::StartPlayingAt { unix_time_micro: 9_000, playback_time_frames: 60 };
    assert_eq!(
        averaged(2_000_000, Some(CurrentVideo { loaded: loaded(), state })).send,
        vec![
            loaded(),
            ServerMsg::StartPlayingAt { unix_time_micro: 7_000, playback_time_frames: 60 }
        ]
    );
}

#[test]
fn joining_a_video_that_played_before_the_client_started() {
    let state = State::StartPlayingAt { unix_time_micro: 9_000, playback_time_frames: 60 };
    assert_eq!(
        averaged(9_000_001, Some(CurrentVideo { loaded: loaded(), state })),
        Step {
            session: Session::Closed,
            send: vec![loaded()],
            fault: Some(Fault::Clock(ClockError::BeforeStart)),
        }
    );
}

#[test]
fn broadcasts_go_out_on_the_clock_of_the_client() {
    let start = ServerMsg::StartPlayingAt { unix_time_micro: 9_000, playback_time_frames: 60 };
    let step = Session::Live(2_000_000).step(Event::Broadcast(start));
    assert_eq!(step.session, Session::Live(2_000_000));
    assert_eq!(
        step.send,
        vec![ServerMsg::StartPlayingAt { unix_time_micro: 7_000, playback_time_frames: 60 }]
    );
    let wow = ServerMsg::Error("wow".to_string());
    let step = step.session.step(Event::Broadcast(wow.clone()));
    assert_eq!(step, Step { session: Session::Live(2_000_000), send: vec![wow], fault: None });
}

#[test]
fn a_broadcast_that_cannot_be_told() {
    let start = ServerMsg::StartPlayingAt {
        unix_time_micro: u64::MAX as u128 + 1,
        playback_time_frames: 60,
    };
    assert_eq!(
        Session::Live(2).step(Event::Broadcast(start)),
        Step {
            session: Session::Closed,
            send: vec![],
            fault: Some(Fault::Clock(ClockError::OutOfRange)),
        }
    );
}
