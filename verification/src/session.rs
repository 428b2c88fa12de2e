//! What the server does with one client, from the first byte to the last.
//!
//! A session waits for one event at a time. What it waits for is told by its variant; what follows
//! from an event is a [`Step`].
use crate::clock::{delta_estimate, estimate_delta, shift_msg, shifted_msg, ClockError};
use crate::codec::DecodeError;
use crate::message::{ClientMsg, ServerMsg, ServerMsgView, MAGIC, VERSION};
use crate::room::{state_msg, CurrentVideo, CurrentVideoView, State};
use crate::samples::Sample;
use crate::wire::{decode_client_msg, read_client_msg};
use vstd::prelude::*;

verus! {

/// How many times a client is asked for its clock.
pub const SYNC_ROUNDS: usize = 100;

/// A client, as the server knows it.
#[derive(Debug, PartialEq, Eq)]
pub enum Session {
    /// It has connected. Its magic bytes are awaited.
    Magic,
    /// Its version is awaited.
    Version,
    /// It was asked for its clock, once more often than there are samples. Its answer is awaited.
    Sync(Vec<Sample>),
    /// Its clock was sampled. The delta that the samples come to is awaited.
    Average(Vec<Sample>),
    /// It takes part; its clock is this many nanoseconds behind. What every client is told is
    /// awaited.
    Live(u128),
    /// It is gone.
    Closed,
}

/// Something that a session waits for.
#[derive(Debug, PartialEq, Eq)]
pub enum Event {
    /// The first four bytes came.
    Magic([u8; 4]),
    /// The version came.
    Version(u32),
    /// An answer came at `now_nanos` on the server's clock, `rtt_nanos` after it was asked for.
    Reply { now_nanos: u128, rtt_nanos: u128, payload: Vec<u8> },
    /// The samples come to this delta, at a time when this was the loaded video.
    Averaged { delta_nanos: u128, current: Option<CurrentVideo> },
    /// Every client is to be told this.
    Broadcast(ServerMsg),
}

/// Why a client is dropped.
#[derive(Debug, Clone, Copy, PartialEq, Eq, Structural)]
pub enum Fault {
    /// Its first bytes are not those of a client.
    BadMagic,
    /// It speaks another version.
    WrongVersion,
    /// Its answer is no message.
    BadReply(DecodeError),
    /// Its clock, or a moment on it, cannot be told.
    Clock(ClockError),
}

/// What follows from an event.
#[derive(Debug, PartialEq, Eq)]
pub struct Step {
    /// The session from now on.
    pub session: Session,
    /// What the client is sent, in this order.
    pub send: Vec<ServerMsg>,
    /// Why the client is then dropped, if it is.
    pub fault: Option<Fault>,
}

/// The mathematical value of a [`Session`].
pub enum SessionView {
    Magic,
    Version,
    Sync(Seq<Sample>),
    Average(Seq<Sample>),
    Live(u128),
    Closed,
}

/// The mathematical value of an [`Event`].
pub enum EventView {
    Magic(Seq<u8>),
    Version(u32),
    Reply { now_nanos: u128, rtt_nanos: u128, payload: Seq<u8> },
    Averaged { delta_nanos: u128, current: Option<CurrentVideoView> },
    Broadcast(ServerMsgView),
}

/// The mathematical value of a [`Step`].
#[verifier::ext_equal]
pub struct StepView {
    pub session: SessionView,
    pub send: Seq<ServerMsgView>,
    pub fault: Option<Fault>,
}

impl View for Session {
    type V = SessionView;

    open spec fn view(&self) -> SessionView {
        match self {
            Session::Magic => SessionView::Magic,
            Session::Version => SessionView::Version,
            Session::Sync(samples) => SessionView::Sync(samples@),
            Session::Average(samples) => SessionView::Average(samples@),
            Session::Live(delta_nanos) => SessionView::Live(*delta_nanos),
            Session::Closed => SessionView::Closed,
        }
    }
}

impl View for Event {
    type V = EventView;

    open spec fn view(&self) -> EventView {
        match self {
            Event::Magic(bytes) => EventView::Magic(bytes@),
            Event::Version(version) => EventView::Version(*version),
            Event::Reply { now_nanos, rtt_nanos, payload } => EventView::Reply {
                now_nanos: *now_nanos,
                rtt_nanos: *rtt_nanos,
                payload: payload@,
            },
            Event::Averaged { delta_nanos, current } => EventView::Averaged {
                delta_nanos: *delta_nanos,
                current: match current {
                    Some(video) => Some(video@),
                    None => None,
                },
            },
            Event::Broadcast(msg) => EventView::Broadcast(msg@),
        }
    }
}

impl View for Step {
    type V = StepView;

    open spec fn view(&self) -> StepView {
        StepView {
            session: self.session@,
            send: self.send@.map_values(|msg: ServerMsg| msg@),
            fault: self.fault,
        }
    }
}

/// `session` waits for `event`.
pub open spec fn awaits(session: SessionView, event: EventView) -> bool {
    match session {
        SessionView::Magic => event matches EventView::Magic(bytes) && bytes.len() == 4,
        SessionView::Version => event is Version,
        SessionView::Sync(_) => event is Reply,
        SessionView::Average(_) => event is Averaged,
        SessionView::Live(_) => event is Broadcast,
        SessionView::Closed => false,
    }
}

/// A session that still asks for the clock has fewer than [`SYNC_ROUNDS`] samples; one that has
/// asked enough has that many.
pub open spec fn well_formed(session: SessionView) -> bool {
    match session {
        SessionView::Sync(samples) => samples.len() < SYNC_ROUNDS,
        SessionView::Average(samples) => samples.len() == SYNC_ROUNDS,
        _ => true,
    }
}

/// A step that sends `send` and goes on as `session`.
pub open spec fn go_on(session: SessionView, send: Seq<ServerMsgView>) -> StepView {
    StepView { session, send, fault: None }
}

/// A step that sends `send` and drops the client.
pub open spec fn drop_client(send: Seq<ServerMsgView>, fault: Fault) -> StepView {
    StepView { session: SessionView::Closed, send, fault: Some(fault) }
}

/// The sample that an answer gives.
pub open spec fn sample_of(now_nanos: u128, rtt_nanos: u128, payload: Seq<u8>) -> Result<
    Sample,
    Fault,
> {
    match read_client_msg(payload) {
        Ok(ClientMsg::CurrentTime { unix_time_micro, .. }) => match delta_estimate(
            now_nanos,
            rtt_nanos,
            unix_time_micro,
        ) {
            Ok(delta_nanos) => Ok(Sample { rtt_nanos, delta_nanos }),
            Err(e) => Err(Fault::Clock(e)),
        },
        Err(e) => Err(Fault::BadReply(e)),
    }
}

/// What follows when the samples of a client have come to a delta: a client that joins is told of
/// the loaded video first, then of its state.
pub open spec fn welcome(delta_nanos: u128, current: Option<CurrentVideoView>) -> StepView {
    match current {
        None => go_on(SessionView::Live(delta_nanos), seq![]),
        Some(video) => match shifted_msg(state_msg(video.state), delta_nanos) {
            Ok(state) => go_on(SessionView::Live(delta_nanos), seq![video.loaded, state]),
            Err(e) => drop_client(seq![video.loaded], Fault::Clock(e)),
        },
    }
}

/// What follows from an event that was awaited.
pub open spec fn next_step(session: SessionView, event: EventView) -> StepView {
    match (session, event) {
        (SessionView::Magic, EventView::Magic(bytes)) => if bytes == MAGIC@ {
            go_on(SessionView::Version, seq![])
        } else {
            drop_client(seq![ServerMsgView::Error("Bad magic number"@)], Fault::BadMagic)
        },
        (SessionView::Version, EventView::Version(version)) => if version == VERSION {
            go_on(SessionView::Sync(seq![]), seq![ServerMsgView::RequestTime { id: 0 }])
        } else {
            drop_client(seq![ServerMsgView::Error("Unsupported version"@)], Fault::WrongVersion)
        },
        (
            SessionView::Sync(samples),
            EventView::Reply { now_nanos, rtt_nanos, payload },
        ) => match sample_of(now_nanos, rtt_nanos, payload) {
            Ok(sample) => {
                let samples = samples.push(sample);
                if samples.len() < SYNC_ROUNDS {
                    go_on(
                        SessionView::Sync(samples),
                        seq![ServerMsgView::RequestTime { id: samples.len() as u32 }],
                    )
                } else {
                    go_on(SessionView::Average(samples), seq![])
                }
            },
            Err(fault) => drop_client(seq![], fault),
        },
        (
            SessionView::Average(_),
            EventView::Averaged { delta_nanos, current },
        ) => welcome(delta_nanos, current),
        (SessionView::Live(delta_nanos), EventView::Broadcast(msg)) => match shifted_msg(
            msg,
            delta_nanos,
        ) {
            Ok(msg) => go_on(session, seq![msg]),
            Err(e) => drop_client(seq![], Fault::Clock(e)),
        },
        _ => go_on(session, seq![]),
    }
}

/// A vector of one message.
fn one(msg: ServerMsg) -> (msgs: Vec<ServerMsg>)
    ensures
        msgs@ == seq![msg],
        msgs@.map_values(|msg: ServerMsg| msg@) == seq![msg@],
{
    let mut msgs: Vec<ServerMsg> = Vec::new();
    msgs.push(msg);
    assert(msgs@.map_values(|msg: ServerMsg| msg@) =~= seq![msg@]);
    msgs
}

/// A vector of no message.
fn nothing() -> (msgs: Vec<ServerMsg>)
    ensures
        msgs@.map_values(|msg: ServerMsg| msg@) == Seq::<ServerMsgView>::empty(),
{
    let msgs: Vec<ServerMsg> = Vec::new();
    assert(msgs@.map_values(|msg: ServerMsg| msg@) =~= Seq::<ServerMsgView>::empty());
    msgs
}

/// Whether the bytes are those that a client sends first.
pub fn is_magic(bytes: &[u8; 4]) -> (is: bool)
    ensures
        is == (bytes@ == MAGIC@),
{
    let is = bytes[0] == MAGIC[0] && bytes[1] == MAGIC[1] && bytes[2] == MAGIC[2] && bytes[3]
        == MAGIC[3];
    assert(is ==> bytes@ =~= MAGIC@);
    is
}

/// The sample that an answer gives, or why it gives none.
pub fn take_sample(now_nanos: u128, rtt_nanos: u128, payload: &Vec<u8>) -> (sample: Result<
    Sample,
    Fault,
>)
    ensures
        sample == sample_of(now_nanos, rtt_nanos, payload@),
{
    match decode_client_msg(payload.as_slice()) {
        Ok(ClientMsg::CurrentTime { unix_time_micro, .. }) => match estimate_delta(
            now_nanos,
            rtt_nanos,
            unix_time_micro,
        ) {
            Ok(delta_nanos) => Ok(Sample { rtt_nanos, delta_nanos }),
            Err(e) => Err(Fault::Clock(e)),
        },
        Err(e) => Err(Fault::BadReply(e)),
    }
}

impl Session {
    /// A client that has just connected.
    pub fn new() -> (session: Session)
        ensures
            session@ == SessionView::Magic,
    {
        Session::Magic
    }

    /// What follows from an event that the session waits for.
    pub fn step(self, event: Event) -> (step: Step)
        requires
            awaits(self@, event@),
            well_formed(self@),
        ensures
            step@ == next_step(self@, event@),
            well_formed(step.session@),
    {
        match (self, event) {
            (Session::Magic, Event::Magic(bytes)) => if is_magic(&bytes) {
                Step { session: Session::Version, send: nothing(), fault: None }
            } else {
                Step {
                    session: Session::Closed,
                    send: one(ServerMsg::Error("Bad magic number".to_owned())),
                    fault: Some(Fault::BadMagic),
                }
            },
            (Session::Version, Event::Version(version)) => if version == VERSION {
                Step {
                    session: Session::Sync(Vec::new()),
                    send: one(ServerMsg::RequestTime { id: 0 }),
                    fault: None,
                }
            } else {
                Step {
                    session: Session::Closed,
                    send: one(ServerMsg::Error("Unsupported version".to_owned())),
                    fault: Some(Fault::WrongVersion),
                }
            },
            (
                Session::Sync(samples),
                Event::Reply { now_nanos, rtt_nanos, payload },
            ) => sampled(samples, now_nanos, rtt_nanos, &payload),
            (
                Session::Average(_),
                Event::Averaged { delta_nanos, current },
            ) => welcomed(delta_nanos, current),
            (Session::Live(delta_nanos), Event::Broadcast(msg)) => match shift_msg(
                msg,
                delta_nanos,
            ) {
                Ok(msg) => Step { session: Session::Live(delta_nanos), send: one(msg), fault: None },
                Err(e) => Step {
                    session: Session::Closed,
                    send: nothing(),
                    fault: Some(Fault::Clock(e)),
                },
            },
            (session, _) => Step { session, send: nothing(), fault: None },
        }
    }
}

/// What follows from an answer to the question for a client's clock.
fn sampled(samples: Vec<Sample>, now_nanos: u128, rtt_nanos: u128, payload: &Vec<u8>) -> (step: Step)
    requires
        samples@.len() < SYNC_ROUNDS,
    ensures
        step@ == next_step(
            SessionView::Sync(samples@),
            EventView::Reply { now_nanos, rtt_nanos, payload: payload@ },
        ),
        well_formed(step.session@),
{
    match take_sample(now_nanos, rtt_nanos, payload) {
        Ok(sample) => {
            let mut samples = samples;
            samples.push(sample);
            let count = samples.len();
            if count < SYNC_ROUNDS {
                Step {
                    session: Session::Sync(samples),
                    send: one(ServerMsg::RequestTime { id: count as u32 }),
                    fault: None,
                }
            } else {
                Step { session: Session::Average(samples), send: nothing(), fault: None }
            }
        },
        Err(fault) => Step { session: Session::Closed, send: nothing(), fault: Some(fault) },
    }
}

/// What follows when the samples of a client have come to a delta.
fn welcomed(delta_nanos: u128, current: Option<CurrentVideo>) -> (step: Step)
    ensures
        step@ == welcome(
            delta_nanos,
            match current {
                Some(video) => Some(video@),
                None => None,
            },
        ),
{
    match current {
        None => Step { session: Session::Live(delta_nanos), send: nothing(), fault: None },
        Some(video) => {
            let ghost loaded = video.loaded@;
            let mut send = one(video.loaded);
            match shift_msg(ServerMsg::from(video.state), delta_nanos) {
                Ok(state) => {
                    send.push(state);
                    assert(send@.map_values(|msg: ServerMsg| msg@) =~= seq![loaded, state@]);
                    Step { session: Session::Live(delta_nanos), send, fault: None }
                },
                Err(e) => Step { session: Session::Closed, send, fault: Some(Fault::Clock(e)) },
            }
        },
    }
}

/// A session after some events, and all that was sent by then.
pub struct RunView {
    pub session: SessionView,
    pub sent: Seq<ServerMsgView>,
}

/// What becomes of a client by `events`.
pub open spec fn run(events: Seq<EventView>) -> RunView
    decreases events.len(),
{
    if events.len() == 0 {
        RunView { session: SessionView::Magic, sent: seq![] }
    } else {
        let before = run(events.drop_last());
        let step = next_step(before.session, events.last());
        RunView { session: step.session, sent: before.sent + step.send }
    }
}

/// Each of `events` was awaited when it came.
pub open spec fn in_turn(events: Seq<EventView>) -> bool
    decreases events.len(),
{
    events.len() > 0 ==> {
        &&& in_turn(events.drop_last())
        &&& awaits(run(events.drop_last()).session, events.last())
    }
}

/// The first `n` questions for a client's clock.
pub open spec fn questions(n: nat) -> Seq<ServerMsgView> {
    Seq::new(n, |i: int| ServerMsgView::RequestTime { id: i as u32 })
}

/// What a client can have been sent.
pub open spec fn sent_by_then(session: SessionView, sent: Seq<ServerMsgView>) -> bool {
    match session {
        SessionView::Magic | SessionView::Version => sent == Seq::<ServerMsgView>::empty(),
        SessionView::Sync(samples) => sent == questions(samples.len() + 1),
        SessionView::Average(_) => sent == questions(SYNC_ROUNDS as nat),
        SessionView::Live(_) => questions(SYNC_ROUNDS as nat).is_prefix_of(sent),
        SessionView::Closed => {
            ||| sent == seq![ServerMsgView::Error("Bad magic number"@)]
            ||| sent == seq![ServerMsgView::Error("Unsupported version"@)]
            ||| exists|n: nat| 0 < n <= SYNC_ROUNDS && sent == #[trigger] questions(n)
            ||| questions(SYNC_ROUNDS as nat).is_prefix_of(sent)
        },
    }
}

/// Whatever a client does, it is sent nothing before it has named the right magic bytes and the
/// right version; a client that named others is sent one error and nothing else. Then it is asked
/// for its clock, [`SYNC_ROUNDS`] times with the numbers in order, and sent nothing else before the
/// last answer.
pub proof fn law_questions_come_first(events: Seq<EventView>)
    requires
        in_turn(events),
    ensures
        well_formed(run(events).session),
        sent_by_then(run(events).session, run(events).sent),
    decreases events.len(),
{
    if events.len() > 0 {
        law_questions_come_first(events.drop_last());
        let before = run(events.drop_last());
        let step = next_step(before.session, events.last());
        let sent = before.sent + step.send;
        match before.session {
            SessionView::Magic | SessionView::Version => {
                assert(sent =~= step.send);
                assert(questions(1) =~= seq![ServerMsgView::RequestTime { id: 0 }]);
            },
            SessionView::Sync(samples) => {
                if step.send.len() == 1 {
                    assert(sent =~= questions(samples.len() + 2));
                } else {
                    assert(sent =~= questions(samples.len() + 1));
                }
            },
            _ => {
                assert(questions(SYNC_ROUNDS as nat).is_prefix_of(sent));
            },
        }
    }
}

/// A client whose first bytes are wrong is told so, and dropped; one whose version is wrong is told
/// that, and dropped.
pub proof fn law_strangers_are_told_why(bytes: Seq<u8>, version: u32)
    requires
        bytes.len() == 4,
    ensures
        bytes != MAGIC@ ==> run(seq![EventView::Magic(bytes)]) == (RunView {
            session: SessionView::Closed,
            sent: seq![ServerMsgView::Error("Bad magic number"@)],
        }),
        bytes == MAGIC@ && version != VERSION ==> run(
            seq![EventView::Magic(bytes), EventView::Version(version)],
        ) == (RunView {
            session: SessionView::Closed,
            sent: seq![ServerMsgView::Error("Unsupported version"@)],
        }),
{
    lemma_first_two(EventView::Magic(bytes), EventView::Version(version));
}

/// Every client is to be told each of `msgs`.
pub open spec fn broadcasts(msgs: Seq<ServerMsgView>) -> Seq<EventView> {
    msgs.map_values(|msg: ServerMsgView| EventView::Broadcast(msg))
}

/// `msgs` with their moments told on a clock that is `delta_nanos` behind.
pub open spec fn told(msgs: Seq<ServerMsgView>, delta_nanos: u128) -> Seq<ServerMsgView> {
    msgs.map_values(|msg: ServerMsgView| shifted_msg(msg, delta_nanos)->Ok_0)
}

/// A client that takes part goes on taking part, and is told all that every client is told, in
/// order and nothing else, with the moments as its clock shows them.
pub proof fn law_clients_hear_everything(
    events: Seq<EventView>,
    delta_nanos: u128,
    msgs: Seq<ServerMsgView>,
)
    requires
        in_turn(events),
        run(events).session == SessionView::Live(delta_nanos),
        forall|i: int|
            0 <= i < msgs.len() ==> shifted_msg(#[trigger] msgs[i], delta_nanos) is Ok,
    ensures
        in_turn(events + broadcasts(msgs)),
        run(events + broadcasts(msgs)) == (RunView {
            session: SessionView::Live(delta_nanos),
            sent: run(events).sent + told(msgs, delta_nanos),
        }),
    decreases msgs.len(),
{
    let all = events + broadcasts(msgs);
    if msgs.len() == 0 {
        assert(all =~= events);
        assert(run(events).sent + told(msgs, delta_nanos) =~= run(events).sent);
    } else {
        let less = msgs.drop_last();
        law_clients_hear_everything(events, delta_nanos, less);
        assert(all.drop_last() =~= events + broadcasts(less));
        assert(all.last() == EventView::Broadcast(msgs[msgs.len() - 1]));
        assert(run(all).sent =~= run(events).sent + told(msgs, delta_nanos));
    }
}

/// The steps that the first two events make.
pub proof fn lemma_first_two(first: EventView, second: EventView)
    ensures
        ({
            let one = next_step(SessionView::Magic, first);
            let two = next_step(one.session, second);
            &&& run(seq![first]) == (RunView { session: one.session, sent: one.send })
            &&& run(seq![first, second]) == (RunView {
                session: two.session,
                sent: one.send + two.send,
            })
        }),
{
    reveal_with_fuel(run, 3);
    let events = seq![first, second];
    assert(seq![first].drop_last() =~= Seq::<EventView>::empty());
    assert(events.drop_last() =~= seq![first]);
    let one = next_step(SessionView::Magic, first);
    assert(run(seq![first]).sent =~= one.send);
}

/// A client is let in exactly where its first bytes are `wpsy` and its version is zero; it is then
/// asked for its clock. Any other is told why in one message and dropped.
pub proof fn law_who_is_let_in(bytes: Seq<u8>, version: u32)
    requires
        bytes.len() == 4,
    ensures
        ({
            let step = next_step(SessionView::Magic, EventView::Magic(bytes));
            if bytes == seq![0x77u8, 0x70, 0x73, 0x79] {
                step.session is Version && step.send.len() == 0 && step.fault is None
            } else {
                &&& step.session is Closed
                &&& step.send == seq![ServerMsgView::Error("Bad magic number"@)]
                &&& step.fault == Some(Fault::BadMagic)
            }
        }),
        ({
            let step = next_step(SessionView::Version, EventView::Version(version));
            if version == 0 {
                &&& step.session matches SessionView::Sync(samples) && samples.len() == 0
                &&& step.send == seq![ServerMsgView::RequestTime { id: 0 }]
                &&& step.fault is None
            } else {
                &&& step.session is Closed
                &&& step.send == seq![ServerMsgView::Error("Unsupported version"@)]
                &&& step.fault == Some(Fault::WrongVersion)
            }
        }),
{
    assert(MAGIC@ =~= seq![0x77u8, 0x70, 0x73, 0x79]);
}

/// An answer that can be read gives a sample of its trip and of the delta that, with the client's
/// clock and half the trip, makes up the server's clock, whatever number the answer has. It gives
/// none exactly where it cannot be read, or where the clock it tells is out of range or ahead.
pub proof fn law_sample_of_an_answer(now_nanos: u128, rtt_nanos: u128, payload: Seq<u8>)
    ensures
        match read_client_msg(payload) {
            Err(e) => sample_of(now_nanos, rtt_nanos, payload) == Err::<Sample, Fault>(
                Fault::BadReply(e),
            ),
            Ok(ClientMsg::CurrentTime { unix_time_micro, .. }) => match sample_of(
                now_nanos,
                rtt_nanos,
                payload,
            ) {
                Ok(sample) => unix_time_micro <= 0xffff_ffff_ffff_ffff && sample.rtt_nanos
                    == rtt_nanos && sample.delta_nanos + unix_time_micro * 1000 + rtt_nanos / 2
                    == now_nanos,
                Err(Fault::Clock(ClockError::OutOfRange)) => unix_time_micro
                    > 0xffff_ffff_ffff_ffff,
                Err(Fault::Clock(ClockError::BeforeStart)) => unix_time_micro
                    <= 0xffff_ffff_ffff_ffff && unix_time_micro * 1000 + rtt_nanos / 2 > now_nanos,
                Err(_) => false,
            },
        },
{
}

/// Each answer that gives a sample adds it behind the others; the next question has the number of
/// samples there are, and after the hundredth there is none. An answer that gives no sample drops
/// the client, and nothing is sent.
pub proof fn law_answers_are_collected(
    samples: Seq<Sample>,
    now_nanos: u128,
    rtt_nanos: u128,
    payload: Seq<u8>,
)
    requires
        samples.len() < 100,
    ensures
        ({
            let step = next_step(
                SessionView::Sync(samples),
                EventView::Reply { now_nanos, rtt_nanos, payload },
            );
            match sample_of(now_nanos, rtt_nanos, payload) {
                Ok(sample) => {
                    &&& step.fault is None
                    &&& if samples.len() < 99 {
                        &&& step.session == SessionView::Sync(samples.push(sample))
                        &&& step.send.len() == 1
                        &&& step.send[0] matches ServerMsgView::RequestTime { id } && id
                            == samples.len() + 1
                    } else {
                        &&& step.session == SessionView::Average(samples.push(sample))
                        &&& step.send.len() == 0
                    }
                },
                Err(fault) => {
                    &&& step.session is Closed
                    &&& step.send.len() == 0
                    &&& step.fault == Some(fault)
                },
            }
        }),
{
}

/// A synced client takes part with the delta that its samples came to, whatever video is loaded.
/// Without a video it is sent nothing. With one it is sent the video first, then the frame where it
/// stands, or the frame that it plays from and the last whole microsecond on the client's clock that
/// is not after the moment. Where the moment cannot be told so, it is sent the video, and dropped.
pub proof fn law_synced_client_takes_part(
    samples: Seq<Sample>,
    delta_nanos: u128,
    current: Option<CurrentVideoView>,
)
    ensures
        ({
            let step = next_step(
                SessionView::Average(samples),
                EventView::Averaged { delta_nanos, current },
            );
            match current {
                None => {
                    &&& step.session == SessionView::Live(delta_nanos)
                    &&& step.send.len() == 0
                    &&& step.fault is None
                },
                Some(video) => {
                    &&& step.send.len() >= 1
                    &&& step.send[0] == video.loaded
                    &&& match video.state {
                        State::PauseAt { playback_time_frames } => {
                            &&& step.session == SessionView::Live(delta_nanos)
                            &&& step.send.len() == 2
                            &&& step.send[1] == (ServerMsgView::PauseAt { playback_time_frames })
                            &&& step.fault is None
                        },
                        State::StartPlayingAt { unix_time_micro: at, playback_time_frames: frame } =>
                        if at > 0xffff_ffff_ffff_ffff {
                            &&& step.session is Closed
                            &&& step.send.len() == 1
                            &&& step.fault == Some(Fault::Clock(ClockError::OutOfRange))
                        } else if at * 1000 < delta_nanos {
                            &&& step.session is Closed
                            &&& step.send.len() == 1
                            &&& step.fault == Some(Fault::Clock(ClockError::BeforeStart))
                        } else {
                            &&& step.session == SessionView::Live(delta_nanos)
                            &&& step.send.len() == 2
                            &&& step.send[1] matches ServerMsgView::StartPlayingAt {
                                unix_time_micro: on,
                                playback_time_frames,
                            } && playback_time_frames == frame && on * 1000 + delta_nanos <= at
                                * 1000 < on * 1000 + 1000 + delta_nanos
                            &&& step.fault is None
                        },
                    }
                },
            }
        }),
{
}

/// A client that takes part goes on with the same delta. It is told to play from the frame that every
/// client is told, at the last whole microsecond on its own clock that is not after the moment, and
/// is dropped, with nothing sent, where the moment cannot be told so. Anything else it is told as it
/// is.
pub proof fn law_live_client_is_told(delta_nanos: u128, msg: ServerMsgView)
    ensures
        ({
            let step = next_step(SessionView::Live(delta_nanos), EventView::Broadcast(msg));
            match msg {
                ServerMsgView::StartPlayingAt { unix_time_micro: at, playback_time_frames: frame } =>
                if at > 0xffff_ffff_ffff_ffff {
                    &&& step.session is Closed
                    &&& step.send.len() == 0
                    &&& step.fault == Some(Fault::Clock(ClockError::OutOfRange))
                } else if at * 1000 < delta_nanos {
                    &&& step.session is Closed
                    &&& step.send.len() == 0
                    &&& step.fault == Some(Fault::Clock(ClockError::BeforeStart))
                } else {
                    &&& step.session == SessionView::Live(delta_nanos)
                    &&& step.send.len() == 1
                    &&& step.send[0] matches ServerMsgView::StartPlayingAt {
                        unix_time_micro: on,
                        playback_time_frames,
                    } && playback_time_frames == frame && on * 1000 + delta_nanos <= at * 1000 < on
                        * 1000 + 1000 + delta_nanos
                    &&& step.fault is None
                },
                _ => {
                    &&& step.session == SessionView::Live(delta_nanos)
                    &&& step.send == seq![msg]
                    &&& step.fault is None
                },
            }
        }),
{
}

/// Each kind of session waits for one kind of event, with anything in it, and one that is closed
/// for none. A session that asks for the clock has fewer than a hundred samples; one that has asked
/// enough has a hundred.
pub proof fn law_sessions_wait_in_turn(session: SessionView, event: EventView)
    ensures
        awaits(session, event) <==> match event {
            EventView::Magic(bytes) => session is Magic && bytes.len() == 4,
            EventView::Version(_) => session is Version,
            EventView::Reply { .. } => session is Sync,
            EventView::Averaged { .. } => session is Average,
            EventView::Broadcast(_) => session is Live,
        },
        well_formed(session) <==> match session {
            SessionView::Sync(samples) => samples.len() < 100,
            SessionView::Average(samples) => samples.len() == 100,
            _ => true,
        },
{
}

/// The mathematical values of a session, an event and a step keep all that they hold.
pub proof fn law_views_keep_the_session(session: Session, event: Event, step: Step)
    ensures
        match session@ {
            SessionView::Magic => session is Magic,
            SessionView::Version => session is Version,
            SessionView::Sync(samples) => session matches Session::Sync(s) && s@ == samples,
            SessionView::Average(samples) => session matches Session::Average(s) && s@ == samples,
            SessionView::Live(delta_nanos) => session == Session::Live(delta_nanos),
            SessionView::Closed => session is Closed,
        },
        match event@ {
            EventView::Magic(bytes) => event matches Event::Magic(b) && b@ == bytes,
            EventView::Version(version) => event == Event::Version(version),
            EventView::Reply { now_nanos, rtt_nanos, payload } => event matches Event::Reply {
                now_nanos: now,
                rtt_nanos: rtt,
                payload: p,
            } && now == now_nanos && rtt == rtt_nanos && p@ == payload,
            EventView::Averaged { delta_nanos, current } => event matches Event::Averaged {
                delta_nanos: delta,
                current: c,
            } && delta == delta_nanos && match current {
                None => c is None,
                Some(video) => c matches Some(v) && v@ == video,
            },
            EventView::Broadcast(msg) => event matches Event::Broadcast(m) && m@ == msg,
        },
        step@.session == step.session@,
        step@.fault == step.fault,
        step@.send.len() == step.send@.len(),
        forall|i: int|
            0 <= i < step.send@.len() ==> #[trigger] step@.send[i] == step.send@[i]@,
{
}

} // verus!
