//! What holds of the server and its clients together.
use crate::client::{action_for, hello_bytes, ActionView};
use crate::clock::{shifted_msg, ClockError};
use crate::codec::DecodeError;
use crate::console::CommandView;
use crate::content::{load_step, LoadStepView};
use crate::message::{
    ClientMsg, ContentHashView, DownloadView, ServerMsgView, MAGIC, VERSION,
};
use crate::room::{reaction, state_msg, CurrentVideoView, ReactionView, State};
use crate::samples::Sample;
use crate::session::{
    go_on, in_turn, lemma_first_two, next_step, questions, run, sample_of, welcome, EventView,
    Fault, RunView, SessionView, SYNC_ROUNDS,
};
use crate::wire::{
    client_msg_bytes, law_client_msg_round_trip, law_le_round_trip, law_server_msg_round_trip,
    le_bytes, le_value, read_server_msg, server_msg_bytes, texts_fit,
};
use vstd::prelude::*;

verus! {

/// What the server learns from the first bytes of a client.
pub open spec fn hello_events() -> Seq<EventView> {
    seq![
        EventView::Magic(hello_bytes().take(4)),
        EventView::Version(le_value(hello_bytes().skip(4)) as u32),
    ]
}

/// The server lets every client in, and asks it for its clock.
pub proof fn law_client_is_let_in()
    ensures
        in_turn(hello_events()),
        run(hello_events()) == (RunView {
            session: SessionView::Sync(seq![]),
            sent: seq![ServerMsgView::RequestTime { id: 0 }],
        }),
{
    let hello = hello_bytes();
    law_le_round_trip(VERSION);
    assert(hello.take(4) =~= MAGIC@);
    assert(hello.skip(4) =~= le_bytes(VERSION));
    let magic = hello_events()[0];
    let version = hello_events()[1];
    assert(hello_events() =~= seq![magic, version]);
    lemma_first_two(magic, version);
    assert(run(hello_events()).sent =~= seq![ServerMsgView::RequestTime { id: 0 }]);
    reveal_with_fuel(in_turn, 3);
    assert(hello_events().drop_last() =~= seq![magic]);
    assert(seq![magic].drop_last() =~= Seq::<EventView>::empty());
    assert(run(Seq::<EventView>::empty()).session is Magic);
    assert(run(seq![magic]).session is Version);
}

/// A question that a client answered: its clock showed `client_nanos`, and the answer came when the
/// server's clock showed `now_nanos`, `rtt_nanos` after the question was sent.
pub struct Round {
    pub client_nanos: u128,
    pub now_nanos: u128,
    pub rtt_nanos: u128,
}

impl Round {
    /// What the client tells of its clock is in range, and not ahead of the server's clock.
    pub open spec fn plausible(self) -> bool {
        &&& self.client_nanos / 1000 <= u64::MAX
        &&& self.client_nanos / 1000 * 1000 + self.rtt_nanos / 2 <= self.now_nanos
    }

    /// The answer to question `id`.
    pub open spec fn answer(self, id: u32) -> ClientMsg {
        ClientMsg::CurrentTime { id, unix_time_micro: (self.client_nanos / 1000) as u128 }
    }

    /// The arrival of the answer to question `id`.
    pub open spec fn event(self, id: u32) -> EventView {
        EventView::Reply {
            now_nanos: self.now_nanos,
            rtt_nanos: self.rtt_nanos,
            payload: client_msg_bytes(self.answer(id)),
        }
    }

    /// The sample that the server takes.
    pub open spec fn sample(self) -> Sample {
        Sample {
            rtt_nanos: self.rtt_nanos,
            delta_nanos: (self.now_nanos - (self.client_nanos / 1000 * 1000 + self.rtt_nanos / 2)) as u128,
        }
    }
}

/// A client answers a question for its clock with the number of the question and its clock, and the
/// server takes the sample that the answer gives.
pub proof fn law_answer_becomes_a_sample(round: Round, id: u32)
    requires
        round.plausible(),
    ensures
        action_for(ServerMsgView::RequestTime { id }, round.client_nanos) == Ok::<
            ActionView,
            ClockError,
        >(ActionView::Answer(round.answer(id))),
        sample_of(round.now_nanos, round.rtt_nanos, client_msg_bytes(round.answer(id))) == Ok::<
            Sample,
            Fault,
        >(round.sample()),
{
    let bytes = client_msg_bytes(round.answer(id));
    law_client_msg_round_trip(round.answer(id), seq![]);
    assert(bytes + Seq::<u8>::empty() =~= bytes);
}

/// The first bytes of a client, then its answers.
pub open spec fn sync_events(rounds: Seq<Round>) -> Seq<EventView> {
    hello_events() + Seq::new(rounds.len(), |i: int| rounds[i].event(i as u32))
}

/// A client that answers every question is synced: after the last answer the server has a sample
/// for each, in order, and before that it has asked the next question.
pub proof fn law_answers_sync_a_client(rounds: Seq<Round>)
    requires
        rounds.len() <= SYNC_ROUNDS,
        forall|i: int| 0 <= i < rounds.len() ==> (#[trigger] rounds[i]).plausible(),
    ensures
        in_turn(sync_events(rounds)),
        ({
            let samples = Seq::new(rounds.len(), |i: int| rounds[i].sample());
            run(sync_events(rounds)) == if rounds.len() < SYNC_ROUNDS {
                RunView {
                    session: SessionView::Sync(samples),
                    sent: questions(rounds.len() + 1),
                }
            } else {
                RunView { session: SessionView::Average(samples), sent: questions(rounds.len()) }
            }
        }),
    decreases rounds.len(),
{
    let events = sync_events(rounds);
    let samples = Seq::new(rounds.len(), |i: int| rounds[i].sample());
    if rounds.len() == 0 {
        law_client_is_let_in();
        assert(events =~= hello_events());
        assert(samples =~= seq![]);
        assert(questions(1) =~= seq![ServerMsgView::RequestTime { id: 0 }]);
    } else {
        let less = rounds.drop_last();
        let id = less.len() as u32;
        law_answers_sync_a_client(less);
        law_answer_becomes_a_sample(rounds.last(), id);
        assert(events.drop_last() =~= sync_events(less));
        assert(events.last() == rounds.last().event(id));
        let before = Seq::new(less.len(), |i: int| less[i].sample());
        assert(samples =~= before.push(rounds.last().sample()));
        if rounds.len() < SYNC_ROUNDS {
            assert(run(events).sent =~= questions(rounds.len() + 1));
        } else {
            assert(run(events).sent =~= questions(rounds.len()));
        }
    }
}

/// A client that joins after a command to play or to pause is told what a client heard that took
/// part when the command came: the same message, behind the video to load. After a command that
/// failed, of which nobody heard, it is told what it would have been told before.
pub proof fn law_joining_is_hearing_it_late(
    video: CurrentVideoView,
    now_nanos: u128,
    played_frames: u64,
    delta_nanos: u128,
)
    ensures
        ({
            let (room, said) = reaction(
                Some(video),
                CommandView::Toggle,
                now_nanos,
                played_frames,
            );
            let joined = welcome(delta_nanos, room);
            match said {
                Ok(said) => said matches ReactionView::Broadcast(msg) && {
                    let heard = next_step(
                        SessionView::Live(delta_nanos),
                        EventView::Broadcast(msg),
                    );
                    &&& joined.session == heard.session
                    &&& joined.fault == heard.fault
                    &&& joined.send == seq![video.loaded] + heard.send
                },
                Err(_) => joined == welcome(delta_nanos, Some(video)),
            }
        }),
{
    let (room, said) = reaction(Some(video), CommandView::Toggle, now_nanos, played_frames);
    if let Ok(ReactionView::Broadcast(msg)) = said {
        let joined = welcome(delta_nanos, room);
        let heard = next_step(SessionView::Live(delta_nanos), EventView::Broadcast(msg));
        assert(joined.send =~= seq![video.loaded] + heard.send);
    }
}

/// A client that joins while a video is loaded, whether it plays or stands, is told where to
/// download it and then of its state, on its own clock. It reads the first as it was sent, and,
/// where it does not have the file, downloads it from there.
pub proof fn law_joining_client_downloads_the_video(
    hash: ContentHashView,
    name: Seq<char>,
    url: Seq<char>,
    state: State,
    told: ServerMsgView,
    delta_nanos: u128,
    client_nanos: u128,
)
    requires
        texts_fit(ServerMsgView::LoadVideo { hash, name, download: DownloadView::Https(url) }),
        shifted_msg(state_msg(state), delta_nanos) == Ok::<ServerMsgView, ClockError>(told),
    ensures
        ({
            let download = DownloadView::Https(url);
            let loaded = ServerMsgView::LoadVideo { hash, name, download };
            &&& welcome(delta_nanos, Some(CurrentVideoView { loaded, state })) == go_on(
                SessionView::Live(delta_nanos),
                seq![loaded, told],
            )
            &&& read_server_msg(server_msg_bytes(loaded)) == Ok::<ServerMsgView, DecodeError>(
                loaded,
            )
            &&& action_for(loaded, client_nanos) == Ok::<ActionView, ClockError>(
                ActionView::Load { hash, name, download },
            )
            &&& load_step(None, hash, download) == LoadStepView::Fetch(url)
        }),
{
    let loaded = ServerMsgView::LoadVideo { hash, name, download: DownloadView::Https(url) };
    law_server_msg_round_trip(loaded, seq![]);
    assert(server_msg_bytes(loaded) + Seq::<u8>::empty() =~= server_msg_bytes(loaded));
}

/// A client that hears in time of a moment to play begins at the moment: told of it on its own
/// clock, which is `delta_nanos` behind, it goes to the frame and plays when the server's clock
/// shows the moment, to the microsecond.
pub proof fn law_client_in_time_plays_at_the_moment(
    unix_time_micro: u128,
    frame: u64,
    delta_nanos: u128,
    client_nanos: u128,
)
    requires
        unix_time_micro <= u64::MAX,
        delta_nanos <= unix_time_micro * 1000,
        client_nanos <= (unix_time_micro * 1000 - delta_nanos) / 1000 * 1000,
    ensures
        ({
            let said = ServerMsgView::StartPlayingAt {
                unix_time_micro,
                playback_time_frames: frame,
            };
            shifted_msg(said, delta_nanos) matches Ok(told) && (action_for(
                told,
                client_nanos,
            ) matches Ok(ActionView::PlayLater { frame: at, wake_nanos }) && at == frame
                && client_nanos <= wake_nanos && unix_time_micro * 1000 - 1000 < wake_nanos
                + delta_nanos <= unix_time_micro * 1000)
        }),
{
}

/// A client that hears late of a moment to play catches up: told of the moment on its own clock,
/// which is `delta_nanos` behind, it plays at once, and goes as far beyond the frame as the
/// server's clock has gone beyond the moment, to the microsecond.
pub proof fn law_late_client_catches_up(
    unix_time_micro: u128,
    frame: u64,
    delta_nanos: u128,
    client_nanos: u128,
)
    requires
        unix_time_micro <= u64::MAX,
        delta_nanos <= unix_time_micro * 1000,
        client_nanos > (unix_time_micro * 1000 - delta_nanos) / 1000 * 1000,
    ensures
        ({
            let said = ServerMsgView::StartPlayingAt {
                unix_time_micro,
                playback_time_frames: frame,
            };
            let server_nanos = client_nanos + delta_nanos;
            shifted_msg(said, delta_nanos) matches Ok(told) && (action_for(
                told,
                client_nanos,
            ) matches Ok(ActionView::PlayNow { frame: at, late_nanos }) && at == frame
                && late_nanos - 1000 < server_nanos - unix_time_micro * 1000 <= late_nanos)
        }),
{
}

/// A frame, and the moment on the server's clock at which a client shows it, or would have shown it,
/// by what the client does when its own clock, which is `delta_nanos` behind, shows `client_nanos`.
pub open spec fn plays_at(action: ActionView, delta_nanos: u128, client_nanos: u128) -> Option<
    (u64, int),
> {
    match action {
        ActionView::PlayLater { frame, wake_nanos } => Some((frame, wake_nanos + delta_nanos)),
        ActionView::PlayNow { frame, late_nanos } => Some(
            (frame, client_nanos + delta_nanos - late_nanos),
        ),
        _ => None,
    }
}

/// Any two clients that are told to play show the same part of the video, to the microsecond,
/// whether they hear of it in time or late.
pub proof fn law_clients_play_in_step(
    unix_time_micro: u128,
    frame: u64,
    delta_a: u128,
    client_a: u128,
    delta_b: u128,
    client_b: u128,
)
    requires
        unix_time_micro <= u64::MAX,
        delta_a <= unix_time_micro * 1000,
        delta_b <= unix_time_micro * 1000,
    ensures
        ({
            let said = ServerMsgView::StartPlayingAt {
                unix_time_micro,
                playback_time_frames: frame,
            };
            let a = action_for(shifted_msg(said, delta_a)->Ok_0, client_a);
            let b = action_for(shifted_msg(said, delta_b)->Ok_0, client_b);
            &&& a is Ok && b is Ok
            &&& plays_at(a->Ok_0, delta_a, client_a) matches Some((frame_a, at_a)) && frame_a == frame
                && (plays_at(b->Ok_0, delta_b, client_b) matches Some((frame_b, at_b)) && frame_b
                == frame && -1000 < at_a - at_b < 1000)
        }),
{
}

} // verus!
