//! The room: the video that is being watched, and whether it plays.
use crate::clock::ClockError;
use crate::console::{Command, CommandView};
use crate::message::{ContentHash, Download, ServerMsg, ServerMsgView};
use vstd::prelude::*;

verus! {

/// How long after a command to play the playing begins, so that every client hears of it in time.
pub const PLAYBACK_START_BUF_NANOS: u128 = 500_000_000;

/// The longest duration that a clock can measure.
pub const DURATION_MAX_NANOS: u128 = 18_446_744_073_709_551_615_999_999_999;

/// A video that the server knows of.
#[derive(Debug, PartialEq, Eq)]
pub struct VideoDescription {
    /// What identifies its content.
    pub hash: ContentHash,
    /// The name of its file.
    pub name: String,
    /// Where it can be had.
    pub download: Download,
}

/// Whether the video plays, on the server's clock.
#[derive(Debug, Clone, Copy, PartialEq, Eq, Structural)]
pub enum State {
    /// It plays from a frame on, beginning at a moment.
    StartPlayingAt { unix_time_micro: u128, playback_time_frames: u64 },
    /// It stands at a frame.
    PauseAt { playback_time_frames: u64 },
}

/// A video that is loaded.
#[derive(Debug, PartialEq, Eq)]
pub struct CurrentVideo {
    /// The message that tells a client to load it.
    pub loaded: ServerMsg,
    /// Whether it plays.
    pub state: State,
}

/// The mathematical value of a [`CurrentVideo`].
pub struct CurrentVideoView {
    pub loaded: ServerMsgView,
    pub state: State,
}

/// The room.
#[derive(Debug, PartialEq, Eq)]
pub struct Room {
    /// The video that is loaded, if one is.
    pub current: Option<CurrentVideo>,
}

/// What follows from a command.
#[derive(Debug, PartialEq, Eq)]
pub enum Reaction {
    /// The server ends.
    Quit,
    /// Every client is told this.
    Broadcast(ServerMsg),
    /// There is no video to play or to pause.
    NoVideo,
    /// This is no command.
    NotACommand(String),
}

/// The mathematical value of a [`Reaction`].
pub enum ReactionView {
    Quit,
    Broadcast(ServerMsgView),
    NoVideo,
    NotACommand(Seq<char>),
}

impl View for CurrentVideo {
    type V = CurrentVideoView;

    open spec fn view(&self) -> CurrentVideoView {
        CurrentVideoView { loaded: self.loaded@, state: self.state }
    }
}

impl View for Room {
    type V = Option<CurrentVideoView>;

    open spec fn view(&self) -> Option<CurrentVideoView> {
        match self.current {
            Some(video) => Some(video@),
            None => None,
        }
    }
}

impl View for Reaction {
    type V = ReactionView;

    open spec fn view(&self) -> ReactionView {
        match self {
            Reaction::Quit => ReactionView::Quit,
            Reaction::Broadcast(msg) => ReactionView::Broadcast(msg@),
            Reaction::NoVideo => ReactionView::NoVideo,
            Reaction::NotACommand(text) => ReactionView::NotACommand(text@),
        }
    }
}

/// The message that tells of a state.
pub open spec fn state_msg(state: State) -> ServerMsgView {
    match state {
        State::StartPlayingAt {
            unix_time_micro,
            playback_time_frames,
        } => ServerMsgView::StartPlayingAt { unix_time_micro, playback_time_frames },
        State::PauseAt { playback_time_frames } => ServerMsgView::PauseAt { playback_time_frames },
    }
}

impl From<State> for ServerMsg {
    fn from(value: State) -> (msg: Self) {
        match value {
            State::PauseAt { playback_time_frames } => ServerMsg::PauseAt { playback_time_frames },
            State::StartPlayingAt {
                unix_time_micro,
                playback_time_frames,
            } => ServerMsg::StartPlayingAt { unix_time_micro, playback_time_frames },
        }
    }
}

impl vstd::std_specs::convert::FromSpecImpl<State> for ServerMsg {
    open spec fn obeys_from_spec() -> bool {
        true
    }

    open spec fn from_spec(value: State) -> Self {
        match value {
            State::PauseAt { playback_time_frames } => ServerMsg::PauseAt { playback_time_frames },
            State::StartPlayingAt {
                unix_time_micro,
                playback_time_frames,
            } => ServerMsg::StartPlayingAt { unix_time_micro, playback_time_frames },
        }
    }
}

/// How far a pause at `now_nanos` lies beyond the frame that a state plays from: as long as the video
/// has played by then, and [`PLAYBACK_START_BUF_NANOS`] more. Once the video plays, the two together
/// are the time since the command to play.
pub open spec fn played(state: State, now_nanos: u128) -> Result<Option<int>, ClockError> {
    match state {
        State::PauseAt { .. } => Ok(None),
        State::StartPlayingAt { unix_time_micro, .. } => if unix_time_micro > u64::MAX {
            Err(ClockError::OutOfRange)
        } else {
            let since = now_nanos - unix_time_micro * 1000;
            Ok(Some((if since < 0 { 0 } else { since }) + PLAYBACK_START_BUF_NANOS))
        },
    }
}

/// The state after a command to play or to pause at `now_nanos`, where a pause lies `played_frames`
/// frames beyond the frame that the video plays from. Where the moment that playing began is out of
/// range, there is none.
pub open spec fn toggled(state: State, now_nanos: u128, played_frames: u64) -> Result<
    State,
    ClockError,
> {
    match state {
        State::StartPlayingAt { unix_time_micro, playback_time_frames } => if unix_time_micro
            > u64::MAX {
            Err(ClockError::OutOfRange)
        } else {
            Ok(State::PauseAt { playback_time_frames: (playback_time_frames + played_frames) as u64 })
        },
        State::PauseAt { playback_time_frames } => Ok(
            State::StartPlayingAt {
                unix_time_micro: ((now_nanos + PLAYBACK_START_BUF_NANOS) / 1000) as u128,
                playback_time_frames,
            },
        ),
    }
}

/// The state after the command, where there is one, can be told: its frame, or its moment, fits.
pub open spec fn toggle_fits(state: State, now_nanos: u128, played_frames: u64) -> bool {
    match state {
        State::StartPlayingAt { unix_time_micro, playback_time_frames } => unix_time_micro
            <= u64::MAX ==> playback_time_frames + played_frames <= u64::MAX,
        State::PauseAt { .. } => now_nanos + PLAYBACK_START_BUF_NANOS <= DURATION_MAX_NANOS,
    }
}

impl VideoDescription {
    /// Loads the video: clients are to have it at hand, and it stands at its first frame.
    pub fn load(self) -> (video: CurrentVideo)
        ensures
            video@ == (CurrentVideoView {
                loaded: ServerMsgView::LoadVideo {
                    hash: self.hash@,
                    name: self.name@,
                    download: self.download@,
                },
                state: State::PauseAt { playback_time_frames: 0 },
            }),
    {
        CurrentVideo {
            loaded: ServerMsg::LoadVideo {
                hash: self.hash,
                name: self.name,
                download: self.download,
            },
            state: State::PauseAt { playback_time_frames: 0 },
        }
    }
}

impl Clone for VideoDescription {
    fn clone(&self) -> (copy: Self)
        ensures
            copy.hash@ == self.hash@,
            copy.name@ == self.name@,
            copy.download@ == self.download@,
    {
        VideoDescription {
            hash: self.hash.clone(),
            name: self.name.clone(),
            download: self.download.clone(),
        }
    }
}

impl Clone for CurrentVideo {
    fn clone(&self) -> (copy: Self)
        ensures
            copy@ == self@,
    {
        CurrentVideo { loaded: self.loaded.clone(), state: self.state }
    }
}

impl State {
    /// How far a pause at `now_nanos` lies beyond the frame that the video plays from: as long as it
    /// has played by then, and [`PLAYBACK_START_BUF_NANOS`] more; none where it stands.
    pub fn played_nanos(&self, now_nanos: u128) -> (nanos: Result<Option<u128>, ClockError>)
        requires
            played(*self, now_nanos) matches Ok(Some(nanos)) ==> nanos <= DURATION_MAX_NANOS,
        ensures
            match played(*self, now_nanos) {
                Ok(Some(expected)) => nanos matches Ok(Some(nanos)) && nanos == expected,
                Ok(None) => nanos == Ok::<Option<u128>, ClockError>(None),
                Err(e) => nanos == Err::<Option<u128>, ClockError>(e),
            },
    {
        match *self {
            State::PauseAt { .. } => Ok(None),
            State::StartPlayingAt { unix_time_micro, .. } => match u64::try_from(unix_time_micro) {
                Ok(micros) => {
                    let start_nanos = (micros as u128) * 1000;
                    let since = if now_nanos < start_nanos {
                        0
                    } else {
                        now_nanos - start_nanos
                    };
                    Ok(Some(since + PLAYBACK_START_BUF_NANOS))
                },
                Err(_) => Err(ClockError::OutOfRange),
            },
        }
    }

    /// Whether the state after a command to play or to pause, where there is one, can be told.
    pub fn can_toggle(&self, now_nanos: u128, played_frames: u64) -> (can: bool)
        ensures
            can == toggle_fits(*self, now_nanos, played_frames),
    {
        match *self {
            State::StartPlayingAt { unix_time_micro, playback_time_frames } => unix_time_micro
                > u64::MAX as u128 || played_frames <= u64::MAX - playback_time_frames,
            State::PauseAt { .. } => now_nanos <= DURATION_MAX_NANOS - PLAYBACK_START_BUF_NANOS,
        }
    }

    /// Plays what stands and pauses what plays, unless the moment that playing began is out of
    /// range.
    pub fn toggle(self, now_nanos: u128, played_frames: u64) -> (next: Result<State, ClockError>)
        requires
            toggle_fits(self, now_nanos, played_frames),
        ensures
            next == toggled(self, now_nanos, played_frames),
    {
        match self {
            State::StartPlayingAt { unix_time_micro, playback_time_frames } => if unix_time_micro
                > u64::MAX as u128 {
                Err(ClockError::OutOfRange)
            } else {
                Ok(State::PauseAt { playback_time_frames: playback_time_frames + played_frames })
            },
            State::PauseAt { playback_time_frames } => Ok(
                State::StartPlayingAt {
                    unix_time_micro: (now_nanos + PLAYBACK_START_BUF_NANOS) / 1000,
                    playback_time_frames,
                },
            ),
        }
    }
}

/// What a room becomes by a command, and what follows from it, or why the command fails. A command
/// that fails changes nothing.
pub open spec fn reaction(
    room: Option<CurrentVideoView>,
    command: CommandView,
    now_nanos: u128,
    played_frames: u64,
) -> (Option<CurrentVideoView>, Result<ReactionView, ClockError>) {
    match command {
        CommandView::Exit => (room, Ok(ReactionView::Quit)),
        CommandView::Test => (room, Ok(ReactionView::Broadcast(ServerMsgView::Error("wow"@)))),
        CommandView::Toggle => match room {
            None => (None, Ok(ReactionView::NoVideo)),
            Some(video) => match toggled(video.state, now_nanos, played_frames) {
                Ok(state) => (
                    Some(CurrentVideoView { state, ..video }),
                    Ok(ReactionView::Broadcast(state_msg(state))),
                ),
                Err(e) => (room, Err(e)),
            },
        },
        CommandView::Unknown(text) => (room, Ok(ReactionView::NotACommand(text))),
    }
}

impl Room {
    /// Carries out a command, unless the moment that playing began is out of range.
    pub fn react(&mut self, command: Command, now_nanos: u128, played_frames: u64) -> (reacted:
        Result<Reaction, ClockError>)
        requires
            command is Toggle ==> (old(self)@ matches Some(video) ==> toggle_fits(
                video.state,
                now_nanos,
                played_frames,
            )),
        ensures
            ({
                let (room, expected) = reaction(old(self)@, command@, now_nanos, played_frames);
                &&& final(self)@ == room
                &&& match reacted {
                    Ok(reacted) => expected == Ok::<ReactionView, ClockError>(reacted@),
                    Err(e) => expected == Err::<ReactionView, ClockError>(e),
                }
            }),
    {
        match command {
            Command::Exit => Ok(Reaction::Quit),
            Command::Test => Ok(Reaction::Broadcast(ServerMsg::Error("wow".to_owned()))),
            Command::Toggle => match &mut self.current {
                None => Ok(Reaction::NoVideo),
                Some(video) => match video.state.toggle(now_nanos, played_frames) {
                    Ok(state) => {
                        video.state = state;
                        Ok(Reaction::Broadcast(ServerMsg::from(state)))
                    },
                    Err(e) => Err(e),
                },
            },
            Command::Unknown(text) => Ok(Reaction::NotACommand(text)),
        }
    }
}

/// No command loads another video or takes the loaded one away, and none but the command to play or
/// to pause changes anything. A command that fails changes nothing, and only the command to pause a
/// video fails that began to play at a moment out of range.
pub proof fn law_commands_keep_the_video(
    room: Option<CurrentVideoView>,
    command: CommandView,
    now_nanos: u128,
    played_frames: u64,
)
    ensures
        ({
            let (next, said) = reaction(room, command, now_nanos, played_frames);
            &&& room is None ==> next is None
            &&& room matches Some(video) ==> next matches Some(next) && next.loaded == video.loaded
            &&& command !is Toggle || said is Err ==> next == room
            &&& said is Err <==> command is Toggle && (room matches Some(video) && (
            video.state matches State::StartPlayingAt { unix_time_micro, .. } && unix_time_micro
                > u64::MAX))
        }),
{
}

/// Playing and pausing take turns. To play keeps the frame, and begins at the last whole microsecond
/// within half a second; to pause goes on by the frames counted, and fails where the moment that
/// playing began is out of range.
pub proof fn law_toggling_takes_turns(state: State, now_nanos: u128, played_frames: u64)
    requires
        toggle_fits(state, now_nanos, played_frames),
    ensures
        state matches State::PauseAt { playback_time_frames: at } ==> toggled(
            state,
            now_nanos,
            played_frames,
        ) matches Ok(State::StartPlayingAt { playback_time_frames, unix_time_micro })
            && playback_time_frames == at && unix_time_micro * 1000 <= now_nanos + 500_000_000
            < unix_time_micro * 1000 + 1000,
        state matches State::StartPlayingAt { playback_time_frames: at, unix_time_micro } ==> if
            unix_time_micro <= u64::MAX {
            toggled(state, now_nanos, played_frames) matches Ok(
                State::PauseAt { playback_time_frames },
            ) && playback_time_frames == at + played_frames
        } else {
            toggled(state, now_nanos, played_frames) == Err::<State, ClockError>(
                ClockError::OutOfRange,
            )
        },
{
}

/// A video that was told to play and, once it plays, is told to pause goes on by the time between
/// the two commands, to the microsecond. It has played for less: playing began
/// [`PLAYBACK_START_BUF_NANOS`] after the first command, and that is what is added.
pub proof fn law_pause_counts_from_the_command(
    frame: u64,
    play_nanos: u128,
    pause_nanos: u128,
    played_frames: u64,
)
    requires
        play_nanos + PLAYBACK_START_BUF_NANOS <= pause_nanos,
        play_nanos + PLAYBACK_START_BUF_NANOS < (u64::MAX + 1) * 1000,
    ensures
        ({
            let standing = State::PauseAt { playback_time_frames: frame };
            toggled(standing, play_nanos, played_frames) matches Ok(playing) && (played(
                playing,
                pause_nanos,
            ) matches Ok(Some(nanos)) && pause_nanos - play_nanos <= nanos < pause_nanos
                - play_nanos + 1000)
        }),
{
}

/// A message tells of a state by the state's own moment and frame.
pub proof fn law_message_tells_the_state(state: State)
    ensures
        <ServerMsg as vstd::std_specs::convert::FromSpec<State>>::obeys_from_spec(),
        <ServerMsg as vstd::std_specs::convert::FromSpec<State>>::from_spec(state)@ == state_msg(
            state,
        ),
        match state_msg(state) {
            ServerMsgView::StartPlayingAt { unix_time_micro, playback_time_frames } => state == (
            State::StartPlayingAt { unix_time_micro, playback_time_frames }),
            ServerMsgView::PauseAt { playback_time_frames } => state == (State::PauseAt {
                playback_time_frames,
            }),
            _ => false,
        },
        match <ServerMsg as vstd::std_specs::convert::FromSpec<State>>::from_spec(state) {
            ServerMsg::StartPlayingAt { unix_time_micro, playback_time_frames } => state == (
            State::StartPlayingAt { unix_time_micro, playback_time_frames }),
            ServerMsg::PauseAt { playback_time_frames } => state == (State::PauseAt {
                playback_time_frames,
            }),
            _ => false,
        },
{
}

/// A command to play that comes half a second before a moment has every client play from the frame
/// where the video stands, at that moment; the room then plays from there too. A command to pause
/// has every client stop, `played_frames` beyond the frame that the video played from; the room then
/// stands there too. A pause fails exactly where the moment that playing began is out of range.
pub proof fn law_clients_are_told_the_new_state(
    video: CurrentVideoView,
    now_nanos: u128,
    played_frames: u64,
)
    requires
        toggle_fits(video.state, now_nanos, played_frames),
    ensures
        ({
            let (room, said) = reaction(
                Some(video),
                CommandView::Toggle,
                now_nanos,
                played_frames,
            );
            match video.state {
                State::PauseAt { playback_time_frames: frame } => said matches Ok(
                    ReactionView::Broadcast(
                        ServerMsgView::StartPlayingAt { unix_time_micro, playback_time_frames },
                    ),
                ) && playback_time_frames == frame && unix_time_micro * 1000 <= now_nanos
                    + 500_000_000 < unix_time_micro * 1000 + 1000 && room == Some(
                    CurrentVideoView {
                        loaded: video.loaded,
                        state: State::StartPlayingAt { unix_time_micro, playback_time_frames },
                    },
                ),
                State::StartPlayingAt { unix_time_micro, playback_time_frames: frame } => if
                    unix_time_micro <= 0xffff_ffff_ffff_ffff {
                    said matches Ok(
                        ReactionView::Broadcast(ServerMsgView::PauseAt { playback_time_frames }),
                    ) && playback_time_frames == frame + played_frames && room == Some(
                        CurrentVideoView {
                            loaded: video.loaded,
                            state: State::PauseAt { playback_time_frames },
                        },
                    )
                } else {
                    said == Err::<ReactionView, ClockError>(ClockError::OutOfRange) && room == Some(
                        video,
                    )
                },
            }
        }),
{
}

/// The other commands leave the room as it is: `exit` ends the server, `t` has every client told
/// `wow`, and what is no command is reported as it was typed. Without a video there is nothing to
/// play or to pause.
pub proof fn law_other_commands(
    room: Option<CurrentVideoView>,
    text: Seq<char>,
    now_nanos: u128,
    played_frames: u64,
)
    ensures
        reaction(room, CommandView::Exit, now_nanos, played_frames) == (
            room,
            Ok::<ReactionView, ClockError>(ReactionView::Quit),
        ),
        reaction(room, CommandView::Test, now_nanos, played_frames) == (
            room,
            Ok::<ReactionView, ClockError>(
                ReactionView::Broadcast(ServerMsgView::Error(seq!['w', 'o', 'w'])),
            ),
        ),
        reaction(room, CommandView::Unknown(text), now_nanos, played_frames) == (
            room,
            Ok::<ReactionView, ClockError>(ReactionView::NotACommand(text)),
        ),
        reaction(None, CommandView::Toggle, now_nanos, played_frames) == (
            None::<CurrentVideoView>,
            Ok::<ReactionView, ClockError>(ReactionView::NoVideo),
        ),
{
    reveal_strlit("wow");
    assert("wow"@ =~= seq!['w', 'o', 'w']);
}

/// A pause lies half a second beyond the frame played from where playing has not begun, and half a
/// second and the time since it began where it has. Of a video that stands there is nothing to
/// count; of one that began out of range nothing can be counted.
pub proof fn law_pause_lies_beyond_the_time_played(state: State, now_nanos: u128)
    ensures
        match state {
            State::PauseAt { .. } => played(state, now_nanos) == Ok::<Option<int>, ClockError>(None),
            State::StartPlayingAt { unix_time_micro, .. } => if unix_time_micro
                > 0xffff_ffff_ffff_ffff {
                played(state, now_nanos) == Err::<Option<int>, ClockError>(ClockError::OutOfRange)
            } else {
                played(state, now_nanos) matches Ok(Some(nanos)) && (now_nanos <= unix_time_micro
                    * 1000 ==> nanos == 500_000_000) && (now_nanos >= unix_time_micro * 1000
                    ==> nanos + unix_time_micro * 1000 == now_nanos + 500_000_000)
            },
        },
{
}

/// To play fits exactly where the clock and half a second fit a duration; to pause exactly where
/// the frame fits, or where it fails.
pub proof fn law_toggle_fits(state: State, now_nanos: u128, played_frames: u64)
    ensures
        match state {
            State::PauseAt { .. } => toggle_fits(state, now_nanos, played_frames) <==> now_nanos
                + 500_000_000 < 0x1_0000_0000_0000_0000 * 1_000_000_000,
            State::StartPlayingAt { unix_time_micro, playback_time_frames } => toggle_fits(
                state,
                now_nanos,
                played_frames,
            ) <==> unix_time_micro > 0xffff_ffff_ffff_ffff || playback_time_frames + played_frames
                <= 0xffff_ffff_ffff_ffff,
        },
{
}

/// The mathematical values of a video, a room and a reaction keep all that they hold.
pub proof fn law_views_keep_the_room(video: CurrentVideo, room: Room, reacted: Reaction)
    ensures
        video@.loaded == video.loaded@,
        video@.state == video.state,
        match room@ {
            None => room.current is None,
            Some(loaded) => room.current matches Some(current) && current@ == loaded,
        },
        match reacted@ {
            ReactionView::Quit => reacted is Quit,
            ReactionView::Broadcast(msg) => reacted matches Reaction::Broadcast(m) && m@ == msg,
            ReactionView::NoVideo => reacted is NoVideo,
            ReactionView::NotACommand(text) => reacted matches Reaction::NotACommand(t) && t@
                == text,
        },
{
}

} // verus!
