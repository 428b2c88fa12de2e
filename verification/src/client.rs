//! What a client does with what the server says.
use crate::clock::ClockError;
use crate::message::{
    ClientMsg, ContentHash, ContentHashView, Download, DownloadView, ServerMsg, ServerMsgView,
    MAGIC, VERSION,
};
use crate::wire::{le_bytes, u32_to_le};
use vstd::prelude::*;

verus! {

/// What a client is to do.
#[derive(Debug, PartialEq, Eq)]
pub enum Action {
    /// Show this error.
    Report(String),
    /// Send this to the server.
    Answer(ClientMsg),
    /// Load this video.
    Load { hash: ContentHash, name: String, download: Download },
    /// Pause, and go to this frame.
    Pause { frame: u64 },
    /// Pause, go to this frame, and play when the clock shows `wake_nanos`, however long it takes
    /// to go there.
    PlayLater { frame: u64, wake_nanos: u128 },
    /// Pause, go to this frame and `late_nanos` further, and play.
    PlayNow { frame: u64, late_nanos: u128 },
}

/// The mathematical value of an [`Action`].
pub enum ActionView {
    Report(Seq<char>),
    Answer(ClientMsg),
    Load { hash: ContentHashView, name: Seq<char>, download: DownloadView },
    Pause { frame: u64 },
    PlayLater { frame: u64, wake_nanos: u128 },
    PlayNow { frame: u64, late_nanos: u128 },
}

impl View for Action {
    type V = ActionView;

    open spec fn view(&self) -> ActionView {
        match self {
            Action::Report(text) => ActionView::Report(text@),
            Action::Answer(msg) => ActionView::Answer(*msg),
            Action::Load { hash, name, download } => ActionView::Load {
                hash: hash@,
                name: name@,
                download: download@,
            },
            Action::Pause { frame } => ActionView::Pause { frame: *frame },
            Action::PlayLater { frame, wake_nanos } => ActionView::PlayLater {
                frame: *frame,
                wake_nanos: *wake_nanos,
            },
            Action::PlayNow { frame, late_nanos } => ActionView::PlayNow {
                frame: *frame,
                late_nanos: *late_nanos,
            },
        }
    }
}

/// What a client sends first.
pub open spec fn hello_bytes() -> Seq<u8> {
    MAGIC@ + le_bytes(VERSION)
}

/// What a client sends first: the magic bytes and the version.
pub fn hello() -> (bytes: Vec<u8>)
    ensures
        bytes@ == hello_bytes(),
{
    let mut bytes: Vec<u8> = Vec::new();
    bytes.push(MAGIC[0]);
    bytes.push(MAGIC[1]);
    bytes.push(MAGIC[2]);
    bytes.push(MAGIC[3]);
    let mut version = u32_to_le(VERSION);
    bytes.append(&mut version);
    assert(bytes@ =~= hello_bytes());
    bytes
}

/// What a client whose clock shows `now_nanos` does with a message.
pub open spec fn action_for(msg: ServerMsgView, now_nanos: u128) -> Result<ActionView, ClockError> {
    match msg {
        ServerMsgView::Error(text) => Ok(ActionView::Report(text)),
        ServerMsgView::RequestTime { id } => Ok(
            ActionView::Answer(
                ClientMsg::CurrentTime { id, unix_time_micro: (now_nanos / 1000) as u128 },
            ),
        ),
        ServerMsgView::LoadVideo { hash, name, download } => Ok(
            ActionView::Load { hash, name, download },
        ),
        ServerMsgView::PauseAt { playback_time_frames } => Ok(
            ActionView::Pause { frame: playback_time_frames },
        ),
        ServerMsgView::StartPlayingAt { unix_time_micro, playback_time_frames: frame } => if
            unix_time_micro > u64::MAX {
            Err(ClockError::OutOfRange)
        } else if now_nanos <= unix_time_micro * 1000 {
            Ok(ActionView::PlayLater { frame, wake_nanos: (unix_time_micro * 1000) as u128 })
        } else {
            Ok(
                ActionView::PlayNow {
                    frame,
                    late_nanos: (now_nanos - unix_time_micro * 1000) as u128,
                },
            )
        },
    }
}

/// What a client whose clock shows `now_nanos` does with a message.
pub fn react(msg: ServerMsg, now_nanos: u128) -> (action: Result<Action, ClockError>)
    ensures
        match action {
            Ok(action) => action_for(msg@, now_nanos) == Ok::<ActionView, ClockError>(action@),
            Err(e) => action_for(msg@, now_nanos) == Err::<ActionView, ClockError>(e),
        },
{
    match msg {
        ServerMsg::Error(text) => Ok(Action::Report(text)),
        ServerMsg::RequestTime { id } => Ok(
            Action::Answer(ClientMsg::CurrentTime { id, unix_time_micro: now_nanos / 1000 }),
        ),
        ServerMsg::LoadVideo { hash, name, download } => Ok(
            Action::Load { hash, name, download },
        ),
        ServerMsg::PauseAt { playback_time_frames } => Ok(
            Action::Pause { frame: playback_time_frames },
        ),
        ServerMsg::StartPlayingAt {
            unix_time_micro,
            playback_time_frames,
        } => match u64::try_from(unix_time_micro) {
            Ok(micros) => {
                let target_nanos = (micros as u128) * 1000;
                if now_nanos <= target_nanos {
                    Ok(
                        Action::PlayLater {
                            frame: playback_time_frames,
                            wake_nanos: target_nanos,
                        },
                    )
                } else {
                    Ok(
                        Action::PlayNow {
                            frame: playback_time_frames,
                            late_nanos: now_nanos - target_nanos,
                        },
                    )
                }
            },
            Err(_) => Err(ClockError::OutOfRange),
        },
    }
}

/// The first bytes of a client are `wpsy` and the version, which is zero.
pub proof fn law_hello()
    ensures
        hello_bytes() == seq![0x77u8, 0x70, 0x73, 0x79, 0, 0, 0, 0],
{
    assert(hello_bytes() =~= seq![0x77u8, 0x70, 0x73, 0x79, 0, 0, 0, 0]);
}

/// A client that is told to pause at a frame pauses at that frame, whatever its clock shows.
pub proof fn law_client_pauses_at_the_frame(frame: u64, now_nanos: u128)
    ensures
        action_for(ServerMsgView::PauseAt { playback_time_frames: frame }, now_nanos) matches Ok(
            ActionView::Pause { frame: at },
        ) && at == frame,
{
}

/// A client that is told to play goes to the frame it is told, and begins when its clock shows the
/// moment it is told. Where its clock has gone beyond the moment, it goes as far beyond the frame.
/// It cannot play exactly where the moment is out of range.
pub proof fn law_client_plays_from_the_frame(unix_time_micro: u128, frame: u64, now_nanos: u128)
    ensures
        match action_for(
            ServerMsgView::StartPlayingAt { unix_time_micro, playback_time_frames: frame },
            now_nanos,
        ) {
            Ok(ActionView::PlayLater { frame: at, wake_nanos }) => at == frame && unix_time_micro
                <= 0xffff_ffff_ffff_ffff && wake_nanos == unix_time_micro * 1000 && now_nanos
                <= wake_nanos,
            Ok(ActionView::PlayNow { frame: at, late_nanos }) => at == frame && unix_time_micro
                <= 0xffff_ffff_ffff_ffff && late_nanos > 0 && unix_time_micro * 1000 + late_nanos
                == now_nanos,
            Err(ClockError::OutOfRange) => unix_time_micro > 0xffff_ffff_ffff_ffff,
            _ => false,
        },
{
}

/// A client answers a question with its number and the whole microseconds on its clock, shows an
/// error as it was sent, and loads the video that it is told to load.
pub proof fn law_client_does_as_told(
    id: u32,
    text: Seq<char>,
    hash: ContentHashView,
    name: Seq<char>,
    download: DownloadView,
    now_nanos: u128,
)
    ensures
        action_for(ServerMsgView::RequestTime { id }, now_nanos) matches Ok(
            ActionView::Answer(ClientMsg::CurrentTime { id: same, unix_time_micro }),
        ) && same == id && unix_time_micro * 1000 <= now_nanos < unix_time_micro * 1000 + 1000,
        action_for(ServerMsgView::Error(text), now_nanos) == Ok::<ActionView, ClockError>(
            ActionView::Report(text),
        ),
        action_for(ServerMsgView::LoadVideo { hash, name, download }, now_nanos) == Ok::<
            ActionView,
            ClockError,
        >(ActionView::Load { hash, name, download }),
{
}

/// The mathematical value of an action is of the same kind and has the same fields.
pub proof fn law_view_keeps_the_action(action: Action)
    ensures
        match action@ {
            ActionView::Report(text) => action matches Action::Report(t) && t@ == text,
            ActionView::Answer(msg) => action == Action::Answer(msg),
            ActionView::Load { hash, name, download } => action matches Action::Load {
                hash: h,
                name: n,
                download: d,
            } && h@ == hash && n@ == name && d@ == download,
            ActionView::Pause { frame } => action == (Action::Pause { frame }),
            ActionView::PlayLater { frame, wake_nanos } => action == (Action::PlayLater {
                frame,
                wake_nanos,
            }),
            ActionView::PlayNow { frame, late_nanos } => action == (Action::PlayNow {
                frame,
                late_nanos,
            }),
        },
{
}

} // verus!
