//! The messages that the server and its clients exchange.
use vstd::prelude::*;

verus! {

/// The four bytes that a client sends first: `wpsy`.
pub const MAGIC: &'static [u8; 4] = &[0x77, 0x70, 0x73, 0x79];

/// The version of the protocol that both sides speak.
pub const VERSION: u32 = 0;

/// What a client says to the server.
#[derive(Debug, PartialEq, Eq)]
pub enum ClientMsg {
    /// The client's clock, in microseconds since the client started.
    CurrentTime { id: u32, unix_time_micro: u128 },
}

/// What the server says to a client.
#[derive(Debug, PartialEq, Eq)]
pub enum ServerMsg {
    /// Something that the server refuses or reports, in words.
    Error(String),
    /// A question for the client's clock.
    RequestTime { id: u32 },
    /// The video to have at hand, and where it can be had.
    LoadVideo { hash: ContentHash, name: String, download: Download },
    /// Play from a frame on, beginning at a moment.
    StartPlayingAt { unix_time_micro: u128, playback_time_frames: u64 },
    /// Stop at a frame.
    PauseAt { playback_time_frames: u64 },
}

/// Where a video can be downloaded.
#[derive(Debug, PartialEq, Eq)]
pub enum Download {
    /// From this URL.
    Https(String),
    /// From nowhere that is known.
    Nowhere,
}

/// What identifies the content of a video.
#[derive(Debug, PartialEq, Eq)]
pub enum ContentHash {
    /// The SHA-256 digest, in lower-case hexadecimal digits.
    Sha256(String),
}

/// The mathematical value of a [`ServerMsg`]: texts are sequences of characters.
pub enum ServerMsgView {
    Error(Seq<char>),
    RequestTime { id: u32 },
    LoadVideo { hash: ContentHashView, name: Seq<char>, download: DownloadView },
    StartPlayingAt { unix_time_micro: u128, playback_time_frames: u64 },
    PauseAt { playback_time_frames: u64 },
}

/// The mathematical value of a [`Download`].
pub enum DownloadView {
    Https(Seq<char>),
    Nowhere,
}

/// The mathematical value of a [`ContentHash`].
pub enum ContentHashView {
    Sha256(Seq<char>),
}

impl View for Download {
    type V = DownloadView;

    open spec fn view(&self) -> DownloadView {
        match self {
            Download::Https(url) => DownloadView::Https(url@),
            Download::Nowhere => DownloadView::Nowhere,
        }
    }
}

impl View for ContentHash {
    type V = ContentHashView;

    open spec fn view(&self) -> ContentHashView {
        match self {
            ContentHash::Sha256(digits) => ContentHashView::Sha256(digits@),
        }
    }
}

impl View for ServerMsg {
    type V = ServerMsgView;

    open spec fn view(&self) -> ServerMsgView {
        match self {
            ServerMsg::Error(text) => ServerMsgView::Error(text@),
            ServerMsg::RequestTime { id } => ServerMsgView::RequestTime { id: *id },
            ServerMsg::LoadVideo { hash, name, download } => ServerMsgView::LoadVideo {
                hash: hash@,
                name: name@,
                download: download@,
            },
            ServerMsg::StartPlayingAt {
                unix_time_micro,
                playback_time_frames,
            } => ServerMsgView::StartPlayingAt {
                unix_time_micro: *unix_time_micro,
                playback_time_frames: *playback_time_frames,
            },
            ServerMsg::PauseAt { playback_time_frames } => ServerMsgView::PauseAt {
                playback_time_frames: *playback_time_frames,
            },
        }
    }
}

impl Clone for ClientMsg {
    fn clone(&self) -> (copy: Self)
        ensures
            copy == *self,
    {
        match self {
            ClientMsg::CurrentTime { id, unix_time_micro } => ClientMsg::CurrentTime {
                id: *id,
                unix_time_micro: *unix_time_micro,
            },
        }
    }
}

impl Clone for Download {
    fn clone(&self) -> (copy: Self)
        ensures
            copy@ == self@,
    {
        match self {
            Download::Https(url) => Download::Https(url.clone()),
            Download::Nowhere => Download::Nowhere,
        }
    }
}

impl Clone for ContentHash {
    fn clone(&self) -> (copy: Self)
        ensures
            copy@ == self@,
    {
        match self {
            ContentHash::Sha256(digits) => ContentHash::Sha256(digits.clone()),
        }
    }
}

impl Clone for ServerMsg {
    fn clone(&self) -> (copy: Self)
        ensures
            copy@ == self@,
    {
        match self {
            ServerMsg::Error(text) => ServerMsg::Error(text.clone()),
            ServerMsg::RequestTime { id } => ServerMsg::RequestTime { id: *id },
            ServerMsg::LoadVideo { hash, name, download } => ServerMsg::LoadVideo {
                hash: hash.clone(),
                name: name.clone(),
                download: download.clone(),
            },
            ServerMsg::StartPlayingAt {
                unix_time_micro,
                playback_time_frames,
            } => ServerMsg::StartPlayingAt {
                unix_time_micro: *unix_time_micro,
                playback_time_frames: *playback_time_frames,
            },
            ServerMsg::PauseAt { playback_time_frames } => ServerMsg::PauseAt {
                playback_time_frames: *playback_time_frames,
            },
        }
    }
}

impl AsRef<Self> for ClientMsg {
    fn as_ref(&self) -> (msg: &Self)
        ensures
            msg == self,
    {
        self
    }
}

impl AsRef<Self> for ServerMsg {
    fn as_ref(&self) -> (msg: &Self)
        ensures
            msg == self,
    {
        self
    }
}

/// The mathematical value of a message is of the same kind and has the same fields, each text with
/// the same characters.
pub proof fn law_view_keeps_the_message(msg: ServerMsg)
    ensures
        match msg@ {
            ServerMsgView::Error(text) => msg matches ServerMsg::Error(t) && t@ == text,
            ServerMsgView::RequestTime { id } => msg == (ServerMsg::RequestTime { id }),
            ServerMsgView::LoadVideo { hash, name, download } => msg matches ServerMsg::LoadVideo {
                hash: h,
                name: n,
                download: d,
            } && n@ == name && (hash matches ContentHashView::Sha256(digits) && (
            h matches ContentHash::Sha256(ds) && ds@ == digits)) && match download {
                DownloadView::Https(url) => d matches Download::Https(u) && u@ == url,
                DownloadView::Nowhere => d is Nowhere,
            },
            ServerMsgView::StartPlayingAt { unix_time_micro, playback_time_frames } => msg == (
            ServerMsg::StartPlayingAt { unix_time_micro, playback_time_frames }),
            ServerMsgView::PauseAt { playback_time_frames } => msg == (ServerMsg::PauseAt {
                playback_time_frames,
            }),
        },
{
}

/// The mathematical values of a hash and of a place to download from have the same characters.
pub proof fn law_views_keep_the_texts(hash: ContentHash, download: Download)
    ensures
        hash@ matches ContentHashView::Sha256(digits) && (hash matches ContentHash::Sha256(d) && d@
            == digits),
        match download@ {
            DownloadView::Https(url) => download matches Download::Https(u) && u@ == url,
            DownloadView::Nowhere => download is Nowhere,
        },
{
}

} // verus!
