//! Messages on the wire: their bytes, and the frames that carry them.
//!
//! A message is the number of its kind, then its fields in order. A frame is the length of a
//! message, four bytes with the lowest first, then the message.
use crate::codec::{
    put_text, put_uint, read_text, take_text, take_u128, take_u32, take_u64, text_bytes,
    DecodeError,
};
use crate::message::{
    ClientMsg, ContentHash, ContentHashView, Download, DownloadView, ServerMsg, ServerMsgView,
};
use crate::varint::{
    lemma_varint_bounds, lemma_varint_prefix_len, lemma_varint_prefix_of_varint, read_varint,
    varint, varint_limit,
};
use vstd::prelude::*;
use vstd::utf8::{encode_utf8, encode_utf8_decode_utf8, encode_utf8_valid_utf8};

verus! {

/// The message is longer than a frame can say.
#[derive(Debug, Clone, Copy, PartialEq, Eq, Structural)]
pub struct FrameTooLong;

/// The bytes of a content hash.
pub open spec fn hash_bytes(hash: ContentHashView) -> Seq<u8> {
    match hash {
        ContentHashView::Sha256(digits) => varint(0) + text_bytes(digits),
    }
}

/// The bytes of a place to download from.
pub open spec fn download_bytes(download: DownloadView) -> Seq<u8> {
    match download {
        DownloadView::Https(url) => varint(0) + text_bytes(url),
        DownloadView::Nowhere => varint(1),
    }
}

/// The bytes of a message of the server.
pub open spec fn server_msg_bytes(msg: ServerMsgView) -> Seq<u8> {
    match msg {
        ServerMsgView::Error(text) => varint(0) + text_bytes(text),
        ServerMsgView::RequestTime { id } => varint(1) + varint(id as nat),
        ServerMsgView::LoadVideo { hash, name, download } => varint(2) + (hash_bytes(hash) + (
        text_bytes(name) + download_bytes(download))),
        ServerMsgView::StartPlayingAt { unix_time_micro, playback_time_frames } => varint(3) + (
        varint(unix_time_micro as nat) + varint(playback_time_frames as nat)),
        ServerMsgView::PauseAt { playback_time_frames } => varint(4) + varint(
            playback_time_frames as nat,
        ),
    }
}

/// The bytes of a message of a client.
pub open spec fn client_msg_bytes(msg: ClientMsg) -> Seq<u8> {
    match msg {
        ClientMsg::CurrentTime { id, unix_time_micro } => varint(0) + (varint(id as nat) + varint(
            unix_time_micro as nat,
        )),
    }
}

/// The content hash at the start of `s` and how many bytes it takes.
pub open spec fn read_hash(s: Seq<u8>) -> Result<(ContentHashView, nat), DecodeError> {
    match read_varint(s, 32, u32::MAX as nat) {
        Ok((kind, len)) => if kind == 0 {
            match read_text(s.skip(len as int)) {
                Ok((digits, more)) => Ok((ContentHashView::Sha256(digits), len + more)),
                Err(e) => Err(e),
            }
        } else {
            Err(DecodeError::UnknownVariant)
        },
        Err(e) => Err(e),
    }
}

/// The place to download from that stands at the start of `s`.
pub open spec fn read_download(s: Seq<u8>) -> Result<DownloadView, DecodeError> {
    match read_varint(s, 32, u32::MAX as nat) {
        Ok((kind, len)) => if kind == 0 {
            match read_text(s.skip(len as int)) {
                Ok((url, _)) => Ok(DownloadView::Https(url)),
                Err(e) => Err(e),
            }
        } else if kind == 1 {
            Ok(DownloadView::Nowhere)
        } else {
            Err(DecodeError::UnknownVariant)
        },
        Err(e) => Err(e),
    }
}

/// The fields of a [`ServerMsgView::LoadVideo`] at the start of `s`.
pub open spec fn read_load_video(s: Seq<u8>) -> Result<ServerMsgView, DecodeError> {
    match read_hash(s) {
        Ok((hash, len)) => {
            let s = s.skip(len as int);
            match read_text(s) {
                Ok((name, len)) => match read_download(s.skip(len as int)) {
                    Ok(download) => Ok(ServerMsgView::LoadVideo { hash, name, download }),
                    Err(e) => Err(e),
                },
                Err(e) => Err(e),
            }
        },
        Err(e) => Err(e),
    }
}

/// The fields of a [`ServerMsgView::StartPlayingAt`] at the start of `s`.
pub open spec fn read_start_playing_at(s: Seq<u8>) -> Result<ServerMsgView, DecodeError> {
    match read_varint(s, 128, u128::MAX as nat) {
        Ok((time, len)) => match read_varint(s.skip(len as int), 64, u64::MAX as nat) {
            Ok((frames, _)) => Ok(
                ServerMsgView::StartPlayingAt {
                    unix_time_micro: time as u128,
                    playback_time_frames: frames as u64,
                },
            ),
            Err(e) => Err(e),
        },
        Err(e) => Err(e),
    }
}

/// The message of the server of a given kind whose fields are at the start of `s`.
pub open spec fn read_server_fields(kind: nat, s: Seq<u8>) -> Result<ServerMsgView, DecodeError> {
    if kind == 0 {
        match read_text(s) {
            Ok((text, _)) => Ok(ServerMsgView::Error(text)),
            Err(e) => Err(e),
        }
    } else if kind == 1 {
        match read_varint(s, 32, u32::MAX as nat) {
            Ok((id, _)) => Ok(ServerMsgView::RequestTime { id: id as u32 }),
            Err(e) => Err(e),
        }
    } else if kind == 2 {
        read_load_video(s)
    } else if kind == 3 {
        read_start_playing_at(s)
    } else if kind == 4 {
        match read_varint(s, 64, u64::MAX as nat) {
            Ok((frames, _)) => Ok(ServerMsgView::PauseAt { playback_time_frames: frames as u64 }),
            Err(e) => Err(e),
        }
    } else {
        Err(DecodeError::UnknownVariant)
    }
}

/// The message of the server at the start of `s`. Bytes behind it are ignored.
pub open spec fn read_server_msg(s: Seq<u8>) -> Result<ServerMsgView, DecodeError> {
    match read_varint(s, 32, u32::MAX as nat) {
        Ok((kind, len)) => read_server_fields(kind, s.skip(len as int)),
        Err(e) => Err(e),
    }
}

/// The message of a client at the start of `s`. Bytes behind it are ignored.
pub open spec fn read_client_msg(s: Seq<u8>) -> Result<ClientMsg, DecodeError> {
    match read_varint(s, 32, u32::MAX as nat) {
        Ok((kind, len)) => if kind == 0 {
            let s = s.skip(len as int);
            match read_varint(s, 32, u32::MAX as nat) {
                Ok((id, len)) => match read_varint(s.skip(len as int), 128, u128::MAX as nat) {
                    Ok((time, _)) => Ok(
                        ClientMsg::CurrentTime { id: id as u32, unix_time_micro: time as u128 },
                    ),
                    Err(e) => Err(e),
                },
                Err(e) => Err(e),
            }
        } else {
            Err(DecodeError::UnknownVariant)
        },
        Err(e) => Err(e),
    }
}

/// Appends an integer to `out`.
fn push_uint(out: &mut Vec<u8>, value: u128)
    ensures
        final(out)@ == old(out)@ + varint(value as nat),
{
    let mut bytes = put_uint(value).unwrap();
    out.append(&mut bytes);
}

/// Appends a text to `out`.
fn push_text(out: &mut Vec<u8>, text: &String)
    ensures
        final(out)@ == old(out)@ + text_bytes(text@),
{
    let mut bytes = put_text(text.as_str()).unwrap();
    out.append(&mut bytes);
}

/// The bytes of a message of the server.
pub fn encode_server_msg(msg: &ServerMsg) -> (bytes: Vec<u8>)
    ensures
        bytes@ == server_msg_bytes(msg@),
{
    let mut out: Vec<u8> = Vec::new();
    match msg {
        ServerMsg::Error(text) => {
            push_uint(&mut out, 0);
            push_text(&mut out, text);
        },
        ServerMsg::RequestTime { id } => {
            push_uint(&mut out, 1);
            push_uint(&mut out, *id as u128);
        },
        ServerMsg::LoadVideo { hash, name, download } => {
            push_uint(&mut out, 2);
            match hash {
                ContentHash::Sha256(digits) => {
                    push_uint(&mut out, 0);
                    push_text(&mut out, digits);
                },
            }
            push_text(&mut out, name);
            match download {
                Download::Https(url) => {
                    push_uint(&mut out, 0);
                    push_text(&mut out, url);
                },
                Download::Nowhere => {
                    push_uint(&mut out, 1);
                },
            }
        },
        ServerMsg::StartPlayingAt { unix_time_micro, playback_time_frames } => {
            push_uint(&mut out, 3);
            push_uint(&mut out, *unix_time_micro);
            push_uint(&mut out, *playback_time_frames as u128);
        },
        ServerMsg::PauseAt { playback_time_frames } => {
            push_uint(&mut out, 4);
            push_uint(&mut out, *playback_time_frames as u128);
        },
    }
    assert(out@ =~= server_msg_bytes(msg@));
    out
}

/// The bytes of a message of a client.
pub fn encode_client_msg(msg: &ClientMsg) -> (bytes: Vec<u8>)
    ensures
        bytes@ == client_msg_bytes(*msg),
{
    let mut out: Vec<u8> = Vec::new();
    match msg {
        ClientMsg::CurrentTime { id, unix_time_micro } => {
            push_uint(&mut out, 0);
            push_uint(&mut out, *id as u128);
            push_uint(&mut out, *unix_time_micro);
        },
    }
    assert(out@ =~= client_msg_bytes(*msg));
    out
}

/// Takes a content hash off the front of `s`.
fn take_hash<'a>(s: &'a [u8]) -> (taken: Result<(ContentHash, &'a [u8]), DecodeError>)
    ensures
        match taken {
            Ok((hash, rest)) => read_hash(s@) matches Ok((view, len)) && view == hash@ && rest@
                == s@.skip(len as int),
            Err(e) => read_hash(s@) == Err::<(ContentHashView, nat), DecodeError>(e),
        },
{
    let (kind, tail) = take_u32(s)?;
    if kind != 0 {
        return Err(DecodeError::UnknownVariant);
    }
    let (digits, rest) = take_text(tail)?;
    proof {
        lemma_varint_prefix_len(s@, varint_limit(32));
        lemma_varint_prefix_len(tail@, varint_limit(usize::BITS as nat));
        let len = (read_varint(s@, 32, u32::MAX as nat)->Ok_0).1;
        let more = (read_text(tail@)->Ok_0).1;
        assert(rest@ =~= s@.skip((len + more) as int));
    }
    Ok((ContentHash::Sha256(digits), rest))
}

/// Reads the place to download from that stands at the start of `s`.
fn take_download(s: &[u8]) -> (taken: Result<Download, DecodeError>)
    ensures
        match taken {
            Ok(download) => read_download(s@) == Ok::<DownloadView, DecodeError>(download@),
            Err(e) => read_download(s@) == Err::<DownloadView, DecodeError>(e),
        },
{
    let (kind, tail) = take_u32(s)?;
    if kind == 0 {
        let (url, _rest) = take_text(tail)?;
        Ok(Download::Https(url))
    } else if kind == 1 {
        Ok(Download::Nowhere)
    } else {
        Err(DecodeError::UnknownVariant)
    }
}

/// The message of the server that `payload` holds, or why it holds none.
pub fn decode_server_msg(payload: &[u8]) -> (msg: Result<ServerMsg, DecodeError>)
    ensures
        match msg {
            Ok(msg) => read_server_msg(payload@) == Ok::<ServerMsgView, DecodeError>(msg@),
            Err(e) => read_server_msg(payload@) == Err::<ServerMsgView, DecodeError>(e),
        },
{
    let (kind, s) = take_u32(payload)?;
    if kind == 0 {
        let (text, _rest) = take_text(s)?;
        Ok(ServerMsg::Error(text))
    } else if kind == 1 {
        let (id, _rest) = take_u32(s)?;
        Ok(ServerMsg::RequestTime { id })
    } else if kind == 2 {
        let (hash, s) = take_hash(s)?;
        let (name, s) = take_text(s)?;
        let download = take_download(s)?;
        Ok(ServerMsg::LoadVideo { hash, name, download })
    } else if kind == 3 {
        let (unix_time_micro, s) = take_u128(s)?;
        let (playback_time_frames, _rest) = take_u64(s)?;
        Ok(ServerMsg::StartPlayingAt { unix_time_micro, playback_time_frames })
    } else if kind == 4 {
        let (playback_time_frames, _rest) = take_u64(s)?;
        Ok(ServerMsg::PauseAt { playback_time_frames })
    } else {
        Err(DecodeError::UnknownVariant)
    }
}

/// The message of a client that `payload` holds, or why it holds none.
pub fn decode_client_msg(payload: &[u8]) -> (msg: Result<ClientMsg, DecodeError>)
    ensures
        msg == read_client_msg(payload@),
{
    let (kind, s) = take_u32(payload)?;
    if kind != 0 {
        return Err(DecodeError::UnknownVariant);
    }
    let (id, s) = take_u32(s)?;
    let (unix_time_micro, _rest) = take_u128(s)?;
    Ok(ClientMsg::CurrentTime { id, unix_time_micro })
}

/// Four bytes that hold `n`, the lowest first.
pub open spec fn le_bytes(n: u32) -> Seq<u8> {
    seq![
        (n % 256) as u8,
        (n / 256 % 256) as u8,
        (n / 65536 % 256) as u8,
        (n / 16777216) as u8,
    ]
}

/// The number that four bytes hold, the lowest first.
pub open spec fn le_value(bytes: Seq<u8>) -> int {
    bytes[0] + 256 * bytes[1] + 65536 * bytes[2] + 16777216 * bytes[3]
}

/// The frame of a message: its length, then its bytes.
pub open spec fn frame_bytes(payload: Seq<u8>) -> Seq<u8> {
    le_bytes(payload.len() as u32) + payload
}

/// Four bytes that hold `n`, the lowest first.
pub fn u32_to_le(n: u32) -> (bytes: Vec<u8>)
    ensures
        bytes@ == le_bytes(n),
{
    let mut bytes: Vec<u8> = Vec::new();
    bytes.push((n % 256) as u8);
    bytes.push((n / 256 % 256) as u8);
    bytes.push((n / 65536 % 256) as u8);
    bytes.push((n / 16777216) as u8);
    assert(bytes@ =~= le_bytes(n));
    bytes
}

/// The number that four bytes hold, the lowest first.
pub fn u32_from_le(bytes: &[u8; 4]) -> (n: u32)
    ensures
        n == le_value(bytes@),
{
    bytes[0] as u32 + 256 * (bytes[1] as u32) + 65536 * (bytes[2] as u32) + 16777216 * (
    bytes[3] as u32)
}

/// The frame of a message, unless the message is too long for one.
fn frame(payload: Vec<u8>) -> (framed: Result<Vec<u8>, FrameTooLong>)
    ensures
        match framed {
            Ok(framed) => payload@.len() <= u32::MAX && framed@ == frame_bytes(payload@),
            Err(_) => payload@.len() > u32::MAX,
        },
{
    match u32::try_from(payload.len()) {
        Ok(len) => {
            let mut framed = u32_to_le(len);
            let mut payload = payload;
            framed.append(&mut payload);
            Ok(framed)
        },
        Err(_) => Err(FrameTooLong),
    }
}

/// The frame that carries a message of the server.
pub fn server_frame(msg: &ServerMsg) -> (framed: Result<Vec<u8>, FrameTooLong>)
    ensures
        match framed {
            Ok(framed) => server_msg_bytes(msg@).len() <= u32::MAX && framed@ == frame_bytes(
                server_msg_bytes(msg@),
            ),
            Err(_) => server_msg_bytes(msg@).len() > u32::MAX,
        },
{
    frame(encode_server_msg(msg))
}

/// The frame that carries a message of a client.
pub fn client_frame(msg: &ClientMsg) -> (framed: Vec<u8>)
    ensures
        framed@ == frame_bytes(client_msg_bytes(*msg)),
        client_msg_bytes(*msg).len() <= 25,
{
    proof {
        lemma_client_msg_len(*msg);
    }
    frame(encode_client_msg(msg)).unwrap()
}

/// A message of a client takes at most twenty-five bytes.
proof fn lemma_client_msg_len(msg: ClientMsg)
    ensures
        client_msg_bytes(msg).len() <= 25,
{
    lemma_varint_bounds();
    match msg {
        ClientMsg::CurrentTime { id, unix_time_micro } => {
            lemma_varint_prefix_of_varint(id as nat, seq![], varint_limit(32));
            lemma_varint_prefix_of_varint(unix_time_micro as nat, seq![], varint_limit(128));
        },
    }
}

/// The texts of a message have lengths that this machine can hold.
pub open spec fn texts_fit(msg: ServerMsgView) -> bool {
    match msg {
        ServerMsgView::Error(text) => encode_utf8(text).len() <= usize::MAX,
        ServerMsgView::LoadVideo { hash, name, download } => {
            &&& hash matches ContentHashView::Sha256(digits) && encode_utf8(digits).len()
                <= usize::MAX
            &&& encode_utf8(name).len() <= usize::MAX
            &&& download matches DownloadView::Https(url) ==> encode_utf8(url).len() <= usize::MAX
        },
        _ => true,
    }
}

/// A number that was written is read back, whatever follows it.
proof fn lemma_read_varint(n: nat, rest: Seq<u8>, bits: nat, max: nat)
    requires
        bits == 32 && max == u32::MAX || bits == 64 && max == u64::MAX || bits == 128 && max
            == u128::MAX,
        n <= max,
    ensures
        read_varint(varint(n) + rest, bits, max) == Ok::<(nat, nat), DecodeError>(
            (n, varint(n).len()),
        ),
        (varint(n) + rest).skip(varint(n).len() as int) == rest,
{
    lemma_varint_bounds();
    lemma_varint_prefix_of_varint(n, rest, varint_limit(bits));
    assert((varint(n) + rest).skip(varint(n).len() as int) =~= rest);
}

/// A text that was written is read back, whatever follows it.
proof fn lemma_read_text(text: Seq<char>, rest: Seq<u8>)
    requires
        encode_utf8(text).len() <= usize::MAX,
    ensures
        read_text(text_bytes(text) + rest) == Ok::<(Seq<char>, nat), DecodeError>(
            (text, text_bytes(text).len()),
        ),
        (text_bytes(text) + rest).skip(text_bytes(text).len() as int) == rest,
{
    let body = encode_utf8(text);
    let s = text_bytes(text) + rest;
    assert(s =~= varint(body.len()) + (body + rest));
    lemma_read_varint(
        body.len(),
        body + rest,
        usize::BITS as nat,
        usize::MAX as nat,
    );
    let len = varint(body.len()).len();
    assert(s.subrange(len as int, (len + body.len()) as int) =~= body);
    encode_utf8_valid_utf8(text);
    encode_utf8_decode_utf8(text);
    assert(s.skip(text_bytes(text).len() as int) =~= rest);
}

/// A content hash that was written is read back, whatever follows it.
proof fn lemma_read_hash(hash: ContentHashView, rest: Seq<u8>)
    requires
        hash matches ContentHashView::Sha256(digits) && encode_utf8(digits).len() <= usize::MAX,
    ensures
        read_hash(hash_bytes(hash) + rest) == Ok::<(ContentHashView, nat), DecodeError>(
            (hash, hash_bytes(hash).len()),
        ),
        (hash_bytes(hash) + rest).skip(hash_bytes(hash).len() as int) == rest,
{
    let digits = hash->Sha256_0;
    assert(hash_bytes(hash) + rest =~= varint(0) + (text_bytes(digits) + rest));
    lemma_read_varint(0, text_bytes(digits) + rest, 32, u32::MAX as nat);
    lemma_read_text(digits, rest);
    assert((hash_bytes(hash) + rest).skip(hash_bytes(hash).len() as int) =~= rest);
}

/// A place to download from that was written is read back, whatever follows it.
proof fn lemma_read_download(download: DownloadView, rest: Seq<u8>)
    requires
        download matches DownloadView::Https(url) ==> encode_utf8(url).len() <= usize::MAX,
    ensures
        read_download(download_bytes(download) + rest) == Ok::<DownloadView, DecodeError>(download),
{
    match download {
        DownloadView::Https(url) => {
            assert(download_bytes(download) + rest =~= varint(0) + (text_bytes(url) + rest));
            lemma_read_varint(0, text_bytes(url) + rest, 32, u32::MAX as nat);
            lemma_read_text(url, rest);
        },
        DownloadView::Nowhere => {
            lemma_read_varint(1, rest, 32, u32::MAX as nat);
        },
    }
}

/// The fields of a [`ServerMsgView::LoadVideo`] that were written are read back.
proof fn lemma_read_load_video(
    hash: ContentHashView,
    name: Seq<char>,
    download: DownloadView,
    rest: Seq<u8>,
)
    requires
        texts_fit(ServerMsgView::LoadVideo { hash, name, download }),
    ensures
        read_load_video(
            hash_bytes(hash) + (text_bytes(name) + download_bytes(download)) + rest,
        ) == Ok::<ServerMsgView, DecodeError>(ServerMsgView::LoadVideo { hash, name, download }),
{
    let last = download_bytes(download) + rest;
    let tail = text_bytes(name) + last;
    assert(hash_bytes(hash) + (text_bytes(name) + download_bytes(download)) + rest =~= hash_bytes(
        hash,
    ) + tail);
    lemma_read_hash(hash, tail);
    lemma_read_text(name, last);
    lemma_read_download(download, rest);
}

/// The fields of a [`ServerMsgView::StartPlayingAt`] that were written are read back.
proof fn lemma_read_start_playing_at(
    unix_time_micro: u128,
    playback_time_frames: u64,
    rest: Seq<u8>,
)
    ensures
        read_start_playing_at(
            varint(unix_time_micro as nat) + varint(playback_time_frames as nat) + rest,
        ) == Ok::<ServerMsgView, DecodeError>(
            ServerMsgView::StartPlayingAt { unix_time_micro, playback_time_frames },
        ),
{
    let last = varint(playback_time_frames as nat) + rest;
    assert(varint(unix_time_micro as nat) + varint(playback_time_frames as nat) + rest =~= varint(
        unix_time_micro as nat,
    ) + last);
    lemma_read_varint(unix_time_micro as nat, last, 128, u128::MAX as nat);
    lemma_read_varint(playback_time_frames as nat, rest, 64, u64::MAX as nat);
}

/// The kind of a message that was written is read back, and its fields are read behind it.
proof fn lemma_read_server_kind(kind: nat, fields: Seq<u8>, rest: Seq<u8>)
    requires
        kind <= 4,
    ensures
        read_server_msg(varint(kind) + fields + rest) == read_server_fields(kind, fields + rest),
{
    assert(varint(kind) + fields + rest =~= varint(kind) + (fields + rest));
    lemma_read_varint(kind, fields + rest, 32, u32::MAX as nat);
}

/// What the server writes is what a client reads, whatever bytes follow.
pub proof fn law_server_msg_round_trip(msg: ServerMsgView, rest: Seq<u8>)
    requires
        texts_fit(msg),
    ensures
        read_server_msg(server_msg_bytes(msg) + rest) == Ok::<ServerMsgView, DecodeError>(msg),
{
    match msg {
        ServerMsgView::Error(text) => {
            lemma_read_server_kind(0, text_bytes(text), rest);
            lemma_read_text(text, rest);
        },
        ServerMsgView::RequestTime { id } => {
            lemma_read_server_kind(1, varint(id as nat), rest);
            lemma_read_varint(id as nat, rest, 32, u32::MAX as nat);
        },
        ServerMsgView::LoadVideo { hash, name, download } => {
            lemma_read_server_kind(
                2,
                hash_bytes(hash) + (text_bytes(name) + download_bytes(download)),
                rest,
            );
            lemma_read_load_video(hash, name, download, rest);
        },
        ServerMsgView::StartPlayingAt { unix_time_micro, playback_time_frames } => {
            lemma_read_server_kind(
                3,
                varint(unix_time_micro as nat) + varint(playback_time_frames as nat),
                rest,
            );
            lemma_read_start_playing_at(unix_time_micro, playback_time_frames, rest);
        },
        ServerMsgView::PauseAt { playback_time_frames } => {
            lemma_read_server_kind(4, varint(playback_time_frames as nat), rest);
            lemma_read_varint(playback_time_frames as nat, rest, 64, u64::MAX as nat);
        },
    }
}

/// What a client writes is what the server reads, whatever bytes follow.
pub proof fn law_client_msg_round_trip(msg: ClientMsg, rest: Seq<u8>)
    ensures
        read_client_msg(client_msg_bytes(msg) + rest) == Ok::<ClientMsg, DecodeError>(msg),
{
    let s = client_msg_bytes(msg) + rest;
    match msg {
        ClientMsg::CurrentTime { id, unix_time_micro } => {
            let last = varint(unix_time_micro as nat) + rest;
            assert(s =~= varint(0) + (varint(id as nat) + last));
            lemma_read_varint(0, varint(id as nat) + last, 32, u32::MAX as nat);
            lemma_read_varint(id as nat, last, 32, u32::MAX as nat);
            lemma_read_varint(unix_time_micro as nat, rest, 128, u128::MAX as nat);
        },
    }
}

/// Four bytes hold the number that was put into them.
pub proof fn law_le_round_trip(n: u32)
    ensures
        le_bytes(n).len() == 4,
        le_value(le_bytes(n)) == n,
{
    assert(n == n % 256 + 256 * (n / 256 % 256) + 65536 * (n / 65536 % 256) + 16777216 * (n
        / 16777216)) by {
        assert(n / 65536 == n / 256 / 256);
        assert(n / 16777216 == n / 65536 / 256);
    }
}

/// In a stream that begins with the frame of a message, the first four bytes tell how many bytes
/// to take next, and those are the message.
pub proof fn law_frame_round_trip(payload: Seq<u8>, rest: Seq<u8>)
    requires
        payload.len() <= u32::MAX,
    ensures
        ({
            let stream = frame_bytes(payload) + rest;
            let size = le_value(stream.take(4));
            &&& size == payload.len()
            &&& stream.subrange(4, 4 + size) == payload
            &&& stream.skip(4 + size) == rest
        }),
{
    let stream = frame_bytes(payload) + rest;
    let n = payload.len() as u32;
    law_le_round_trip(n);
    assert(stream.take(4) =~= le_bytes(n));
    assert(stream.subrange(4, 4 + payload.len() as int) =~= payload);
    assert(stream.skip(4 + payload.len() as int) =~= rest);
}

/// Every message of the server that can be framed arrives as it was sent.
pub proof fn law_framed_server_msg_arrives(msg: ServerMsgView, rest: Seq<u8>)
    requires
        server_msg_bytes(msg).len() <= u32::MAX,
    ensures
        ({
            let stream = frame_bytes(server_msg_bytes(msg)) + rest;
            read_server_msg(stream.subrange(4, 4 + le_value(stream.take(4)))) == Ok::<
                ServerMsgView,
                DecodeError,
            >(msg)
        }),
{
    let payload = server_msg_bytes(msg);
    law_frame_round_trip(payload, rest);
    assert(texts_fit(msg));
    law_server_msg_round_trip(msg, seq![]);
    assert(payload + Seq::<u8>::empty() =~= payload);
}

/// Every message of a client arrives as it was sent.
pub proof fn law_framed_client_msg_arrives(msg: ClientMsg, rest: Seq<u8>)
    ensures
        ({
            let stream = frame_bytes(client_msg_bytes(msg)) + rest;
            read_client_msg(stream.subrange(4, 4 + le_value(stream.take(4)))) == Ok::<
                ClientMsg,
                DecodeError,
            >(msg)
        }),
{
    let payload = client_msg_bytes(msg);
    lemma_client_msg_len(msg);
    law_frame_round_trip(payload, rest);
    law_client_msg_round_trip(msg, seq![]);
    assert(payload + Seq::<u8>::empty() =~= payload);
}

/// A message of the server is one byte that tells its kind, then its fields in order: numbers as
/// they are cut into groups, texts as they are counted.
pub proof fn law_server_msg_bytes(msg: ServerMsgView)
    ensures
        match msg {
            ServerMsgView::Error(text) => server_msg_bytes(msg) == seq![0u8] + text_bytes(text),
            ServerMsgView::RequestTime { id } => server_msg_bytes(msg) == seq![1u8] + varint(
                id as nat,
            ),
            ServerMsgView::LoadVideo {
                hash: ContentHashView::Sha256(digits),
                name,
                download,
            } => server_msg_bytes(msg) == seq![2u8, 0] + text_bytes(digits) + text_bytes(name) + (
            match download {
                DownloadView::Https(url) => seq![0u8] + text_bytes(url),
                DownloadView::Nowhere => seq![1u8],
            }),
            ServerMsgView::StartPlayingAt { unix_time_micro, playback_time_frames } =>
                server_msg_bytes(msg) == seq![3u8] + varint(unix_time_micro as nat) + varint(
                playback_time_frames as nat,
            ),
            ServerMsgView::PauseAt { playback_time_frames } => server_msg_bytes(msg) == seq![4u8]
                + varint(playback_time_frames as nat),
        },
{
    match msg {
        ServerMsgView::LoadVideo { hash: ContentHashView::Sha256(digits), name, download } => {
            let place = match download {
                DownloadView::Https(url) => seq![0u8] + text_bytes(url),
                DownloadView::Nowhere => seq![1u8],
            };
            assert(server_msg_bytes(msg) =~= seq![2u8, 0] + text_bytes(digits) + text_bytes(name)
                + place);
        },
        ServerMsgView::StartPlayingAt { unix_time_micro, playback_time_frames } => {
            assert(server_msg_bytes(msg) =~= seq![3u8] + varint(unix_time_micro as nat) + varint(
                playback_time_frames as nat,
            ));
        },
        _ => {},
    }
}

/// A message of a client is a zero byte, then the number of the question and the client's clock,
/// each cut into groups.
pub proof fn law_client_msg_bytes(id: u32, unix_time_micro: u128)
    ensures
        client_msg_bytes(ClientMsg::CurrentTime { id, unix_time_micro }) == seq![0u8] + varint(
            id as nat,
        ) + varint(unix_time_micro as nat),
{
    assert(client_msg_bytes(ClientMsg::CurrentTime { id, unix_time_micro }) =~= seq![0u8] + varint(
        id as nat,
    ) + varint(unix_time_micro as nat));
}

/// A client's message is read number by number: its kind, which is zero, the number of the question
/// and the clock. The first that cannot be read is what is wrong with it, and so is another kind.
pub proof fn law_client_msg_is_read_in_order(s: Seq<u8>)
    ensures
        match read_varint(s, 32, 0xffff_ffff) {
            Err(e) => read_client_msg(s) == Err::<ClientMsg, DecodeError>(e),
            Ok((kind, a)) => if kind != 0 {
                read_client_msg(s) == Err::<ClientMsg, DecodeError>(DecodeError::UnknownVariant)
            } else {
                match read_varint(s.skip(a as int), 32, 0xffff_ffff) {
                    Err(e) => read_client_msg(s) == Err::<ClientMsg, DecodeError>(e),
                    Ok((id, b)) => match read_varint(
                        s.skip(a as int).skip(b as int),
                        128,
                        0xffff_ffff_ffff_ffff_ffff_ffff_ffff_ffff,
                    ) {
                        Err(e) => read_client_msg(s) == Err::<ClientMsg, DecodeError>(e),
                        Ok((time, _)) => read_client_msg(s) matches Ok(
                            ClientMsg::CurrentTime { id: i, unix_time_micro },
                        ) && i == id && unix_time_micro == time,
                    },
                }
            },
        },
{
}

/// A server's message is read by its kind and then field by field, with nothing changed. The first
/// field that cannot be read is what is wrong with it, and so is a kind that there is not.
pub proof fn law_server_msg_is_read_in_order(s: Seq<u8>)
    ensures
        match read_varint(s, 32, 0xffff_ffff) {
            Err(e) => read_server_msg(s) == Err::<ServerMsgView, DecodeError>(e),
            Ok((kind, a)) => {
                let fields = s.skip(a as int);
                &&& kind > 4 ==> read_server_msg(s) == Err::<ServerMsgView, DecodeError>(
                    DecodeError::UnknownVariant,
                )
                &&& kind == 0 ==> match read_text(fields) {
                    Ok((text, _)) => read_server_msg(s) == Ok::<ServerMsgView, DecodeError>(
                        ServerMsgView::Error(text),
                    ),
                    Err(e) => read_server_msg(s) == Err::<ServerMsgView, DecodeError>(e),
                }
                &&& kind == 1 ==> match read_varint(fields, 32, 0xffff_ffff) {
                    Ok((id, _)) => read_server_msg(s) matches Ok(
                        ServerMsgView::RequestTime { id: i },
                    ) && i == id,
                    Err(e) => read_server_msg(s) == Err::<ServerMsgView, DecodeError>(e),
                }
                &&& kind == 3 ==> match read_varint(
                    fields,
                    128,
                    0xffff_ffff_ffff_ffff_ffff_ffff_ffff_ffff,
                ) {
                    Ok((time, b)) => match read_varint(
                        fields.skip(b as int),
                        64,
                        0xffff_ffff_ffff_ffff,
                    ) {
                        Ok((frames, _)) => read_server_msg(s) matches Ok(
                            ServerMsgView::StartPlayingAt { unix_time_micro, playback_time_frames },
                        ) && unix_time_micro == time && playback_time_frames == frames,
                        Err(e) => read_server_msg(s) == Err::<ServerMsgView, DecodeError>(e),
                    },
                    Err(e) => read_server_msg(s) == Err::<ServerMsgView, DecodeError>(e),
                }
                &&& kind == 4 ==> match read_varint(fields, 64, 0xffff_ffff_ffff_ffff) {
                    Ok((frames, _)) => read_server_msg(s) matches Ok(
                        ServerMsgView::PauseAt { playback_time_frames },
                    ) && playback_time_frames == frames,
                    Err(e) => read_server_msg(s) == Err::<ServerMsgView, DecodeError>(e),
                }
            },
        },
{
}

/// The fields of a message to load a video are read in order, with nothing changed: the kind of the
/// hash, which is zero, and its digits; the name; the kind of the place to download from, and its
/// URL, where it has one. The first that cannot be read is what is wrong with the message, and so is
/// a kind that there is not.
pub proof fn law_load_video_is_read_in_order(s: Seq<u8>)
    requires
        read_varint(s, 32, 0xffff_ffff) matches Ok((kind, _)) && kind == 2,
    ensures
        ({
            let fields = s.skip((read_varint(s, 32, 0xffff_ffff)->Ok_0).1 as int);
            match read_varint(fields, 32, 0xffff_ffff) {
                Err(e) => read_server_msg(s) == Err::<ServerMsgView, DecodeError>(e),
                Ok((hash_kind, a)) => if hash_kind != 0 {
                    read_server_msg(s) == Err::<ServerMsgView, DecodeError>(
                        DecodeError::UnknownVariant,
                    )
                } else {
                    match read_text(fields.skip(a as int)) {
                        Err(e) => read_server_msg(s) == Err::<ServerMsgView, DecodeError>(e),
                        Ok((digits, b)) => {
                            let named = fields.skip(a as int).skip(b as int);
                            match read_text(named) {
                                Err(e) => read_server_msg(s) == Err::<ServerMsgView, DecodeError>(e),
                                Ok((name, c)) => {
                                    let placed = named.skip(c as int);
                                    let loaded = |download: DownloadView|
                                        Ok::<ServerMsgView, DecodeError>(
                                            ServerMsgView::LoadVideo {
                                                hash: ContentHashView::Sha256(digits),
                                                name,
                                                download,
                                            },
                                        );
                                    match read_varint(placed, 32, 0xffff_ffff) {
                                        Err(e) => read_server_msg(s) == Err::<
                                            ServerMsgView,
                                            DecodeError,
                                        >(e),
                                        Ok((place_kind, d)) => {
                                            &&& place_kind == 0 ==> match read_text(
                                                placed.skip(d as int),
                                            ) {
                                                Err(e) => read_server_msg(s) == Err::<
                                                    ServerMsgView,
                                                    DecodeError,
                                                >(e),
                                                Ok((url, _)) => read_server_msg(s) == loaded(
                                                    DownloadView::Https(url),
                                                ),
                                            }
                                            &&& place_kind == 1 ==> read_server_msg(s) == loaded(
                                                DownloadView::Nowhere,
                                            )
                                            &&& place_kind > 1 ==> read_server_msg(s) == Err::<
                                                ServerMsgView,
                                                DecodeError,
                                            >(DecodeError::UnknownVariant)
                                        },
                                    }
                                },
                            }
                        },
                    }
                },
            }
        }),
{
    let fields = s.skip((read_varint(s, 32, 0xffff_ffff)->Ok_0).1 as int);
    lemma_varint_prefix_len(fields, varint_limit(32));
    match read_varint(fields, 32, 0xffff_ffff) {
        Ok((hash_kind, a)) => {
            let tail = fields.skip(a as int);
            lemma_varint_prefix_len(tail, varint_limit(usize::BITS as nat));
            match read_text(tail) {
                Ok((_, b)) => {
                    assert(fields.skip((a + b) as int) =~= tail.skip(b as int));
                },
                Err(_) => {},
            }
        },
        Err(_) => {},
    }
}

/// Four bytes hold a number as its digits to the base of 256, the lowest first, and every four bytes
/// hold one.
pub proof fn law_le_holds_the_number(n: u32, bytes: Seq<u8>)
    requires
        bytes.len() == 4,
    ensures
        le_bytes(n).len() == 4,
        n == le_bytes(n)[0] + 0x100 * le_bytes(n)[1] + 0x1_0000 * le_bytes(n)[2] + 0x100_0000
            * le_bytes(n)[3],
        le_value(bytes) == n <==> bytes == le_bytes(n),
        0 <= le_value(bytes) <= 0xffff_ffff,
{
    law_le_round_trip(n);
    if le_value(bytes) == n {
        let (b0, b1, b2, b3) = (bytes[0], bytes[1], bytes[2], bytes[3]);
        assert(n % 256 == b0);
        assert(n / 256 % 256 == b1);
        assert(n / 65536 % 256 == b2);
        assert(n / 16777216 == b3);
        assert(bytes =~= le_bytes(n));
    }
}

/// A frame is four bytes that hold the length of a message, the lowest first, and then the message.
pub proof fn law_frame_is_counted(payload: Seq<u8>)
    requires
        payload.len() <= 0xffff_ffff,
    ensures
        ({
            let framed = frame_bytes(payload);
            &&& framed.len() == 4 + payload.len()
            &&& framed[0] + 0x100 * framed[1] + 0x1_0000 * framed[2] + 0x100_0000 * framed[3]
                == payload.len()
            &&& framed.skip(4) == payload
        }),
{
    law_le_round_trip(payload.len() as u32);
    assert(frame_bytes(payload).skip(4) =~= payload);
}

} // verus!
