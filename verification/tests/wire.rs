use serde::ser::{Serialize, SerializeStructVariant, Serializer};
use watch_party::codec::DecodeError;
use watch_party::message::{ClientMsg, ContentHash, Download, ServerMsg, MAGIC, VERSION};
use watch_party::wire::{
    client_frame, decode_client_msg, decode_server_msg, encode_client_msg, encode_server_msg,
    server_frame, u32_from_le, u32_to_le,
};

fn load_video(download: Download) -> ServerMsg {
    ServerMsg::LoadVideo {
        hash: ContentHash::Sha256("ab".to_string()),
        name: "f.mp4".to_string(),
        download,
    }
}

fn server_msgs() -> Vec<ServerMsg> {
    vec![
        ServerMsg::Error(String::new()),
        ServerMsg::Error("wow".to_string()),
        ServerMsg::Error("h\u{e9}llo \u{1f37f}".to_string()),
        ServerMsg::Error("x".repeat(300)),
        ServerMsg::RequestTime { id: 0 },
        ServerMsg::RequestTime { id: 127 },
        ServerMsg::RequestTime { id: 128 },
        ServerMsg::RequestTime { id: u32::MAX },
        load_video(Download::Https("https://e.org/f".to_string())),
        load_video(Download::Nowhere),
        ServerMsg::StartPlayingAt { unix_time_micro: 0, playback_time_frames: 0 },
        ServerMsg::StartPlayingAt { unix_time_micro: 1_500_000, playback_time_frames: 3600 },
        ServerMsg::StartPlayingAt { unix_time_micro: u128::MAX, playback_time_frames: u64::MAX },
        ServerMsg::PauseAt { playback_time_frames: 0 },
        ServerMsg::PauseAt { playback_time_frames: u64::MAX },
    ]
}

fn client_msgs() -> Vec<ClientMsg> {
    vec![
        ClientMsg::CurrentTime { id: 0, unix_time_micro: 0 },
        ClientMsg::CurrentTime { id: 99, unix_time_micro: 12_345_678 },
        ClientMsg::CurrentTime { id: u32::MAX, unix_time_micro: u128::MAX },
    ]
}

struct AsSerde<'a, T>(&'a T);

impl Serialize for AsSerde<'_, ContentHash> {
    fn serialize<S: Serializer>(&self, serializer: S) -> Result<S::Ok, S::Error> {
        match self.0 {
            ContentHash::Sha256(digits) => {
                serializer.serialize_newtype_variant("ContentHash", 0, "Sha256", digits)
            }
        }
    }
}

impl Serialize for AsSerde<'_, Download> {
    fn serialize<S: Serializer>(&self, serializer: S) -> Result<S::Ok, S::Error> {
        match self.0 {
            Download::Https(url) => {
                serializer.serialize_newtype_variant("Download", 0, "Https", url)
            }
            Download::Nowhere => serializer.serialize_unit_variant("Download", 1, "None"),
        }
    }
}

impl Serialize for AsSerde<'_, ServerMsg> {
    fn serialize<S: Serializer>(&self, serializer: S) -> Result<S::Ok, S::Error> {
        match self.0 {
            ServerMsg::Error(text) => {
                serializer.serialize_newtype_variant("ServerMsg", 0, "Error", text)
            }
            ServerMsg::RequestTime { id } => {
                let mut fields =
                    serializer.serialize_struct_variant("ServerMsg", 1, "RequestTime", 1)?;
                fields.serialize_field("id", id)?;
                fields.end()
            }
            ServerMsg::LoadVideo { hash, name, download } => {
                let mut fields =
                    serializer.serialize_struct_variant("ServerMsg", 2, "LoadVideo", 3)?;
                fields.serialize_field("hash", &AsSerde(hash))?;
                fields.serialize_field("name", name)?;
                fields.serialize_field("download", &AsSerde(download))?;
                fields.end()
            }
            ServerMsg::StartPlayingAt { unix_time_micro, playback_time_frames } => {
                let mut fields =
                    serializer.serialize_struct_variant("ServerMsg", 3, "StartPlayingAt", 2)?;
                fields.serialize_field("unix_time_micro", unix_time_micro)?;
                fields.serialize_field("playback_time_frames", playback_time_frames)?;
                fields.end()
            }
            ServerMsg::PauseAt { playback_time_frames } => {
                let mut fields =
                    serializer.serialize_struct_variant("ServerMsg", 4, "PauseAt", 1)?;
                fields.serialize_field("playback_time_frames", playback_time_frames)?;
                fields.end()
            }
        }
    }
}

impl Serialize for AsSerde<'_, ClientMsg> {
    fn serialize<S: Serializer>(&self, serializer: S) -> Result<S::Ok, S::Error> {
        match self.0 {
            ClientMsg::CurrentTime { id, unix_time_micro } => {
                let mut fields =
                    serializer.serialize_struct_variant("ClientMsg", 0, "CurrentTime", 2)?;
                fields.serialize_field("id", id)?;
                fields.serialize_field("unix_time_micro", unix_time_micro)?;
                fields.end()
            }
        }
    }
}

#[test]
fn server_bytes_are_those_of_postcard() {
    for msg in server_msgs() {
        assert_eq!(encode_server_msg(&msg), postcard::to_allocvec(&AsSerde(&msg)).unwrap());
    }
}

#[test]
fn client_bytes_are_those_of_postcard() {
    for msg in client_msgs() {
        assert_eq!(encode_client_msg(&msg), postcard::to_allocvec(&AsSerde(&msg)).unwrap());
    }
}

#[test]
fn constants() {
    assert_eq!(MAGIC, b"wpsy");
    assert_eq!(VERSION, 0);
}

#[test]
fn error_bytes() {
    assert_eq!(encode_server_msg(&ServerMsg::Error("wow".to_string())), vec![0, 3, 119, 111, 119]);
}

#[test]
fn error_bytes_count_utf8() {
    assert_eq!(
        encode_server_msg(&ServerMsg::Error("\u{e9}".to_string())),
        vec![0, 2, 0xc3, 0xa9]
    );
}

#[test]
fn request_time_bytes() {
    assert_eq!(encode_server_msg(&ServerMsg::RequestTime { id: 300 }), vec![1, 0xac, 2]);
}

#[test]
fn load_video_bytes() {
    assert_eq!(
        encode_server_msg(&load_video(Download::Https("u".to_string()))),
        vec![2, 0, 2, b'a', b'b', 5, b'f', b'.', b'm', b'p', b'4', 0, 1, b'u']
    );
    assert_eq!(
        encode_server_msg(&load_video(Download::Nowhere)),
        vec![2, 0, 2, b'a', b'b', 5, b'f', b'.', b'm', b'p', b'4', 1]
    );
}

#[test]
fn start_playing_at_bytes() {
    let msg = ServerMsg::StartPlayingAt { unix_time_micro: 129, playback_time_frames: 60 };
    assert_eq!(encode_server_msg(&msg), vec![3, 0x81, 1, 60]);
}

#[test]
fn pause_at_bytes() {
    assert_eq!(encode_server_msg(&ServerMsg::PauseAt { playback_time_frames: 16384 }), vec![4, 0x80, 0x80, 1]);
}

#[test]
fn current_time_bytes() {
    assert_eq!(
        encode_client_msg(&ClientMsg::CurrentTime { id: 5, unix_time_micro: 1000 }),
        vec![0, 5, 0xe8, 7]
    );
}

#[test]
fn server_msgs_come_back() {
    for msg in server_msgs() {
        let mut bytes = encode_server_msg(&msg);
        assert_eq!(decode_server_msg(&bytes).as_ref(), Ok(&msg));
        bytes.extend_from_slice(&[0xff, 0x80, 7]);
        assert_eq!(decode_server_msg(&bytes), Ok(msg));
    }
}

#[test]
fn client_msgs_come_back() {
    for msg in client_msgs() {
        let mut bytes = encode_client_msg(&msg);
        assert_eq!(decode_client_msg(&bytes).as_ref(), Ok(&msg));
        bytes.push(0xff);
        assert_eq!(decode_client_msg(&bytes), Ok(msg));
    }
}

#[test]
fn every_cut_of_a_message_ends_too_early() {
    for msg in server_msgs() {
        let bytes = encode_server_msg(&msg);
        for len in 0..bytes.len() {
            assert_eq!(decode_server_msg(&bytes[..len]), Err(DecodeError::UnexpectedEnd));
        }
    }
}

#[test]
fn integers_that_do_not_end() {
    let endless = [0x80u8; 30];
    assert_eq!(decode_server_msg(&endless), Err(DecodeError::BadVarint));
    assert_eq!(decode_client_msg(&endless), Err(DecodeError::BadVarint));
    let mut pause = vec![4u8];
    pause.extend_from_slice(&endless);
    assert_eq!(decode_server_msg(&pause), Err(DecodeError::BadVarint));
    let mut start = vec![3u8];
    start.extend_from_slice(&endless);
    assert_eq!(decode_server_msg(&start), Err(DecodeError::BadVarint));
    let mut error = vec![0u8];
    error.extend_from_slice(&endless);
    assert_eq!(decode_server_msg(&error), Err(DecodeError::BadVarint));
}

#[test]
fn integers_that_do_not_fit() {
    assert_eq!(
        decode_server_msg(&[1, 0xff, 0xff, 0xff, 0xff, 0x0f]),
        Ok(ServerMsg::RequestTime { id: u32::MAX })
    );
    assert_eq!(
        decode_server_msg(&[1, 0xff, 0xff, 0xff, 0xff, 0x10]),
        Err(DecodeError::BadVarint)
    );
    let mut wide = vec![4u8];
    wide.extend_from_slice(&[0xff; 9]);
    wide.push(1);
    assert_eq!(decode_server_msg(&wide), Ok(ServerMsg::PauseAt { playback_time_frames: u64::MAX }));
    wide[10] = 2;
    assert_eq!(decode_server_msg(&wide), Err(DecodeError::BadVarint));
    let mut wider = vec![0u8, 0];
    wider.extend_from_slice(&[0xff; 18]);
    wider.push(3);
    assert_eq!(
        decode_client_msg(&wider),
        Ok(ClientMsg::CurrentTime { id: 0, unix_time_micro: u128::MAX })
    );
    wider[20] = 4;
    assert_eq!(decode_client_msg(&wider), Err(DecodeError::BadVarint));
}

#[test]
fn zeros_in_front_are_read_over() {
    assert_eq!(decode_server_msg(&[1, 0x85, 0x80, 0]), Ok(ServerMsg::RequestTime { id: 5 }));
    assert_eq!(decode_server_msg(&[0x81, 0, 5]), Ok(ServerMsg::RequestTime { id: 5 }));
}

#[test]
fn texts_that_are_not_utf8() {
    assert_eq!(decode_server_msg(&[0, 1, 0xff]), Err(DecodeError::BadUtf8));
    assert_eq!(decode_server_msg(&[0, 2, 0xc3, 0x28]), Err(DecodeError::BadUtf8));
    assert_eq!(decode_server_msg(&[2, 0, 1, 0xff]), Err(DecodeError::BadUtf8));
}

#[test]
fn kinds_that_do_not_exist() {
    assert_eq!(decode_server_msg(&[5, 0]), Err(DecodeError::UnknownVariant));
    assert_eq!(decode_client_msg(&[1, 0, 0]), Err(DecodeError::UnknownVariant));
    assert_eq!(decode_server_msg(&[2, 1, 0]), Err(DecodeError::UnknownVariant));
    assert_eq!(decode_server_msg(&[2, 0, 0, 0, 2]), Err(DecodeError::UnknownVariant));
}

#[test]
fn little_endian() {
    assert_eq!(u32_to_le(0x0403_0201), vec![1, 2, 3, 4]);
    assert_eq!(u32_from_le(&[1, 2, 3, 4]), 0x0403_0201);
    for n in [0u32, 1, 255, 256, 65535, 65536, 0x00ff_00ff, u32::MAX] {
        assert_eq!(u32_to_le(n), n.to_le_bytes().to_vec());
        assert_eq!(u32_from_le(&n.to_le_bytes()), n);
    }
}

#[test]
fn frames() {
    assert_eq!(
        server_frame(&ServerMsg::RequestTime { id: 300 }),
        Ok(vec![3, 0, 0, 0, 1, 0xac, 2])
    );
    assert_eq!(
        client_frame(&ClientMsg::CurrentTime { id: 5, unix_time_micro: 1000 }),
        vec![4, 0, 0, 0, 0, 5, 0xe8, 7]
    );
    assert_eq!(
        client_frame(&ClientMsg::CurrentTime { id: u32::MAX, unix_time_micro: u128::MAX }).len(),
        29
    );
}

#[test]
fn a_stream_of_frames_is_read_frame_by_frame() {
    let mut stream: Vec<u8> = Vec::new();
    for msg in server_msgs() {
        stream.extend_from_slice(&server_frame(&msg).unwrap());
    }
    let mut read: Vec<ServerMsg> = Vec::new();
    let mut rest: &[u8] = &stream;
    while !rest.is_empty() {
        let size = u32_from_le(&[rest[0], rest[1], rest[2], rest[3]]) as usize;
        read.push(decode_server_msg(&rest[4..4 + size]).unwrap());
        rest = &rest[4 + size..];
    }
    assert_eq!(read, server_msgs());
}

#[test]
fn clones_and_references_are_the_same_message() {
    for msg in server_msgs() {
        assert_eq!(msg.clone(), msg);
        let same: &ServerMsg = msg.as_ref();
        assert_eq!(same, &msg);
    }
    for msg in client_msgs() {
        assert_eq!(msg.clone(), msg);
        let same: &ClientMsg = msg.as_ref();
        assert_eq!(same, &msg);
    }
}
