use watch_party::content::{
    fetched_step, hex_string, is_verbatim, names_digest, next_load_step, playback_uri, ContentCheck, LoadStep,
    Progress, CONTENT_MAX_LEN,
};
use watch_party::message::{ContentHash, Download};

const ABC: &str = "ba7816bf8f01cfea414140de5dae2223b00361a396177a9cb410ff61f20015ad";
const EMPTY: &str = "e3b0c44298fc1c149afbf4c8996fb92427ae41e4649b934ca495991b7852b855";

fn hash(digits: &str) -> ContentHash {
    ContentHash::Sha256(digits.to_string())
}

fn check(pieces: &[&[u8]]) -> ContentCheck {
    let mut check = ContentCheck::new();
    for piece in pieces {
        assert!(check.has_room(piece.len()));
        check.update(piece);
    }
    check
}

#[test]
fn digests_of_known_content() {
    assert!(check(&[b"abc"]).matches(&hash(ABC)));
    assert!(check(&[]).matches(&hash(EMPTY)));
    assert!(check(&[b"", b""]).matches(&hash(EMPTY)));
    assert!(!check(&[b"abd"]).matches(&hash(ABC)));
    assert!(!check(&[b"abc"]).matches(&hash(EMPTY)));
}

#[test]
fn pieces_make_one_content() {
    assert!(check(&[b"a", b"", b"bc"]).matches(&hash(ABC)));
    assert!(!check(&[b"bc", b"a"]).matches(&hash(ABC)));
}

#[test]
fn hashes_are_in_lower_case() {
    assert!(!check(&[b"abc"]).matches(&hash(&ABC.to_uppercase())));
    assert!(!check(&[b"abc"]).matches(&hash(&ABC[..63])));
    assert!(!check(&[b"abc"]).matches(&hash("")));
}

#[test]
fn room_for_content() {
    let check = check(&[b"abc"]);
    assert_eq!(CONTENT_MAX_LEN, (1u64 << 61) - 1);
    assert!(check.has_room((CONTENT_MAX_LEN - 3) as usize));
    assert!(!check.has_room((CONTENT_MAX_LEN - 2) as usize));
}

#[test]
fn hexadecimal() {
    assert_eq!(hex_string(&[]), "");
    assert_eq!(hex_string(&[0x0f, 0xa0, 0x00, 0xff]), "0fa000ff");
    for n in 0..=255u8 {
        assert_eq!(hex_string(&[n]), format!("{n:02x}"));
    }
}

#[test]
fn digests_have_names() {
    assert!(names_digest(&hash("00ff"), &[0, 255]));
    assert!(!names_digest(&hash("00FF"), &[0, 255]));
    assert!(!names_digest(&hash("00ff00"), &[0, 255]));
}

#[test]
fn load_steps() {
    let https = || Download::Https("https://e.org/f".to_string());
    let fetch = LoadStep::Fetch("https://e.org/f".to_string());
    assert_eq!(next_load_step(Some(check(&[b"abc"])), &hash(ABC), https()), LoadStep::Play);
    assert_eq!(
        next_load_step(Some(check(&[b"abc"])), &hash(ABC), Download::Nowhere),
        LoadStep::Play
    );
    assert_eq!(next_load_step(Some(check(&[b"ab"])), &hash(ABC), https()), fetch);
    assert_eq!(next_load_step(None, &hash(ABC), https()), fetch);
    assert_eq!(
        next_load_step(Some(check(&[b"ab"])), &hash(ABC), Download::Nowhere),
        LoadStep::NoSource
    );
    assert_eq!(next_load_step(None, &hash(EMPTY), Download::Nowhere), LoadStep::NoSource);
}

#[test]
fn only_the_named_download_plays() {
    assert!(fetched_step(check(&[b"ab", b"c"]), &hash(ABC)));
    assert!(!fetched_step(check(&[b"ab"]), &hash(ABC)));
    assert!(!fetched_step(check(&[]), &hash(ABC)));
    assert!(fetched_step(check(&[]), &hash(EMPTY)));
}

#[test]
fn uris() {
    assert!(is_verbatim(r"\\?\C:\video\f.mp4"));
    assert_eq!(playback_uri(r"\\?\C:\video\f.mp4"), r"file:///C:\video\f.mp4");
    assert_eq!(playback_uri(r"\\?\"), "file:///");
    assert_eq!(playback_uri(r"\\?\\\?\x"), r"file:///\\?\x");
    assert_eq!(playback_uri("\\\\?\\\u{e9}\u{1f37f}"), "file:///\u{e9}\u{1f37f}");
}

#[test]
fn paths_without_the_prefix() {
    for path in ["", r"\\?", r"C:\video", "/video/f.mp4", r"x\\?\C:", r"\\.\C:"] {
        assert!(!is_verbatim(path));
    }
}

#[test]
fn progress_in_percent() {
    let mut progress = Progress::new(Some(200));
    assert_eq!(progress.advance(0), Some(0));
    assert_eq!(progress.advance(1), None);
    assert_eq!(progress.advance(1), Some(1));
    assert_eq!(progress.advance(98), Some(50));
    assert_eq!(progress.advance(100), Some(100));
    assert_eq!(progress.done, 200);
}

#[test]
fn progress_without_a_total() {
    let mut progress = Progress::new(None);
    assert!(progress.fits(usize::MAX));
    assert_eq!(progress.advance(12), None);
    assert_eq!(progress, Progress { done: 12, total: None, shown: u64::MAX });
    assert!(!progress.fits(usize::MAX));
}

#[test]
fn progress_that_cannot_be_computed() {
    assert!(!Progress::new(Some(0)).fits(1));
    assert!(Progress::new(Some(1)).fits((u64::MAX / 100) as usize));
    assert!(!Progress::new(Some(1)).fits((u64::MAX / 100) as usize + 1));
}
