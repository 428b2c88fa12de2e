use watch_party::console::{parse_command, trim, white_space, Command, LineBuffer};

fn lines(input: &[u8]) -> (Vec<String>, Vec<u8>) {
    let mut buffer = LineBuffer::new();
    let mut lines = Vec::new();
    for byte in input {
        if let Some(line) = buffer.feed(*byte) {
            lines.push(line);
        }
    }
    (lines, buffer.bytes)
}

#[test]
fn commands() {
    assert_eq!(parse_command("exit".to_string()), Command::Exit);
    assert_eq!(parse_command("t".to_string()), Command::Test);
    assert_eq!(parse_command(String::new()), Command::Toggle);
    assert_eq!(parse_command("Exit".to_string()), Command::Unknown("Exit".to_string()));
    assert_eq!(parse_command("tt".to_string()), Command::Unknown("tt".to_string()));
}

#[test]
fn lines_are_cut_and_trimmed() {
    let (read, left) = lines(b"exit\n\n  t \r\nab");
    assert_eq!(read, vec!["exit", "", "t"]);
    assert_eq!(left, b"ab".to_vec());
}

#[test]
fn lines_in_utf8() {
    assert_eq!(lines("\u{3000}h\u{e9}\u{a0}\u{1f37f}\u{2003}\n".as_bytes()).0, vec!["h\u{e9}\u{a0}\u{1f37f}"]);
}

#[test]
fn bytes_that_are_not_utf8_are_replaced() {
    assert_eq!(lines(b" a\xffb \n").0, vec!["a\u{fffd}b"]);
    assert_eq!(lines(b"\xe2\x82\n").0, vec!["\u{fffd}"]);
}

#[test]
fn white_space_is_that_of_char() {
    for n in 0..=0x10ffffu32 {
        if let Some(c) = char::from_u32(n) {
            assert_eq!(white_space(c), c.is_whitespace(), "{n:x}");
        }
    }
}

#[test]
fn trim_is_that_of_str() {
    for text in ["", " ", "a", " a", "a ", "\t a b \n", "\u{85}x\u{2029}", "  \u{feff} ", "\r\n\r\n"] {
        assert_eq!(trim(text), text.trim());
    }
}

#[test]
fn white_space_around_a_command() {
    for line in ["exit", " exit", "exit\t", "\u{2000}exit\u{3000}\r"] {
        assert_eq!(parse_command(trim(line).to_string()), Command::Exit);
    }
    assert_eq!(parse_command(trim(" \t\r").to_string()), Command::Toggle);
    assert_eq!(trim(trim("  a  ")), "a");
}
