//! What the host of the party types.
use vstd::prelude::*;
use vstd::string::StrSliceExecFns;
use vstd::utf8::{decode_utf8, valid_utf8};

verus! {

/// A command of the host.
#[derive(Debug, PartialEq, Eq)]
pub enum Command {
    /// End the server.
    Exit,
    /// Say something to every client.
    Test,
    /// Play or pause.
    Toggle,
    /// Something else.
    Unknown(String),
}

/// The mathematical value of a [`Command`].
pub enum CommandView {
    Exit,
    Test,
    Toggle,
    Unknown(Seq<char>),
}

impl View for Command {
    type V = CommandView;

    open spec fn view(&self) -> CommandView {
        match self {
            Command::Exit => CommandView::Exit,
            Command::Test => CommandView::Test,
            Command::Toggle => CommandView::Toggle,
            Command::Unknown(text) => CommandView::Unknown(text@),
        }
    }
}

/// The text that bytes hold, where each stretch of bytes that is not UTF-8 becomes the replacement
/// character.
pub uninterp spec fn utf8_lossy(bytes: Seq<u8>) -> Seq<char>;

/// `String::from_utf8_lossy`: of bytes that are UTF-8, their text. What stands for other bytes is
/// left to the name [`utf8_lossy`].
#[verifier::external_body]
fn lossy_text(bytes: &Vec<u8>) -> (text: String)
    ensures
        text@ == utf8_lossy(bytes@),
        valid_utf8(bytes@) ==> text@ == decode_utf8(bytes@),
{
    String::from_utf8_lossy(bytes).into_owned()
}

/// The character is white space, as Unicode has it.
pub open spec fn is_white_space(c: char) -> bool {
    ||| '\u{9}' <= c <= '\u{d}'
    ||| c == ' '
    ||| c == '\u{85}'
    ||| c == '\u{a0}'
    ||| c == '\u{1680}'
    ||| '\u{2000}' <= c <= '\u{200a}'
    ||| c == '\u{2028}'
    ||| c == '\u{2029}'
    ||| c == '\u{202f}'
    ||| c == '\u{205f}'
    ||| c == '\u{3000}'
}

/// The text without the white space around it.
pub open spec fn trimmed(text: Seq<char>) -> Seq<char>
    decreases text.len(),
{
    if text.len() > 0 && is_white_space(text.first()) {
        trimmed(text.drop_first())
    } else if text.len() > 0 && is_white_space(text.last()) {
        trimmed(text.drop_last())
    } else {
        text
    }
}

/// Whether the character is white space, as Unicode has it.
pub fn white_space(c: char) -> (is: bool)
    ensures
        is == is_white_space(c),
{
    '\u{9}' <= c && c <= '\u{d}' || c == ' ' || c == '\u{85}' || c == '\u{a0}' || c == '\u{1680}'
        || '\u{2000}' <= c && c <= '\u{200a}' || c == '\u{2028}' || c == '\u{2029}' || c
        == '\u{202f}' || c == '\u{205f}' || c == '\u{3000}'
}

/// The text without the white space around it.
pub fn trim(text: &str) -> (rest: &str)
    ensures
        rest@ == trimmed(text@),
{
    let mut from: usize = 0;
    let mut to: usize = text.unicode_len();
    assert(text@.subrange(0, to as int) =~= text@);
    while from < to && white_space(text.get_char(from))
        invariant
            from <= to == text@.len(),
            trimmed(text@.subrange(from as int, to as int)) == trimmed(text@),
        decreases to - from,
    {
        assert(text@.subrange(from as int, to as int).drop_first() =~= text@.subrange(
            from + 1,
            to as int,
        ));
        from = from + 1;
    }
    while from < to && white_space(text.get_char((to - 1) as usize))
        invariant
            from <= to <= text@.len(),
            from < to ==> !is_white_space(text@[from as int]),
            trimmed(text@.subrange(from as int, to as int)) == trimmed(text@),
        decreases to - from,
    {
        assert(text@.subrange(from as int, to as int).drop_last() =~= text@.subrange(
            from as int,
            to - 1,
        ));
        to = to - 1;
    }
    text.substring_char(from, to)
}

/// The command that a line without the white space around it gives.
pub open spec fn command_of(text: Seq<char>) -> CommandView {
    if text == "exit"@ {
        CommandView::Exit
    } else if text == "t"@ {
        CommandView::Test
    } else if text == ""@ {
        CommandView::Toggle
    } else {
        CommandView::Unknown(text)
    }
}

/// The command that a line without the white space around it gives.
pub fn parse_command(text: String) -> (command: Command)
    ensures
        command@ == command_of(text@),
{
    if text == "exit".to_owned() {
        Command::Exit
    } else if text == "t".to_owned() {
        Command::Test
    } else if text == "".to_owned() {
        Command::Toggle
    } else {
        Command::Unknown(text)
    }
}

/// The bytes that were typed since the last line ended.
#[derive(Debug, PartialEq, Eq)]
pub struct LineBuffer {
    pub bytes: Vec<u8>,
}

impl LineBuffer {
    /// Nothing was typed yet.
    pub fn new() -> (line: LineBuffer)
        ensures
            line.bytes@ == Seq::<u8>::empty(),
    {
        LineBuffer { bytes: Vec::new() }
    }

    /// Takes the next byte. Where it ends the line, the line comes back, without the white space
    /// around it, and the next begins.
    pub fn feed(&mut self, byte: u8) -> (line: Option<String>)
        ensures
            match line {
                Some(line) => byte == 10 && line@ == trimmed(utf8_lossy(old(self).bytes@))
                    && final(self).bytes@ == Seq::<u8>::empty() && (valid_utf8(old(self).bytes@)
                    ==> line@ == trimmed(decode_utf8(old(self).bytes@))),
                None => byte != 10 && final(self).bytes@ == old(self).bytes@.push(byte),
            },
    {
        if byte == 10 {
            let text = lossy_text(&self.bytes);
            self.bytes = Vec::new();
            Some(trim(text.as_str()).to_owned())
        } else {
            self.bytes.push(byte);
            None
        }
    }
}

/// Every character of `text` is white space.
pub open spec fn all_white(text: Seq<char>) -> bool {
    forall|i: int| 0 <= i < text.len() ==> is_white_space(#[trigger] text[i])
}

/// White space in front of a text is trimmed.
proof fn lemma_trimmed_front(white: Seq<char>, text: Seq<char>)
    requires
        all_white(white),
    ensures
        trimmed(white + text) == trimmed(text),
    decreases white.len(),
{
    if white.len() > 0 {
        assert((white + text).first() == white[0]);
        assert((white + text).drop_first() =~= white.drop_first() + text);
        lemma_trimmed_front(white.drop_first(), text);
    } else {
        assert(white + text =~= text);
    }
}

/// White space behind a text is trimmed.
proof fn lemma_trimmed_back(text: Seq<char>, white: Seq<char>)
    requires
        all_white(white),
    ensures
        trimmed(text + white) == trimmed(text),
    decreases text.len() + white.len(),
{
    let all = text + white;
    if text.len() == 0 {
        lemma_trimmed_front(white, text);
        assert(all =~= white + text);
    } else if is_white_space(text.first()) {
        assert(all.drop_first() =~= text.drop_first() + white);
        lemma_trimmed_back(text.drop_first(), white);
    } else if white.len() > 0 {
        assert(all.first() == text.first());
        assert(all.last() == white[white.len() - 1]);
        assert(all.drop_last() =~= text + white.drop_last());
        lemma_trimmed_back(text, white.drop_last());
    } else {
        assert(all =~= text);
    }
}

/// White space around a line does not change the command that it gives.
pub proof fn law_white_space_around_does_not_matter(
    before: Seq<char>,
    text: Seq<char>,
    after: Seq<char>,
)
    requires
        all_white(before),
        all_white(after),
    ensures
        trimmed(before + text + after) == trimmed(text),
        command_of(trimmed(before + text + after)) == command_of(trimmed(text)),
{
    lemma_trimmed_back(before + text, after);
    lemma_trimmed_front(before, text);
}

/// A trimmed text neither begins nor ends with white space, and is not trimmed any more.
pub proof fn law_trimmed_has_no_white_ends(text: Seq<char>)
    ensures
        ({
            let rest = trimmed(text);
            &&& rest.len() > 0 ==> !is_white_space(rest.first()) && !is_white_space(rest.last())
            &&& trimmed(rest) == rest
        }),
    decreases text.len(),
{
    if text.len() > 0 && is_white_space(text.first()) {
        law_trimmed_has_no_white_ends(text.drop_first());
    } else if text.len() > 0 && is_white_space(text.last()) {
        law_trimmed_has_no_white_ends(text.drop_last());
    }
}

/// What a trimmed text had in front and behind.
proof fn lemma_trimmed_ends(text: Seq<char>) -> (ends: (Seq<char>, Seq<char>))
    ensures
        all_white(ends.0),
        all_white(ends.1),
        text == ends.0 + trimmed(text) + ends.1,
    decreases text.len(),
{
    if text.len() > 0 && is_white_space(text.first()) {
        let (before, after) = lemma_trimmed_ends(text.drop_first());
        assert(text =~= seq![text.first()] + text.drop_first());
        let more = seq![text.first()] + before;
        assert(text =~= more + trimmed(text) + after);
        (more, after)
    } else if text.len() > 0 && is_white_space(text.last()) {
        let (before, after) = lemma_trimmed_ends(text.drop_last());
        assert(text =~= text.drop_last().push(text.last()));
        let more = after.push(text.last());
        assert(text =~= before + trimmed(text) + more);
        (before, more)
    } else {
        assert(text =~= Seq::<char>::empty() + text + Seq::<char>::empty());
        (seq![], seq![])
    }
}

/// To trim is to cut off all white space in front and behind, and to keep all that stands between.
pub proof fn law_trimmed_is_what_stands_between(text: Seq<char>)
    ensures
        exists|before: Seq<char>, after: Seq<char>|
            #![trigger before + trimmed(text) + after]
            text == before + trimmed(text) + after && (forall|k: int|
                0 <= k < before.len() ==> is_white_space(#[trigger] before[k])) && (forall|k: int|
                0 <= k < after.len() ==> is_white_space(#[trigger] after[k])),
        trimmed(text).len() > 0 ==> !is_white_space(trimmed(text).first()) && !is_white_space(
            trimmed(text).last(),
        ),
{
    let (before, after) = lemma_trimmed_ends(text);
    assert(text == before + trimmed(text) + after);
    law_trimmed_has_no_white_ends(text);
}

/// White space is the space, the tab and the four characters that follow it, and what else Unicode
/// counts as such: by the numbers of the characters.
pub proof fn law_white_space(c: char)
    ensures
        ({
            let n = c as u32;
            is_white_space(c) <==> 9 <= n <= 13 || n == 32 || n == 133 || n == 160 || n == 5760 || 8192
                <= n <= 8202 || n == 8232 || n == 8233 || n == 8239 || n == 8287 || n == 12288
        }),
{
}

/// The line `exit` ends the server, the line `t` says something, the empty line plays or pauses,
/// and any other line is no command and is kept as it is.
pub proof fn law_commands(text: Seq<char>)
    ensures
        match command_of(text) {
            CommandView::Exit => text == seq!['e', 'x', 'i', 't'],
            CommandView::Test => text == seq!['t'],
            CommandView::Toggle => text.len() == 0,
            CommandView::Unknown(kept) => kept == text && text != seq!['e', 'x', 'i', 't'] && text
                != seq!['t'] && text.len() > 0,
        },
{
    reveal_strlit("exit");
    reveal_strlit("t");
    reveal_strlit("");
    assert("exit"@ =~= seq!['e', 'x', 'i', 't']);
    assert("t"@ =~= seq!['t']);
    if text.len() == 0 {
        assert(text =~= ""@);
    }
}

/// The mathematical value of a command keeps all that it holds.
pub proof fn law_view_keeps_the_command(command: Command)
    ensures
        match command@ {
            CommandView::Exit => command is Exit,
            CommandView::Test => command is Test,
            CommandView::Toggle => command is Toggle,
            CommandView::Unknown(text) => command matches Command::Unknown(t) && t@ == text,
        },
{
}

} // verus!
