//! The content of a video file: what identifies it, and how much of it has arrived.
use crate::message::{ContentHash, ContentHashView, Download, DownloadView};
use vstd::arithmetic::div_mod::{lemma_div_by_multiple, lemma_div_is_ordered};
use vstd::prelude::*;
use vstd::string::{StrSliceExecFns, StringExecFns};

verus! {

/// The most bytes of which a SHA-256 digest can be had.
pub const CONTENT_MAX_LEN: u64 = 2_305_843_009_213_693_951;

#[verifier::external_type_specification]
#[verifier::external_body]
pub struct ExDigestContext(ring::digest::Context);

/// The bytes that a digest context has taken in.
pub uninterp spec fn absorbed(context: ring::digest::Context) -> Seq<u8>;

/// The digest context computes SHA-256.
pub uninterp spec fn is_sha256(context: ring::digest::Context) -> bool;

/// The SHA-256 digest of some bytes.
pub uninterp spec fn sha256(data: Seq<u8>) -> Seq<u8>;

/// `ring::digest::Context::new` for `ring::digest::SHA256`: a context that has taken in nothing.
#[verifier::external_body]
fn new_context() -> (context: ring::digest::Context)
    ensures
        is_sha256(context),
        absorbed(context) == Seq::<u8>::empty(),
{
    ring::digest::Context::new(&ring::digest::SHA256)
}

/// `ring::digest::Context::update`: the context takes in `data` behind what it has taken in.
#[verifier::external_body]
fn update_context(context: &mut ring::digest::Context, data: &[u8])
    ensures
        is_sha256(*final(context)) == is_sha256(*old(context)),
        absorbed(*final(context)) == absorbed(*old(context)) + data@,
{
    context.update(data)
}

/// `ring::digest::Context::finish`: the digest of all that the context has taken in, thirty-two
/// bytes. It panics on more than [`CONTENT_MAX_LEN`] bytes.
#[verifier::external_body]
fn finish_context(context: ring::digest::Context) -> (digest: Vec<u8>)
    requires
        is_sha256(context),
        absorbed(context).len() <= CONTENT_MAX_LEN,
    ensures
        digest@ == sha256(absorbed(context)),
        digest@.len() == 32,
{
    context.finish().as_ref().to_vec()
}

/// The hexadecimal digit of a number below sixteen.
pub open spec fn hex_digit(n: int) -> char {
    if n < 10 {
        (n + 0x30) as char
    } else {
        (n - 10 + 0x61) as char
    }
}

/// Two lower-case hexadecimal digits for each byte.
pub open spec fn hex(bytes: Seq<u8>) -> Seq<char> {
    Seq::new(
        2 * bytes.len(),
        |i: int|
            if i % 2 == 0 {
                hex_digit(bytes[i / 2] as int / 16)
            } else {
                hex_digit(bytes[i / 2] as int % 16)
            },
    )
}

/// The hexadecimal digit of a number below sixteen.
fn hex_digit_str(n: u8) -> (digit: &'static str)
    requires
        n < 16,
    ensures
        digit@ == seq![hex_digit(n as int)],
{
    proof {
        reveal_strlit("0");
        reveal_strlit("1");
        reveal_strlit("2");
        reveal_strlit("3");
        reveal_strlit("4");
        reveal_strlit("5");
        reveal_strlit("6");
        reveal_strlit("7");
        reveal_strlit("8");
        reveal_strlit("9");
        reveal_strlit("a");
        reveal_strlit("b");
        reveal_strlit("c");
        reveal_strlit("d");
        reveal_strlit("e");
        reveal_strlit("f");
    }
    let digit = match n {
        0 => "0",
        1 => "1",
        2 => "2",
        3 => "3",
        4 => "4",
        5 => "5",
        6 => "6",
        7 => "7",
        8 => "8",
        9 => "9",
        10 => "a",
        11 => "b",
        12 => "c",
        13 => "d",
        14 => "e",
        _ => "f",
    };
    assert(digit@ =~= seq![hex_digit(n as int)]);
    digit
}

/// Two lower-case hexadecimal digits for each byte.
pub fn hex_string(bytes: &[u8]) -> (text: String)
    ensures
        text@ == hex(bytes@),
{
    let mut text = String::new();
    let mut k: usize = 0;
    while k < bytes.len()
        invariant
            k <= bytes.len(),
            text@ == hex(bytes@.take(k as int)),
        decreases bytes.len() - k,
    {
        text.append(hex_digit_str(bytes[k] / 16));
        text.append(hex_digit_str(bytes[k] % 16));
        k = k + 1;
        assert(text@ =~= hex(bytes@.take(k as int)));
    }
    assert(bytes@.take(k as int) =~= bytes@);
    text
}

/// `hash` is the hash of `content`.
pub open spec fn identifies(hash: ContentHashView, content: Seq<u8>) -> bool {
    hash matches ContentHashView::Sha256(digits) && digits == hex(sha256(content))
}

/// Whether `hash` names this digest.
pub fn names_digest(hash: &ContentHash, digest: &[u8]) -> (names: bool)
    ensures
        names == (hash@ == ContentHashView::Sha256(hex(digest@))),
{
    match hash {
        ContentHash::Sha256(digits) => hex_string(digest) == *digits,
    }
}

/// Content that is being read or downloaded, piece by piece, to be held against a hash.
pub struct ContentCheck {
    context: ring::digest::Context,
    len: u64,
}

impl View for ContentCheck {
    type V = Seq<u8>;

    closed spec fn view(&self) -> Seq<u8> {
        absorbed(self.context)
    }
}

impl ContentCheck {
    /// The content is counted, and a digest of it can be had.
    pub closed spec fn well_formed(&self) -> bool {
        &&& is_sha256(self.context)
        &&& self.len == absorbed(self.context).len()
        &&& self.len <= CONTENT_MAX_LEN
    }

    /// No content yet.
    pub fn new() -> (check: ContentCheck)
        ensures
            check.well_formed(),
            check@ == Seq::<u8>::empty(),
    {
        ContentCheck { context: new_context(), len: 0 }
    }

    /// Whether `more` bytes can still be taken in.
    pub fn has_room(&self, more: usize) -> (room: bool)
        requires
            self.well_formed(),
        ensures
            room == (self@.len() + more <= CONTENT_MAX_LEN),
    {
        more as u64 <= CONTENT_MAX_LEN - self.len
    }

    /// Takes in the next piece.
    pub fn update(&mut self, piece: &[u8])
        requires
            old(self).well_formed(),
            old(self)@.len() + piece@.len() <= CONTENT_MAX_LEN,
        ensures
            final(self).well_formed(),
            final(self)@ == old(self)@ + piece@,
    {
        update_context(&mut self.context, piece);
        self.len = self.len + piece.len() as u64;
    }

    /// Whether the content is the one that `hash` names.
    pub fn matches(self, hash: &ContentHash) -> (is: bool)
        requires
            self.well_formed(),
        ensures
            is == identifies(hash@, self@),
    {
        let digest = finish_context(self.context);
        names_digest(hash, digest.as_slice())
    }
}

/// What to do about a video that is to be loaded.
#[derive(Debug, PartialEq, Eq)]
pub enum LoadStep {
    /// The file is here and is the right one: play it.
    Play,
    /// Download it from this URL.
    Fetch(String),
    /// It is not here and there is nowhere to download it from.
    NoSource,
}

/// The mathematical value of a [`LoadStep`].
pub enum LoadStepView {
    Play,
    Fetch(Seq<char>),
    NoSource,
}

impl View for LoadStep {
    type V = LoadStepView;

    open spec fn view(&self) -> LoadStepView {
        match self {
            LoadStep::Play => LoadStepView::Play,
            LoadStep::Fetch(url) => LoadStepView::Fetch(url@),
            LoadStep::NoSource => LoadStepView::NoSource,
        }
    }
}

/// What to do about a video, where `local` is the content of the file of its name, if there is one.
pub open spec fn load_step(
    local: Option<Seq<u8>>,
    hash: ContentHashView,
    download: DownloadView,
) -> LoadStepView {
    if local matches Some(content) && identifies(hash, content) {
        LoadStepView::Play
    } else {
        match download {
            DownloadView::Https(url) => LoadStepView::Fetch(url),
            DownloadView::Nowhere => LoadStepView::NoSource,
        }
    }
}

/// What to do about a video, where `local` is the content of the file of its name, if there is one.
pub fn next_load_step(local: Option<ContentCheck>, hash: &ContentHash, download: Download) -> (step:
    LoadStep)
    requires
        local matches Some(check) ==> check.well_formed(),
    ensures
        step@ == load_step(
            match local {
                Some(check) => Some(check@),
                None => None,
            },
            hash@,
            download@,
        ),
{
    let here = match local {
        Some(check) => check.matches(hash),
        None => false,
    };
    if here {
        LoadStep::Play
    } else {
        match download {
            Download::Https(url) => LoadStep::Fetch(url),
            Download::Nowhere => LoadStep::NoSource,
        }
    }
}

/// Whether a video that was downloaded is played, where `check` is what has arrived.
pub fn fetched_step(check: ContentCheck, hash: &ContentHash) -> (play: bool)
    requires
        check.well_formed(),
    ensures
        play == identifies(hash@, check@),
{
    check.matches(hash)
}

/// The content that is played after a video was to be loaded, where `local` is the content of the
/// file of its name, if there is one, and `fetched` is what a download would bring.
pub open spec fn played_content(
    local: Option<Seq<u8>>,
    fetched: Seq<u8>,
    hash: ContentHashView,
    download: DownloadView,
) -> Option<Seq<u8>> {
    match load_step(local, hash, download) {
        LoadStepView::Play => local,
        LoadStepView::Fetch(_) => if identifies(hash, fetched) {
            Some(fetched)
        } else {
            None
        },
        LoadStepView::NoSource => None,
    }
}

/// How the full path of a file begins: `\\?\`.
pub open spec fn verbatim_prefix() -> Seq<char> {
    seq!['\\', '\\', '?', '\\']
}

/// Whether `path` is the full path of a file.
pub fn is_verbatim(path: &str) -> (is: bool)
    ensures
        is == verbatim_prefix().is_prefix_of(path@),
{
    let is = path.unicode_len() >= 4 && path.get_char(0) == '\\' && path.get_char(1) == '\\'
        && path.get_char(2) == '?' && path.get_char(3) == '\\';
    proof {
        let prefix = verbatim_prefix();
        if is {
            assert(prefix =~= path@.subrange(0, 4));
        }
        if prefix.is_prefix_of(path@) {
            assert(prefix == path@.subrange(0, 4));
            assert(forall|i: int| 0 <= i < 4 ==> prefix[i] == #[trigger] path@[i]);
        }
    }
    is
}

/// The URI under which a player finds the file with this full path.
pub fn playback_uri(path: &str) -> (uri: String)
    requires
        verbatim_prefix().is_prefix_of(path@),
    ensures
        uri@ == "file:///"@ + path@.skip(4),
{
    let mut uri = "file:///".to_owned();
    let rest = path.substring_char(4, path.unicode_len());
    assert(rest@ =~= path@.skip(4));
    uri.append(rest);
    uri
}

/// How much of a download has arrived, in whole percent.
pub open spec fn percent(done: nat, total: nat) -> nat {
    done * 100 / total
}

/// How far a download is.
#[derive(Debug, Clone, Copy, PartialEq, Eq, Structural)]
pub struct Progress {
    /// The bytes that have arrived.
    pub done: u64,
    /// The bytes that there are, if that is known.
    pub total: Option<u64>,
    /// The percentage that was shown last; none yet where it is the largest number.
    pub shown: u64,
}

impl Progress {
    /// A download of which nothing has arrived.
    pub fn new(total: Option<u64>) -> (progress: Progress)
        ensures
            progress == (Progress { done: 0, total, shown: u64::MAX }),
    {
        Progress { done: 0, total, shown: u64::MAX }
    }

    /// A piece of `piece` bytes can be counted, and the percentage be computed.
    pub open spec fn can_count(self, piece: nat) -> bool {
        &&& self.done + piece <= u64::MAX
        &&& self.total matches Some(total) ==> total > 0 && (self.done + piece) * 100 <= u64::MAX
    }

    /// Whether a piece of `piece` bytes can be counted, and the percentage be computed.
    pub fn fits(&self, piece: usize) -> (fits: bool)
        ensures
            fits == self.can_count(piece as nat),
    {
        match self.done.checked_add(piece as u64) {
            None => false,
            Some(done) => match self.total {
                None => true,
                Some(total) => total > 0 && done <= u64::MAX / 100,
            },
        }
    }

    /// Counts a piece that has arrived. The percentage to show comes back where it is known and not
    /// the one that was shown last.
    pub fn advance(&mut self, piece: usize) -> (show: Option<u64>)
        requires
            old(self).can_count(piece as nat),
        ensures
            final(self).done == old(self).done + piece,
            final(self).total == old(self).total,
            match old(self).total {
                Some(total) => {
                    let now = percent(final(self).done as nat, total as nat);
                    &&& final(self).shown == now
                    &&& show == (if now == old(self).shown { None } else { Some(now as u64) })
                },
                None => show is None && final(self).shown == old(self).shown,
            },
    {
        self.done = self.done + piece as u64;
        match self.total {
            None => None,
            Some(total) => {
                proof {
                    let (d, t) = (self.done as int * 100, total as int);
                    assert(d / t <= d) by (nonlinear_arith)
                        requires
                            d >= 0,
                            t > 0,
                    ;
                }
                let now = self.done * 100 / total;
                if now != self.shown {
                    self.shown = now;
                    Some(now)
                } else {
                    None
                }
            },
        }
    }
}

/// Hexadecimal digits tell the bytes: different bytes have different digits, two for each byte, and
/// no digit but `0` to `9` and `a` to `f` occurs.
pub proof fn law_hex_tells_the_bytes(a: Seq<u8>, b: Seq<u8>)
    ensures
        hex(a).len() == 2 * a.len(),
        forall|i: int|
            0 <= i < hex(a).len() ==> '0' <= #[trigger] hex(a)[i] <= '9' || 'a' <= hex(a)[i] <= 'f',
        hex(a) == hex(b) ==> a == b,
{
    if hex(a) == hex(b) {
        assert(hex(b).len() == 2 * b.len());
        assert forall|i: int| 0 <= i < a.len() implies a[i] == b[i] by {
            assert(hex(a)[2 * i] == hex_digit(a[i] as int / 16));
            assert(hex(a)[2 * i + 1] == hex_digit(a[i] as int % 16));
            assert(hex(b)[2 * i] == hex_digit(b[i] as int / 16));
            assert(hex(b)[2 * i + 1] == hex_digit(b[i] as int % 16));
        }
        assert(a =~= b);
    }
}

/// No content is played but one whose digest the hash names, whether it was here or was downloaded,
/// and two contents that one hash names have the same digest. It is played wherever it is here, or
/// can be downloaded.
pub proof fn law_only_the_named_content_plays(
    local: Option<Seq<u8>>,
    fetched: Seq<u8>,
    hash: ContentHashView,
    download: DownloadView,
    other: Seq<u8>,
)
    ensures
        ({
            let here = local is Some && identifies(hash, local->0);
            let played = played_content(local, fetched, hash, download);
            &&& load_step(local, hash, download) is Play <==> here
            &&& played matches Some(content) ==> identifies(hash, content)
            &&& played matches Some(content) ==> (identifies(hash, other) ==> sha256(content)
                == sha256(other))
            &&& played is Some <==> here || download is Https && identifies(hash, fetched)
        }),
{
    if let Some(content) = played_content(local, fetched, hash, download) {
        law_hex_tells_the_bytes(sha256(content), sha256(other));
    }
}

/// The percentage never falls, is at most a hundred, and is a hundred when all has arrived.
pub proof fn law_percent(done: nat, later: nat, total: nat)
    requires
        done <= later <= total,
        total > 0,
    ensures
        percent(done, total) <= percent(later, total) <= 100,
        percent(total, total) == 100,
{
    lemma_div_is_ordered(done as int * 100, later as int * 100, total as int);
    lemma_div_is_ordered(later as int * 100, total as int * 100, total as int);
    lemma_div_by_multiple(100, total as int);
}

/// Hexadecimal digits have the value of the bytes, the high digit of each first.
pub proof fn law_hex_has_the_value_of_the_bytes(bytes: Seq<u8>, i: int)
    requires
        0 <= i < bytes.len(),
    ensures
        ({
            let value = |c: char|
                if '0' <= c && c <= '9' {
                    c as int - '0' as int
                } else {
                    c as int - 'a' as int + 10
                };
            &&& hex(bytes).len() == 2 * bytes.len()
            &&& 0 <= value(hex(bytes)[2 * i]) < 16
            &&& 0 <= value(hex(bytes)[2 * i + 1]) < 16
            &&& 16 * value(hex(bytes)[2 * i]) + value(hex(bytes)[2 * i + 1]) == bytes[i]
            &&& value(hex(bytes)[2 * i]) < 10 <==> hex(bytes)[2 * i] <= '9'
            &&& value(hex(bytes)[2 * i + 1]) < 10 <==> hex(bytes)[2 * i + 1] <= '9'
        }),
{
    assert(hex(bytes)[2 * i] == hex_digit(bytes[i] as int / 16));
    assert(hex(bytes)[2 * i + 1] == hex_digit(bytes[i] as int % 16));
}

/// A hash names a content exactly where it is made of digits `0` to `9` and `a` to `f`, two for each
/// byte of the digest, and each two have the value of their byte, the high digit first.
pub proof fn law_hash_has_the_value_of_the_digest(digits: Seq<char>, content: Seq<u8>)
    ensures
        ({
            let value = |c: char|
                if '0' <= c && c <= '9' {
                    c as int - '0' as int
                } else {
                    c as int - 'a' as int + 10
                };
            let digest = sha256(content);
            identifies(ContentHashView::Sha256(digits), content) <==> {
                &&& digits.len() == 2 * digest.len()
                &&& forall|k: int|
                    0 <= k < digits.len() ==> '0' <= #[trigger] digits[k] <= '9' || 'a' <= digits[k]
                        <= 'f'
                &&& forall|i: int|
                    0 <= i < digest.len() ==> 16 * value(digits[2 * i]) + value(digits[2 * i + 1])
                        == #[trigger] digest[i]
            }
        }),
{
    let value = |c: char|
        if '0' <= c && c <= '9' {
            c as int - '0' as int
        } else {
            c as int - 'a' as int + 10
        };
    let digest = sha256(content);
    law_hex_tells_the_bytes(digest, digest);
    let named = digits.len() == 2 * digest.len() && (forall|k: int|
        0 <= k < digits.len() ==> '0' <= #[trigger] digits[k] <= '9' || 'a' <= digits[k] <= 'f')
        && (forall|i: int|
        0 <= i < digest.len() ==> 16 * value(digits[2 * i]) + value(digits[2 * i + 1])
            == #[trigger] digest[i]);
    if digits == hex(digest) {
        assert forall|i: int| 0 <= i < digest.len() implies 16 * value(digits[2 * i]) + value(
            digits[2 * i + 1],
        ) == #[trigger] digest[i] by {
            law_hex_has_the_value_of_the_bytes(digest, i);
        }
    }
    if named {
        assert forall|k: int| 0 <= k < digits.len() implies digits[k] == hex(digest)[k] by {
            let i = k / 2;
            assert(digits[2 * i] == digits[2 * i] && digits[2 * i + 1] == digits[2 * i + 1]);
            assert(16 * value(digits[2 * i]) + value(digits[2 * i + 1]) == digest[i]);
            law_hex_has_the_value_of_the_bytes(digest, i);
            assert(hex(digest)[2 * i] == hex_digit(digest[i] as int / 16));
            assert(hex(digest)[2 * i + 1] == hex_digit(digest[i] as int % 16));
            assert(k == 2 * i || k == 2 * i + 1);
        }
        assert(digits =~= hex(digest));
    }
}

/// A video that is not here as the hash names it is downloaded from the URL that was told, and only
/// from there; without one it cannot be had.
pub proof fn law_fetched_from_the_url_told(
    local: Option<Seq<u8>>,
    hash: ContentHashView,
    url: Seq<char>,
)
    ensures
        match local {
            Some(content) if identifies(hash, content) => {
                &&& load_step(local, hash, DownloadView::Https(url)) is Play
                &&& load_step(local, hash, DownloadView::Nowhere) is Play
            },
            _ => {
                &&& load_step(local, hash, DownloadView::Https(url)) == LoadStepView::Fetch(url)
                &&& load_step(local, hash, DownloadView::Nowhere) is NoSource
            },
        },
{
}

/// The mathematical value of a step keeps all that it holds.
pub proof fn law_view_keeps_the_load_step(step: LoadStep)
    ensures
        match step@ {
            LoadStepView::Play => step is Play,
            LoadStepView::Fetch(url) => step matches LoadStep::Fetch(u) && u@ == url,
            LoadStepView::NoSource => step is NoSource,
        },
{
}

/// A full path begins with two backslashes, a question mark and a backslash.
pub proof fn law_verbatim_prefix(path: Seq<char>)
    ensures
        verbatim_prefix().is_prefix_of(path) <==> path.len() >= 4 && path[0] == '\\' && path[1]
            == '\\' && path[2] == '?' && path[3] == '\\',
{
    let prefix = verbatim_prefix();
    if prefix.is_prefix_of(path) {
        assert(prefix == path.subrange(0, 4));
        assert(forall|i: int| 0 <= i < 4 ==> prefix[i] == #[trigger] path[i]);
    }
    if path.len() >= 4 && path[0] == '\\' && path[1] == '\\' && path[2] == '?' && path[3] == '\\' {
        assert(prefix =~= path.subrange(0, 4));
    }
}

/// The percentage is the last whole hundredth of the total that has arrived in full.
pub proof fn law_percent_is_the_last_whole_hundredth(done: nat, total: nat)
    requires
        total > 0,
    ensures
        percent(done, total) * total <= done * 100 < (percent(done, total) + 1) * total,
{
    vstd::arithmetic::div_mod::lemma_fundamental_div_mod(done as int * 100, total as int);
    vstd::arithmetic::div_mod::lemma_mod_bound(done as int * 100, total as int);
    let p = percent(done, total) as int;
    assert((p + 1) * total == p * total + total) by (nonlinear_arith);
    assert(p * total == total * p) by (nonlinear_arith);
}

/// A piece can be counted exactly where the bytes fit sixty-four bits, and, where the total is
/// known, it is not nothing and a hundred times the bytes fit too.
pub proof fn law_can_count(progress: Progress, piece: nat)
    ensures
        progress.can_count(piece) <==> match progress.total {
            None => progress.done + piece <= 0xffff_ffff_ffff_ffff,
            Some(total) => total != 0 && (progress.done + piece) * 100 <= 0xffff_ffff_ffff_ffff,
        },
{
}

} // verus!
