//! What a remote session may ask of the hub, and how it says so.
//!
//! A session sends lines of text. A line that reads `b`, whitespace, and a
//! byte in decimal asks for the brightness of every device to be set;
//! every other line asks for nothing.

use vstd::prelude::*;

use crate::deckactor::{Command, MsgType};
use crate::deckstate::requested;
use crate::hub::Broadcast;
use crate::text::{byte_value, chars_of, parse_byte_chars};

verus! {

/// The identity of a session, and of the listener that stands for it.
pub type SessionId = usize;

/// A line of text from or for a remote session.
#[derive(Debug, PartialEq, Eq)]
pub struct WsMessage {
    pub msg: String,
}

impl View for WsMessage {
    type V = Seq<char>;

    open spec fn view(&self) -> Seq<char> {
        self.msg@
    }
}

impl Clone for WsMessage {
    fn clone(&self) -> (copy: Self)
        ensures
            copy@ == self@,
    {
        WsMessage { msg: self.msg.clone() }
    }
}

/// Whether a character separates the words of a line: space, tab, line
/// feed, form feed or carriage return.
pub open spec fn is_ascii_space(c: char) -> bool {
    c == ' ' || c == '\t' || c == '\n' || c == '\x0C' || c == '\r'
}

/// Whether a character is white space in the sense of Unicode.
pub open spec fn is_space(c: char) -> bool {
    let code = c as u32;
    ||| 0x09 <= code <= 0x0D
    ||| code == 0x20
    ||| code == 0x85
    ||| code == 0xA0
    ||| code == 0x1680
    ||| 0x2000 <= code <= 0x200A
    ||| code == 0x2028
    ||| code == 0x2029
    ||| code == 0x202F
    ||| code == 0x205F
    ||| code == 0x3000
}

/// A text without the white space at its start.
pub open spec fn trim_start(s: Seq<char>) -> Seq<char>
    decreases s.len(),
{
    if s.len() > 0 && is_space(s[0]) {
        trim_start(s.drop_first())
    } else {
        s
    }
}

/// A text without the white space at its end.
pub open spec fn trim_end(s: Seq<char>) -> Seq<char>
    decreases s.len(),
{
    if s.len() > 0 && is_space(s.last()) {
        trim_end(s.drop_last())
    } else {
        s
    }
}

/// A text without the white space at its start and at its end.
pub open spec fn trimmed(s: Seq<char>) -> Seq<char> {
    trim_end(trim_start(s))
}

/// Reading a text from left to right: the words that are complete, and the
/// word that the last character belongs to, empty if that character is a
/// separator.
pub open spec fn scanned(s: Seq<char>) -> (Seq<Seq<char>>, Seq<char>)
    decreases s.len(),
{
    if s.len() == 0 {
        (Seq::empty(), Seq::empty())
    } else {
        let (done, word) = scanned(s.drop_last());
        if !is_ascii_space(s.last()) {
            (done, word.push(s.last()))
        } else if word.len() > 0 {
            (done.push(word), Seq::empty())
        } else {
            (done, word)
        }
    }
}

/// The words of a text: its longest runs of characters that are no
/// separators, in order.
pub open spec fn words(s: Seq<char>) -> Seq<Seq<char>> {
    let (done, word) = scanned(s);
    if word.len() > 0 {
        done.push(word)
    } else {
        done
    }
}

/// The command that a line asks for.
pub open spec fn command_of(line: Seq<char>) -> Option<Command> {
    let parts = words(trimmed(line));
    if parts.len() == 2 && parts[0] == seq!['b'] {
        match byte_value(parts[1]) {
            Some(value) => Some(Command::BrightnessChange(value)),
            None => None,
        }
    } else {
        None
    }
}

/// The texts of a sequence of words.
pub open spec fn texts(parts: Seq<Vec<char>>) -> Seq<Seq<char>> {
    parts.map_values(|part: Vec<char>| part@)
}

fn is_separator(c: char) -> (separates: bool)
    ensures
        separates == is_ascii_space(c),
{
    c == ' ' || c == '\t' || c == '\n' || c == '\x0C' || c == '\r'
}

fn is_white(c: char) -> (white: bool)
    ensures
        white == is_space(c),
{
    let code = c as u32;
    (0x09 <= code && code <= 0x0D) || code == 0x20 || code == 0x85 || code == 0xA0 || code
        == 0x1680 || (0x2000 <= code && code <= 0x200A) || code == 0x2028 || code == 0x2029 || code
        == 0x202F || code == 0x205F || code == 0x3000
}

/// Trimming the start drops exactly the white space before the first
/// character that is none.
proof fn lemma_trim_start(s: Seq<char>, k: int)
    requires
        0 <= k <= s.len(),
        forall|i: int| 0 <= i < k ==> is_space(#[trigger] s[i]),
        k < s.len() ==> !is_space(s[k]),
    ensures
        trim_start(s) == s.skip(k),
    decreases k,
{
    if k == 0 {
        assert(s.skip(0) =~= s);
    } else {
        lemma_trim_start(s.drop_first(), k - 1);
        assert(s.drop_first().skip(k - 1) =~= s.skip(k));
    }
}

/// Trimming the end drops exactly the white space behind the last
/// character that is none.
proof fn lemma_trim_end(s: Seq<char>, k: int)
    requires
        0 <= k <= s.len(),
        forall|i: int| k <= i < s.len() ==> is_space(#[trigger] s[i]),
        k > 0 ==> !is_space(s[k - 1]),
    ensures
        trim_end(s) == s.take(k),
    decreases s.len() - k,
{
    if k == s.len() {
        assert(s.take(k) =~= s);
    } else {
        lemma_trim_end(s.drop_last(), k);
        assert(s.drop_last().take(k) =~= s.take(k));
    }
}

/// The characters of a line without the white space at both ends.
fn trim(chars: &Vec<char>) -> (kept: Vec<char>)
    ensures
        kept@ == trimmed(chars@),
{
    let mut start: usize = 0;
    while start < chars.len() && is_white(chars[start])
        invariant
            start <= chars.len(),
            forall|i: int| 0 <= i < start ==> is_space(#[trigger] chars@[i]),
        decreases chars.len() - start,
    {
        start += 1;
    }
    let mut end: usize = chars.len();
    while end > start && is_white(chars[end - 1])
        invariant
            start <= end <= chars.len(),
            forall|i: int| end <= i < chars.len() ==> is_space(#[trigger] chars@[i]),
        decreases end,
    {
        end -= 1;
    }
    let mut kept: Vec<char> = Vec::new();
    let mut i: usize = start;
    while i < end
        invariant
            start <= i <= end <= chars.len(),
            kept@ == chars@.subrange(start as int, i as int),
        decreases end - i,
    {
        kept.push(chars[i]);
        i += 1;
        assert(kept@ =~= chars@.subrange(start as int, i as int));
    }
    proof {
        let rest = chars@.skip(start as int);
        lemma_trim_start(chars@, start as int);
        assert forall|i: int| end - start <= i < rest.len() implies is_space(#[trigger] rest[i]) by {
            assert(rest[i] == chars@[i + start]);
        }
        if end > start {
            assert(rest[end - start - 1] == chars@[end - 1]);
        }
        lemma_trim_end(rest, end - start);
        assert(rest.take(end - start) =~= chars@.subrange(start as int, end as int));
    }
    kept
}

/// The words of a line.
fn split(chars: &Vec<char>) -> (parts: Vec<Vec<char>>)
    ensures
        texts(parts@) == words(chars@),
{
    let mut parts: Vec<Vec<char>> = Vec::new();
    let mut word: Vec<char> = Vec::new();
    let mut i: usize = 0;
    while i < chars.len()
        invariant
            i <= chars.len(),
            (texts(parts@), word@) == scanned(chars@.take(i as int)),
        decreases chars.len() - i,
    {
        let ghost before = parts@;
        proof {
            assert(chars@.take(i + 1).drop_last() =~= chars@.take(i as int));
        }
        let c = chars[i];
        if !is_separator(c) {
            word.push(c);
        } else if word.len() > 0 {
            parts.push(word);
            word = Vec::new();
            assert(texts(parts@) =~= texts(before).push(parts@.last()@));
        }
        i += 1;
    }
    assert(chars@.take(chars.len() as int) =~= chars@);
    if word.len() > 0 {
        let ghost before = parts@;
        parts.push(word);
        assert(texts(parts@) =~= texts(before).push(parts@.last()@));
    }
    parts
}

/// Reads a line from a session.
///
/// The line is taken without the white space at its ends and split into
/// words. It asks for a brightness if it has two words, the first is `b` and
/// the second denotes a byte; the answer is then the broadcast of that
/// brightness. For every other line the answer is `None`.
pub fn handle_text(line: &str) -> (request: Option<Broadcast>)
    ensures
        requested(request) == command_of(line@),
{
    let chars = chars_of(line);
    let kept = trim(&chars);
    let parts = split(&kept);
    if parts.len() != 2 {
        return None;
    }
    assert(texts(parts@)[0] == parts@[0]@);
    assert(texts(parts@)[1] == parts@[1]@);
    if parts[0].len() != 1 || parts[0][0] != 'b' {
        assert(parts@[0]@ != seq!['b']) by {
            if parts@[0]@.len() == 1 {
                assert(seq!['b'][0] == 'b');
            } else {
                assert(seq!['b'].len() == 1);
            }
        }
        return None;
    }
    assert(parts@[0]@ =~= seq!['b']);
    match parse_byte_chars(&parts[1]) {
        Some(value) => Some(Broadcast(MsgType::BrightnessChange(value))),
        None => None,
    }
}

} // verus!
