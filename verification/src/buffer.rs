//! The document: an ordered sequence of text lines, and how a text is cut
//! into them.

use vstd::prelude::*;
use crate::error::Error;

verus! {

/// `String::push` of std appends the character to the end of the string.
pub assume_specification[ String::push ](s: &mut String, ch: char)
    ensures
        final(s)@ == old(s)@.push(ch),
;

/// The texts of `lines`, in order.
pub open spec fn texts(lines: Seq<String>) -> Seq<Seq<char>> {
    Seq::new(lines.len(), |i: int| lines[i]@)
}

/// `line` without the carriage return at its end, if it has one there.
pub open spec fn chomp(line: Seq<char>) -> Seq<char> {
    if line.len() > 0 && line.last() == '\r' {
        line.drop_last()
    } else {
        line
    }
}

/// The lines of `text`, where `line` holds what was read of the first of
/// them before `text` starts.
///
/// A line feed ends a line; the line then loses a carriage return at its
/// end. What follows the last line feed is a line of its own, kept as it is,
/// unless nothing follows.
pub open spec fn split(line: Seq<char>, text: Seq<char>) -> Seq<Seq<char>>
    decreases text.len(),
{
    if text.len() == 0 {
        if line.len() == 0 {
            Seq::empty()
        } else {
            seq![line]
        }
    } else if text[0] == '\n' {
        seq![chomp(line)] + split(Seq::empty(), text.drop_first())
    } else {
        split(line.push(text[0]), text.drop_first())
    }
}

/// The lines of `text`: its parts between line feeds, each without the
/// line feed, and without a carriage return before it.
pub open spec fn lines_of(text: Seq<char>) -> Seq<Seq<char>> {
    split(Seq::empty(), text)
}

/// Whether `text` holds no line feed.
pub open spec fn is_line(text: Seq<char>) -> bool {
    forall|at: int| 0 <= at < text.len() ==> text[at] != '\n'
}

/// Reading on in a line: with `line` begun, a run `more` without line feed
/// and then a line feed end the line that holds both.
pub proof fn lemma_split_line(line: Seq<char>, more: Seq<char>, rest: Seq<char>)
    requires
        is_line(more),
    ensures
        split(line, more + seq!['\n'] + rest) == seq![chomp(line + more)] + lines_of(rest),
        rest.len() == 0 ==> split(line, more) == (if (line + more).len() == 0 {
            Seq::<Seq<char>>::empty()
        } else {
            seq![line + more]
        }),
    decreases more.len(),
{
    let text = more + seq!['\n'] + rest;
    if more.len() == 0 {
        assert(line + more =~= line);
        assert(text.drop_first() =~= rest);
    } else {
        assert(text[0] == more[0]);
        assert(text.drop_first() =~= more.drop_first() + seq!['\n'] + rest);
        assert(line.push(more[0]) + more.drop_first() =~= line + more);
        lemma_split_line(line.push(more[0]), more.drop_first(), rest);
    }
}

/// What determines the lines of a text. A text that starts with a run
/// without line feed and a line feed has that run as its first line, without
/// the carriage return at the run's end if there is one, and the lines of
/// what follows the line feed as its other lines. A text without line feed
/// is its own single line, and the empty text has no line.
pub proof fn lemma_lines_of(first: Seq<char>, rest: Seq<char>)
    requires
        is_line(first),
    ensures
        lines_of(first + seq!['\n'] + rest) == seq![chomp(first)] + lines_of(rest),
        first.len() > 0 ==> lines_of(first) == seq![first],
        lines_of(Seq::empty()) == Seq::<Seq<char>>::empty(),
{
    assert(Seq::<char>::empty() + first =~= first);
    lemma_split_line(Seq::empty(), first, rest);
    lemma_split_line(Seq::empty(), first, Seq::empty());
}

/// Whether no line of `lines` holds a line feed.
pub open spec fn unbroken(lines: Seq<Seq<char>>) -> bool {
    forall|line: int, at: int|
        0 <= line < lines.len() && 0 <= at < lines[line].len() ==> #[trigger] lines[line][at]
            != '\n'
}

/// Cutting keeps line feeds out of the lines: if the line that was begun
/// holds none, no line that the cut gives holds one.
pub proof fn lemma_split_unbroken(line: Seq<char>, text: Seq<char>)
    requires
        forall|at: int| 0 <= at < line.len() ==> line[at] != '\n',
    ensures
        unbroken(split(line, text)),
    decreases text.len(),
{
    if text.len() == 0 {
    } else if text[0] == '\n' {
        lemma_split_unbroken(Seq::empty(), text.drop_first());
        let head = seq![chomp(line)];
        let tail = split(Seq::empty(), text.drop_first());
        assert forall|row: int, at: int|
            0 <= row < (head + tail).len() && 0 <= at < (head + tail)[row].len() implies 
            #[trigger] (head + tail)[row][at] != '\n' by {
            if row > 0 {
                assert((head + tail)[row] == tail[row - 1]);
                assert(tail[row - 1][at] != '\n');
            }
        }
    } else {
        lemma_split_unbroken(line.push(text[0]), text.drop_first());
    }
}

/// No line of a text holds a line feed.
pub proof fn lemma_lines_unbroken(text: Seq<char>)
    ensures
        unbroken(lines_of(text)),
{
    lemma_split_unbroken(Seq::empty(), text);
}

/// The lines of a loaded document, first line first. A document without
/// lines is the empty document.
#[derive(Debug, Clone)]
pub struct Buffer {
    pub lines: Vec<String>,
}

impl View for Buffer {
    type V = Seq<Seq<char>>;

    /// The lines as sequences of characters, in order.
    open spec fn view(&self) -> Seq<Seq<char>> {
        texts(self.lines@)
    }
}

impl Default for Buffer {
    /// The empty document.
    fn default() -> (buffer: Buffer)
        ensures
            buffer@ == Seq::<Seq<char>>::empty(),
    {
        let buffer = Buffer { lines: Vec::new() };
        assert(buffer@ =~= Seq::<Seq<char>>::empty());
        buffer
    }
}

/// Cuts `text` into its lines.
fn split_lines(text: &str) -> (lines: Vec<String>)
    ensures
        texts(lines@) == lines_of(text@),
{
    let mut lines: Vec<String> = Vec::new();
    let mut line = String::new();
    // A carriage return was read and is not yet part of `line`: it is dropped
    // if a line feed follows, and appended if anything else does.
    let mut held = false;
    let ghost mut rest = text@;
    assert(texts(lines@) =~= Seq::<Seq<char>>::empty());
    assert(text@.skip(0) =~= text@);
    for c in it: text.chars()
        invariant
            it.seq() == text@,
            rest == text@.skip(it.index()),
            held ==> texts(lines@) + split(line@.push('\r'), rest) == lines_of(text@),
            !held ==> texts(lines@) + split(line@, rest) == lines_of(text@),
            !held ==> line@.len() == 0 || line@.last() != '\r',
    {
        let ghost done = texts(lines@);
        assert(rest.len() > 0 && rest[0] == c);
        proof {
            rest = rest.drop_first();
            assert(rest =~= text@.skip(it.index() + 1));
        }
        if c == '\n' {
            assert(held ==> chomp(line@.push('\r')) =~= line@);
            let ghost ended = line@;
            lines.push(line);
            line = String::new();
            held = false;
            assert(texts(lines@) =~= done + seq![ended]);
        } else {
            if held {
                line.push('\r');
            }
            if c == '\r' {
                held = true;
            } else {
                held = false;
                line.push(c);
            }
        }
    }
    assert(rest.len() == 0);
    if held {
        line.push('\r');
    }
    if !line.as_str().is_empty() {
        let ghost done = texts(lines@);
        lines.push(line);
        assert(texts(lines@) =~= done + seq![line@]);
    } else {
        assert(texts(lines@) + Seq::<Seq<char>>::empty() =~= texts(lines@));
    }
    lines
}

impl Buffer {
    /// The document that a read of a file gives: the lines of the text that
    /// was read, or the failure of the read, passed on.
    pub fn load(read: Result<String, Error>) -> (r: Result<Buffer, Error>)
        ensures
            match read {
                Ok(text) => r is Ok && r->Ok_0@ == lines_of(text@) && unbroken(r->Ok_0@),
                Err(e) => r == Err::<Buffer, Error>(e),
            },
    {
        match read {
            Ok(text) => {
                proof {
                    lemma_lines_unbroken(text@);
                }
                Ok(Buffer { lines: split_lines(text.as_str()) })
            },
            Err(e) => Err(e),
        }
    }

    /// Whether the document has no lines.
    pub fn is_empty(&self) -> (empty: bool)
        ensures
            empty == (self@.len() == 0),
    {
        self.lines.len() == 0
    }

    /// The line at `index`, counted from zero, or `None` past the last line.
    pub fn get(&self, index: usize) -> (line: Option<&str>)
        ensures
            line is Some <==> index < self@.len(),
            line is Some ==> line->Some_0@ == self@[index as int],
    {
        if index < self.lines.len() {
            Some(self.lines[index].as_str())
        } else {
            None
        }
    }
}

} // verus!
