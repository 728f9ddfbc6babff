//! The viewport renderer: what a redraw of the whole viewport writes.
//!
//! A frame has one row of text for every row of the viewport. An empty
//! document gives filler rows and, a third of the way down, the welcome
//! banner; any other document gives its first lines and filler rows below
//! them. Every row is drawn by clearing its line and printing its text, and
//! every row but the last is followed by a line break.

use vstd::prelude::*;
use vstd::string::{StrSliceExecFns, StringExecFns};
use vstd::utf8::encode_utf8;
use vstd::view::View as _;
use crate::buffer::{lines_of, unbroken, Buffer};
use crate::error::Error;
use crate::io_provider::FakeOut;
use crate::terminal::{clear_line, clear_seq, lemma_encode_concat, print, ClearType, Size};

verus! {

/// The name shown in the welcome banner.
pub const NAME: &'static str = "tview";

/// The version shown in the welcome banner.
pub const VERSION: &'static str = "0.1.0";

/// The text of a row that shows no line of the document: the filler glyph.
pub open spec fn filler() -> Seq<char> {
    "~"@
}

/// The line break that separates two rows.
pub open spec fn line_break() -> Seq<char> {
    "\r\n"@
}

/// The banner: name and version around the words that every banner holds.
pub open spec fn banner() -> Seq<char> {
    NAME@ + " editor -- version "@ + VERSION@
}

/// The number of blanks between the filler glyph and the banner in a
/// viewport `width` cells wide. The padding is half the room that the banner
/// leaves, rounded down; the filler glyph takes one cell of it, if it has
/// any.
pub open spec fn banner_blanks(width: nat) -> nat {
    let room: nat = if width > banner().len() {
        (width - banner().len()) as nat
    } else {
        0
    };
    let padding = room / 2;
    if padding > 0 {
        (padding - 1) as nat
    } else {
        0
    }
}

/// The welcome row for a viewport `width` cells wide: the filler glyph, the
/// blanks that centre the banner, the banner, all cut to `width` characters.
pub open spec fn welcome_row(width: nat) -> Seq<char> {
    let row = filler() + Seq::new(banner_blanks(width), |i: int| ' ') + banner();
    if row.len() > width {
        row.subrange(0, width as int)
    } else {
        row
    }
}

/// The rows of the welcome screen in a viewport of `size`, top row first:
/// the welcome row a third of the way down, filler rows elsewhere.
pub open spec fn welcome_rows(size: Size) -> Seq<Seq<char>> {
    Seq::new(
        size.height as nat,
        |row: int|
            if row == size.height / 3 {
                welcome_row(size.width as nat)
            } else {
                filler()
            },
    )
}

/// The rows that show `doc` in a viewport of `size`, top row first: line
/// `row` of the document in row `row`, filler rows below the last line.
pub open spec fn buffer_rows(doc: Seq<Seq<char>>, size: Size) -> Seq<Seq<char>> {
    Seq::new(
        size.height as nat,
        |row: int|
            if row < doc.len() {
                doc[row]
            } else {
                filler()
            },
    )
}

/// The rows of the frame for `doc` in a viewport of `size`: as many as the
/// viewport is high; the welcome screen for the empty document, the
/// document's first lines otherwise.
pub open spec fn rows(doc: Seq<Seq<char>>, size: Size) -> Seq<Seq<char>> {
    if doc.len() == 0 {
        welcome_rows(size)
    } else {
        buffer_rows(doc, size)
    }
}

/// What drawing the first `n` of `rows` writes: for each row the command
/// that clears its line and then its text, and a line break after each row
/// that is not the last of `rows`.
pub open spec fn drawn(rows: Seq<Seq<char>>, n: nat) -> Seq<char>
    decreases n,
{
    if n == 0 || n > rows.len() {
        Seq::empty()
    } else {
        drawn(rows, (n - 1) as nat) + clear_seq(ClearType::CurrentLine) + rows[n - 1] + (if n
            < rows.len() {
            line_break()
        } else {
            Seq::empty()
        })
    }
}

/// What drawing all of `rows` writes.
pub open spec fn drawn_all(rows: Seq<Seq<char>>) -> Seq<char> {
    drawn(rows, rows.len())
}

/// What a redraw of the whole viewport writes for `doc` in a viewport of
/// `size`.
pub open spec fn frame(doc: Seq<Seq<char>>, size: Size) -> Seq<char> {
    drawn_all(rows(doc, size))
}

/// The view of a document: the part of the editor that draws it.
#[derive(Debug, Clone)]
pub struct View {
    pub buffer: Buffer,
}

impl Default for View {
    /// A view of the empty document.
    fn default() -> (view: View)
        ensures
            view.buffer@ == Seq::<Seq<char>>::empty(),
    {
        View { buffer: Buffer::default() }
    }
}

/// How the bytes of the first `n` rows come from those of the rows before:
/// the pieces of row `n - 1` follow one another.
pub proof fn lemma_drawn_row(rows: Seq<Seq<char>>, n: nat)
    requires
        0 < n <= rows.len(),
    ensures
        encode_utf8(drawn(rows, n)) == encode_utf8(drawn(rows, (n - 1) as nat)) + encode_utf8(
            clear_seq(ClearType::CurrentLine),
        ) + encode_utf8(rows[n - 1]) + (if n < rows.len() {
            encode_utf8(line_break())
        } else {
            Seq::empty()
        }),
{
    let before = drawn(rows, (n - 1) as nat);
    let clear = clear_seq(ClearType::CurrentLine);
    lemma_encode_concat(before, clear);
    lemma_encode_concat(before + clear, rows[n - 1]);
    if n < rows.len() {
        lemma_encode_concat(before + clear + rows[n - 1], line_break());
    } else {
        assert(before + clear + rows[n - 1] + Seq::<char>::empty() =~= before + clear + rows[n
            - 1]);
        assert(encode_utf8(drawn(rows, n)) + Seq::<u8>::empty() =~= encode_utf8(drawn(rows, n)));
    }
}

/// Whether `part` occurs in `text`, as a run of neighbours.
pub open spec fn holds(text: Seq<char>, part: Seq<char>) -> bool {
    exists|at: int|
        0 <= at && at + part.len() <= text.len() && #[trigger] text.subrange(
            at,
            at + part.len(),
        ) == part
}

/// The words that every banner holds, between name and version.
pub open spec fn banner_words() -> Seq<char> {
    "editor -- version"@
}

/// The number of line feeds in `text`.
pub open spec fn line_feeds(text: Seq<char>) -> nat
    decreases text.len(),
{
    if text.len() == 0 {
        0
    } else {
        line_feeds(text.drop_last()) + if text.last() == '\n' {
            1nat
        } else {
            0nat
        }
    }
}

/// The line feeds of two texts add up when the texts are joined.
pub proof fn lemma_line_feeds_add(a: Seq<char>, b: Seq<char>)
    ensures
        line_feeds(a + b) == line_feeds(a) + line_feeds(b),
    decreases b.len(),
{
    if b.len() == 0 {
        assert(a + b =~= a);
    } else {
        assert((a + b).drop_last() =~= a + b.drop_last());
        lemma_line_feeds_add(a, b.drop_last());
    }
}

/// A text without a line feed among its characters has no line feeds.
pub proof fn lemma_line_feeds_none(text: Seq<char>)
    requires
        forall|at: int| 0 <= at < text.len() ==> text[at] != '\n',
    ensures
        line_feeds(text) == 0,
    decreases text.len(),
{
    if text.len() > 0 {
        lemma_line_feeds_none(text.drop_last());
    }
}

/// Drawing the first `n` rows of a frame whose rows hold no line feed
/// writes one line feed for each of them but the last row of the frame.
pub proof fn lemma_drawn_line_feeds(rows: Seq<Seq<char>>, n: nat)
    requires
        unbroken(rows),
        n <= rows.len(),
    ensures
        line_feeds(drawn(rows, n)) == (if n < rows.len() || n == 0 {
            n
        } else {
            (n - 1) as nat
        }),
    decreases n,
{
    if n > 0 {
        let before = drawn(rows, (n - 1) as nat);
        let clear = clear_seq(ClearType::CurrentLine);
        let text = rows[n - 1];
        lemma_drawn_line_feeds(rows, (n - 1) as nat);
        reveal_strlit("\x1b[2K");
        reveal_strlit("\r\n");
        lemma_line_feeds_none(clear);
        assert forall|at: int| 0 <= at < text.len() implies text[at] != '\n' by {
            assert(rows[n - 1][at] != '\n');
        }
        lemma_line_feeds_none(text);
        lemma_line_feeds_add(before, clear);
        lemma_line_feeds_add(before + clear, text);
        if n < rows.len() {
            assert(line_break().drop_last() =~= seq!['\r']);
            lemma_line_feeds_none(seq!['\r']);
            assert(line_feeds(line_break()) == 1);
            lemma_line_feeds_add(before + clear + text, line_break());
        } else {
            assert(before + clear + text + Seq::<char>::empty() =~= before + clear + text);
        }
    }
}

/// A frame whose rows hold no line feed has one line break less than it has
/// rows: one between any two rows, none after the last.
pub proof fn lemma_frame_line_breaks(rows: Seq<Seq<char>>)
    requires
        unbroken(rows),
        rows.len() > 0,
    ensures
        line_feeds(drawn_all(rows)) == rows.len() - 1,
{
    lemma_drawn_line_feeds(rows, rows.len());
}

/// The welcome row of a viewport wide enough for the filler glyph, the name
/// and the words of the banner holds those words.
pub proof fn lemma_welcome_row_holds_banner(width: nat)
    requires
        width >= NAME@.len() + 19,
    ensures
        holds(welcome_row(width), banner_words()),
{
    reveal_strlit(" editor -- version ");
    reveal_strlit("editor -- version");
    reveal_strlit("~");
    let words = " editor -- version "@;
    let blanks = Seq::new(banner_blanks(width), |i: int| ' ');
    let row = filler() + blanks + banner();
    let at: int = (1 + banner_blanks(width) + NAME@.len() + 1) as int;
    assert(banner().len() == NAME@.len() + 19 + VERSION@.len());
    assert(at + 17 <= row.len());
    assert(at + 17 <= width);
    assert forall|i: int| 0 <= i < 17 implies row[at + i] == banner_words()[i] by {
        assert(row[at + i] == banner()[NAME@.len() + 1 + i]);
        assert(banner()[NAME@.len() + 1 + i] == words[1 + i]);
    }
    assert(welcome_row(width).subrange(at, at + 17) =~= banner_words());
}

/// The welcome screen has as many rows as the viewport is high. The row a
/// third of the way down is the welcome row; every other row is a filler
/// row, which does not hold the words of the banner. No row holds a line
/// feed.
pub proof fn lemma_welcome_screen(size: Size)
    ensures
        rows(Seq::empty(), size) == welcome_rows(size),
        welcome_rows(size).len() == size.height,
        forall|row: int|
            0 <= row < size.height ==> #[trigger] welcome_rows(size)[row] == (if row
                == size.height / 3 {
                welcome_row(size.width as nat)
            } else {
                filler()
            }),
        !holds(filler(), banner_words()),
        unbroken(welcome_rows(size)),
{
    reveal_strlit("~");
    reveal_strlit("editor -- version");
    reveal_strlit(" editor -- version ");
    reveal_strlit("tview");
    reveal_strlit("0.1.0");
    assert(!holds(filler(), banner_words()));
    let width = size.width as nat;
    let full = filler() + Seq::new(banner_blanks(width), |i: int| ' ') + banner();
    assert forall|at: int| 0 <= at < full.len() implies full[at] != '\n' by {
        if at >= 1 + banner_blanks(width) {
            let k = at - 1 - banner_blanks(width);
            assert(full[at] == banner()[k]);
            if k >= NAME@.len() + 19 {
                assert(banner()[k] == VERSION@[k - NAME@.len() - 19]);
            } else if k >= NAME@.len() {
                assert(banner()[k] == " editor -- version "@[k - NAME@.len()]);
            } else {
                assert(banner()[k] == NAME@[k]);
            }
        }
    }
    assert forall|row: int, at: int|
        0 <= row < welcome_rows(size).len() && 0 <= at < welcome_rows(size)[row].len() implies 
        #[trigger] welcome_rows(size)[row][at] != '\n' by {
        if row == size.height / 3 {
            assert(welcome_rows(size)[row] == welcome_row(width));
            assert(welcome_row(width)[at] == full[at]);
        }
    }
}

/// The frame of the welcome screen for a viewport of one row or more has
/// one line break less than the viewport has rows.
pub proof fn lemma_welcome_screen_line_breaks(size: Size)
    requires
        size.height >= 1,
    ensures
        line_feeds(frame(Seq::empty(), size)) == size.height - 1,
{
    lemma_welcome_screen(size);
    lemma_frame_line_breaks(welcome_rows(size));
}

/// In the welcome screen of a viewport wide enough for the filler glyph,
/// the name and the words of the banner, exactly one row holds those words:
/// the row a third of the way down.
pub proof fn lemma_one_banner_row(size: Size, row: int)
    requires
        size.width >= NAME@.len() + 19,
        0 <= row < size.height,
    ensures
        holds(rows(Seq::empty(), size)[row], banner_words()) <==> row == size.height / 3,
{
    lemma_welcome_screen(size);
    lemma_welcome_row_holds_banner(size.width as nat);
}

/// The rows that show a document are as many as the viewport is high: the
/// document's lines in their order, one to a row, as far as the rows go, and
/// filler rows below the last line.
pub proof fn lemma_document_rows(doc: Seq<Seq<char>>, size: Size)
    requires
        doc.len() > 0,
    ensures
        rows(doc, size).len() == size.height,
        forall|row: int|
            0 <= row < size.height ==> #[trigger] rows(doc, size)[row] == (if row < doc.len() {
                doc[row]
            } else {
                filler()
            }),
{
}

/// The frame of a document whose lines hold no line feed, for a viewport of
/// one row or more, has one line break less than the viewport has rows.
pub proof fn lemma_document_line_breaks(doc: Seq<Seq<char>>, size: Size)
    requires
        unbroken(doc),
        doc.len() > 0,
        size.height >= 1,
    ensures
        line_feeds(frame(doc, size)) == size.height - 1,
{
    reveal_strlit("~");
    let shown = buffer_rows(doc, size);
    assert forall|row: int, at: int|
        0 <= row < shown.len() && 0 <= at < shown[row].len() implies #[trigger] shown[row][at]
        != '\n' by {
        if row < doc.len() {
            assert(doc[row][at] != '\n');
        }
    }
    lemma_frame_line_breaks(shown);
}

/// Queues the text of a row that shows no line: the filler glyph in the
/// leftmost column.
pub fn render_empty_row(out: &mut FakeOut) -> (r: Result<(), Error>)
    ensures
        r is Ok,
        final(out).queued() == old(out).queued() + encode_utf8(filler()),
        final(out).contents() == old(out).contents(),
{
    print(out, "~")
}

/// The welcome row for a viewport `width` cells wide, as a string.
fn welcome_row_text(width: usize) -> (row: String)
    ensures
        row@ == welcome_row(width as nat),
{
    let mut message = String::from_str(NAME);
    message.append(" editor -- version ");
    message.append(VERSION);
    let len = message.as_str().unicode_len();
    let padding = width.saturating_sub(len) / 2;
    let blanks = padding.saturating_sub(1);
    let mut row = String::from_str("~");
    let mut i: usize = 0;
    while i < blanks
        invariant
            i <= blanks,
            row@ == filler() + Seq::new(i as nat, |j: int| ' '),
        decreases blanks - i,
    {
        proof {
            reveal_strlit(" ");
        }
        row.append(" ");
        i += 1;
        assert(row@ =~= filler() + Seq::new(i as nat, |j: int| ' '));
    }
    row.append(message.as_str());
    let row_len = row.as_str().unicode_len();
    if row_len > width {
        String::from_str(row.as_str().substring_char(0, width))
    } else {
        row
    }
}

/// Queues the text of the welcome row for a viewport `width` cells wide.
pub fn render_welcome_row(out: &mut FakeOut, width: usize) -> (r: Result<(), Error>)
    ensures
        r is Ok,
        final(out).queued() == old(out).queued() + encode_utf8(welcome_row(width as nat)),
        final(out).contents() == old(out).contents(),
{
    let row = welcome_row_text(width);
    print(out, row.as_str())
}

impl View {
    /// Takes the outcome of reading a file: the view shows the lines of the
    /// text that was read, and keeps its present document if the read
    /// failed. A failed read is no failure of the view.
    pub fn load(&mut self, read: Result<String, Error>)
        ensures
            read matches Ok(text) ==> final(self).buffer@ == lines_of(text@),
            read is Err ==> final(self).buffer == old(self).buffer,
    {
        if let Ok(buffer) = Buffer::load(read) {
            self.buffer = buffer;
        }
    }

    /// Queues a redraw of the whole viewport: the welcome screen for the
    /// empty document, the first lines of any other. Nothing is transmitted.
    pub fn render(&self, out: &mut FakeOut, size: Size) -> (r: Result<(), Error>)
        ensures
            r is Ok,
            final(out).queued() == old(out).queued() + encode_utf8(frame(self.buffer@, size)),
            final(out).contents() == old(out).contents(),
    {
        if self.buffer.is_empty() {
            Self::render_welcome(out, size)
        } else {
            self.render_buffer(out, size)
        }
    }

    /// Queues the welcome screen: filler rows, and the welcome row a third of
    /// the way down.
    pub fn render_welcome(out: &mut FakeOut, size: Size) -> (r: Result<(), Error>)
        ensures
            r is Ok,
            final(out).queued() == old(out).queued() + encode_utf8(drawn_all(welcome_rows(size))),
            final(out).contents() == old(out).contents(),
    {
        let ghost before = out.queued();
        let ghost all = welcome_rows(size);
        let height = size.height;
        let mut row: usize = 0;
        assert(before + encode_utf8(drawn(all, 0)) =~= before);
        while row < height
            invariant
                row <= height,
                height == size.height,
                all == welcome_rows(size),
                out.queued() == before + encode_utf8(drawn(all, row as nat)),
                out.contents() == old(out).contents(),
            decreases height - row,
        {
            proof {
                lemma_drawn_row(all, (row + 1) as nat);
            }
            clear_line(out)?;
            if row == height / 3 {
                render_welcome_row(out, size.width)?;
            } else {
                render_empty_row(out)?;
            }
            if row + 1 < height {
                print(out, "\r\n")?;
            }
            row += 1;
            assert(out.queued() =~= before + encode_utf8(drawn(all, row as nat)));
        }
        Ok(())
    }

    /// Queues the first lines of the document, one to a row, and filler rows
    /// for the rows that the document does not reach.
    pub fn render_buffer(&self, out: &mut FakeOut, size: Size) -> (r: Result<(), Error>)
        ensures
            r is Ok,
            final(out).queued() == old(out).queued() + encode_utf8(
                drawn_all(buffer_rows(self.buffer@, size)),
            ),
            final(out).contents() == old(out).contents(),
    {
        let ghost before = out.queued();
        let ghost all = buffer_rows(self.buffer@, size);
        let height = size.height;
        let mut row: usize = 0;
        assert(before + encode_utf8(drawn(all, 0)) =~= before);
        while row < height
            invariant
                row <= height,
                height == size.height,
                all == buffer_rows(self.buffer@, size),
                out.queued() == before + encode_utf8(drawn(all, row as nat)),
                out.contents() == old(out).contents(),
            decreases height - row,
        {
            proof {
                lemma_drawn_row(all, (row + 1) as nat);
            }
            clear_line(out)?;
            if let Some(line) = self.buffer.get(row) {
                print(out, line)?;
            } else {
                render_empty_row(out)?;
            }
            if row + 1 < height {
                print(out, "\r\n")?;
            }
            row += 1;
            assert(out.queued() =~= before + encode_utf8(drawn(all, row as nat)));
        }
        Ok(())
    }
}

} // verus!
