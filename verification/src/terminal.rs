//! The terminal output port: the commands that clear and print, the flush
//! that transmits them, and the types for a place on the screen and for the
//! screen's extent.
//!
//! Every command is appended to the sink's queue as the escape sequence that
//! crossterm writes for it. Nothing reaches the reader of the sink before
//! [`execute`] is called.

use vstd::prelude::*;
use vstd::utf8::encode_utf8;
use crate::error::Error;
use crate::io_provider::FakeOut;

pub mod cursor;

verus! {

/// A place on the screen: column and row, both counted from zero.
#[derive(Debug, Clone, Copy)]
pub struct Position {
    pub col: usize,
    pub row: usize,
}

impl Default for Position {
    /// The origin: the top-left cell.
    fn default() -> (pos: Position)
        ensures
            pos.col == 0,
            pos.row == 0,
    {
        Position { col: 0, row: 0 }
    }
}

/// The extent of the viewport, in character cells.
#[derive(Debug, Clone, Copy)]
pub struct Size {
    pub width: usize,
    pub height: usize,
}

impl Default for Size {
    /// The empty viewport.
    fn default() -> (size: Size)
        ensures
            size.width == 0,
            size.height == 0,
    {
        Size { width: 0, height: 0 }
    }
}

/// Which cells a clear command erases.
#[derive(Debug, Clone, Copy)]
pub enum ClearType {
    /// Every cell of the screen.
    All,
    /// Every cell of the row that the cursor is in.
    CurrentLine,
}

/// The escape sequence that clears the cells named by `kind`.
pub open spec fn clear_seq(kind: ClearType) -> Seq<char> {
    match kind {
        ClearType::All => "\x1b[2J"@,
        ClearType::CurrentLine => "\x1b[2K"@,
    }
}

/// What crossterm's `Clear` command writes through `Command::write_ansi` for
/// the two clear types used here: the control sequence introducer followed by
/// `2J` for the whole screen and by `2K` for the current line.
#[verifier::external_body]
fn clear_ansi(kind: ClearType) -> (s: String)
    ensures
        s@ == clear_seq(kind),
{
    let kind = match kind {
        ClearType::All => crossterm::terminal::ClearType::All,
        ClearType::CurrentLine => crossterm::terminal::ClearType::CurrentLine,
    };
    let mut s = String::new();
    let _ = crossterm::Command::write_ansi(&crossterm::terminal::Clear(kind), &mut s);
    s
}

/// What crossterm's `Print` command writes through `Command::write_ansi` for
/// a string slice: the slice itself, as its `Display` impl gives it.
#[verifier::external_body]
fn print_ansi(text: &str) -> (s: String)
    ensures
        s@ == text@,
{
    let mut s = String::new();
    let _ = crossterm::Command::write_ansi(&crossterm::style::Print(text), &mut s);
    s
}

/// Encoding distributes over concatenation: the bytes of two texts written
/// one after the other are the bytes of the joined text.
pub proof fn lemma_encode_concat(a: Seq<char>, b: Seq<char>)
    ensures
        encode_utf8(a + b) == encode_utf8(a) + encode_utf8(b),
    decreases a.len(),
{
    if a.len() == 0 {
        assert(a + b =~= b);
        assert(encode_utf8(a) + encode_utf8(b) =~= encode_utf8(b));
    } else {
        assert((a + b).drop_first() =~= a.drop_first() + b);
        assert((a + b)[0] == a[0]);
        lemma_encode_concat(a.drop_first(), b);
        assert(encode_utf8(a + b) =~= encode_utf8(a) + encode_utf8(b));
    }
}

/// Appends the bytes of `text` to the queue of `out`.
pub(crate) fn enqueue(out: &mut FakeOut, text: &str) -> (r: Result<(), Error>)
    ensures
        r is Ok,
        final(out).queued() == old(out).queued() + encode_utf8(text@),
        final(out).contents() == old(out).contents(),
{
    match out.write(text.as_bytes()) {
        Ok(_) => Ok(()),
        Err(failure) => Err(Error::from(failure)),
    }
}

/// Prepares the screen: clear it, put the cursor at the origin, and transmit
/// both, together with whatever was queued before.
pub fn initialize(out: &mut FakeOut) -> (r: Result<(), Error>)
    ensures
        r is Ok,
        final(out).queued() == Seq::<u8>::empty(),
        final(out).contents() == old(out).contents() + old(out).queued() + encode_utf8(
            clear_seq(ClearType::All) + cursor::move_to_seq(0, 0),
        ),
{
    clear_screen(out)?;
    cursor::move_to(out, Position::default())?;
    proof {
        lemma_encode_concat(clear_seq(ClearType::All), cursor::move_to_seq(0, 0));
    }
    execute(out)
}

/// Ends the session on the output side: transmit whatever is still queued.
pub fn terminate(out: &mut FakeOut) -> (r: Result<(), Error>)
    ensures
        r is Ok,
        final(out).queued() == Seq::<u8>::empty(),
        final(out).contents() == old(out).contents() + old(out).queued(),
{
    execute(out)
}

/// The viewport's extent from the device's report of its columns and rows.
pub fn size(columns: u16, rows: u16) -> (r: Result<Size, Error>)
    ensures
        r is Ok,
        r->Ok_0.width == columns,
        r->Ok_0.height == rows,
{
    Ok(Size { width: columns as usize, height: rows as usize })
}

/// Queues the command that clears the whole screen.
pub fn clear_screen(out: &mut FakeOut) -> (r: Result<(), Error>)
    ensures
        r is Ok,
        final(out).queued() == old(out).queued() + encode_utf8(clear_seq(ClearType::All)),
        final(out).contents() == old(out).contents(),
{
    let command = clear_ansi(ClearType::All);
    enqueue(out, command.as_str())
}

/// Queues the command that clears the row that the cursor is in.
pub fn clear_line(out: &mut FakeOut) -> (r: Result<(), Error>)
    ensures
        r is Ok,
        final(out).queued() == old(out).queued() + encode_utf8(clear_seq(ClearType::CurrentLine)),
        final(out).contents() == old(out).contents(),
{
    let command = clear_ansi(ClearType::CurrentLine);
    enqueue(out, command.as_str())
}

/// Queues `s` for printing at the cursor, as it is.
pub fn print(out: &mut FakeOut, s: &str) -> (r: Result<(), Error>)
    ensures
        r is Ok,
        final(out).queued() == old(out).queued() + encode_utf8(s@),
        final(out).contents() == old(out).contents(),
{
    let command = print_ansi(s);
    enqueue(out, command.as_str())
}

/// Transmits the queue as one batch: its bytes follow, in order, those
/// transmitted before, and the queue is left empty.
pub fn execute(out: &mut FakeOut) -> (r: Result<(), Error>)
    ensures
        r is Ok,
        final(out).queued() == Seq::<u8>::empty(),
        final(out).contents() == old(out).contents() + old(out).queued(),
{
    match out.flush() {
        Ok(()) => Ok(()),
        Err(failure) => Err(Error::from(failure)),
    }
}

} // verus!
