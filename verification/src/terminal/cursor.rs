//! Cursor commands: hide, show, and move to a position.

use vstd::prelude::*;
use vstd::utf8::encode_utf8;
use crate::error::Error;
use crate::io_provider::FakeOut;
use crate::terminal::{enqueue, Position};

verus! {

/// The escape sequence that hides the cursor.
pub open spec fn hide_seq() -> Seq<char> {
    "\x1b[?25l"@
}

/// The escape sequence that shows the cursor.
pub open spec fn show_seq() -> Seq<char> {
    "\x1b[?25h"@
}

/// The decimal digit for `d`, which is below ten.
pub open spec fn digit(d: nat) -> char {
    ((48 + d) as u8) as char
}

/// `n` in decimal, without sign or leading zeros.
pub open spec fn decimal(n: nat) -> Seq<char>
    decreases n,
{
    if n < 10 {
        seq![digit(n)]
    } else {
        decimal(n / 10).push(digit(n % 10))
    }
}

/// The escape sequence that moves the cursor to the zero-based column `col`
/// and row `row`. The device counts from one and takes the row first.
pub open spec fn move_to_seq(col: nat, row: nat) -> Seq<char> {
    "\x1b["@ + decimal(row + 1) + ";"@ + decimal(col + 1) + "H"@
}

/// Whether the device can address `pos`: its own coordinates are one more
/// than the zero-based ones and must fit sixteen bits.
pub open spec fn in_range(pos: Position) -> bool {
    pos.col < u16::MAX && pos.row < u16::MAX
}

/// What crossterm's `Hide` command writes through `Command::write_ansi`: the
/// control sequence introducer followed by `?25l`.
#[verifier::external_body]
fn hide_ansi() -> (s: String)
    ensures
        s@ == hide_seq(),
{
    let mut s = String::new();
    let _ = crossterm::Command::write_ansi(&crossterm::cursor::Hide, &mut s);
    s
}

/// What crossterm's `Show` command writes through `Command::write_ansi`: the
/// control sequence introducer followed by `?25h`.
#[verifier::external_body]
fn show_ansi() -> (s: String)
    ensures
        s@ == show_seq(),
{
    let mut s = String::new();
    let _ = crossterm::Command::write_ansi(&crossterm::cursor::Show, &mut s);
    s
}

/// What crossterm's `MoveTo` command writes through `Command::write_ansi`:
/// the control sequence introducer, the row plus one in decimal, a semicolon,
/// the column plus one in decimal, and `H`. Both sums are computed in sixteen
/// bits there, so the largest value is left out.
#[verifier::external_body]
fn move_to_ansi(col: u16, row: u16) -> (s: String)
    requires
        col < u16::MAX,
        row < u16::MAX,
    ensures
        s@ == move_to_seq(col as nat, row as nat),
{
    let mut s = String::new();
    let _ = crossterm::Command::write_ansi(&crossterm::cursor::MoveTo(col, row), &mut s);
    s
}

/// The device's coordinate for a zero-based one: one more, if that fits
/// sixteen bits.
fn device_coordinate(logical: usize) -> (r: Result<u16, Error>)
    ensures
        r is Ok <==> logical < u16::MAX,
        r is Ok ==> r->Ok_0 == logical + 1,
        r is Err ==> r->Err_0 is TryFromInt,
{
    match u16::try_from(logical.saturating_add(1)) {
        Ok(d) => Ok(d),
        Err(failure) => Err(Error::from(failure)),
    }
}

/// Queues the command that hides the cursor.
pub fn hide_cursor(out: &mut FakeOut) -> (r: Result<(), Error>)
    ensures
        r is Ok,
        final(out).queued() == old(out).queued() + encode_utf8(hide_seq()),
        final(out).contents() == old(out).contents(),
{
    let command = hide_ansi();
    enqueue(out, command.as_str())
}

/// Queues the command that shows the cursor.
pub fn show(out: &mut FakeOut) -> (r: Result<(), Error>)
    ensures
        r is Ok,
        final(out).queued() == old(out).queued() + encode_utf8(show_seq()),
        final(out).contents() == old(out).contents(),
{
    let command = show_ansi();
    enqueue(out, command.as_str())
}

/// Queues the command that moves the cursor to `pos`, or fails with the
/// coordinate-range condition and queues nothing when the device cannot
/// address `pos`.
pub fn move_to(out: &mut FakeOut, pos: Position) -> (r: Result<(), Error>)
    ensures
        r is Ok <==> in_range(pos),
        r is Ok ==> final(out).queued() == old(out).queued() + encode_utf8(
            move_to_seq(pos.col as nat, pos.row as nat),
        ),
        r is Err ==> r->Err_0 is TryFromInt && final(out).queued() == old(out).queued(),
        final(out).contents() == old(out).contents(),
{
    let col = device_coordinate(pos.col)?;
    let row = device_coordinate(pos.row)?;
    let command = move_to_ansi(col - 1, row - 1);
    enqueue(out, command.as_str())
}

} // verus!
