//! The editor session: the cursor's location in the document, the state
//! machine that moves it, and the cycle that redraws the screen.
//!
//! A driver with a terminal runs the loop itself: it calls
//! [`Editor::step`], forwards what was transmitted, and while the answer is
//! [`Action::Read`] waits for the next event and hands it to
//! [`Editor::handle_event`], each time with the viewport's size as the
//! device reports it at that moment. [`Editor::run`] is the same loop on
//! recorded events.

use vstd::prelude::*;
use vstd::std_specs::convert::FromSpecImpl;
use vstd::utf8::encode_utf8;
use vstd::view::View as _;
use crate::error::Error;
use crate::event::{Event, KeyCode, KeyEvent, KeyEventKind, CONTROL};
use crate::io_provider::FakeOut;
use crate::terminal::cursor::{
    hide_cursor, hide_seq, in_range, move_to, move_to_seq, show, show_seq,
};
use crate::terminal::{
    clear_screen, clear_seq, execute, initialize, lemma_encode_concat, print, terminate,
    ClearType, Position, Size,
};
use crate::viewer::{
    drawn_all, filler, frame, render_empty_row, render_welcome_row, welcome_row, welcome_rows,
    View,
};

verus! {

/// A place in the document: column and row, both counted from zero.
#[derive(Debug, Clone, Copy, PartialEq, Eq, Structural)]
pub struct Location {
    pub col: usize,
    pub row: usize,
}

impl Default for Location {
    /// The origin: the first column of the first row.
    fn default() -> (location: Location)
        ensures
            location.col == 0,
            location.row == 0,
    {
        Location { col: 0, row: 0 }
    }
}

impl Location {
    /// The place on the screen where the location is shown: the same column
    /// and row.
    pub open spec fn position(self) -> Position {
        Position { col: self.col, row: self.row }
    }
}

impl From<Location> for Position {
    /// The place on the screen where the location is shown: the same column
    /// and row.
    fn from(location: Location) -> (pos: Position) {
        Position { col: location.col, row: location.row }
    }
}

impl FromSpecImpl<Location> for Position {
    open spec fn obeys_from_spec() -> bool {
        true
    }

    open spec fn from_spec(location: Location) -> Position {
        location.position()
    }
}

/// The last index of an extent of `extent` cells, and zero for an extent
/// without cells.
pub open spec fn last(extent: usize) -> usize {
    if extent > 0 {
        (extent - 1) as usize
    } else {
        0
    }
}

/// Whether `code` is one of the eight keys that move the cursor.
pub open spec fn is_navigation(code: KeyCode) -> bool {
    code is Up || code is Down || code is Left || code is Right || code is PageUp
        || code is PageDown || code is Home || code is End
}

/// Where the key `key` takes the cursor from `location` in a viewport of
/// `size`: one step, or all the way, in the key's direction, and never past
/// the first or the last row or column. Any other key leaves it in place.
pub open spec fn moved(location: Location, key: KeyCode, size: Size) -> Location {
    let Location { col, row } = location;
    match key {
        KeyCode::Up => Location { col, row: if row > 0 { (row - 1) as usize } else { 0 } },
        KeyCode::Down => Location {
            col,
            row: if row + 1 < last(size.height) { (row + 1) as usize } else { last(size.height) },
        },
        KeyCode::Left => Location { col: if col > 0 { (col - 1) as usize } else { 0 }, row },
        KeyCode::Right => Location {
            col: if col + 1 < last(size.width) { (col + 1) as usize } else { last(size.width) },
            row,
        },
        KeyCode::PageUp => Location { col, row: 0 },
        KeyCode::PageDown => Location { col, row: last(size.height) },
        KeyCode::Home => Location { col: 0, row },
        KeyCode::End => Location { col: last(size.width), row },
        _ => location,
    }
}

/// Whether `event` is the quit combination: a press of `q` with the control
/// key held down.
pub open spec fn is_quit(event: Event) -> bool {
    &&& event matches Event::Key(key)
    &&& key.kind is Press
    &&& key.code == KeyCode::Char('q')
    &&& key.modifiers.spec_contains(CONTROL)
}

/// Whether `event` is a press of one of the eight keys that move the cursor.
pub open spec fn is_move(event: Event) -> bool {
    &&& event matches Event::Key(key)
    &&& key.kind is Press
    &&& is_navigation(key.code)
}

/// The message printed when the session ends.
pub open spec fn goodbye() -> Seq<char> {
    "Goodbye.\r\n"@
}

/// The closing cycle: hide the cursor, move it to the origin, clear the
/// screen, print the closing message, show the cursor.
pub open spec fn closing() -> Seq<char> {
    hide_seq() + move_to_seq(0, 0) + clear_seq(ClearType::All) + goodbye() + show_seq()
}

/// Bytes queued behind `before` for `text` and then for `piece` are the
/// bytes queued for the two as one text.
proof fn lemma_queued(before: Seq<u8>, text: Seq<char>, piece: Seq<char>)
    ensures
        before + encode_utf8(text) + encode_utf8(piece) == before + encode_utf8(text + piece),
{
    lemma_encode_concat(text, piece);
    assert(before + encode_utf8(text) + encode_utf8(piece) =~= before + (encode_utf8(text)
        + encode_utf8(piece)));
}

/// What the loop around the cycle does next.
#[derive(Debug, Clone, Copy, PartialEq, Eq, Structural)]
pub enum Action {
    /// Wait for the next input event and handle it.
    Read,
    /// Leave the loop.
    Quit,
}

/// The state of a session: whether it is about to end, where the cursor is
/// in the document, and the view of the document.
#[derive(Debug, Clone)]
pub struct Editor {
    /// Set by the quit combination; once set, no event clears it.
    pub should_quit: bool,
    /// The cursor's place in the document.
    pub location: Location,
    /// The view of the loaded document.
    pub view: View,
}

impl Default for Editor {
    /// A running session on the empty document, with the cursor at the
    /// origin.
    fn default() -> (editor: Editor)
        ensures
            !editor.should_quit,
            editor.location == (Location { col: 0, row: 0 }),
            editor.view.buffer@ == Seq::<Seq<char>>::empty(),
    {
        Editor { should_quit: false, location: Location::default(), view: View::default() }
    }
}

/// Where `n` presses of the key `key` take the cursor from `location` in
/// a viewport of `size`.
pub open spec fn moved_times(location: Location, key: KeyCode, size: Size, n: nat) -> Location
    decreases n,
{
    if n == 0 {
        location
    } else {
        moved(moved_times(location, key, size, (n - 1) as nat), key, size)
    }
}

/// An event that is neither the quit combination nor a press of a
/// navigation key changes nothing: the cursor stays where it is, and a
/// running session goes on running.
pub proof fn lemma_other_events_change_nothing(editor: Editor, event: Event, size: Size)
    requires
        !is_quit(event),
        !is_move(event),
    ensures
        editor.after(event, size) == editor,
{
}

/// A press of a navigation key moves the cursor and nothing else; the quit
/// combination ends the session and leaves the cursor where it is.
pub proof fn lemma_events_change_one_thing(editor: Editor, event: Event, size: Size)
    ensures
        is_quit(event) ==> editor.after(event, size).location == editor.location
            && editor.after(event, size).should_quit,
        !is_quit(event) ==> editor.after(event, size).should_quit == editor.should_quit,
        editor.after(event, size).view == editor.view,
{
}

/// No event brings a session that ends back to running.
pub proof fn lemma_quit_is_final(editor: Editor, event: Event, size: Size)
    requires
        editor.should_quit,
    ensures
        editor.after(event, size).should_quit,
{
}

/// After `n` presses of `Down`, one or more, the cursor is `n` rows further
/// down, or in the last row if that is nearer. The column does not change.
pub proof fn lemma_down_times(location: Location, size: Size, n: nat)
    requires
        n >= 1,
    ensures
        moved_times(location, KeyCode::Down, size, n).col == location.col,
        moved_times(location, KeyCode::Down, size, n).row == (if location.row + n < last(
            size.height,
        ) {
            location.row + n
        } else {
            last(size.height) as int
        }),
    decreases n,
{
    if n > 1 {
        lemma_down_times(location, size, (n - 1) as nat);
    } else {
        assert(moved_times(location, KeyCode::Down, size, 0) == location);
    }
}

/// `Down` saturates: pressed five times more often than the viewport has
/// rows, it leaves the cursor in the last row, wherever it started.
pub proof fn lemma_down_saturates(location: Location, size: Size)
    ensures
        moved_times(location, KeyCode::Down, size, (size.height + 5) as nat).row == last(
            size.height,
        ),
        size.height >= 1 ==> moved_times(
            location,
            KeyCode::Down,
            size,
            (size.height + 5) as nat,
        ).row == size.height - 1,
{
    lemma_down_times(location, size, (size.height + 5) as nat);
}

/// The moves saturate at the first row and column: `Up` in the first row
/// and `Left` in the first column leave the cursor where it is.
pub proof fn lemma_moves_saturate_at_zero(location: Location, size: Size)
    ensures
        location.row == 0 ==> moved(location, KeyCode::Up, size) == location,
        location.col == 0 ==> moved(location, KeyCode::Left, size) == location,
{
}

/// The page keys go all the way, whatever the row before: `PageUp` to the
/// first row, `PageDown` to the last. `Home` and `End` do the same for the
/// column.
pub proof fn lemma_page_keys(location: Location, size: Size)
    ensures
        moved(location, KeyCode::PageUp, size).row == 0,
        moved(location, KeyCode::PageDown, size).row == last(size.height),
        size.height >= 1 ==> moved(location, KeyCode::PageDown, size).row == size.height - 1,
        moved(location, KeyCode::Home, size).col == 0,
        moved(location, KeyCode::End, size).col == last(size.width),
        size.width >= 1 ==> moved(location, KeyCode::End, size).col == size.width - 1,
{
}

/// A cursor inside the viewport stays inside it, whatever key is pressed.
pub proof fn lemma_moves_stay_inside(location: Location, key: KeyCode, size: Size)
    requires
        location.row <= last(size.height),
        location.col <= last(size.width),
    ensures
        moved(location, key, size).row <= last(size.height),
        moved(location, key, size).col <= last(size.width),
{
}

/// After the quit combination the next cycle can be drawn, clears the screen
/// and prints the closing message, once, between hiding the cursor at the
/// origin and showing it again; and after that cycle the loop ends.
pub proof fn lemma_quit_ends_the_loop(editor: Editor, event: Event, size: Size)
    requires
        is_quit(event),
    ensures
        editor.after(event, size).drawable(),
        editor.after(event, size).cycle(size) == closing(),
        editor.after(event, size).next() == Action::Quit,
{
}

/// Whether the cursor at `location` is inside a viewport of `size`.
pub open spec fn inside(location: Location, size: Size) -> bool {
    location.row <= last(size.height) && location.col <= last(size.width)
}

/// Whether the device can address every cell of a viewport of `size`.
pub open spec fn addressable(size: Size) -> bool {
    size.width <= u16::MAX && size.height <= u16::MAX
}

/// A session whose cursor is inside a viewport that the device can address
/// can be drawn, and so can the session after any event in that viewport.
pub proof fn lemma_inside_is_drawable(editor: Editor, event: Event, size: Size)
    requires
        inside(editor.location, size),
        addressable(size),
    ensures
        editor.drawable(),
        inside(editor.after(event, size).location, size),
        editor.after(event, size).drawable(),
{
}

/// The loop on a session that ends draws that session's cycle and handles
/// no event.
pub proof fn lemma_replay_of_ended(editor: Editor, events: Seq<Event>, size: Size)
    requires
        editor.should_quit,
    ensures
        editor.replayed(events, size) == editor,
        editor.replay(events, size) == editor.cycle(size),
{
}

/// The loop stops at the quit combination. When the first quit combination
/// among `events` is the one at `at`, the loop handles the events up to it
/// and no more; what it transmits is what it transmits on the events
/// before `at`, and then the one closing cycle.
pub proof fn lemma_replay_stops_at_quit(editor: Editor, events: Seq<Event>, size: Size, at: int)
    requires
        !editor.should_quit,
        inside(editor.location, size),
        addressable(size),
        0 <= at < events.len(),
        is_quit(events[at]),
        forall|earlier: int| 0 <= earlier < at ==> !is_quit(events[earlier]),
    ensures
        editor.replayed(events, size).should_quit,
        editor.replayed(events, size) == editor.replayed(events.take(at), size).after(
            events[at],
            size,
        ),
        editor.replay(events, size) == editor.replay(events.take(at), size) + closing(),
    decreases at,
{
    let closing = closing();
    lemma_inside_is_drawable(editor, events[0], size);
    let next = editor.after(events[0], size);
    if at == 0 {
        lemma_quit_ends_the_loop(editor, events[0], size);
        lemma_replay_of_ended(next, events.drop_first(), size);
        assert(events.take(0) =~= Seq::<Event>::empty());
        assert(editor.replay(events, size) =~= editor.cycle(size) + closing);
    } else {
        let rest = events.drop_first();
        assert(!is_quit(events[0]));
        assert(rest.take(at - 1) =~= events.take(at).drop_first());
        assert(events.take(at)[0] == events[0]);
        lemma_replay_stops_at_quit(next, rest, size, at - 1);
        assert(editor.replay(events, size) =~= editor.cycle(size) + (next.replay(
            rest.take(at - 1),
            size,
        ) + closing));
        assert(editor.replay(events.take(at), size) + closing =~= editor.cycle(size) + (
        next.replay(rest.take(at - 1), size) + closing));
    }
}

/// The smaller of two numbers.
fn smaller(a: usize, b: usize) -> (m: usize)
    ensures
        m == if a < b { a } else { b },
{
    if a < b {
        a
    } else {
        b
    }
}

impl Editor {
    /// The session after `event` in a viewport of `size`: the quit
    /// combination ends it, a press of a navigation key moves the cursor, and
    /// every other event leaves it as it is.
    pub open spec fn after(self, event: Event, size: Size) -> Editor {
        if is_quit(event) {
            Editor { should_quit: true, ..self }
        } else if is_move(event) {
            Editor { location: moved(self.location, event->Key_0.code, size), ..self }
        } else {
            self
        }
    }

    /// The first part of the cycle of a session that goes on: hide the
    /// cursor, move it to the origin, draw the frame. It is what stays in the
    /// queue of a cycle that fails.
    pub open spec fn undrawn(self, size: Size) -> Seq<char> {
        hide_seq() + move_to_seq(0, 0) + frame(self.view.buffer@, size)
    }

    /// What a whole cycle writes. For a session that ends: the closing
    /// cycle. For one that goes on: hide the cursor, move it to the origin,
    /// draw the frame, move the cursor to its location, show it.
    pub open spec fn cycle(self, size: Size) -> Seq<char> {
        if self.should_quit {
            closing()
        } else {
            self.undrawn(size) + move_to_seq(self.location.col as nat, self.location.row as nat)
                + show_seq()
        }
    }

    /// Whether a cycle can be drawn: a session that ends always can, any
    /// other only while the device can address the cursor's location.
    pub open spec fn drawable(self) -> bool {
        self.should_quit || in_range(self.location.position())
    }

    /// What the loop does after a cycle of this session.
    pub open spec fn next(self) -> Action {
        if self.should_quit {
            Action::Quit
        } else {
            Action::Read
        }
    }

    /// The session in which the loop on `events` stops: the first that
    /// cannot be drawn or that ends, or the one that has handled every event.
    pub open spec fn replayed(self, events: Seq<Event>, size: Size) -> Editor
        decreases events.len(),
    {
        if !self.drawable() || self.should_quit || events.len() == 0 {
            self
        } else {
            self.after(events[0], size).replayed(events.drop_first(), size)
        }
    }

    /// What the loop on `events` transmits: the cycle of this session and
    /// the cycle after each event that the loop handles, in order. The cycle
    /// of a session that cannot be drawn is not among them.
    pub open spec fn replay(self, events: Seq<Event>, size: Size) -> Seq<char>
        decreases events.len(),
    {
        if !self.drawable() {
            Seq::empty()
        } else if self.should_quit || events.len() == 0 {
            self.cycle(size)
        } else {
            self.cycle(size) + self.after(events[0], size).replay(events.drop_first(), size)
        }
    }

    /// Applies one input event to the session, in a viewport of `size`.
    pub fn handle_event(&mut self, event: &Event, size: Size) -> (r: Result<(), Error>)
        ensures
            r is Ok,
            *final(self) == old(self).after(*event, size),
    {
        if let Event::Key(KeyEvent { code, modifiers, kind: KeyEventKind::Press }) = event {
            match code {
                KeyCode::Char('q') => {
                    if modifiers.contains(CONTROL) {
                        self.should_quit = true;
                    }
                },
                KeyCode::Up
                | KeyCode::Down
                | KeyCode::Left
                | KeyCode::Right
                | KeyCode::Home
                | KeyCode::End
                | KeyCode::PageUp
                | KeyCode::PageDown => {
                    self.move_cursor(*code, size)?;
                },
                _ => {},
            }
        }
        Ok(())
    }

    /// Redraws the screen and transmits the redraw as one batch, together
    /// with whatever was queued before.
    ///
    /// Fails with the coordinate-range condition when the session goes on
    /// and the device cannot address the cursor's location. Nothing is
    /// transmitted then: the part of the cycle before the failed move stays
    /// in the queue.
    pub fn refresh(&self, out: &mut FakeOut, size: Size) -> (r: Result<(), Error>)
        ensures
            r is Ok <==> self.drawable(),
            r is Ok ==> final(out).queued() == Seq::<u8>::empty() && final(out).contents() == old(out).contents() + old(out).queued() + encode_utf8(self.cycle(size)),
            r is Err ==> r->Err_0 is TryFromInt && final(out).contents() == old(out).contents()
                && final(out).queued() == old(out).queued() + encode_utf8(self.undrawn(size)),
    {
        let ghost before = out.queued();
        let ghost head = hide_seq() + move_to_seq(0, 0);
        hide_cursor(out)?;
        move_to(out, Position::default())?;
        proof {
            lemma_queued(before, hide_seq(), move_to_seq(0, 0));
        }
        assert(out.queued() == before + encode_utf8(head));
        if self.should_quit {
            clear_screen(out)?;
            print(out, "Goodbye.\r\n")?;
            show(out)?;
            proof {
                let cleared = head + clear_seq(ClearType::All);
                lemma_queued(before, head, clear_seq(ClearType::All));
                lemma_queued(before, cleared, goodbye());
                lemma_queued(before, cleared + goodbye(), show_seq());
            }
        } else {
            self.view.render(out, size)?;
            proof {
                lemma_queued(before, head, frame(self.view.buffer@, size));
            }
            assert(out.queued() == before + encode_utf8(self.undrawn(size)));
            move_to(out, Position::from(self.location))?;
            show(out)?;
            proof {
                let place = move_to_seq(self.location.col as nat, self.location.row as nat);
                lemma_queued(before, self.undrawn(size), place);
                lemma_queued(before, self.undrawn(size) + place, show_seq());
            }
        }
        assert(out.queued() == before + encode_utf8(self.cycle(size)));
        execute(out)
    }

    /// One cycle of the loop, up to the point where the loop waits for
    /// input: redraw as [`Editor::refresh`] does, then say what the loop does
    /// next. The loop ends after the cycle of a session that ends.
    pub fn step(&self, out: &mut FakeOut, size: Size) -> (r: Result<Action, Error>)
        ensures
            r is Ok <==> self.drawable(),
            r is Ok ==> r->Ok_0 == self.next() && final(out).queued() == Seq::<u8>::empty()
                && final(out).contents() == old(out).contents() + old(out).queued() + encode_utf8(
                self.cycle(size),
            ),
            r is Err ==> r->Err_0 is TryFromInt && final(out).contents() == old(out).contents()
                && final(out).queued() == old(out).queued() + encode_utf8(self.undrawn(size)),
    {
        self.refresh(out, size)?;
        if self.should_quit {
            Ok(Action::Quit)
        } else {
            Ok(Action::Read)
        }
    }

    /// The loop, on recorded input: a cycle, then the next of `events`, and
    /// so on in a viewport of `size`, until a cycle ends the session or
    /// fails, or the cycle after the last event is drawn.
    ///
    /// Fails with the coordinate-range condition when a cycle does, and
    /// leaves that cycle's first part in the queue; the cycles before it
    /// were transmitted.
    pub fn repl(&mut self, out: &mut FakeOut, events: &[Event], size: Size) -> (r: Result<
        (),
        Error,
    >)
        ensures
            *final(self) == old(self).replayed(events@, size),
            r is Ok <==> final(self).drawable(),
            r is Err ==> r->Err_0 is TryFromInt,
            old(self).drawable() ==> final(out).contents() == old(out).contents() + old(out).queued() + encode_utf8(old(self).replay(events@, size)) && final(out).queued() == (
            if r is Ok {
                Seq::<u8>::empty()
            } else {
                encode_utf8(final(self).undrawn(size))
            }),
            !old(self).drawable() ==> final(out).contents() == old(out).contents() && final(out).queued() == old(out).queued() + encode_utf8(old(self).undrawn(size)),
    {
        let ghost start = *self;
        let ghost base = out.contents() + out.queued();
        let ghost mut done = Seq::<char>::empty();
        let mut handled: usize = 0;
        assert(events@.skip(0) =~= events@);
        loop
            invariant_except_break
                handled <= events.len(),
                self.replayed(events@.skip(handled as int), size) == start.replayed(
                    events@,
                    size,
                ),
                done + self.replay(events@.skip(handled as int), size) == start.replay(
                    events@,
                    size,
                ),
                handled == 0 ==> *out == *old(out) && done == Seq::<char>::empty() && *self
                    == start,
                handled > 0 ==> start.drawable() && out.queued() == Seq::<u8>::empty()
                    && out.contents() == base + encode_utf8(done),
            invariant
                start == *old(self),
                base == old(out).contents() + old(out).queued(),
            ensures
                *self == start.replayed(events@, size),
                self.drawable(),
                start.drawable(),
                out.queued() == Seq::<u8>::empty(),
                out.contents() == base + encode_utf8(start.replay(events@, size)),
            decreases events.len() - handled,
        {
            let ghost rest = events@.skip(handled as int);
            let ghost before = done;
            proof {
                if handled > 0 && !self.drawable() {
                    assert(done + Seq::<char>::empty() =~= done);
                }
            }
            let action = self.step(out, size)?;
            proof {
                done = before + self.cycle(size);
                lemma_encode_concat(before, self.cycle(size));
                if handled == 0 {
                    assert(encode_utf8(before) =~= Seq::<u8>::empty());
                    assert(base + encode_utf8(done) =~= base + encode_utf8(self.cycle(size)));
                }
                assert(out.contents() =~= base + encode_utf8(done));
            }
            match action {
                Action::Quit => {
                    break ;
                },
                Action::Read => {},
            }
            if handled == events.len() {
                break ;
            }
            proof {
                assert(rest.drop_first() =~= events@.skip(handled + 1));
                assert(rest[0] == events@[handled as int]);
                let later = self.after(rest[0], size).replay(rest.drop_first(), size);
                assert(before + (self.cycle(size) + later) =~= done + later);
            }
            self.handle_event(&events[handled], size)?;
            handled += 1;
        }
        Ok(())
    }

    /// A whole session on recorded input: prepare the screen, run the loop
    /// on `events` as [`Editor::repl`] does, and shut down by transmitting
    /// what is left in the queue.
    ///
    /// The shutdown runs however the loop ends. When a cycle of the loop
    /// fails, that cycle's first part is transmitted with it, and the
    /// failure of the loop, the coordinate-range condition, is returned.
    pub fn run(&mut self, out: &mut FakeOut, events: &[Event], size: Size) -> (r: Result<
        (),
        Error,
    >)
        ensures
            *final(self) == old(self).replayed(events@, size),
            r is Ok <==> final(self).drawable(),
            r is Err ==> r->Err_0 is TryFromInt,
            final(out).queued() == Seq::<u8>::empty(),
            final(out).contents() == old(out).contents() + old(out).queued() + encode_utf8(
                clear_seq(ClearType::All) + move_to_seq(0, 0) + old(self).replay(events@, size),
            ) + (if r is Ok {
                Seq::<u8>::empty()
            } else {
                encode_utf8(final(self).undrawn(size))
            }),
    {
        let ghost prepared = clear_seq(ClearType::All) + move_to_seq(0, 0);
        let ghost cycles = self.replay(events@, size);
        proof {
            lemma_encode_concat(prepared, cycles);
            if !self.drawable() {
                assert(prepared + cycles =~= prepared);
            }
        }
        initialize(out)?;
        let ghost sent = out.contents();
        assert(sent + Seq::<u8>::empty() =~= sent);
        assert(Seq::<u8>::empty() + encode_utf8(self.undrawn(size)) =~= encode_utf8(
            self.undrawn(size),
        ));
        let looped = self.repl(out, events, size);
        let closed = terminate(out);
        proof {
            let whole = old(out).contents() + old(out).queued() + encode_utf8(prepared + cycles);
            if looped is Ok {
                assert(out.contents() =~= whole + Seq::<u8>::empty());
            } else {
                assert(out.contents() =~= whole + encode_utf8(self.undrawn(size)));
            }
        }
        match looped {
            Ok(()) => closed,
            Err(failure) => Err(failure),
        }
    }

    /// Queues the welcome screen for a viewport of `size`.
    pub fn draw_rows(out: &mut FakeOut, size: Size) -> (r: Result<(), Error>)
        ensures
            r is Ok,
            final(out).queued() == old(out).queued() + encode_utf8(drawn_all(welcome_rows(size))),
            final(out).contents() == old(out).contents(),
    {
        View::render_welcome(out, size)
    }

    /// Queues the text of the welcome row for a viewport `width` cells wide.
    pub fn draw_welcome_message_row(out: &mut FakeOut, width: usize) -> (r: Result<(), Error>)
        ensures
            r is Ok,
            final(out).queued() == old(out).queued() + encode_utf8(welcome_row(width as nat)),
            final(out).contents() == old(out).contents(),
    {
        render_welcome_row(out, width)
    }

    /// Queues the text of a row that shows no line: the filler glyph.
    pub fn draw_empty_row(out: &mut FakeOut) -> (r: Result<(), Error>)
        ensures
            r is Ok,
            final(out).queued() == old(out).queued() + encode_utf8(filler()),
            final(out).contents() == old(out).contents(),
    {
        render_empty_row(out)
    }

    /// Moves the cursor as the key `key` asks, within a viewport of `size`.
    pub fn move_cursor(&mut self, key: KeyCode, size: Size) -> (r: Result<(), Error>)
        ensures
            r is Ok,
            *final(self) == (Editor { location: moved(old(self).location, key, size), ..*old(self) }),
    {
        let Location { mut col, mut row } = self.location;
        let Size { height, width } = size;
        match key {
            KeyCode::Up => {
                row = row.saturating_sub(1);
            },
            KeyCode::Down => {
                row = smaller(height.saturating_sub(1), row.saturating_add(1));
            },
            KeyCode::Left => {
                col = col.saturating_sub(1);
            },
            KeyCode::Right => {
                col = smaller(width.saturating_sub(1), col.saturating_add(1));
            },
            KeyCode::PageUp => {
                row = 0;
            },
            KeyCode::PageDown => {
                row = height.saturating_sub(1);
            },
            KeyCode::Home => {
                col = 0;
            },
            KeyCode::End => {
                col = width.saturating_sub(1);
            },
            _ => (),
        }
        self.location = Location { col, row };
        Ok(())
    }
}

} // verus!
