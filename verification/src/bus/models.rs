//! The board's state and the decisions of the loop that keeps it fresh.
//!
//! The loop itself lives with the terminal: it draws, waits a moment for
//! input, asks [`App::run`] what to do, and does it. A poll blocks that loop
//! until every line has been fetched.

use crate::bus::fetch::Fetched;
use crate::bus::snapshot::{
    configured_lines, lemma_names_of_push, lemma_polled_names, lines_view, monitored, names_of,
    poll_all, polled, ArrivalSnapshot,
};
use vstd::prelude::*;
use vstd::string::*;

verus! {

/// A poll is due once this many milliseconds have passed since the last one.
pub const REFRESH_INTERVAL_MS: u64 = 60_000;

/// The loop waits at most this many milliseconds for input before it draws again.
pub const INPUT_POLL_MS: u64 = 100;

/// Which key an input event is about.
#[derive(Debug, Clone, Copy, PartialEq, Eq)]
pub enum KeyCode {
    /// A character key.
    Char(char),
    /// Any other key.
    Other,
}

/// What happened to the key.
#[derive(Debug, Clone, Copy, PartialEq, Eq)]
pub enum KeyEventKind {
    Press,
    Repeat,
    Release,
}

/// A key event, as far as the board reads it.
#[derive(Debug, Clone, Copy, PartialEq, Eq)]
pub struct KeyEvent {
    pub code: KeyCode,
    pub kind: KeyEventKind,
}

impl KeyEvent {
    /// The press of the key `code`.
    pub fn new(code: KeyCode) -> (key: KeyEvent)
        ensures
            key == (KeyEvent { code, kind: KeyEventKind::Press }),
    {
        KeyEvent { code, kind: KeyEventKind::Press }
    }
}

/// An input event.
#[derive(Debug, Clone, Copy, PartialEq, Eq)]
pub enum Event {
    /// A key event.
    Key(KeyEvent),
    /// Any other event: the mouse, a resize, a paste.
    Other,
}

/// The state of the refresh loop.
#[derive(Debug, Clone, Copy, PartialEq, Eq)]
pub enum SchedulerState {
    /// The loop draws, listens and polls.
    Running,
    /// The loop has ended, for good.
    Exiting,
}

/// What the loop does next.
#[derive(Debug, Clone, Copy, PartialEq, Eq)]
pub enum Action {
    /// Draw the board and wait for input again.
    Redraw,
    /// Fetch every line's page, hand the replies to [`App::update_bus_times`]
    /// and start counting the time anew; then draw and wait again.
    Poll,
    /// Leave the loop.
    Stop,
}

/// The board as a value: the text of each line and whether to leave.
pub struct Board {
    pub snapshot: Map<Seq<char>, Seq<char>>,
    pub should_exit: bool,
}

/// Whether `key` is the key that quits: `q`.
pub open spec fn is_quit_key(key: KeyEvent) -> bool {
    key.code == KeyCode::Char('q')
}

/// The board after the key `key`.
pub open spec fn after_key(board: Board, key: KeyEvent) -> Board {
    if is_quit_key(key) {
        Board { snapshot: board.snapshot, should_exit: true }
    } else {
        board
    }
}

/// The board after the input event `event`: only the press of a key counts.
pub open spec fn after_event(board: Board, event: Event) -> Board {
    match event {
        Event::Key(key) => if key.kind == KeyEventKind::Press {
            after_key(board, key)
        } else {
            board
        },
        Event::Other => board,
    }
}

/// The board after a poll that brought `replies`: a new snapshot replaces the old one whole.
pub open spec fn after_poll(board: Board, replies: Seq<Fetched>) -> Board {
    Board { snapshot: polled(monitored(), replies), should_exit: board.should_exit }
}

/// The state of the loop that owns `board`.
pub open spec fn state_of(board: Board) -> SchedulerState {
    if board.should_exit {
        SchedulerState::Exiting
    } else {
        SchedulerState::Running
    }
}

/// One turn of the loop: the board after it, and what the loop does next.
///
/// `event` is what the wait for input brought, if anything, and `elapsed_ms`
/// the time since the last poll. A loop that is leaving stays so. Otherwise
/// the event is applied; if it asked to quit, the loop stops, and no poll
/// follows. Otherwise a poll is due once the refresh interval has passed.
pub open spec fn turn(board: Board, event: Option<Event>, elapsed_ms: u64) -> (Board, Action) {
    if board.should_exit {
        (board, Action::Stop)
    } else {
        let next = match event {
            Some(input) => after_event(board, input),
            None => board,
        };
        if next.should_exit {
            (next, Action::Stop)
        } else if elapsed_ms >= REFRESH_INTERVAL_MS {
            (next, Action::Poll)
        } else {
            (next, Action::Redraw)
        }
    }
}

/// Polling again with the same replies changes nothing: the second poll
/// leaves the board as the first one did. What a poll yields does not depend
/// on the snapshot before it either.
pub proof fn lemma_poll_is_idempotent(board: Board, other: Board, replies: Seq<Fetched>)
    ensures
        after_poll(after_poll(board, replies), replies) == after_poll(board, replies),
        after_poll(board, replies).snapshot == after_poll(other, replies).snapshot,
{
}

/// The press of the quit key while the loop is running ends it: the loop
/// is leaving afterwards and stops, with no poll, however long ago the last
/// one was; the snapshot stays as it is.
pub proof fn lemma_quit_stops_the_loop(board: Board, key: KeyEvent, elapsed_ms: u64)
    requires
        state_of(board) == SchedulerState::Running,
        key.kind == KeyEventKind::Press,
        is_quit_key(key),
    ensures
        state_of(turn(board, Some(Event::Key(key)), elapsed_ms).0) == SchedulerState::Exiting,
        turn(board, Some(Event::Key(key)), elapsed_ms).1 == Action::Stop,
        turn(board, Some(Event::Key(key)), elapsed_ms).0.snapshot == board.snapshot,
{
}

/// A loop that is leaving stays so: whatever comes in, the board is
/// unchanged and the loop stops.
pub proof fn lemma_exiting_is_final(board: Board, event: Option<Event>, elapsed_ms: u64)
    requires
        state_of(board) == SchedulerState::Exiting,
    ensures
        turn(board, event, elapsed_ms) == (board, Action::Stop),
{
}

/// A running loop polls exactly when no quit was asked for and the refresh
/// interval has passed.
pub proof fn lemma_poll_when_due(board: Board, event: Option<Event>, elapsed_ms: u64)
    requires
        state_of(board) == SchedulerState::Running,
    ensures
        turn(board, event, elapsed_ms).1 == Action::Poll <==> (!turn(
            board,
            event,
            elapsed_ms,
        ).0.should_exit && elapsed_ms >= REFRESH_INTERVAL_MS),
{
}

/// The board's state: the latest snapshot and the exit flag.
pub struct App {
    times: ArrivalSnapshot,
    exit: bool,
}

impl View for App {
    type V = Board;

    closed spec fn view(&self) -> Board {
        Board { snapshot: self.times@, should_exit: self.exit }
    }
}

impl Default for App {
    /// An empty board whose loop is running.
    fn default() -> (app: App)
        ensures
            app@ == (Board { snapshot: Map::empty(), should_exit: false }),
    {
        App { times: ArrivalSnapshot::new(), exit: false }
    }
}

impl App {
    /// The board never shows a line that is not monitored.
    #[verifier::type_invariant]
    spec fn shows_monitored_lines_only(&self) -> bool {
        self.times@.dom().subset_of(names_of(monitored()))
    }

    /// The latest snapshot. It has entries for monitored lines only.
    pub fn current_snapshot(&self) -> (snapshot: &ArrivalSnapshot)
        ensures
            snapshot@ == self@.snapshot,
            self@.snapshot.dom().subset_of(names_of(monitored())),
    {
        proof {
            use_type_invariant(self);
        }
        &self.times
    }

    /// Whether the loop is to end.
    pub fn should_exit(&self) -> (b: bool)
        ensures
            b == self@.should_exit,
    {
        self.exit
    }

    /// The state of the loop that owns this board.
    pub fn state(&self) -> (state: SchedulerState)
        ensures
            state == state_of(self@),
    {
        if self.exit {
            SchedulerState::Exiting
        } else {
            SchedulerState::Running
        }
    }

    /// Replaces the snapshot by `snapshot`, all at once. Entries for lines
    /// that are not monitored are left behind.
    pub fn apply_snapshot(&mut self, snapshot: ArrivalSnapshot)
        ensures
            final(self)@.snapshot == snapshot@.restrict(names_of(monitored())),
            final(self)@.should_exit == old(self)@.should_exit,
            snapshot@.dom().subset_of(names_of(monitored())) ==> final(self)@.snapshot
                == snapshot@,
    {
        let lines = configured_lines();
        let mut times = ArrivalSnapshot::new();
        let mut i: usize = 0;
        assert(times@ =~= snapshot@.restrict(names_of(monitored().take(0))));
        while i < lines.len()
            invariant
                i <= lines.len(),
                lines_view(lines@) == monitored(),
                times@ == snapshot@.restrict(names_of(monitored().take(i as int))),
            decreases lines.len() - i,
        {
            let name = lines[i].display_name.as_str();
            proof {
                let before = monitored().take(i as int);
                assert(lines_view(lines@)[i as int].name == name@);
                assert(monitored().take(i + 1) =~= before.push(monitored()[i as int]));
                lemma_names_of_push(before, monitored()[i as int]);
            }
            match snapshot.get(name) {
                Some(text) => {
                    times.insert(String::from_str(name), text.clone());
                },
                None => {},
            }
            assert(times@ =~= snapshot@.restrict(names_of(monitored().take(i + 1))));
            i += 1;
        }
        proof {
            use_type_invariant(&*self);
            assert(monitored().take(lines.len() as int) =~= monitored());
            if snapshot@.dom().subset_of(names_of(monitored())) {
                assert(snapshot@.restrict(names_of(monitored())) =~= snapshot@);
            }
        }
        self.times = times;
    }

    /// Asks the loop to end.
    pub fn request_exit(&mut self)
        ensures
            final(self)@ == (Board { snapshot: old(self)@.snapshot, should_exit: true }),
    {
        proof {
            use_type_invariant(&*self);
        }
        self.exit = true;
    }

    /// Replaces the snapshot by one poll of the monitored lines, where
    /// `replies` holds what was fetched for each, in the lines' order.
    ///
    /// Every monitored line has an entry afterwards: a line whose fetch
    /// failed, or that has no reply, shows as one without arrivals.
    pub fn update_bus_times(&mut self, replies: &Vec<Fetched>)
        ensures
            final(self)@ == after_poll(old(self)@, replies@),
            final(self)@.snapshot.dom() == names_of(monitored()),
    {
        let lines = configured_lines();
        let times = poll_all(&lines, replies);
        proof {
            use_type_invariant(&*self);
            lemma_polled_names(monitored(), replies@);
        }
        self.times = times;
    }

    /// Takes note of the key `key_event`: `q` asks the loop to end.
    pub fn handle_key_event(&mut self, key_event: KeyEvent)
        ensures
            final(self)@ == after_key(old(self)@, key_event),
    {
        match key_event.code {
            KeyCode::Char('q') => self.request_exit(),
            _ => {},
        }
    }

    /// Takes note of the input event `event`: only the press of a key counts.
    pub fn handle_events(&mut self, event: Event)
        ensures
            final(self)@ == after_event(old(self)@, event),
    {
        match event {
            Event::Key(key_event) => {
                match key_event.kind {
                    KeyEventKind::Press => self.handle_key_event(key_event),
                    _ => {},
                }
            },
            Event::Other => {},
        }
    }

    /// Runs one turn of the loop and says what the loop does next.
    ///
    /// `event` is what the wait for input brought, if anything, and
    /// `elapsed_ms` the time since the last poll, in milliseconds.
    pub fn run(&mut self, event: Option<Event>, elapsed_ms: u64) -> (action: Action)
        ensures
            (final(self)@, action) == turn(old(self)@, event, elapsed_ms),
    {
        if self.exit {
            return Action::Stop;
        }
        match event {
            Some(input) => self.handle_events(input),
            None => {},
        }
        if self.exit {
            Action::Stop
        } else if elapsed_ms >= REFRESH_INTERVAL_MS {
            Action::Poll
        } else {
            Action::Redraw
        }
    }
}

} // verus!
