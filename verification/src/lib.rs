//! A live arrival board for a handful of city bus lines: the rules that turn a
//! fetched arrivals page into the text shown for each line, and the decisions
//! of the loop that keeps the board fresh.
//!
//! - [`bus::markup`] hands out the arrival rows of a page, as `dom_query` finds them.
//! - [`bus::label`] decides whether a row names a line.
//! - [`bus::fetch`] turns the rows, or a failed request, into a line's text.
//! - [`bus::snapshot`] holds the monitored lines and builds the snapshot of a poll.
//! - [`bus::models`] holds the board's state and runs the turns of the refresh loop.
//! - [`ui::widget`] says what the board shows for each line.
//! - [`text`] has the character-level helpers that the others share.
//!
//! Requests, the clock, the keyboard and the terminal are left to the caller.

pub mod bus;
pub mod text;
pub mod ui;
