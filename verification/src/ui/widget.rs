//! The lines of the board as label, value and urgency.
//!
//! Drawing is left to the terminal side: it gets one [`LineView`] per
//! monitored line and decides on boxes and colours.

use crate::bus::models::{App, Board};
use crate::bus::snapshot::{configured_lines, lines_view, monitored, Line};
use crate::text::{chars_of, contains, has_somewhere};
use vstd::prelude::*;
use vstd::string::*;

verus! {

/// The board's title.
pub const TITLE: &'static str = " TIEMPOS DE LLEGADA EN PARADAS CERCANAS BUSES ";

/// What stands before a line's name in its label.
pub const LABEL_PREFIX: &'static str = "Línea ";

/// What stands behind a line's name in its label.
pub const LABEL_SUFFIX: &'static str = ":";

/// What is shown for a line that has not been polled yet.
pub const PLACEHOLDER: &'static str = "…";

/// A value that holds this word tells of a bus that is arriving now.
pub const URGENT_MARKER: &'static str = "LLEGANDO";

/// One line of the board.
#[derive(Debug, Clone, PartialEq, Eq)]
pub struct LineView {
    /// The line's label.
    pub label: String,
    /// The line's arrival text.
    pub value: String,
    /// Whether a bus is arriving now, so that the value is to stand out.
    pub urgent: bool,
}

/// A [`LineView`] with its texts as character sequences.
pub struct LineShown {
    pub label: Seq<char>,
    pub value: Seq<char>,
    pub urgent: bool,
}

impl View for LineView {
    type V = LineShown;

    open spec fn view(&self) -> LineShown {
        LineShown { label: self.label@, value: self.value@, urgent: self.urgent }
    }
}

/// The views of a vector, each by its view.
pub open spec fn views_shown(views: Seq<LineView>) -> Seq<LineShown> {
    views.map_values(|view: LineView| view@)
}

/// The label of line `name`.
pub open spec fn label_of(name: Seq<char>) -> Seq<char> {
    LABEL_PREFIX@ + name + LABEL_SUFFIX@
}

/// Whether a value tells of a bus that is arriving now.
pub open spec fn is_urgent(value: Seq<char>) -> bool {
    contains(value, URGENT_MARKER@)
}

/// What `snapshot` has for line `name`, or the placeholder.
pub open spec fn value_of(snapshot: Map<Seq<char>, Seq<char>>, name: Seq<char>) -> Seq<char> {
    if snapshot.contains_key(name) {
        snapshot[name]
    } else {
        PLACEHOLDER@
    }
}

/// The line with label `label` and value `value`.
pub open spec fn line_shown(label: Seq<char>, value: Seq<char>) -> LineShown {
    LineShown { label, value, urgent: is_urgent(value) }
}

/// What `board` shows: one line for each monitored line, in their order.
pub open spec fn board_shown(board: Board) -> Seq<LineShown> {
    monitored().map_values(
        |line: Line| line_shown(label_of(line.name), value_of(board.snapshot, line.name)),
    )
}

/// The label of line `name`.
pub fn line_label(name: &str) -> (label: String)
    ensures
        label@ == label_of(name@),
{
    String::from_str(LABEL_PREFIX).concat(name).concat(LABEL_SUFFIX)
}

/// The board line with the label `etiqueta` and the arrival text `tiempo`.
pub fn render_linea_bus(etiqueta: &str, tiempo: &str) -> (view: LineView)
    ensures
        view@ == line_shown(etiqueta@, tiempo@),
{
    let value = chars_of(tiempo);
    let marker = chars_of(URGENT_MARKER);
    LineView {
        label: String::from_str(etiqueta),
        value: String::from_str(tiempo),
        urgent: has_somewhere(&value, &marker),
    }
}

/// The lines that the board of `app` shows.
pub fn render(app: &App) -> (views: Vec<LineView>)
    ensures
        views_shown(views@) == board_shown(app@),
{
    let lines = configured_lines();
    let snapshot = app.current_snapshot();
    let mut views: Vec<LineView> = Vec::new();
    let mut i: usize = 0;
    while i < lines.len()
        invariant
            i <= lines.len(),
            lines_view(lines@) == monitored(),
            snapshot@ == app@.snapshot,
            views_shown(views@) == board_shown(app@).take(i as int),
        decreases lines.len() - i,
    {
        let name = lines[i].display_name.as_str();
        let label = line_label(name);
        let view = match snapshot.get(name) {
            Some(tiempo) => render_linea_bus(label.as_str(), tiempo.as_str()),
            None => render_linea_bus(label.as_str(), PLACEHOLDER),
        };
        proof {
            assert(lines_view(lines@)[i as int].name == name@);
            assert(views_shown(views@.push(view)) =~= views_shown(views@).push(view@));
            assert(board_shown(app@).take(i + 1) =~= board_shown(app@).take(i as int).push(
                view@,
            ));
        }
        views.push(view);
        i += 1;
    }
    assert(board_shown(app@).take(lines.len() as int) =~= board_shown(app@));
    views
}

} // verus!
