//! From a fetched arrivals page to the text shown for one line.

use crate::bus::label::{carries_label, names_line};
use crate::bus::markup::{
    page_bytes, rows_view, select_rows, selected_rows, ArrivalRow, RowText, MAX_PAGE_BYTES,
};
use crate::text::{chars_of, trim_bounds, trimmed};
use vstd::prelude::*;
use vstd::string::*;

verus! {

/// The CSS selector of an arrival row.
pub const ROW_SELECTOR: &'static str = ".arrival_times_results_row";

/// The CSS selector, inside a row, of the element that holds the arrival time.
pub const VALUE_SELECTOR: &'static str = ".right";

/// What is shown for a line without arrivals.
pub const NO_BUSES: &'static str = "Sin buses";

/// What stands between two arrivals of one line.
pub const SEPARATOR: &'static str = " | ";

/// The characters of [`NO_BUSES`].
pub open spec fn no_buses() -> Seq<char> {
    NO_BUSES@
}

/// The characters of [`SEPARATOR`].
pub open spec fn separator() -> Seq<char> {
    SEPARATOR@
}

/// What a row adds to line `id`: its value without the white space around it,
/// if the row names the line and the value is not blank.
pub open spec fn row_value(row: RowText, id: Seq<char>) -> Option<Seq<char>> {
    if carries_label(row.text, id) && trimmed(row.value).len() > 0 {
        Some(trimmed(row.value))
    } else {
        None
    }
}

/// [`row_value`] for a fixed line.
pub open spec fn row_value_for(id: Seq<char>) -> spec_fn(RowText) -> Option<Seq<char>> {
    |row: RowText| row_value(row, id)
}

/// The arrivals of line `id`, in row order.
pub open spec fn arrival_values(rows: Seq<RowText>, id: Seq<char>) -> Seq<Seq<char>> {
    rows.filter_map(row_value_for(id))
}

/// The text for a line with the arrivals `values`: the first two, or the
/// no-arrivals text where there is none.
pub open spec fn shown(values: Seq<Seq<char>>) -> Seq<char> {
    if values.len() == 0 {
        no_buses()
    } else if values.len() == 1 {
        values[0]
    } else {
        values[0] + separator() + values[1]
    }
}

/// The text for line `id` given the rows of its page.
pub open spec fn arrival_summary(rows: Seq<RowText>, id: Seq<char>) -> Seq<char> {
    shown(arrival_values(rows, id))
}

/// The strings of a vector, each by its view.
pub open spec fn texts(values: Seq<String>) -> Seq<Seq<char>> {
    values.map_values(|value: String| value@)
}

/// The text for line `numero_linea` given the rows of its page: the values of
/// the first two rows that name the line and are not blank, joined by
/// [`SEPARATOR`], or [`NO_BUSES`].
pub fn summarize_rows(rows: &Vec<ArrivalRow>, numero_linea: &str) -> (summary: String)
    ensures
        summary@ == arrival_summary(rows_view(rows@), numero_linea@),
{
    let id = chars_of(numero_linea);
    let ghost all = rows_view(rows@);
    let mut kept: Vec<String> = Vec::new();
    let mut i: usize = 0;
    while i < rows.len()
        invariant
            i <= rows.len(),
            id@ == numero_linea@,
            all == rows_view(rows@),
            texts(kept@) == arrival_values(all.take(i as int), id@),
        decreases rows.len() - i,
    {
        let row = &rows[i];
        proof {
            all.lemma_filter_map_take_succ(row_value_for(id@), i as int);
            assert(all[i as int] == row@);
        }
        let text = chars_of(row.text.as_str());
        if names_line(&text, &id) {
            let value = chars_of(row.value.as_str());
            let (from, to) = trim_bounds(&value);
            if from < to {
                let arrival = String::from_str(row.value.as_str().substring_char(from, to));
                assert(texts(kept@.push(arrival)) =~= texts(kept@).push(arrival@));
                kept.push(arrival);
            }
        }
        i += 1;
    }
    assert(all.take(rows.len() as int) =~= all);
    if kept.len() == 0 {
        String::from_str(NO_BUSES)
    } else if kept.len() == 1 {
        kept[0].clone()
    } else {
        kept[0].clone().concat(SEPARATOR).concat(kept[1].as_str())
    }
}

/// The arrivals of rows put one behind the other are the arrivals of the
/// first rows and then those of the second.
pub proof fn lemma_values_of_concat(front: Seq<RowText>, back: Seq<RowText>, id: Seq<char>)
    ensures
        arrival_values(front + back, id) == arrival_values(front, id) + arrival_values(back, id),
    decreases back.len(),
{
    if back.len() == 0 {
        assert(front + back =~= front);
        assert(arrival_values(front, id) + arrival_values(back, id) =~= arrival_values(
            front,
            id,
        ));
    } else {
        lemma_values_of_concat(front, back.drop_last(), id);
        assert((front + back).drop_last() =~= front + back.drop_last());
        assert((front + back).last() == back.last());
        match row_value(back.last(), id) {
            Some(value) => {
                assert(arrival_values(front + back, id) =~= arrival_values(front, id)
                    + arrival_values(back, id));
            },
            None => {},
        }
    }
}

/// Whether a row adds an arrival to line `id`.
pub open spec fn counts_for(id: Seq<char>) -> spec_fn(RowText) -> bool {
    |row: RowText| row_value(row, id) is Some
}

/// The line's text goes by the rows that name the line and hold a value, and
/// by nothing else: it is the no-arrivals text where there is no such row, the
/// value of the only one, or the values of the first two of them in their
/// order on the page, with the separator between them.
pub proof fn lemma_summary_of_counting_rows(rows: Seq<RowText>, id: Seq<char>)
    ensures
        ({
            let counting = rows.filter(counts_for(id));
            &&& arrival_values(rows, id) == counting.map_values(|row: RowText| trimmed(row.value))
            &&& counting.len() == 0 ==> arrival_summary(rows, id) == no_buses()
            &&& counting.len() == 1 ==> arrival_summary(rows, id) == trimmed(counting[0].value)
            &&& counting.len() >= 2 ==> arrival_summary(rows, id) == trimmed(counting[0].value)
                + separator() + trimmed(counting[1].value)
        }),
    decreases rows.len(),
{
    reveal(Seq::filter);
    let counting = rows.filter(counts_for(id));
    let values = counting.map_values(|row: RowText| trimmed(row.value));
    if rows.len() > 0 {
        lemma_summary_of_counting_rows(rows.drop_last(), id);
    }
    assert(arrival_values(rows, id) =~= values);
}

/// A row that adds nothing for the line (one that names another line, or
/// whose value is blank) does not change the line's text, wherever it stands
/// among the rows.
pub proof fn lemma_other_rows_are_left_out(
    rows: Seq<RowText>,
    id: Seq<char>,
    at: int,
    row: RowText,
)
    requires
        0 <= at <= rows.len(),
        row_value(row, id) is None,
    ensures
        arrival_values(rows.insert(at, row), id) == arrival_values(rows, id),
        arrival_summary(rows.insert(at, row), id) == arrival_summary(rows, id),
{
    let front = rows.take(at);
    let back = rows.skip(at);
    let alone = seq![row];
    assert(rows.insert(at, row) =~= front + alone + back);
    assert(rows =~= front + back);
    lemma_values_of_concat(front + alone, back, id);
    lemma_values_of_concat(front, alone, id);
    lemma_values_of_concat(front, back, id);
    assert(alone.drop_last() =~= Seq::<RowText>::empty());
    assert(arrival_values(alone, id) =~= Seq::<Seq<char>>::empty()) by {
        reveal_with_fuel(Seq::filter_map, 2);
    }
    assert(arrival_values(front, id) + arrival_values(alone, id) =~= arrival_values(front, id));
}

/// The rows of an arrivals page, where the page can be parsed: it is no larger
/// than [`MAX_PAGE_BYTES`] and the two selectors compile.
pub open spec fn parsed_rows(markup: Seq<char>) -> Option<Seq<RowText>> {
    if page_bytes(markup) <= MAX_PAGE_BYTES {
        selected_rows(markup, ROW_SELECTOR@, VALUE_SELECTOR@)
    } else {
        None
    }
}

/// The text for line `id` given its page; the no-arrivals text where the page
/// cannot be parsed.
pub open spec fn page_summary(markup: Seq<char>, id: Seq<char>) -> Seq<char> {
    match parsed_rows(markup) {
        Some(rows) => arrival_summary(rows, id),
        None => no_buses(),
    }
}

/// The arrival rows of the page `markup`, or `None` where the page cannot be parsed.
pub fn arrival_rows(markup: &str) -> (found: Option<Vec<ArrivalRow>>)
    ensures
        match found {
            Some(rows) => parsed_rows(markup@) == Some(rows_view(rows@)),
            None => parsed_rows(markup@) is None,
        },
{
    if markup.as_bytes().len() > MAX_PAGE_BYTES {
        None
    } else {
        select_rows(markup, ROW_SELECTOR, VALUE_SELECTOR)
    }
}

/// The text for line `numero_linea` given its page `markup`.
///
/// Never fails: a page that cannot be parsed counts as one without arrivals.
pub fn extract(markup: &str, numero_linea: &str) -> (summary: String)
    ensures
        summary@ == page_summary(markup@, numero_linea@),
{
    match arrival_rows(markup) {
        Some(rows) => summarize_rows(&rows, numero_linea),
        None => String::from_str(NO_BUSES),
    }
}

/// What came back for the request of one line's page.
#[derive(Debug, Clone, PartialEq, Eq)]
pub enum Fetched {
    /// The server answered, with this status code and this body.
    Reply { status: u16, body: String },
    /// There was no answer: the request failed on its way.
    Unreachable,
}

/// Why a line has no data.
#[derive(Debug, Clone, Copy, PartialEq, Eq)]
pub enum FetchError {
    /// The request failed on its way: no name, no connection, no answer in time.
    Transport,
    /// The server answered with this status code, which is no success.
    Status(u16),
    /// The server's page cannot be parsed.
    Markup,
}

/// Whether an HTTP status code means success.
pub open spec fn is_success(status: u16) -> bool {
    200 <= status <= 299
}

/// The outcome for line `id` of what was fetched for it.
pub open spec fn fetched_times(fetched: Fetched, id: Seq<char>) -> Result<Seq<char>, FetchError> {
    match fetched {
        Fetched::Unreachable => Err(FetchError::Transport),
        Fetched::Reply { status, body } => if !is_success(status) {
            Err(FetchError::Status(status))
        } else {
            match parsed_rows(body@) {
                Some(rows) => Ok(arrival_summary(rows, id)),
                None => Err(FetchError::Markup),
            }
        },
    }
}

/// An outcome with its text by its view.
pub open spec fn outcome_view(outcome: Result<String, FetchError>) -> Result<
    Seq<char>,
    FetchError,
> {
    match outcome {
        Ok(text) => Ok(text@),
        Err(error) => Err(error),
    }
}

/// The text for line `numero_linea` from what was fetched for it, or why there is none.
pub fn fetch_times(fetched: &Fetched, numero_linea: &str) -> (outcome: Result<String, FetchError>)
    ensures
        outcome_view(outcome) == fetched_times(*fetched, numero_linea@),
{
    match fetched {
        Fetched::Unreachable => Err(FetchError::Transport),
        Fetched::Reply { status, body } => {
            if *status < 200 || *status > 299 {
                return Err(FetchError::Status(*status));
            }
            match arrival_rows(body.as_str()) {
                Some(rows) => Ok(summarize_rows(&rows, numero_linea)),
                None => Err(FetchError::Markup),
            }
        },
    }
}

/// The browser that requests announce themselves as.
pub const USER_AGENT: &'static str =
    "Mozilla/5.0 (X11; Linux x86_64) AppleWebKit/537.36 (KHTML, like Gecko) Chrome/124.0.0.0 Safari/537.36";

/// The address of the arrivals page, up to the stop reference.
pub const ARRIVALS_URL: &'static str =
    "https://www.salamancadetransportes.com/tiempos-de-llegada/?ref=";

/// The address to request for the stop reference `source_ref`.
pub fn request_url(source_ref: &str) -> (url: String)
    ensures
        url@ == ARRIVALS_URL@ + source_ref@,
{
    String::from_str(ARRIVALS_URL).concat(source_ref)
}

} // verus!
