//! The arrival rows of a results page, as plain text.
//!
//! Parsing the page and selecting its elements is the work of `dom_query`.
//! This module hands the rest of the crate what was selected: for every row
//! its whole text and the text of the value nested in it.

use vstd::prelude::*;
use vstd::utf8::encode_utf8;

verus! {

/// The largest page that is handed to the parser, in bytes.
///
/// `dom_query` keeps text in buffers whose capacity is a `u32`, rounded up to
/// a power of two, and stops the program when that overflows, which takes a
/// text of two gibibytes. Decoding can make a text longer than its source, by
/// a factor of three at most; a page within this bound stays clear of the
/// limit either way.
pub const MAX_PAGE_BYTES: usize = 0x1000_0000;

/// One arrival row of a page.
#[derive(Debug, Clone, PartialEq, Eq)]
pub struct ArrivalRow {
    /// All the text inside the row.
    pub text: String,
    /// The text of the first value element nested in the row; empty where there is none.
    pub value: String,
}

/// An [`ArrivalRow`] as a pair of character sequences.
pub struct RowText {
    pub text: Seq<char>,
    pub value: Seq<char>,
}

impl View for ArrivalRow {
    type V = RowText;

    open spec fn view(&self) -> RowText {
        RowText { text: self.text@, value: self.value@ }
    }
}

/// The rows of a vector, each by its view.
pub open spec fn rows_view(rows: Seq<ArrivalRow>) -> Seq<RowText> {
    rows.map_values(|row: ArrivalRow| row@)
}

/// The length of `markup` in bytes.
pub open spec fn page_bytes(markup: Seq<char>) -> nat {
    encode_utf8(markup).len()
}

/// What `dom_query` selects from the page `markup`: in document order, every
/// element that matches `row_selector`, with all its text and with the text of
/// the first element inside it that matches `value_selector`. `None` where one
/// of the two selectors is no valid CSS selector.
pub uninterp spec fn selected_rows(
    markup: Seq<char>,
    row_selector: Seq<char>,
    value_selector: Seq<char>,
) -> Option<Seq<RowText>>;

/// Parses `markup` with `dom_query::Document::from`, compiles the two selectors
/// with `dom_query::Matcher::new`, and walks the rows that
/// `Document::select_matcher` finds, reading each row with `Selection::text`
/// and its value with `Selection::select_matcher`, `Selection::first` and
/// `Selection::text`.
///
/// Trusted: the result is `selected_rows` of the three arguments. The parser
/// accepts any text, so the only failure is a selector that does not compile.
#[verifier::external_body]
pub(crate) fn select_rows(markup: &str, row_selector: &str, value_selector: &str) -> (found: Option<
    Vec<ArrivalRow>,
>)
    requires
        page_bytes(markup@) <= MAX_PAGE_BYTES,
    ensures
        match found {
            Some(rows) => selected_rows(markup@, row_selector@, value_selector@) == Some(
                rows_view(rows@),
            ),
            None => selected_rows(markup@, row_selector@, value_selector@) is None,
        },
{
    let row_matcher = dom_query::Matcher::new(row_selector).ok()?;
    let value_matcher = dom_query::Matcher::new(value_selector).ok()?;
    let document = dom_query::Document::from(markup);
    let mut rows = Vec::new();
    for row in document.select_matcher(&row_matcher).iter() {
        let value = row.select_matcher(&value_matcher).first().text().to_string();
        rows.push(ArrivalRow { text: row.text().to_string(), value });
    }
    Some(rows)
}

} // verus!
