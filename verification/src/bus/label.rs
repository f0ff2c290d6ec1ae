//! Line labels in the text of an arrival row.
//!
//! A row names its line either in short form, `L9`, or in long form,
//! `Línea 9`. Pages are often served with a wrong charset, so the accented
//! letter of the long form may arrive as any one or two characters outside
//! ASCII; the letters around it stay as they are.

use crate::text::{
    char_is_digit, char_is_non_ascii, chars_of, has_at, is_digit, is_non_ascii, occurs_at,
};
use vstd::prelude::*;

verus! {

/// What follows the accented letter in the long form of a label.
pub open spec fn long_form_tail() -> Seq<char> {
    seq!['n', 'e', 'a', ' ']
}

/// No digit stands at `at`: a number that ends just before `at` is complete.
pub open spec fn number_ends(text: Seq<char>, at: int) -> bool {
    at >= text.len() || !is_digit(text[at])
}

/// The short label of line `id` stands at `p`: `L`, then `id`, then no further digit.
pub open spec fn short_label_at(text: Seq<char>, id: Seq<char>, p: int) -> bool {
    &&& 0 <= p < text.len()
    &&& text[p] == 'L'
    &&& occurs_at(text, id, p + 1)
    &&& number_ends(text, p + 1 + id.len())
}

/// The long label of line `id` stands at `p`: `L`, then `accent` characters
/// outside ASCII, then `nea `, then `id`, then no further digit.
pub open spec fn long_label_at(text: Seq<char>, id: Seq<char>, p: int, accent: int) -> bool {
    &&& 0 <= p < text.len()
    &&& text[p] == 'L'
    &&& 1 <= accent <= 2
    &&& p + accent < text.len()
    &&& forall|j: int| p < j <= p + accent ==> is_non_ascii(#[trigger] text[j])
    &&& occurs_at(text, long_form_tail(), p + 1 + accent)
    &&& occurs_at(text, id, p + 5 + accent)
    &&& number_ends(text, p + 5 + accent + id.len())
}

/// A label of line `id`, in either form, stands at `p`.
pub open spec fn label_at(text: Seq<char>, id: Seq<char>, p: int) -> bool {
    ||| short_label_at(text, id, p)
    ||| long_label_at(text, id, p, 1)
    ||| long_label_at(text, id, p, 2)
}

/// The text names line `id` somewhere.
pub open spec fn carries_label(text: Seq<char>, id: Seq<char>) -> bool {
    exists|p: int| label_at(text, id, p)
}

fn number_ends_at(text: &Vec<char>, at: usize) -> (b: bool)
    ensures
        b == number_ends(text@, at as int),
{
    at >= text.len() || !char_is_digit(text[at])
}

fn short_label_found_at(text: &Vec<char>, id: &Vec<char>, p: usize) -> (b: bool)
    requires
        p < text.len(),
        text@[p as int] == 'L',
    ensures
        b == short_label_at(text@, id@, p as int),
{
    has_at(text, id, p + 1) && number_ends_at(text, p + 1 + id.len())
}

fn long_label_found_at(text: &Vec<char>, id: &Vec<char>, p: usize, accent: usize) -> (b: bool)
    requires
        p < text.len(),
        text@[p as int] == 'L',
        1 <= accent <= 2,
    ensures
        b == long_label_at(text@, id@, p as int, accent as int),
{
    if accent >= text.len() - p {
        return false;
    }
    if !char_is_non_ascii(text[p + 1]) {
        return false;
    }
    if accent == 2 && !char_is_non_ascii(text[p + 2]) {
        return false;
    }
    let tail: Vec<char> = vec!['n', 'e', 'a', ' '];
    assert(tail@ =~= long_form_tail());
    has_at(text, &tail, p + 1 + accent) && has_at(text, id, p + 5 + accent) && number_ends_at(
        text,
        p + 5 + accent + id.len(),
    )
}

/// Whether a label of line `id` stands at `p` in `text`.
pub fn label_found_at(text: &Vec<char>, id: &Vec<char>, p: usize) -> (b: bool)
    ensures
        b == label_at(text@, id@, p as int),
{
    if p >= text.len() || text[p] != 'L' {
        return false;
    }
    short_label_found_at(text, id, p) || long_label_found_at(text, id, p, 1) || long_label_found_at(
        text,
        id,
        p,
        2,
    )
}

/// Whether `text` names line `id`.
pub fn names_line(text: &Vec<char>, id: &Vec<char>) -> (b: bool)
    ensures
        b == carries_label(text@, id@),
{
    let mut p: usize = 0;
    while p < text.len()
        invariant
            p <= text.len(),
            forall|k: int| 0 <= k < p ==> !label_at(text@, id@, k),
        decreases text.len() - p,
    {
        if label_found_at(text, id, p) {
            return true;
        }
        p += 1;
    }
    false
}

/// Whether the row text `text` names the line `id`.
pub fn row_names_line(text: &str, id: &str) -> (b: bool)
    ensures
        b == carries_label(text@, id@),
{
    let text_chars = chars_of(text);
    let id_chars = chars_of(id);
    names_line(&text_chars, &id_chars)
}

/// Whether `id` is the number of a line: one or more digits.
pub open spec fn is_line_number(id: Seq<char>) -> bool {
    &&& id.len() > 0
    &&& forall|j: int| 0 <= j < id.len() ==> is_digit(#[trigger] id[j])
}

/// Both spellings are read: `L` and the line's name, not followed by a digit,
/// is a label of the line wherever it stands in a text.
pub proof fn lemma_short_label_is_found(before: Seq<char>, id: Seq<char>, after: Seq<char>)
    requires
        number_ends(after, 0),
    ensures
        carries_label(before + seq!['L'] + id + after, id),
{
    let text = before + seq!['L'] + id + after;
    let p = before.len() as int;
    assert(text[p] == 'L');
    assert(text.subrange(p + 1, p + 1 + id.len()) =~= id);
    if after.len() > 0 {
        assert(text[p + 1 + id.len()] == after[0]);
    }
    assert(short_label_at(text, id, p));
    assert(label_at(text, id, p));
}

/// The long spelling is read whatever became of its accented letter: `L`,
/// one or two characters outside ASCII, `nea `, and the line's name, not
/// followed by a digit, is a label of the line wherever it stands in a text.
pub proof fn lemma_long_label_is_found(
    before: Seq<char>,
    accent: Seq<char>,
    id: Seq<char>,
    after: Seq<char>,
)
    requires
        1 <= accent.len() <= 2,
        forall|j: int| 0 <= j < accent.len() ==> is_non_ascii(#[trigger] accent[j]),
        number_ends(after, 0),
    ensures
        carries_label(before + seq!['L'] + accent + long_form_tail() + id + after, id),
{
    let text = before + seq!['L'] + accent + long_form_tail() + id + after;
    let p = before.len() as int;
    let k = accent.len() as int;
    assert(text[p] == 'L');
    assert forall|j: int| p < j <= p + k implies is_non_ascii(#[trigger] text[j]) by {
        assert(text[j] == accent[j - p - 1]);
    }
    assert(text.subrange(p + 1 + k, p + 5 + k) =~= long_form_tail());
    assert(text.subrange(p + 5 + k, p + 5 + k + id.len()) =~= id);
    if after.len() > 0 {
        assert(text[p + 5 + k + id.len()] == after[0]);
    }
    assert(long_label_at(text, id, p, k));
    assert(label_at(text, id, p));
}

/// Two line numbers that both stand at `at`, each with no digit behind it, are one number.
proof fn lemma_number_is_read_whole(text: Seq<char>, id: Seq<char>, other: Seq<char>, at: int)
    requires
        is_line_number(id),
        is_line_number(other),
        occurs_at(text, id, at),
        occurs_at(text, other, at),
        number_ends(text, at + id.len()),
        number_ends(text, at + other.len()),
    ensures
        id == other,
{
    let in_id = text.subrange(at, at + id.len());
    let in_other = text.subrange(at, at + other.len());
    if id.len() < other.len() {
        assert(text[at + id.len()] == in_other[id.len() as int]);
        assert(is_digit(other[id.len() as int]));
    } else if other.len() < id.len() {
        assert(text[at + other.len()] == in_id[other.len() as int]);
        assert(is_digit(id[other.len() as int]));
    }
}

/// A label names one line: where a label of line `id` stands, no label of
/// another line stands. So `L12` is no label of line 1.
pub proof fn lemma_label_names_one_line(text: Seq<char>, id: Seq<char>, other: Seq<char>, p: int)
    requires
        is_line_number(id),
        is_line_number(other),
        label_at(text, id, p),
        label_at(text, other, p),
    ensures
        id == other,
{
    let tail = long_form_tail();
    let first_of_id = text.subrange(p + 1, p + 1 + id.len());
    let first_of_other = text.subrange(p + 1, p + 1 + other.len());
    if short_label_at(text, id, p) {
        assert(text[p + 1] == first_of_id[0]);
        assert(is_digit(id[0]));
        assert(!is_non_ascii(text[p + 1]));
        assert(short_label_at(text, other, p));
        lemma_number_is_read_whole(text, id, other, p + 1);
    } else if short_label_at(text, other, p) {
        assert(text[p + 1] == first_of_other[0]);
        assert(is_digit(other[0]));
        assert(!is_non_ascii(text[p + 1]));
    } else {
        let k = if long_label_at(text, id, p, 1) { 1int } else { 2int };
        let m = if long_label_at(text, other, p, 1) { 1int } else { 2int };
        if k < m {
            assert(text[p + 2] == text.subrange(p + 2, p + 6)[0]);
            assert(tail[0] == 'n');
            assert(is_non_ascii(text[p + 2]));
        } else if m < k {
            assert(text[p + 2] == text.subrange(p + 2, p + 6)[0]);
            assert(tail[0] == 'n');
            assert(is_non_ascii(text[p + 2]));
        } else {
            lemma_number_is_read_whole(text, id, other, p + 5 + k);
        }
    }
}

/// A row of another line is not taken for the line: a text that bears the
/// label of line `other`, and no `L` elsewhere, does not name any other line.
pub proof fn lemma_row_of_other_line(text: Seq<char>, id: Seq<char>, other: Seq<char>, p: int)
    requires
        is_line_number(id),
        is_line_number(other),
        id != other,
        label_at(text, other, p),
        forall|q: int| 0 <= q < text.len() && q != p ==> text[q] != 'L',
    ensures
        !carries_label(text, id),
{
    if carries_label(text, id) {
        let q = choose|q: int| label_at(text, id, q);
        assert(text[q] == 'L');
        lemma_label_names_one_line(text, id, other, p);
    }
}

} // verus!
