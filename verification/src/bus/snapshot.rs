//! The monitored lines and the snapshot that one poll of them yields.

use crate::bus::fetch::{fetch_times, fetched_times, no_buses, Fetched, NO_BUSES};
use vstd::hash_map::StringHashMap;
use vstd::prelude::*;
use vstd::string::*;

verus! {

/// One monitored line: the name it is shown under and matched by, and the
/// stop reference its page is requested with.
#[derive(Debug, Clone, PartialEq, Eq)]
pub struct LineSpec {
    pub display_name: String,
    pub source_ref: String,
}

/// A [`LineSpec`] as a pair of character sequences.
pub struct Line {
    pub name: Seq<char>,
    pub source_ref: Seq<char>,
}

impl View for LineSpec {
    type V = Line;

    open spec fn view(&self) -> Line {
        Line { name: self.display_name@, source_ref: self.source_ref@ }
    }
}

/// The lines of a vector, each by its view.
pub open spec fn lines_view(lines: Seq<LineSpec>) -> Seq<Line> {
    lines.map_values(|line: LineSpec| line@)
}

/// The monitored lines: 9, 7 and 12, each with its stop reference.
pub open spec fn monitored() -> Seq<Line> {
    seq![
        Line { name: "9"@, source_ref: "191"@ },
        Line { name: "7"@, source_ref: "166"@ },
        Line { name: "12"@, source_ref: "132"@ },
    ]
}

/// The names of `lines`, as a set.
pub open spec fn names_of(lines: Seq<Line>) -> Set<Seq<char>> {
    Set::new(|name: Seq<char>| exists|i: int| 0 <= i < lines.len() && #[trigger] lines[i].name == name)
}

/// The names of one more line are those before and the new one.
pub proof fn lemma_names_of_push(lines: Seq<Line>, line: Line)
    ensures
        names_of(lines.push(line)) == names_of(lines).insert(line.name),
{
    let more = lines.push(line);
    assert forall|name: Seq<char>| names_of(more).contains(name) <==> names_of(lines).insert(
        line.name,
    ).contains(name) by {
        if names_of(lines).contains(name) {
            let i = choose|i: int| 0 <= i < lines.len() && #[trigger] lines[i].name == name;
            assert(more[i].name == name);
        }
        if name == line.name {
            assert(more[lines.len() as int].name == name);
        }
        if names_of(more).contains(name) && name != line.name {
            let i = choose|i: int| 0 <= i < more.len() && #[trigger] more[i].name == name;
            assert(lines[i].name == name);
        }
    }
    assert(names_of(more) =~= names_of(lines).insert(line.name));
}

/// The monitored lines.
pub fn configured_lines() -> (lines: Vec<LineSpec>)
    ensures
        lines_view(lines@) == monitored(),
{
    let lines = vec![
        LineSpec { display_name: String::from_str("9"), source_ref: String::from_str("191") },
        LineSpec { display_name: String::from_str("7"), source_ref: String::from_str("166") },
        LineSpec { display_name: String::from_str("12"), source_ref: String::from_str("132") },
    ];
    assert(lines_view(lines@) =~= monitored());
    lines
}

/// The arrival text of each line, by the line's name.
pub struct ArrivalSnapshot {
    entries: StringHashMap<String>,
}

impl View for ArrivalSnapshot {
    type V = Map<Seq<char>, Seq<char>>;

    closed spec fn view(&self) -> Map<Seq<char>, Seq<char>> {
        self.entries@.map_values(|text: String| text@)
    }
}

impl ArrivalSnapshot {
    /// A snapshot without entries.
    pub fn new() -> (snapshot: ArrivalSnapshot)
        ensures
            snapshot@ == Map::<Seq<char>, Seq<char>>::empty(),
    {
        let snapshot = ArrivalSnapshot { entries: StringHashMap::new() };
        assert(snapshot@ =~= Map::<Seq<char>, Seq<char>>::empty());
        snapshot
    }

    /// Sets the text of line `name`, in place of the one it had.
    pub fn insert(&mut self, name: String, text: String)
        ensures
            final(self)@ == old(self)@.insert(name@, text@),
    {
        self.entries.insert(name, text);
        assert(self@ =~= old(self)@.insert(name@, text@));
    }

    /// The text of line `name`, if the snapshot has one.
    pub fn get(&self, name: &str) -> (text: Option<&String>)
        ensures
            match text {
                Some(found) => self@.contains_key(name@) && found@ == self@[name@],
                None => !self@.contains_key(name@),
            },
    {
        self.entries.get(name)
    }

    /// Whether the snapshot has a text for line `name`.
    pub fn contains_key(&self, name: &str) -> (b: bool)
        ensures
            b == self@.contains_key(name@),
    {
        self.entries.contains_key(name)
    }

    /// The number of lines that the snapshot has a text for.
    pub fn len(&self) -> (n: usize)
        ensures
            n == self@.len(),
    {
        broadcast use vstd::hash_map::group_hash_map_axioms;

        assert(self@.dom() =~= self.entries@.dom());
        self.entries.len()
    }
}

/// What pads the text of an entry at its end.
pub const PADDING: &'static str = " ";

/// The reply for the line at position `i`; a line without one counts as not reached.
pub open spec fn reply_for(replies: Seq<Fetched>, i: int) -> Fetched {
    if 0 <= i < replies.len() {
        replies[i]
    } else {
        Fetched::Unreachable
    }
}

/// The text of line `id` from what was fetched for it: a failure of any kind
/// shows as a line without arrivals.
pub open spec fn line_text(fetched: Fetched, id: Seq<char>) -> Seq<char> {
    match fetched_times(fetched, id) {
        Ok(text) => text,
        Err(_) => no_buses(),
    }
}

/// The snapshot's entry for line `id`: its text and the padding.
pub open spec fn entry_text(fetched: Fetched, id: Seq<char>) -> Seq<char> {
    line_text(fetched, id) + PADDING@
}

/// The snapshot of one poll of `lines`, where `replies` holds, position by
/// position, what was fetched for each. Of two lines with one name the later
/// one decides.
pub open spec fn polled(lines: Seq<Line>, replies: Seq<Fetched>) -> Map<Seq<char>, Seq<char>>
    decreases lines.len(),
{
    if lines.len() == 0 {
        Map::empty()
    } else {
        let last = lines.len() - 1;
        polled(lines.drop_last(), replies).insert(
            lines[last].name,
            entry_text(reply_for(replies, last), lines[last].name),
        )
    }
}

/// Builds the snapshot of one poll: for each line of `specs` the text that
/// its reply gives, padded. The reply of a line stands in `replies` at the
/// line's position.
pub fn poll_all(specs: &Vec<LineSpec>, replies: &Vec<Fetched>) -> (snapshot: ArrivalSnapshot)
    ensures
        snapshot@ == polled(lines_view(specs@), replies@),
        snapshot@.dom() == names_of(lines_view(specs@)),
{
    let ghost lines = lines_view(specs@);
    let mut snapshot = ArrivalSnapshot::new();
    let mut i: usize = 0;
    while i < specs.len()
        invariant
            i <= specs.len(),
            lines == lines_view(specs@),
            snapshot@ == polled(lines.take(i as int), replies@),
        decreases specs.len() - i,
    {
        let name = specs[i].display_name.as_str();
        let text = if i < replies.len() {
            match fetch_times(&replies[i], name) {
                Ok(text) => text,
                Err(_) => String::from_str(NO_BUSES),
            }
        } else {
            String::from_str(NO_BUSES)
        };
        proof {
            assert(lines.take(i + 1).drop_last() =~= lines.take(i as int));
            assert(lines.take(i + 1)[i as int].name == name@);
        }
        snapshot.insert(String::from_str(name), text.concat(PADDING));
        i += 1;
    }
    proof {
        assert(lines.take(specs.len() as int) =~= lines);
        lemma_polled_names(lines, replies@);
    }
    snapshot
}

/// A poll yields an entry for each line polled, and for nothing else.
pub proof fn lemma_polled_names(lines: Seq<Line>, replies: Seq<Fetched>)
    ensures
        polled(lines, replies).dom() == names_of(lines),
    decreases lines.len(),
{
    if lines.len() > 0 {
        let front = lines.drop_last();
        lemma_polled_names(front, replies);
        lemma_names_of_push(front, lines.last());
        assert(front.push(lines.last()) =~= lines);
    }
    assert(polled(lines, replies).dom() =~= names_of(lines));
}

/// Each line's entry comes from its own reply alone: whatever the other
/// replies hold, the entry of the line at `i` is the padded text of reply `i`,
/// as long as no later line bears the same name.
pub proof fn lemma_poll_isolates_lines(lines: Seq<Line>, replies: Seq<Fetched>, i: int)
    requires
        0 <= i < lines.len(),
        forall|j: int| i < j < lines.len() ==> #[trigger] lines[j].name != lines[i].name,
    ensures
        polled(lines, replies).contains_key(lines[i].name),
        polled(lines, replies)[lines[i].name] == entry_text(reply_for(replies, i), lines[i].name),
    decreases lines.len(),
{
    if i < lines.len() - 1 {
        let front = lines.drop_last();
        assert(lines[lines.len() - 1].name != lines[i].name);
        assert forall|j: int| i < j < front.len() implies #[trigger] front[j].name
            != front[i].name by {
            assert(lines[j].name != lines[i].name);
        }
        lemma_poll_isolates_lines(front, replies, i);
    }
}

/// Whether no two of `lines` bear one name.
pub open spec fn names_differ(lines: Seq<Line>) -> bool {
    forall|i: int, j: int|
        0 <= i < j < lines.len() ==> #[trigger] lines[i].name != #[trigger] lines[j].name
}

/// A failure stays with its line. Where the reply of the line at `failed` is
/// replaced by one that fails, whatever the kind of failure, that line shows
/// no arrivals, and every other line shows what it showed before.
pub proof fn lemma_failure_stays_with_its_line(
    lines: Seq<Line>,
    replies: Seq<Fetched>,
    failed: int,
    failure: Fetched,
)
    requires
        names_differ(lines),
        0 <= failed < lines.len(),
        failed < replies.len(),
        fetched_times(failure, lines[failed].name) is Err,
    ensures
        polled(lines, replies.update(failed, failure))[lines[failed].name] == no_buses()
            + PADDING@,
        forall|i: int|
            0 <= i < lines.len() && i != failed ==> polled(
                lines,
                replies.update(failed, failure),
            )[#[trigger] lines[i].name] == polled(lines, replies)[lines[i].name],
{
    let after = replies.update(failed, failure);
    lemma_poll_isolates_lines(lines, after, failed);
    assert forall|i: int| 0 <= i < lines.len() && i != failed implies polled(
        lines,
        after,
    )[#[trigger] lines[i].name] == polled(lines, replies)[lines[i].name] by {
        lemma_poll_isolates_lines(lines, after, i);
        lemma_poll_isolates_lines(lines, replies, i);
    }
}

/// The monitored lines bear three different names.
pub proof fn lemma_monitored_names_differ()
    ensures
        names_differ(monitored()),
{
    reveal_strlit("9");
    reveal_strlit("7");
    reveal_strlit("12");
    let lines = monitored();
    assert(lines[0].name.len() == 1 && lines[1].name.len() == 1 && lines[2].name.len() == 2);
    assert(lines[0].name[0] == '9' && lines[1].name[0] == '7');
}

} // verus!
