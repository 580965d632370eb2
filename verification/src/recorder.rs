//! What the record of opportunities comes to: how many there are, over what stretch
//! of time, and the largest edge among them.

use crate::double::Double;
use crate::text::{characters, text_option, trim, trimmed};
use crate::timestamp::{Timestamp, rfc3339_text};
use vstd::prelude::*;

verus! {

/// `a` comes before `b` in the order of their characters, which for texts in
/// UTF-8 is also that of their bytes.
pub open spec fn text_before(a: Seq<char>, b: Seq<char>) -> bool
    decreases a.len(),
{
    if b.len() == 0 {
        false
    } else if a.len() == 0 {
        true
    } else if a[0] == b[0] {
        text_before(a.drop_first(), b.drop_first())
    } else {
        (a[0] as int) < (b[0] as int)
    }
}

/// Whether `a` comes before `b` in the order of their characters.
pub fn comes_before(a: &str, b: &str) -> (r: bool)
    ensures
        r == text_before(a@, b@),
{
    let x = characters(a);
    let y = characters(b);
    let mut i: usize = 0;
    proof {
        assert(a@.skip(0) =~= a@);
        assert(b@.skip(0) =~= b@);
    }
    while i < x.len() && i < y.len()
        invariant
            x@ == a@,
            y@ == b@,
            i <= a@.len(),
            i <= b@.len(),
            text_before(a@, b@) == text_before(a@.skip(i as int), b@.skip(i as int)),
        decreases a@.len() - i,
    {
        let (c, d) = (x[i], y[i]);
        proof {
            assert(a@.skip(i as int)[0] == c);
            assert(b@.skip(i as int)[0] == d);
            assert(a@.skip(i as int).drop_first() =~= a@.skip(i + 1));
            assert(b@.skip(i as int).drop_first() =~= b@.skip(i + 1));
        }
        if c != d {
            return c < d;
        }
        i += 1;
    }
    i < y.len()
}

/// Whether a line of the record is blank.
pub fn is_blank(line: &str) -> (r: bool)
    ensures
        r == (trimmed(line@).len() == 0),
{
    trim(line).is_empty()
}

/// How many opportunities there are, with the first and the last time and the largest
/// edge, which is zero where none is above it.
#[derive(Debug)]
pub struct RecordWindow {
    pub count: i64,
    pub t_min: Option<String>,
    pub t_max: Option<String>,
    pub max_edge: Double,
}

/// What a [`RecordWindow`] says.
pub struct WindowView {
    pub count: int,
    pub t_min: Option<Seq<char>>,
    pub t_max: Option<Seq<char>>,
    pub max_edge: Double,
}

/// An opportunity of the record: its time as it is written, and its edge.
pub struct EntryView {
    pub time: Seq<char>,
    pub edge: Double,
}

/// A line of the record, with the opportunity that was read from it if it holds one.
pub struct LineView {
    pub text: Seq<char>,
    pub entry: Option<EntryView>,
}

impl View for RecordWindow {
    type V = WindowView;

    open spec fn view(&self) -> WindowView {
        WindowView {
            count: self.count as int,
            t_min: text_option(self.t_min),
            t_max: text_option(self.t_max),
            max_edge: self.max_edge,
        }
    }
}

impl LineView {
    /// The line counts: it is not blank, and it holds an opportunity.
    pub open spec fn counts(self) -> bool {
        trimmed(self.text).len() > 0 && self.entry is Some
    }
}

impl WindowView {
    /// No opportunity.
    pub open spec fn empty() -> WindowView {
        WindowView { count: 0, t_min: None, t_max: None, max_edge: Double::nought() }
    }

    /// The window with one more opportunity.
    pub open spec fn with(self, entry: EntryView) -> WindowView {
        WindowView {
            count: self.count + 1,
            t_min: match self.t_min {
                Some(t) => if text_before(entry.time, t) {
                    Some(entry.time)
                } else {
                    Some(t)
                },
                None => Some(entry.time),
            },
            t_max: match self.t_max {
                Some(t) => if text_before(t, entry.time) {
                    Some(entry.time)
                } else {
                    Some(t)
                },
                None => Some(entry.time),
            },
            max_edge: if self.max_edge.below(entry.edge) {
                entry.edge
            } else {
                self.max_edge
            },
        }
    }

    /// The window with one more line, which may not count.
    pub open spec fn with_line(self, line: LineView) -> WindowView {
        if line.counts() {
            self.with(line.entry->0)
        } else {
            self
        }
    }
}

impl RecordWindow {
    /// No opportunity.
    pub fn new() -> (r: RecordWindow)
        ensures
            r@ == WindowView::empty(),
    {
        RecordWindow { count: 0, t_min: None, t_max: None, max_edge: Double::zero() }
    }

    /// Counts in an opportunity at a time that is written as `time`.
    pub fn note_text(&mut self, time: String, edge: Double)
        requires
            old(self)@.count < i64::MAX,
        ensures
            final(self)@ == old(self)@.with(EntryView { time: time@, edge }),
    {
        self.count = self.count + 1;
        let earlier: bool = match &self.t_min {
            Some(t) => comes_before(time.as_str(), t.as_str()),
            None => true,
        };
        let later: bool = match &self.t_max {
            Some(t) => comes_before(t.as_str(), time.as_str()),
            None => true,
        };
        if earlier {
            self.t_min = Some(time.clone());
        }
        if later {
            self.t_max = Some(time);
        }
        if self.max_edge.less_than(edge) {
            self.max_edge = edge;
        }
    }

    /// Counts an opportunity in.
    pub fn note(&mut self, detected_at: Timestamp, edge: Double)
        requires
            old(self)@.count < i64::MAX,
        ensures
            final(self)@ == old(self)@.with(EntryView { time: rfc3339_text(detected_at@), edge }),
    {
        self.note_text(detected_at.to_rfc3339(), edge);
    }

    /// Counts a line in, with the time and the edge of the opportunity that was read
    /// from it, if it holds one. Whether it counts.
    pub fn note_line(&mut self, line: &str, entry: Option<(Timestamp, Double)>) -> (r: bool)
        requires
            line_view(line@, entry).counts() ==> old(self)@.count < i64::MAX,
        ensures
            final(self)@ == old(self)@.with_line(line_view(line@, entry)),
            r == line_view(line@, entry).counts(),
    {
        if is_blank(line) {
            return false;
        }
        match entry {
            Some((detected_at, edge)) => {
                self.note(detected_at, edge);
                true
            },
            None => false,
        }
    }
}

/// What a line with the opportunity read from it says.
pub open spec fn line_view(text: Seq<char>, entry: Option<(Timestamp, Double)>) -> LineView {
    LineView {
        text,
        entry: match entry {
            Some((detected_at, edge)) => Some(
                EntryView { time: rfc3339_text(detected_at@), edge },
            ),
            None => None,
        },
    }
}

/// The window over a list of opportunities.
pub open spec fn window_of(entries: Seq<EntryView>) -> WindowView
    decreases entries.len(),
{
    if entries.len() == 0 {
        WindowView::empty()
    } else {
        window_of(entries.drop_last()).with(entries.last())
    }
}

/// The window over the lines of a record.
pub open spec fn window_of_lines(lines: Seq<LineView>) -> WindowView
    decreases lines.len(),
{
    if lines.len() == 0 {
        WindowView::empty()
    } else {
        window_of_lines(lines.drop_last()).with_line(lines.last())
    }
}

/// The opportunities that the lines of a record hold, blank and malformed lines left
/// out.
pub open spec fn entries_of(lines: Seq<LineView>) -> Seq<EntryView> {
    lines.filter(|l: LineView| l.counts()).map_values(|l: LineView| l.entry->0)
}

/// Law: a record comes to what its opportunities come to. Blank and malformed lines
/// make no difference.
pub proof fn blank_and_malformed_lines_do_not_count(lines: Seq<LineView>)
    ensures
        window_of_lines(lines) == window_of(entries_of(lines)),
    decreases lines.len(),
{
    let counting = |l: LineView| l.counts();
    let entry = |l: LineView| l.entry->0;
    reveal(Seq::filter);
    if lines.len() > 0 {
        let (rest, line) = (lines.drop_last(), lines.last());
        blank_and_malformed_lines_do_not_count(rest);
        if line.counts() {
            assert(lines.filter(counting) == rest.filter(counting).push(line));
            assert(entries_of(lines) =~= entries_of(rest).push(entry(line)));
            assert(entries_of(lines).drop_last() =~= entries_of(rest));
        }
    } else {
        assert(entries_of(lines) =~= Seq::<EntryView>::empty());
    }
}

proof fn lemma_text_before_irreflexive(a: Seq<char>)
    ensures
        !text_before(a, a),
    decreases a.len(),
{
    if a.len() > 0 {
        lemma_text_before_irreflexive(a.drop_first());
    }
}

proof fn lemma_text_before_transitive(a: Seq<char>, b: Seq<char>, c: Seq<char>)
    requires
        !text_before(b, a),
        !text_before(c, b),
    ensures
        !text_before(c, a),
    decreases a.len(),
{
    if a.len() > 0 && b.len() > 0 && c.len() > 0 {
        if a[0] == b[0] && b[0] == c[0] {
            lemma_text_before_transitive(a.drop_first(), b.drop_first(), c.drop_first());
        }
    }
}

proof fn lemma_text_before_asymmetric(a: Seq<char>, b: Seq<char>)
    requires
        text_before(a, b),
    ensures
        !text_before(b, a),
    decreases a.len(),
{
    if a.len() > 0 && b.len() > 0 && a[0] == b[0] {
        lemma_text_before_asymmetric(a.drop_first(), b.drop_first());
    }
}

/// Law: the window counts every opportunity, starts no later than any and ends no
/// earlier than any. Its largest edge is below none of them, and it is one of them or
/// zero.
pub proof fn window_covers_all(entries: Seq<EntryView>)
    ensures
        window_of(entries).count == entries.len(),
        entries.len() > 0 ==> window_of(entries).t_min is Some && window_of(entries).t_max is Some,
        forall|i: int|
            0 <= i < entries.len() ==> {
                &&& !text_before((#[trigger] entries[i]).time, window_of(entries).t_min->0)
                &&& !text_before(window_of(entries).t_max->0, entries[i].time)
                &&& !window_of(entries).max_edge.below(entries[i].edge)
            },
        !window_of(entries).max_edge.below(Double::nought()),
        window_of(entries).max_edge == Double::nought() || exists|i: int|
            0 <= i < entries.len() && window_of(entries).max_edge == (#[trigger] entries[i]).edge,
        !window_of(entries).max_edge.nan(),
    decreases entries.len(),
{
    if entries.len() > 0 {
        let rest = entries.drop_last();
        window_covers_all(rest);
        let before = window_of(rest);
        let after = window_of(entries);
        let t = entries.last().time;
        assert(entries[entries.len() - 1].edge == entries.last().edge);
        if after.max_edge != Double::nought() && !before.max_edge.below(entries.last().edge) {
            let j = choose|j: int|
                0 <= j < rest.len() && before.max_edge == (#[trigger] rest[j]).edge;
            assert(entries[j] == rest[j]);
        }
        lemma_text_before_irreflexive(t);
        if rest.len() > 0 {
            let (lo, hi) = (before.t_min->0, before.t_max->0);
            lemma_text_before_irreflexive(lo);
            lemma_text_before_irreflexive(hi);
            if text_before(t, lo) {
                lemma_text_before_asymmetric(t, lo);
            }
            if text_before(hi, t) {
                lemma_text_before_asymmetric(hi, t);
            }
            assert forall|i: int| 0 <= i < entries.len() implies {
                &&& !text_before((#[trigger] entries[i]).time, after.t_min->0)
                &&& !text_before(after.t_max->0, entries[i].time)
                &&& !after.max_edge.below(entries[i].edge)
            } by {
                if i < rest.len() {
                    assert(rest[i] == entries[i]);
                    lemma_text_before_transitive(after.t_min->0, lo, entries[i].time);
                    lemma_text_before_transitive(entries[i].time, hi, after.t_max->0);
                }
            }
        }
    }
}

/// Law: a text comes before another where they are alike up to a place at which the one
/// ends and the other does not, or has the smaller character.
pub proof fn texts_are_ordered_by_their_first_difference(
    prefix: Seq<char>,
    a: Seq<char>,
    b: Seq<char>,
)
    requires
        a.len() > 0 && b.len() > 0 ==> a[0] != b[0],
    ensures
        a.len() == 0 ==> (text_before(prefix + a, prefix + b) <==> b.len() > 0),
        b.len() == 0 ==> !text_before(prefix + a, prefix + b),
        a.len() > 0 && b.len() > 0 ==> (text_before(prefix + a, prefix + b) <==> (a[0] as int) < (
        b[0] as int)),
    decreases prefix.len(),
{
    let (x, y) = (prefix + a, prefix + b);
    if prefix.len() > 0 {
        texts_are_ordered_by_their_first_difference(prefix.drop_first(), a, b);
        assert(x[0] == y[0]);
        assert(x.drop_first() =~= prefix.drop_first() + a);
        assert(y.drop_first() =~= prefix.drop_first() + b);
    } else {
        assert(x =~= a);
        assert(y =~= b);
    }
}

/// Law: the first and the last time of a window are times of opportunities in it, and
/// without an opportunity there is neither.
pub proof fn window_ends_are_times_in_it(entries: Seq<EntryView>)
    ensures
        entries.len() == 0 ==> window_of(entries).t_min is None && window_of(entries).t_max is None
            && window_of(entries).max_edge == Double::nought(),
        entries.len() > 0 ==> exists|i: int|
            0 <= i < entries.len() && window_of(entries).t_min == Some((#[trigger] entries[i]).time),
        entries.len() > 0 ==> exists|i: int|
            0 <= i < entries.len() && window_of(entries).t_max == Some((#[trigger] entries[i]).time),
    decreases entries.len(),
{
    if entries.len() > 0 {
        let rest = entries.drop_last();
        window_ends_are_times_in_it(rest);
        window_covers_all(rest);
        let (before, after) = (window_of(rest), window_of(entries));
        let last = entries.len() - 1;
        assert(entries[last] == entries.last());
        if after.t_min != Some(entries[last].time) {
            let i = choose|i: int|
                0 <= i < rest.len() && before.t_min == Some((#[trigger] rest[i]).time);
            assert(entries[i] == rest[i]);
        }
        if after.t_max != Some(entries[last].time) {
            let i = choose|i: int|
                0 <= i < rest.len() && before.t_max == Some((#[trigger] rest[i]).time);
            assert(entries[i] == rest[i]);
        }
    }
}

/// Law: a line counts where it has a character that is not whitespace and an opportunity
/// was read from it, which then is the one that the window takes in.
pub proof fn lines_count_by_what_they_hold(
    window: WindowView,
    text: Seq<char>,
    entry: Option<EntryView>,
)
    ensures
        ({
            let line = LineView { text, entry };
            let after = window.with_line(line);
            let some_text = exists|i: int|
                0 <= i < text.len() && !crate::text::whitespace(#[trigger] text[i]);
            &&& line.counts() <==> some_text && entry is Some
            &&& line.counts() ==> after.count == window.count + 1
            &&& line.counts() ==> after == window.with(entry->0)
            &&& !line.counts() ==> after == window
        }),
{
    let some_text = exists|i: int|
        0 <= i < text.len() && !crate::text::whitespace(#[trigger] text[i]);
    if some_text {
        crate::text::lemma_something_is_left(text);
    } else {
        crate::text::trimming_takes_the_whitespace_off(text, Seq::empty(), Seq::empty());
        assert(text + Seq::<char>::empty() + Seq::<char>::empty() =~= text);
    }
}

/// Law: a line says what is written on it, with the time of its opportunity written out and
/// the edge as it was read.
pub proof fn lines_say_what_was_read(text: Seq<char>, entry: Option<(Timestamp, Double)>)
    ensures
        line_view(text, entry).text == text,
        entry is None ==> line_view(text, entry).entry is None,
        entry matches Some((detected_at, edge)) ==> line_view(text, entry).entry matches Some(e)
            && e.time == rfc3339_text(detected_at@) && e.edge == edge,
{
}

/// Law: one more opportunity moves the first time back where it is written before it, the
/// last time on where it is written after it, and the largest edge up where it is above
/// it; it counts as one.
pub proof fn one_more_opportunity_widens_the_window(window: WindowView, entry: EntryView)
    ensures
        ({
            let after = window.with(entry);
            &&& after.count == window.count + 1
            &&& window.t_min is None || text_before(entry.time, window.t_min->0) ==> after.t_min
                == Some(entry.time)
            &&& window.t_min is Some && !text_before(entry.time, window.t_min->0) ==> after.t_min
                == window.t_min
            &&& window.t_max is None || text_before(window.t_max->0, entry.time) ==> after.t_max
                == Some(entry.time)
            &&& window.t_max is Some && !text_before(window.t_max->0, entry.time) ==> after.t_max
                == window.t_max
            &&& window.max_edge.below(entry.edge) ==> after.max_edge == entry.edge
            &&& !window.max_edge.below(entry.edge) ==> after.max_edge == window.max_edge
        }),
{
}

} // verus!
