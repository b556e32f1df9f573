//! The text layout policy: how a message body is cut into rows that fit a
//! line of fixed width.
//!
//! Words stay on the current row while they fit. A row that would overflow is
//! cut at its last blank; a word longer than a whole line is kept in one piece
//! on a row of its own. A line feed always ends the row. The character at
//! which a row is cut belongs to no row; every other character of the body
//! belongs to exactly one.

use vstd::prelude::*;
use vstd::std_specs::iter::IteratorSpec;

verus! {

/// A blank at which a row may be cut: space, tab or carriage return.
pub open spec fn is_blank(c: char) -> bool {
    c == ' ' || c == '\t' || c == '\r'
}

/// A line feed, at which a row always ends.
pub open spec fn is_line_feed(c: char) -> bool {
    c == '\n'
}

/// A character at which a row can end.
pub open spec fn is_cut(c: char) -> bool {
    is_blank(c) || is_line_feed(c)
}

/// No line feed among `text[from..to]`.
pub open spec fn no_line_feed(text: Seq<char>, from: int, to: int) -> bool {
    forall|k: int| from <= k < to && 0 <= k < text.len() ==> !is_line_feed(#[trigger] text[k])
}

/// No blank among `text[from..to]`.
pub open spec fn no_blank(text: Seq<char>, from: int, to: int) -> bool {
    forall|k: int| from <= k < to && 0 <= k < text.len() ==> !is_blank(#[trigger] text[k])
}

/// The rest of the paragraph fits: the row runs up to the next line feed, or
/// to the end of the text.
pub open spec fn ends_by_fitting(text: Seq<char>, start: int, width: int, end: int) -> bool {
    &&& start <= end <= text.len()
    &&& end - start <= width
    &&& no_line_feed(text, start, end)
    &&& (end == text.len() || is_line_feed(text[end]))
}

/// The paragraph overflows and the row is cut at the last blank that is not
/// beyond the first character that no longer fits.
pub open spec fn ends_at_blank(text: Seq<char>, start: int, width: int, end: int) -> bool {
    &&& start <= end <= start + width < text.len()
    &&& no_line_feed(text, start, start + width + 1)
    &&& is_blank(text[end])
    &&& no_blank(text, end + 1, start + width + 1)
}

/// The row starts with a word that is longer than a line: the row is that
/// word, whole.
pub open spec fn ends_after_long_word(text: Seq<char>, start: int, width: int, end: int) -> bool {
    &&& start + width < end <= text.len()
    &&& no_line_feed(text, start, end)
    &&& no_blank(text, start, end)
    &&& (end == text.len() || is_cut(text[end]))
}

/// `end` is where the row that starts at `start` ends (exclusive), on a line
/// that holds `width` characters.
pub open spec fn is_row_end(text: Seq<char>, start: int, width: int, end: int) -> bool {
    ||| ends_by_fitting(text, start, width, end)
    ||| ends_at_blank(text, start, width, end)
    ||| ends_after_long_word(text, start, width, end)
}

/// Where the row that starts at `start` ends.
pub open spec fn row_end(text: Seq<char>, start: int, width: int) -> int {
    choose|end: int| is_row_end(text, start, width, end)
}

/// A row of the layout: the characters `start..end` of the body.
pub struct Span {
    pub start: int,
    pub end: int,
}

/// The rows of `text` from position `start` on.
pub open spec fn rows_from(text: Seq<char>, start: int, width: int) -> Seq<Span>
    decreases text.len() - start,
{
    let end = row_end(text, start, width);
    if start <= end < text.len() {
        seq![Span { start, end }] + rows_from(text, end + 1, width)
    } else {
        seq![Span { start, end }]
    }
}

/// The layout of a body on lines of `width` characters.
pub open spec fn layout(text: Seq<char>, width: int) -> Seq<Span> {
    rows_from(text, 0, width)
}

/// A row has one end only.
pub proof fn row_end_is_unique(text: Seq<char>, start: int, width: int, e1: int, e2: int)
    requires
        0 <= start <= text.len(),
        0 <= width,
        is_row_end(text, start, width, e1),
        is_row_end(text, start, width, e2),
    ensures
        e1 == e2,
{
    if e1 < e2 {
        // what ends the row at e1 lies inside the row that ends at e2
        if e1 < text.len() {
            assert(is_cut(text[e1]));
        }
        if ends_at_blank(text, start, width, e2) {
            assert(e1 < start + width + 1);
        }
    } else if e2 < e1 {
        if e2 < text.len() {
            assert(is_cut(text[e2]));
        }
        if ends_at_blank(text, start, width, e1) {
            assert(e2 < start + width + 1);
        }
    }
}

/// Once an end is known, it is the end.
pub proof fn row_end_is(text: Seq<char>, start: int, width: int, end: int)
    requires
        0 <= start <= text.len(),
        0 <= width,
        is_row_end(text, start, width, end),
    ensures
        row_end(text, start, width) == end,
{
    row_end_is_unique(text, start, width, end, row_end(text, start, width));
}

/// Every row has an end: the scan that finds it.
pub proof fn row_end_exists(text: Seq<char>, start: int, width: int) -> (end: int)
    requires
        0 <= start <= text.len(),
        0 <= width,
    ensures
        is_row_end(text, start, width, end),
        row_end(text, start, width) == end,
{
    let stop = reach_of_line(text, start, width, start);
    let end = if stop == text.len() || is_line_feed(text[stop]) {
        stop
    } else {
        let blank = last_blank(text, start, start + width);
        if blank >= start {
            blank
        } else {
            next_cut(text, start, start + width + 1)
        }
    };
    row_end_is(text, start, width, end);
    end
}

/// Walks from `at` to the end of the paragraph, or to the first character
/// that no longer fits on the row.
proof fn reach_of_line(text: Seq<char>, start: int, width: int, at: int) -> (stop: int)
    requires
        0 <= start <= at <= text.len(),
        at - start <= width,
        no_line_feed(text, start, at),
    ensures
        at <= stop <= text.len(),
        stop - start <= width,
        no_line_feed(text, start, stop),
        stop == text.len() || is_line_feed(text[stop]) || stop - start == width,
    decreases text.len() - at,
{
    if at == text.len() || is_line_feed(text[at]) || at - start == width {
        at
    } else {
        reach_of_line(text, start, width, at + 1)
    }
}

/// The last blank among `text[start..=upto]`, or `start - 1` where there is
/// none.
proof fn last_blank(text: Seq<char>, start: int, upto: int) -> (at: int)
    requires
        0 <= start,
        start - 1 <= upto < text.len(),
    ensures
        start - 1 <= at <= upto,
        at >= start ==> is_blank(text[at]),
        no_blank(text, at + 1, upto + 1),
    decreases upto - start + 1,
{
    if upto < start {
        start - 1
    } else if is_blank(text[upto]) {
        upto
    } else {
        last_blank(text, start, upto - 1)
    }
}

/// The first cut at or after `at`, or the end of the text.
proof fn next_cut(text: Seq<char>, start: int, at: int) -> (stop: int)
    requires
        0 <= start <= at <= text.len(),
        no_line_feed(text, start, at),
        no_blank(text, start, at),
    ensures
        at <= stop <= text.len(),
        no_line_feed(text, start, stop),
        no_blank(text, start, stop),
        stop == text.len() || is_cut(text[stop]),
    decreases text.len() - at,
{
    if at == text.len() || is_cut(text[at]) {
        at
    } else {
        next_cut(text, start, at + 1)
    }
}

/// A row of a laid-out body: the characters `start..end`, counted in
/// characters, not bytes.
#[derive(Clone, Copy, Debug, PartialEq, Eq)]
pub struct Row {
    pub start: usize,
    pub end: usize,
}

impl View for Row {
    type V = Span;

    open spec fn view(&self) -> Span {
        Span { start: self.start as int, end: self.end as int }
    }
}

/// The rows as spans.
pub open spec fn spans(rows: Seq<Row>) -> Seq<Span> {
    rows.map_values(|r: Row| r@)
}

/// The characters of a string, one by one.
pub fn characters(text: &str) -> (chars: Vec<char>)
    ensures
        chars@ == text@,
{
    broadcast use vstd::string::axiom_spec_iter, vstd::string::next_postcondition;

    let mut rest = text.chars();
    let mut chars: Vec<char> = Vec::new();
    loop
        invariant
            chars@ + rest.remaining() == text@,
            rest.decrease() is Some,
        ensures
            chars@ == text@,
        decreases rest.decrease()->0,
    {
        match rest.next() {
            Some(c) => {
                chars.push(c);
            },
            None => {
                break ;
            },
        }
    }
    chars
}

/// Finds where the row that starts at `start` ends.
pub fn find_row_end(chars: &Vec<char>, start: usize, width: usize) -> (end: usize)
    requires
        start <= chars.len(),
    ensures
        is_row_end(chars@, start as int, width as int, end as int),
        end as int == row_end(chars@, start as int, width as int),
{
    let n: usize = chars.len();
    let mut at: usize = start;
    let mut blank: Option<usize> = None;
    while at < n && chars[at] != '\n' && at - start < width
        invariant
            n == chars.len(),
            start <= at <= n,
            at - start <= width,
            no_line_feed(chars@, start as int, at as int),
            match blank {
                Some(b) => start <= b < at && is_blank(chars@[b as int]) && no_blank(
                    chars@,
                    b + 1,
                    at as int,
                ),
                None => no_blank(chars@, start as int, at as int),
            },
        decreases n - at,
    {
        let c: char = chars[at];
        if c == ' ' || c == '\t' || c == '\r' {
            blank = Some(at);
        }
        at += 1;
    }
    let end: usize = if at == n || chars[at] == '\n' {
        assert(ends_by_fitting(chars@, start as int, width as int, at as int));
        at
    } else {
        let c: char = chars[at];
        if c == ' ' || c == '\t' || c == '\r' {
            assert(ends_at_blank(chars@, start as int, width as int, at as int));
            at
        } else {
            match blank {
                Some(b) => {
                    assert(ends_at_blank(chars@, start as int, width as int, b as int));
                    b
                },
                None => {
                    let mut stop: usize = at + 1;
                    while stop < n && chars[stop] != '\n' && chars[stop] != ' ' && chars[stop]
                        != '\t' && chars[stop] != '\r'
                        invariant
                            n == chars.len(),
                            at < stop <= n,
                            no_line_feed(chars@, start as int, stop as int),
                            no_blank(chars@, start as int, stop as int),
                        decreases n - stop,
                    {
                        stop += 1;
                    }
                    assert(ends_after_long_word(
                        chars@,
                        start as int,
                        width as int,
                        stop as int,
                    ));
                    stop
                },
            }
        }
    };
    proof {
        row_end_is(chars@, start as int, width as int, end as int);
    }
    end
}

/// One step of `rows_from`, with the row's end in hand.
proof fn rows_from_step(text: Seq<char>, start: int, width: int)
    requires
        0 <= start <= text.len(),
        0 <= width,
    ensures
        is_row_end(text, start, width, row_end(text, start, width)),
        start <= row_end(text, start, width) <= text.len(),
        rows_from(text, start, width) == if row_end(text, start, width) < text.len() {
            seq![Span { start, end: row_end(text, start, width) }] + rows_from(
                text,
                row_end(text, start, width) + 1,
                width,
            )
        } else {
            seq![Span { start, end: row_end(text, start, width) }]
        },
{
    let _ = row_end_exists(text, start, width);
}

/// Cuts a sequence of characters into rows.
pub fn wrap_chars(chars: &Vec<char>, width: usize) -> (rows: Vec<Row>)
    ensures
        spans(rows@) == layout(chars@, width as int),
{
    let n: usize = chars.len();
    let mut rows: Vec<Row> = Vec::new();
    let mut start: usize = 0;
    loop
        invariant_except_break
            spans(rows@) + rows_from(chars@, start as int, width as int) == layout(
                chars@,
                width as int,
            ),
        invariant
            n == chars.len(),
            start <= n,
        ensures
            spans(rows@) == layout(chars@, width as int),
        decreases n - start,
    {
        let end: usize = find_row_end(chars, start, width);
        let row = Row { start, end };
        proof {
            rows_from_step(chars@, start as int, width as int);
            assert(spans(rows@.push(row)) == spans(rows@) + seq![row@]);
        }
        rows.push(row);
        if end >= n {
            break ;
        }
        start = end + 1;
    }
    rows
}

/// Cuts a body into rows for lines of `width` characters.
pub fn wrap(body: &str, width: usize) -> (rows: Vec<Row>)
    ensures
        spans(rows@) == layout(body@, width as int),
{
    let chars = characters(body);
    wrap_chars(&chars, width)
}

/// The rows follow one another from `first` to the end of the text, each cut
/// where the policy cuts it, with one character between a row and the next.
pub open spec fn is_chain(text: Seq<char>, width: int, first: int, rows: Seq<Span>) -> bool {
    &&& rows.len() >= 1
    &&& rows[0].start == first
    &&& rows.last().end == text.len()
    &&& forall|i: int|
        0 <= i < rows.len() ==> 0 <= (#[trigger] rows[i]).start <= rows[i].end <= text.len()
            && is_row_end(text, rows[i].start, width, rows[i].end)
    &&& forall|i: int| 0 <= i < rows.len() - 1 ==> #[trigger] is_joint(text, rows, i)
}

/// Row `i` is cut inside the text, and the next row starts right after the
/// character at which it was cut.
pub open spec fn is_joint(text: Seq<char>, rows: Seq<Span>, i: int) -> bool {
    &&& rows[i].end < text.len()
    &&& rows[i + 1].start == rows[i].end + 1
}

proof fn rows_from_is_chain(text: Seq<char>, width: int, first: int)
    requires
        0 <= first <= text.len(),
        0 <= width,
    ensures
        is_chain(text, width, first, rows_from(text, first, width)),
    decreases text.len() - first,
{
    rows_from_step(text, first, width);
    let end = row_end(text, first, width);
    let head = seq![Span { start: first, end }];
    if end < text.len() {
        rows_from_is_chain(text, width, end + 1);
        let rest = rows_from(text, end + 1, width);
        let rows = head + rest;
        assert(rows == rows_from(text, first, width));
        assert(rows[0] == head[0]);
        assert(rows.last() == rest.last());
        assert forall|i: int| 0 <= i < rows.len() implies 0 <= (#[trigger] rows[i]).start
            <= rows[i].end <= text.len() && is_row_end(
            text,
            rows[i].start,
            width,
            rows[i].end,
        ) by {
            if i > 0 {
                assert(rows[i] == rest[i - 1]);
            }
        }
        assert forall|i: int| 0 <= i < rows.len() - 1 implies #[trigger] is_joint(
            text,
            rows,
            i,
        ) by {
            assert(rows[i + 1] == rest[i]);
            if i > 0 {
                assert(rows[i] == rest[i - 1]);
                assert(is_joint(text, rest, i - 1));
            }
        }
        assert(is_chain(text, width, first, rows));
    } else {
        assert(rows_from(text, first, width) == head);
        assert(head.len() == 1);
        assert(head[0] == Span { start: first, end });
        assert(head.last() == head[0]);
        assert(is_chain(text, width, first, head));
    }
}

/// Nothing of the body is lost: the rows of a layout run from the first
/// character to the last, in order, and between two rows exactly one
/// character is left out, the blank or line feed at which the row was cut.
pub proof fn rows_keep_every_character(text: Seq<char>, width: int)
    requires
        0 <= width,
    ensures
        is_chain(text, width, 0, layout(text, width)),
        forall|i: int|
            0 <= i < layout(text, width).len() - 1 ==> is_cut(
                text[(#[trigger] layout(text, width)[i]).end],
            ),
{
    rows_from_is_chain(text, width, 0);
    let rows = layout(text, width);
    assert forall|i: int| 0 <= i < rows.len() - 1 implies is_cut(
        text[(#[trigger] rows[i]).end],
    ) by {
        assert(is_joint(text, rows, i));
    }
}

/// No row holds a line feed, and a row is wider than the line only where it
/// is one word that could not be split.
pub proof fn rows_fit_or_hold_one_word(text: Seq<char>, width: int)
    requires
        0 <= width,
    ensures
        forall|i: int|
            0 <= i < layout(text, width).len() ==> {
                let row = #[trigger] layout(text, width)[i];
                &&& no_line_feed(text, row.start, row.end)
                &&& (row.end - row.start <= width || no_blank(text, row.start, row.end))
            },
{
    rows_from_is_chain(text, width, 0);
}

/// A row is cut at a blank only when the paragraph does not fit the line, and
/// then as late as possible: no later cut would still leave the row within
/// the line.
pub proof fn rows_are_cut_as_late_as_possible(text: Seq<char>, width: int)
    requires
        0 <= width,
    ensures
        forall|i: int|
            0 <= i < layout(text, width).len() ==> {
                let row = #[trigger] layout(text, width)[i];
                row.end < text.len() && is_blank(text[row.end]) ==> {
                    &&& row.start + width < text.len()
                    &&& no_line_feed(text, row.end + 1, row.start + width + 1)
                    &&& no_blank(text, row.end + 1, row.start + width + 1)
                }
            },
{
    rows_from_is_chain(text, width, 0);
}

/// A body without line feeds that is no longer than the line is one row.
pub proof fn body_that_fits_is_one_row(text: Seq<char>, width: int)
    requires
        0 <= width,
        text.len() <= width,
        no_line_feed(text, 0, text.len() as int),
    ensures
        layout(text, width) == seq![Span { start: 0, end: text.len() as int }],
{
    assert(ends_by_fitting(text, 0, width, text.len() as int));
    row_end_is(text, 0, width, text.len() as int);
}

/// A body without line feeds that is one character longer than the line, and
/// holds a blank, is two rows, cut at its last blank.
pub proof fn one_character_more_is_two_rows(text: Seq<char>, width: int, blank: int)
    requires
        0 <= width,
        text.len() == width + 1,
        no_line_feed(text, 0, text.len() as int),
        0 <= blank < text.len(),
        is_blank(text[blank]),
        no_blank(text, blank + 1, text.len() as int),
    ensures
        layout(text, width) == seq![
            Span { start: 0, end: blank },
            Span { start: blank + 1, end: text.len() as int },
        ],
{
    assert(ends_at_blank(text, 0, width, blank));
    row_end_is(text, 0, width, blank);
    assert(ends_by_fitting(text, blank + 1, width, text.len() as int));
    row_end_is(text, blank + 1, width, text.len() as int);
    rows_from_step(text, 0, width);
    rows_from_step(text, blank + 1, width);
}

/// A body that is one word is one row, however long the word.
pub proof fn single_word_is_not_split(text: Seq<char>, width: int)
    requires
        0 <= width,
        no_line_feed(text, 0, text.len() as int),
        no_blank(text, 0, text.len() as int),
    ensures
        layout(text, width) == seq![Span { start: 0, end: text.len() as int }],
{
    if text.len() <= width {
        assert(ends_by_fitting(text, 0, width, text.len() as int));
    } else {
        assert(ends_after_long_word(text, 0, width, text.len() as int));
    }
    row_end_is(text, 0, width, text.len() as int);
}

/// The text of each row.
pub open spec fn row_texts(text: Seq<char>, rows: Seq<Span>) -> Seq<Seq<char>> {
    Seq::new(rows.len(), |i: int| text.subrange(rows[i].start, rows[i].end))
}

/// The views of a sequence of strings.
pub open spec fn texts(lines: Seq<String>) -> Seq<Seq<char>> {
    lines.map_values(|line: String| line@)
}

/// Cuts a body into lines of at most `width` characters, long words apart.
pub fn lines(body: &str, width: usize) -> (out: Vec<String>)
    ensures
        texts(out@) == row_texts(body@, layout(body@, width as int)),
{
    let rows = wrap(body, width);
    let mut out: Vec<String> = Vec::new();
    proof {
        rows_keep_every_character(body@, width as int);
    }
    let ghost plan = layout(body@, width as int);
    let mut i: usize = 0;
    while i < rows.len()
        invariant
            i <= rows.len(),
            spans(rows@) == plan,
            is_chain(body@, width as int, 0, plan),
            out@.len() == i,
            forall|k: int|
                0 <= k < i ==> (#[trigger] out@[k])@ == body@.subrange(
                    plan[k].start,
                    plan[k].end,
                ),
        decreases rows.len() - i,
    {
        let row = rows[i];
        assert(plan[i as int] == row@);
        let line = body.substring_char(row.start, row.end).to_owned();
        out.push(line);
        i += 1;
    }
    assert(texts(out@) =~= row_texts(body@, plan));
    out
}

} // verus!
