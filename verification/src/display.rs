//! The rows that the panes show, and which of them are built and painted.
//!
//! A line takes one row of a pane. A noted line takes two: the note, and the line right below it.

use large_text_core::file_reader::FileReader;
use std::collections::{BTreeMap, BTreeSet};
use vstd::prelude::*;
use vstd::string::StringExecFns;

use crate::line_index::{
    line_count, line_fits, line_span, lines_fit, span_fits, FullLineIndex,
};
use crate::lines::{ascending, insertion_point, noted_lines, rank};
use crate::reader::{chunk_text, decoded_text, file_bytes, file_encoding};
use crate::text::{
    align_right, decimal, decimal_text, is_digit, law_alignment_puts_spaces_in_front,
    law_decimal_text_is_read_back, law_only_final_newlines_are_dropped,
    lemma_decimal_text_is_digits, number_read, right_aligned, trim_final_newlines,
    without_final_newlines,
};

verus! {

broadcast use {
    vstd::std_specs::btree::group_btree_axioms,
    vstd::laws_cmp::group_laws_cmp,
};

/// The width that line numbers are aligned to.
pub const LINE_NUMBER_WIDTH: usize = 6;

/// How many rows a window is padded with on either side of the rows it is meant for.
pub const BUFFER: usize = 30;

/// How many rows a window is meant for while the height of the viewport is unknown.
pub const DEFAULT_VISIBLE_ROWS: usize = 80;

/// One row of vertical space in a pane.
#[derive(Clone, Copy, Debug, PartialEq, Eq, Structural)]
pub enum DisplayRow {
    /// The note of a line.
    Note { line_no: usize },
    /// The text of a line.
    Content { line_no: usize },
}

impl DisplayRow {
    /// The line that the row belongs to.
    pub open spec fn spec_line_no(self) -> usize {
        match self {
            DisplayRow::Note { line_no } => line_no,
            DisplayRow::Content { line_no } => line_no,
        }
    }

    /// The line that the row belongs to.
    pub fn line_no(self) -> (line_no: usize)
        ensures
            line_no == self.spec_line_no(),
    {
        match self {
            DisplayRow::Note { line_no } => line_no,
            DisplayRow::Content { line_no } => line_no,
        }
    }
}

/// The number of noted lines before `line_no`.
pub open spec fn notes_below(noted: Set<usize>, line_no: int) -> nat {
    noted.filter(|line: usize| line < line_no).len()
}

/// The rows of one line: its note, if it has one, above its text.
pub open spec fn line_rows(noted: Set<usize>, line_no: usize) -> Seq<DisplayRow> {
    if noted.contains(line_no) {
        seq![DisplayRow::Note { line_no }, DisplayRow::Content { line_no }]
    } else {
        seq![DisplayRow::Content { line_no }]
    }
}

/// The rows of the given lines, one after the other.
pub open spec fn listed_rows(noted: Set<usize>, lines: Seq<usize>) -> Seq<DisplayRow>
    decreases lines.len(),
{
    if lines.len() == 0 {
        Seq::empty()
    } else {
        listed_rows(noted, lines.drop_last()) + line_rows(noted, lines.last())
    }
}

/// The rows of the lines from `first` up to, but not including, `end`.
pub open spec fn file_rows(noted: Set<usize>, first: int, end: int) -> Seq<DisplayRow>
    decreases end - first,
{
    if end <= first {
        Seq::empty()
    } else {
        file_rows(noted, first, end - 1) + line_rows(noted, (end - 1) as usize)
    }
}

/// The rows without their labels.
pub open spec fn row_kinds(rows: Seq<(DisplayRow, String)>) -> Seq<DisplayRow> {
    rows.map_values(|row: (DisplayRow, String)| row.0)
}

/// The line behind the last one that a window holds: lines are taken from `first` on until their
/// rows fill `room`, or up to the end of the file.
pub open spec fn window_end(noted: Set<usize>, first: int, total_lines: int, room: int) -> int
    decreases total_lines - first,
{
    if room <= 0 || first >= total_lines {
        first
    } else {
        window_end(
            noted,
            first + 1,
            total_lines,
            room - line_rows(noted, first as usize).len(),
        )
    }
}

/// The first line of the window for a viewport that starts around row `first_row`.
pub open spec fn window_first_line(total_lines: int, note_count: int, first_row: int) -> int {
    let back = first_row - (note_count + BUFFER);
    if back < 0 {
        0
    } else if back < total_lines {
        back
    } else if total_lines > 0 {
        total_lines - 1
    } else {
        0
    }
}

/// The number of rows that a window is meant for, where `fitting_rows` fit in the viewport: one
/// more, since the first and the last one may be cut off.
pub open spec fn rows_in_view(fitting_rows: Option<usize>) -> int {
    match fitting_rows {
        Some(rows) => rows + 1,
        None => DEFAULT_VISIBLE_ROWS as int,
    }
}

/// The number of rows that a window has room for.
pub open spec fn window_size(note_count: int, fitting_rows: Option<usize>) -> int {
    rows_in_view(fitting_rows) + note_count + 2 * BUFFER
}

/// The lines that a window holds: the first one, and the one behind the last one.
pub open spec fn window_lines(
    noted: Set<usize>,
    total_lines: int,
    first_row: int,
    fitting_rows: Option<usize>,
) -> (int, int) {
    let first = window_first_line(total_lines, noted.len() as int, first_row);
    (first, window_end(noted, first, total_lines, window_size(noted.len() as int, fitting_rows)))
}

/// The text of a line with its line end; no text for a line that does not exist.
pub open spec fn line_chunk(reader: &FileReader, data: Seq<u8>, line_no: int) -> Seq<char> {
    match line_span(data, line_no) {
        Some((start, end)) => chunk_text(reader, start, end),
        None => Seq::empty(),
    }
}

/// The text of a line without its line end.
pub open spec fn line_text(reader: &FileReader, data: Seq<u8>, line_no: int) -> Seq<char> {
    without_final_newlines(line_chunk(reader, data, line_no))
}

/// The label of a line's text: its number, counted from 1, and the text.
pub open spec fn content_label_text(line_no: nat, text: Seq<char>) -> Seq<char> {
    right_aligned(decimal_text(line_no + 1), LINE_NUMBER_WIDTH as nat) + "  "@ + text
}

/// The label of a note.
pub open spec fn note_label_text(text: Seq<char>) -> Seq<char> {
    "        ==== "@ + text
}

/// The notes as text.
pub open spec fn note_texts(notes: Map<usize, String>) -> Map<usize, Seq<char>> {
    notes.map_values(|note: String| note@)
}

/// The label of a row.
pub open spec fn row_label(
    row: DisplayRow,
    notes: Map<usize, Seq<char>>,
    reader: &FileReader,
    data: Seq<u8>,
) -> Seq<char> {
    match row {
        DisplayRow::Note { line_no } => note_label_text(notes[line_no]),
        DisplayRow::Content { line_no } => content_label_text(
            line_no as nat,
            line_text(reader, data, line_no as int),
        ),
    }
}

/// Whether every row carries its label.
pub open spec fn rows_are_labelled(
    rows: Seq<(DisplayRow, String)>,
    notes: Map<usize, Seq<char>>,
    reader: &FileReader,
    data: Seq<u8>,
) -> bool {
    forall|i: int|
        0 <= i < rows.len() ==> (#[trigger] rows[i]).1@ == row_label(
            rows[i].0,
            notes,
            reader,
            data,
        )
}

/// What a line contributes to the clipboard: its note, if it has one, on a line of its own above
/// the text.
pub open spec fn clipboard_entry(note: Option<Seq<char>>, text: Seq<char>) -> Seq<char> {
    match note {
        Some(note) => "==== "@ + note + "\n"@ + text,
        None => text,
    }
}

/// The note of a line.
pub open spec fn note_of(notes: Map<usize, Seq<char>>, line_no: usize) -> Option<Seq<char>> {
    if notes.contains_key(line_no) {
        Some(notes[line_no])
    } else {
        None
    }
}

/// What the given lines put on the clipboard: their entries, one below the other.
pub open spec fn clipboard_lines(
    lines: Seq<usize>,
    notes: Map<usize, Seq<char>>,
    reader: &FileReader,
    data: Seq<u8>,
) -> Seq<char>
    decreases lines.len(),
{
    if lines.len() == 0 {
        Seq::empty()
    } else {
        let line_no = lines.last();
        let entry = clipboard_entry(
            note_of(notes, line_no),
            line_text(reader, data, line_no as int),
        );
        if lines.len() == 1 {
            entry
        } else {
            clipboard_lines(lines.drop_last(), notes, reader, data) + "\n"@ + entry
        }
    }
}

/// A part of a pane's rows.
pub struct RowWindow {
    /// The position of the first of these rows among all rows of the pane.
    pub row_offset: usize,
    /// The rows and their labels.
    pub rows: Vec<(DisplayRow, String)>,
}

proof fn lemma_rank_counts_members(lines: Seq<usize>, line_no: usize)
    requires
        ascending(lines),
    ensures
        rank(lines, line_no) == notes_below(lines.to_set(), line_no as int),
    decreases lines.len(),
{
    let below = lines.to_set().filter(|line: usize| line < line_no as int);
    if lines.len() == 0 {
        assert(below =~= Set::<usize>::empty());
    } else {
        let front = lines.drop_last();
        lemma_rank_counts_members(front, line_no);
        let below_front = front.to_set().filter(|line: usize| line < line_no as int);
        assert forall|line: usize| #[trigger] lines.to_set().contains(line) == (
        front.to_set().contains(line) || line == lines.last()) by {
            if front.contains(line) {
                assert(lines[front.index_of(line)] == line);
            }
            if lines.contains(line) && line != lines.last() {
                assert(front[lines.index_of(line)] == line);
            }
            assert(lines[lines.len() - 1] == lines.last());
        }
        assert(!front.contains(lines.last()));
        if lines.last() < line_no {
            assert(below =~= below_front.insert(lines.last()));
        } else {
            assert(below =~= below_front);
        }
    }
}

/// One more line adds one more note exactly where that line is noted.
proof fn lemma_notes_below_step(noted: Set<usize>, line_no: usize)
    requires
        noted.finite(),
    ensures
        notes_below(noted, line_no + 1) == notes_below(noted, line_no as int) + if noted.contains(
            line_no,
        ) {
            1int
        } else {
            0int
        },
{
    let below = noted.filter(|line: usize| line < line_no as int);
    let up_to = noted.filter(|line: usize| line < line_no + 1);
    if noted.contains(line_no) {
        assert(up_to =~= below.insert(line_no));
    } else {
        assert(up_to =~= below);
    }
}

/// There are never more notes before a line than notes.
pub proof fn lemma_notes_below_is_bounded(noted: Set<usize>, line_no: int)
    requires
        noted.finite(),
    ensures
        notes_below(noted, line_no) <= noted.len(),
{
    vstd::set_lib::lemma_len_subset(noted.filter(|line: usize| line < line_no), noted);
}

/// Number of note rows above the rows of `line_no` in the top pane: each noted line strictly
/// before `line_no` adds one.
pub fn notes_before(notes: &BTreeMap<usize, String>, line_no: usize) -> (count: usize)
    ensures
        count == notes_below(notes@.dom(), line_no as int),
{
    let lines = noted_lines(notes);
    proof {
        lemma_rank_counts_members(lines@, line_no);
    }
    insertion_point(&lines, line_no)
}

/// Label for a line whose text, line end and all, is `chunk`.
pub fn label_chunk(line_no: usize, chunk: &str) -> (label: String)
    requires
        line_no < usize::MAX,
    ensures
        label@ == content_label_text(line_no as nat, without_final_newlines(chunk@)),
{
    let number = decimal(line_no + 1);
    let mut label = align_right(number.as_str(), LINE_NUMBER_WIDTH);
    label.append("  ");
    label.append(trim_final_newlines(chunk));
    label
}

/// Reads the text of a line, line end and all.
pub fn read_line(line_no: usize, reader: &FileReader, indexer: &FullLineIndex) -> (chunk: String)
    requires
        line_fits(indexer@, line_no as int),
    ensures
        chunk@ == line_chunk(reader, indexer@, line_no as int),
{
    match indexer.get_line_with_reader(line_no, reader) {
        Some((start, end)) => reader.get_chunk(start, end),
        None => String::new(),
    }
}

/// Label for a Content row.
pub fn content_label(line_no: usize, reader: &FileReader, indexer: &FullLineIndex) -> (label:
    String)
    requires
        line_no < usize::MAX,
        line_fits(indexer@, line_no as int),
    ensures
        label@ == content_label_text(line_no as nat, line_text(reader, indexer@, line_no as int)),
{
    let chunk = read_line(line_no, reader, indexer);
    label_chunk(line_no, chunk.as_str())
}

/// Label for a Note row. The `====` prefix tells note rows from file rows at a glance.
pub fn note_label(text: &str, _note_matched: bool) -> (label: String)
    ensures
        label@ == note_label_text(text@),
{
    let mut label = "        ==== ".to_owned();
    label.append(text);
    label
}

/// Appends what a line contributes to the clipboard: its note, if it has one, and its text, which
/// is `chunk` with its line end.
pub fn append_clipboard_entry(text: &mut String, note: Option<&String>, chunk: &str)
    ensures
        final(text)@ == old(text)@ + clipboard_entry(
            match note {
                Some(note) => Some(note@),
                None => None,
            },
            without_final_newlines(chunk@),
        ),
{
    if let Some(note) = note {
        text.append("==== ");
        text.append(note.as_str());
        text.append("\n");
    }
    text.append(trim_final_newlines(chunk));
    assert(text@ =~= old(text)@ + clipboard_entry(
        match note {
            Some(note) => Some(note@),
            None => None,
        },
        without_final_newlines(chunk@),
    ));
}

/// The text of the given lines and their notes, for the clipboard.
pub fn lines_for_clipboard(
    lines: &Vec<usize>,
    notes: &BTreeMap<usize, String>,
    reader: &FileReader,
    indexer: &FullLineIndex,
) -> (text: String)
    requires
        lines_fit(indexer@, lines@),
    ensures
        text@ == clipboard_lines(lines@, note_texts(notes@), reader, indexer@),
{
    let mut text = String::new();
    let mut next: usize = 0;
    assert(lines@.take(0) == Seq::<usize>::empty());
    while next < lines.len()
        invariant
            next <= lines@.len(),
            lines_fit(indexer@, lines@),
            text@ == clipboard_lines(
                lines@.take(next as int),
                note_texts(notes@),
                reader,
                indexer@,
            ),
        decreases lines@.len() - next,
    {
        let line_no: usize = lines[next];
        assert(lines@.take(next + 1).drop_last() == lines@.take(next as int));
        if next > 0 {
            text.append("\n");
        }
        let ghost before = text@;
        let chunk = read_line(line_no, reader, indexer);
        append_clipboard_entry(&mut text, notes.get(&line_no), chunk.as_str());
        assert(text@ =~= before + clipboard_entry(
            note_of(note_texts(notes@), line_no),
            line_text(reader, indexer@, line_no as int),
        ));
        next = next + 1;
    }
    assert(lines@.take(next as int) == lines@);
    text
}

/// Appends the rows of one line.
fn push_line_rows(
    rows: &mut Vec<(DisplayRow, String)>,
    line_no: usize,
    notes: &BTreeMap<usize, String>,
    note_matched: &BTreeSet<usize>,
    reader: &FileReader,
    indexer: &FullLineIndex,
)
    requires
        line_no < usize::MAX,
        line_fits(indexer@, line_no as int),
        rows_are_labelled(old(rows)@, note_texts(notes@), reader, indexer@),
    ensures
        row_kinds(final(rows)@) == row_kinds(old(rows)@) + line_rows(notes@.dom(), line_no),
        rows_are_labelled(final(rows)@, note_texts(notes@), reader, indexer@),
{
    if let Some(note) = notes.get(&line_no) {
        let label = note_label(note.as_str(), note_matched.contains(&line_no));
        rows.push((DisplayRow::Note { line_no }, label));
    }
    let label = content_label(line_no, reader, indexer);
    rows.push((DisplayRow::Content { line_no }, label));
    assert(row_kinds(rows@) =~= row_kinds(old(rows)@) + line_rows(notes@.dom(), line_no));
}

/// Builds the rows of the given lines.
pub fn build_listed_rows(
    lines: &Vec<usize>,
    notes: &BTreeMap<usize, String>,
    note_matched: &BTreeSet<usize>,
    reader: &FileReader,
    indexer: &FullLineIndex,
) -> (rows: Vec<(DisplayRow, String)>)
    requires
        lines_fit(indexer@, lines@),
        forall|i: int| 0 <= i < lines@.len() ==> lines@[i] < usize::MAX,
    ensures
        row_kinds(rows@) == listed_rows(notes@.dom(), lines@),
        rows_are_labelled(rows@, note_texts(notes@), reader, indexer@),
{
    let mut rows: Vec<(DisplayRow, String)> = Vec::new();
    let mut next: usize = 0;
    assert(lines@.take(0) == Seq::<usize>::empty());
    assert(row_kinds(rows@) =~= listed_rows(notes@.dom(), lines@.take(0)));
    while next < lines.len()
        invariant
            next <= lines@.len(),
            lines_fit(indexer@, lines@),
            forall|i: int| 0 <= i < lines@.len() ==> lines@[i] < usize::MAX,
            row_kinds(rows@) == listed_rows(notes@.dom(), lines@.take(next as int)),
            rows_are_labelled(rows@, note_texts(notes@), reader, indexer@),
        decreases lines@.len() - next,
    {
        let line_no: usize = lines[next];
        assert(lines@.take(next + 1).drop_last() == lines@.take(next as int));
        push_line_rows(&mut rows, line_no, notes, note_matched, reader, indexer);
        next = next + 1;
    }
    assert(lines@.take(next as int) == lines@);
    rows
}

/// The lines of the window for a viewport whose first row is about `first_row` and in which
/// `fitting_rows` rows fit, where that is known: the first one, and the one behind the last one.
pub fn window_range(
    first_row: usize,
    fitting_rows: Option<usize>,
    notes: &BTreeMap<usize, String>,
    total_lines: usize,
) -> (range: (usize, usize))
    requires
        total_lines > 0,
        window_size(notes@.dom().len() as int, fitting_rows) <= usize::MAX,
    ensures
        (range.0 as int, range.1 as int) == window_lines(
            notes@.dom(),
            total_lines as int,
            first_row as int,
            fitting_rows,
        ),
        range.0 <= range.1 <= total_lines,
{
    let note_count = notes.len();
    let margin: usize = note_count + BUFFER;
    let back: usize = if first_row < margin { 0 } else { first_row - margin };
    let first: usize = if back < total_lines { back } else { total_lines - 1 };
    let in_view: usize = match fitting_rows {
        Some(fitting) => fitting + 1,
        None => DEFAULT_VISIBLE_ROWS,
    };
    let room: usize = in_view + note_count + BUFFER * 2;

    let mut left: usize = room;
    let mut line_no: usize = first;
    while left > 0 && line_no < total_lines
        invariant
            first <= line_no <= total_lines,
            window_end(notes@.dom(), first as int, total_lines as int, room as int) == window_end(
                notes@.dom(),
                line_no as int,
                total_lines as int,
                left as int,
            ),
        decreases total_lines - line_no,
    {
        let taken: usize = if notes.contains_key(&line_no) { 2 } else { 1 };
        let rest: usize = if taken < left { left - taken } else { 0 };
        assert(window_end(notes@.dom(), line_no + 1, total_lines as int, left - taken)
            == window_end(notes@.dom(), line_no + 1, total_lines as int, rest as int));
        left = rest;
        line_no = line_no + 1;
    }
    (first, line_no)
}

/// Builds the window of the file's rows for a viewport whose first row is about `first_row` and in
/// which `fitting_rows` rows fit, where that is known.
///
/// The window starts [`BUFFER`] lines and as many lines as there are notes before the estimate,
/// and has room for as many more rows behind the viewport: that covers both the notes above the
/// estimate and some scrolling until the next window is built.
pub fn build_window(
    first_row: usize,
    fitting_rows: Option<usize>,
    notes: &BTreeMap<usize, String>,
    note_matched: &BTreeSet<usize>,
    reader: &FileReader,
    indexer: &FullLineIndex,
) -> (window: RowWindow)
    requires
        line_count(indexer@) + notes@.dom().len() <= usize::MAX,
        window_size(notes@.dom().len() as int, fitting_rows) <= usize::MAX,
        ({
            let (first, end) = window_lines(
                notes@.dom(),
                line_count(indexer@) as int,
                first_row as int,
                fitting_rows,
            );
            span_fits(indexer@, first, end)
        }),
    ensures
        ({
            let noted = notes@.dom();
            let (first, end) = window_lines(
                noted,
                line_count(indexer@) as int,
                first_row as int,
                fitting_rows,
            );
            &&& window.row_offset == first + notes_below(noted, first)
            &&& row_kinds(window.rows@) == file_rows(noted, first, end)
        }),
        rows_are_labelled(window.rows@, note_texts(notes@), reader, indexer@),
{
    let (first, end) = window_range(first_row, fitting_rows, notes, indexer.total_lines());
    let above = notes_before(notes, first);
    proof {
        lemma_notes_below_is_bounded(notes@.dom(), first as int);
    }
    let row_offset: usize = first + above;

    let mut rows: Vec<(DisplayRow, String)> = Vec::new();
    let mut line_no: usize = first;
    assert(row_kinds(rows@) =~= file_rows(notes@.dom(), first as int, line_no as int));
    while line_no < end
        invariant
            first <= line_no <= end <= line_count(indexer@),
            span_fits(indexer@, first as int, end as int),
            row_kinds(rows@) == file_rows(notes@.dom(), first as int, line_no as int),
            rows_are_labelled(rows@, note_texts(notes@), reader, indexer@),
        decreases end - line_no,
    {
        assert(line_fits(indexer@, line_no as int));
        push_line_rows(&mut rows, line_no, notes, note_matched, reader, indexer);
        line_no = line_no + 1;
    }
    RowWindow { row_offset, rows }
}

/// The last row that the viewport can show.
pub open spec fn last_visible_row(first_row: int, fitting_rows: int, total_rows: int) -> int {
    let last = first_row + fitting_rows + 1;
    if last < total_rows {
        last
    } else if total_rows > 0 {
        total_rows - 1
    } else {
        0
    }
}

/// Which of `built_rows` rows, the first of which is row `row_offset` of the pane, are seen in a
/// viewport that starts at row `first_row` and in which `fitting_rows` rows fit: the first and the
/// last of them, or `None` where the viewport shows none of them.
pub open spec fn painted_rows(
    first_row: int,
    fitting_rows: int,
    total_rows: int,
    row_offset: int,
    built_rows: int,
) -> Option<(int, int)> {
    let last = last_visible_row(first_row, fitting_rows, total_rows);
    if built_rows == 0 || last < row_offset || first_row >= row_offset + built_rows {
        None
    } else {
        let from = if first_row < row_offset { 0 } else { first_row - row_offset };
        let to = if last - row_offset < built_rows { last - row_offset } else { built_rows - 1 };
        Some((from, to))
    }
}

/// Which of the rows that were built are to be painted.
pub fn rows_to_paint(
    first_row: usize,
    fitting_rows: usize,
    total_rows: usize,
    row_offset: usize,
    built_rows: usize,
) -> (painted: Option<(usize, usize)>)
    requires
        first_row + fitting_rows + 1 <= usize::MAX,
        row_offset + built_rows <= usize::MAX,
    ensures
        match painted_rows(
            first_row as int,
            fitting_rows as int,
            total_rows as int,
            row_offset as int,
            built_rows as int,
        ) {
            Some((from, to)) => painted matches Some(p) && p.0 == from && p.1 == to,
            None => painted is None,
        },
{
    let reach: usize = first_row + fitting_rows + 1;
    let last: usize = if reach < total_rows {
        reach
    } else if total_rows > 0 {
        total_rows - 1
    } else {
        0
    };
    let built_end: usize = row_offset + built_rows;
    if built_rows == 0 || last < row_offset || first_row >= built_end {
        return None;
    }
    let from: usize = if first_row < row_offset { 0 } else { first_row - row_offset };
    let to: usize = if last - row_offset < built_rows {
        last - row_offset
    } else {
        built_rows - 1
    };
    Some((from, to))
}

/// The rows of consecutive lines follow each other.
proof fn lemma_file_rows_concatenate(noted: Set<usize>, first: int, middle: int, end: int)
    requires
        first <= middle <= end,
    ensures
        file_rows(noted, first, end) == file_rows(noted, first, middle) + file_rows(
            noted,
            middle,
            end,
        ),
    decreases end - middle,
{
    if middle < end {
        lemma_file_rows_concatenate(noted, first, middle, end - 1);
    }
    assert(file_rows(noted, first, end) =~= file_rows(noted, first, middle) + file_rows(
        noted,
        middle,
        end,
    ));
}

proof fn lemma_window_end(noted: Set<usize>, first: int, total_lines: int, room: int)
    requires
        0 <= first <= total_lines,
    ensures
        ({
            let end = window_end(noted, first, total_lines, room);
            &&& first <= end <= total_lines
            &&& end == total_lines || file_rows(noted, first, end).len() >= room
            &&& room > 0 && first < total_lines ==> first < end
        }),
    decreases total_lines - first,
{
    if room > 0 && first < total_lines {
        let rest = room - line_rows(noted, first as usize).len();
        let end = window_end(noted, first + 1, total_lines, rest);
        lemma_window_end(noted, first + 1, total_lines, rest);
        lemma_file_rows_concatenate(noted, first, first + 1, end);
        assert(file_rows(noted, first, first + 1) =~= line_rows(noted, first as usize)) by {
            assert(file_rows(noted, first, first) == Seq::<DisplayRow>::empty());
        }
    }
}

/// The first row of a line stands below one row per line and one row per note before it.
pub proof fn law_rows_before_a_line(noted: Set<usize>, line_no: int)
    requires
        noted.finite(),
        0 <= line_no <= usize::MAX,
    ensures
        file_rows(noted, 0, line_no).len() == line_no + notes_below(noted, line_no),
    decreases line_no,
{
    if line_no == 0 {
        assert(noted.filter(|line: usize| line < line_no) =~= Set::<usize>::empty());
    } else {
        law_rows_before_a_line(noted, line_no - 1);
        lemma_notes_below_step(noted, (line_no - 1) as usize);
    }
}

/// Where every note belongs to a line of the file, the file takes as many rows as it has lines
/// and notes together.
pub proof fn law_total_rows(noted: Set<usize>, total_lines: int)
    requires
        noted.finite(),
        0 <= total_lines <= usize::MAX,
        forall|line: usize| noted.contains(line) ==> line < total_lines,
    ensures
        file_rows(noted, 0, total_lines).len() == total_lines + noted.len(),
{
    law_rows_before_a_line(noted, total_lines);
    assert(noted.filter(|line: usize| line < total_lines) =~= noted);
}

/// A noted line takes two rows, the note directly above the text; any other line takes one.
pub proof fn law_notes_stand_above_their_lines(
    noted: Set<usize>,
    line_no: usize,
    total_lines: int,
)
    requires
        noted.finite(),
        line_no < total_lines <= usize::MAX,
    ensures
        ({
            let rows = file_rows(noted, 0, total_lines);
            let row = line_no + notes_below(noted, line_no as int);
            if noted.contains(line_no) {
                &&& row + 1 < rows.len()
                &&& rows[row] == (DisplayRow::Note { line_no })
                &&& rows[row + 1] == (DisplayRow::Content { line_no })
            } else {
                &&& row < rows.len()
                &&& rows[row] == (DisplayRow::Content { line_no })
            }
        }),
{
    law_rows_before_a_line(noted, line_no as int);
    lemma_file_rows_concatenate(noted, 0, line_no as int, total_lines);
    lemma_file_rows_concatenate(noted, line_no as int, line_no + 1, total_lines);
    assert(file_rows(noted, line_no as int, line_no as int) == Seq::<DisplayRow>::empty());
    assert(file_rows(noted, line_no as int, line_no + 1) =~= line_rows(noted, line_no));
}

/// A window holds the rows of the pane from its offset on, without gap or change.
pub proof fn law_window_is_a_slice_of_the_pane(
    noted: Set<usize>,
    total_lines: int,
    first_row: int,
    fitting_rows: Option<usize>,
)
    requires
        noted.finite(),
        0 < total_lines <= usize::MAX,
        0 <= first_row,
    ensures
        ({
            let (first, end) = window_lines(noted, total_lines, first_row, fitting_rows);
            let rows = file_rows(noted, first, end);
            let offset = first + notes_below(noted, first);
            &&& offset + rows.len() <= file_rows(noted, 0, total_lines).len()
            &&& rows == file_rows(noted, 0, total_lines).subrange(offset, offset + rows.len())
        }),
{
    let first = window_first_line(total_lines, noted.len() as int, first_row);
    let room = window_size(noted.len() as int, fitting_rows);
    let end = window_end(noted, first, total_lines, room);
    let rows = file_rows(noted, first, end);
    let offset = first + notes_below(noted, first);
    lemma_window_end(noted, first, total_lines, room);
    law_rows_before_a_line(noted, first);
    lemma_file_rows_concatenate(noted, 0, first, total_lines);
    lemma_file_rows_concatenate(noted, first, end, total_lines);
    assert(rows =~= file_rows(noted, 0, total_lines).subrange(offset, offset + rows.len()));
}

/// A window holds every row that the viewport it was built for can show, and [`BUFFER`] rows on
/// either side, as far as the pane has them.
pub proof fn law_window_covers_the_view(
    noted: Set<usize>,
    total_lines: int,
    first_row: int,
    fitting_rows: Option<usize>,
    row: int,
)
    requires
        noted.finite(),
        0 < total_lines <= usize::MAX,
        0 <= first_row,
        0 <= row < file_rows(noted, 0, total_lines).len(),
        first_row - BUFFER <= row < first_row + rows_in_view(fitting_rows) + BUFFER,
    ensures
        ({
            let (first, end) = window_lines(noted, total_lines, first_row, fitting_rows);
            let rows = file_rows(noted, first, end);
            let offset = first + notes_below(noted, first);
            offset <= row < offset + rows.len()
        }),
{
    let first = window_first_line(total_lines, noted.len() as int, first_row);
    let room = window_size(noted.len() as int, fitting_rows);
    let end = window_end(noted, first, total_lines, room);
    lemma_window_end(noted, first, total_lines, room);
    law_rows_before_a_line(noted, first);
    lemma_notes_below_is_bounded(noted, first);
    lemma_file_rows_concatenate(noted, 0, first, total_lines);
    lemma_file_rows_concatenate(noted, first, end, total_lines);
    if first == 0 {
        assert(noted.filter(|line: usize| line < first) =~= Set::<usize>::empty());
    }
    if end < total_lines {
        assert(file_rows(noted, first, end).len() >= room);
    } else {
        assert(file_rows(noted, end, total_lines).len() == 0);
    }
}

/// Exactly those of the built rows are painted that the viewport shows, as far as the pane reaches.
pub proof fn law_painted_rows_are_the_visible_ones(
    first_row: int,
    fitting_rows: int,
    total_rows: int,
    row_offset: int,
    built_rows: int,
    built_row: int,
)
    requires
        0 <= first_row,
        0 <= fitting_rows,
        0 <= row_offset,
        0 <= total_rows,
        0 <= built_row < built_rows,
    ensures
        (painted_rows(first_row, fitting_rows, total_rows, row_offset, built_rows) matches Some(
            (from, to),
        ) && from <= built_row <= to) <==> first_row <= row_offset + built_row <= first_row
            + fitting_rows + 1 && (row_offset + built_row < total_rows || row_offset + built_row
            == 0),
{
}

/// What is to be painted is a range of built rows that is not empty.
pub proof fn law_painted_rows_are_built(
    first_row: int,
    fitting_rows: int,
    total_rows: int,
    row_offset: int,
    built_rows: int,
)
    requires
        0 <= first_row,
        0 <= fitting_rows,
        0 <= row_offset,
        0 <= built_rows,
        row_offset + built_rows <= total_rows,
    ensures
        painted_rows(first_row, fitting_rows, total_rows, row_offset, built_rows) matches Some(
            (from, to),
        ) ==> 0 <= from <= to < built_rows,
{
}

/// A row belongs to the line whose note or text it shows.
pub proof fn law_rows_belong_to_their_lines(line_no: usize)
    ensures
        (DisplayRow::Note { line_no }).spec_line_no() == line_no,
        (DisplayRow::Content { line_no }).spec_line_no() == line_no,
{
}

/// Going one line down passes one more note exactly where that line is noted.
pub proof fn law_notes_below_count_noted_lines(noted: Set<usize>, line_no: usize)
    requires
        noted.finite(),
    ensures
        notes_below(noted, 0) == 0,
        noted.contains(line_no) ==> notes_below(noted, line_no + 1) == notes_below(
            noted,
            line_no as int,
        ) + 1,
        !noted.contains(line_no) ==> notes_below(noted, line_no + 1) == notes_below(
            noted,
            line_no as int,
        ),
{
    assert(noted.filter(|line: usize| line < 0int) =~= Set::<usize>::empty());
    lemma_notes_below_step(noted, line_no);
}

/// A list with one more line has that line's rows at its end: the text, and right above it the
/// note where there is one. No line has no row.
pub proof fn law_each_listed_line_has_its_rows(noted: Set<usize>, lines: Seq<usize>, line_no: usize)
    ensures
        listed_rows(noted, Seq::empty()).len() == 0,
        noted.contains(line_no) ==> listed_rows(noted, lines.push(line_no)) == listed_rows(
            noted,
            lines,
        ).push(DisplayRow::Note { line_no }).push(DisplayRow::Content { line_no }),
        !noted.contains(line_no) ==> listed_rows(noted, lines.push(line_no)) == listed_rows(
            noted,
            lines,
        ).push(DisplayRow::Content { line_no }),
{
    assert(lines.push(line_no).drop_last() =~= lines);
    let rows = listed_rows(noted, lines);
    if noted.contains(line_no) {
        assert(listed_rows(noted, lines.push(line_no)) =~= rows.push(
            DisplayRow::Note { line_no },
        ).push(DisplayRow::Content { line_no }));
    } else {
        assert(listed_rows(noted, lines.push(line_no)) =~= rows.push(
            DisplayRow::Content { line_no },
        ));
    }
}

/// The texts of the rows of a list are its lines, all of them, in their order.
pub proof fn law_every_listed_line_is_shown(noted: Set<usize>, lines: Seq<usize>)
    ensures
        listed_rows(noted, lines).filter(|row: DisplayRow| row is Content) == lines.map_values(
            |line_no: usize| DisplayRow::Content { line_no },
        ),
    decreases lines.len(),
{
    reveal(Seq::filter);
    let is_text = |row: DisplayRow| row is Content;
    let text_row = |line_no: usize| DisplayRow::Content { line_no };
    if lines.len() > 0 {
        let front = lines.drop_last();
        let last = lines.last();
        law_every_listed_line_is_shown(noted, front);
        let rows = listed_rows(noted, front);
        law_each_listed_line_has_its_rows(noted, front, last);
        assert(front.push(last) =~= lines);
        rows.lemma_filter_push(DisplayRow::Content { line_no: last }, is_text);
        rows.lemma_filter_push(DisplayRow::Note { line_no: last }, is_text);
        rows.push(DisplayRow::Note { line_no: last }).lemma_filter_push(
            DisplayRow::Content { line_no: last },
            is_text,
        );
        assert(lines.map_values(text_row) =~= front.map_values(text_row).push(text_row(last)));
    }
    assert(listed_rows(noted, lines).filter(is_text) =~= lines.map_values(text_row));
}

/// The rows of a window are kept in their order, and the labels are those of the rows.
pub proof fn law_every_row_carries_its_label(
    rows: Seq<(DisplayRow, String)>,
    notes: Map<usize, Seq<char>>,
    reader: &FileReader,
    data: Seq<u8>,
    i: int,
)
    requires
        0 <= i < rows.len(),
        rows_are_labelled(rows, notes, reader, data),
    ensures
        row_kinds(rows).len() == rows.len(),
        row_kinds(rows)[i] == rows[i].0,
        rows[i].0 matches DisplayRow::Note { line_no } ==> rows[i].1@ == note_label_text(
            notes[line_no],
        ),
        rows[i].0 matches DisplayRow::Content { line_no } ==> rows[i].1@ == content_label_text(
            line_no as nat,
            line_text(reader, data, line_no as int),
        ),
{
}

/// A window is no larger than it has to be: it begins as many lines before the estimate as there
/// are notes and rows of padding, as far as the file reaches, and where the file goes on behind it
/// holds the rows in view, the notes and the padding twice, and at most one row more.
pub proof fn law_window_is_no_larger_than_needed(
    noted: Set<usize>,
    total_lines: int,
    first_row: int,
    fitting_rows: Option<usize>,
)
    requires
        noted.finite(),
        0 < total_lines <= usize::MAX,
        0 <= first_row,
    ensures
        ({
            let (first, end) = window_lines(noted, total_lines, first_row, fitting_rows);
            let rows = file_rows(noted, first, end);
            let in_view = match fitting_rows {
                Some(fitting) => fitting + 1,
                None => 80,
            };
            let back = first_row - noted.len() - 30;
            &&& back <= 0 ==> first == 0
            &&& 0 <= back < total_lines ==> first == back
            &&& back >= total_lines ==> first == total_lines - 1
            &&& first < end <= total_lines
            &&& rows.len() <= in_view + noted.len() + 61
            &&& end < total_lines ==> rows.len() >= in_view + noted.len() + 60
        }),
{
    let (first, end) = window_lines(noted, total_lines, first_row, fitting_rows);
    let room = window_size(noted.len() as int, fitting_rows);
    lemma_window_end(noted, first, total_lines, room);
    lemma_window_is_filled_once(noted, first, total_lines, room);
}

proof fn lemma_window_is_filled_once(noted: Set<usize>, first: int, total_lines: int, room: int)
    requires
        0 <= first <= total_lines,
        0 <= room,
    ensures
        file_rows(noted, first, window_end(noted, first, total_lines, room)).len() <= room + 1,
    decreases total_lines - first,
{
    if room > 0 && first < total_lines {
        let rest = room - line_rows(noted, first as usize).len();
        let end = window_end(noted, first + 1, total_lines, rest);
        if rest >= 0 {
            lemma_window_is_filled_once(noted, first + 1, total_lines, rest);
        } else {
            assert(end == first + 1);
        }
        lemma_window_end(noted, first + 1, total_lines, rest);
        lemma_file_rows_concatenate(noted, first, first + 1, end);
        assert(file_rows(noted, first, first) == Seq::<DisplayRow>::empty());
        assert(file_rows(noted, first, first + 1) =~= line_rows(noted, first as usize));
    }
}

/// The text of a line is what the bytes of its range decode to, as far as the file reaches, without
/// the line feeds at the end; a line without bytes, or that does not exist, has no text.
pub proof fn law_line_text_is_that_of_its_bytes(
    reader: &FileReader,
    data: Seq<u8>,
    line_no: int,
    start: int,
    end: int,
)
    requires
        line_span(data, line_no) == Some((start, end)),
    ensures
        ({
            let bytes = file_bytes(reader);
            let stop = if end < bytes.len() { end } else { bytes.len() as int };
            let decoded = decoded_text(file_encoding(reader), bytes.subrange(start, stop));
            let text = line_text(reader, data, line_no);
            &&& start < stop ==> {
                &&& line_chunk(reader, data, line_no) == decoded
                &&& text.len() <= decoded.len()
                &&& text == decoded.take(text.len() as int)
                &&& forall|i: int| text.len() <= i < decoded.len() ==> #[trigger] decoded[i] == '\n'
                &&& text.len() > 0 ==> text.last() != '\n'
            }
            &&& start >= stop ==> line_chunk(reader, data, line_no).len() == 0 && text.len() == 0
        }),
{
    law_only_final_newlines_are_dropped(line_chunk(reader, data, line_no));
}

/// A line that does not exist has no text.
pub proof fn law_missing_lines_have_no_text(reader: &FileReader, data: Seq<u8>, line_no: int)
    requires
        line_span(data, line_no) is None,
    ensures
        line_chunk(reader, data, line_no).len() == 0,
        line_text(reader, data, line_no).len() == 0,
{
    law_only_final_newlines_are_dropped(line_chunk(reader, data, line_no));
}

/// Notes as text are the notes of the same lines, character for character.
pub proof fn law_note_texts_are_the_notes(notes: Map<usize, String>, line_no: usize)
    ensures
        note_texts(notes).contains_key(line_no) <==> notes.contains_key(line_no),
        notes.contains_key(line_no) ==> note_texts(notes)[line_no] == notes[line_no]@,
{
}

/// The label of a line ends with its text, and in front of that, behind spaces and with two spaces
/// after it, stands its number counted from 1.
pub proof fn law_content_labels_show_number_and_text(line_no: nat, text: Seq<char>)
    ensures
        ({
            let label = content_label_text(line_no, text);
            let digits = decimal_text(line_no + 1).len() as int;
            let width = if digits < 6 { 6 } else { digits };
            let number = label.subrange(width - digits, width);
            &&& label.len() == width + 2 + text.len()
            &&& label.skip(width + 2) == text
            &&& label[width] == ' ' && label[width + 1] == ' '
            &&& forall|i: int| 0 <= i < width - digits ==> #[trigger] label[i] == ' '
            &&& forall|i: int| 0 <= i < digits ==> '0' <= #[trigger] number[i] <= '9'
            &&& number_read(number) == line_no + 1
        }),
{
    reveal_strlit("  ");
    let decimal = decimal_text(line_no + 1);
    let digits = decimal.len() as int;
    let width = if digits < 6 { 6 } else { digits };
    let aligned = right_aligned(decimal, LINE_NUMBER_WIDTH as nat);
    let label = content_label_text(line_no, text);
    law_decimal_text_is_read_back(line_no + 1);
    law_alignment_puts_spaces_in_front(decimal, LINE_NUMBER_WIDTH as nat);
    assert(label.skip(width + 2) =~= text);
    assert(label.subrange(width - digits, width) =~= aligned.skip(width - digits));
    assert forall|i: int| 0 <= i < width - digits implies #[trigger] label[i] == ' ' by {
        assert(aligned[i] == ' ');
    }
}

/// The label of a note is eight spaces, four equals signs, a space, and the note.
pub proof fn law_note_labels_show_the_note(text: Seq<char>)
    ensures
        ({
            let label = note_label_text(text);
            &&& label.len() == 13 + text.len()
            &&& forall|i: int| 0 <= i < 8 ==> #[trigger] label[i] == ' '
            &&& forall|i: int| 8 <= i < 12 ==> #[trigger] label[i] == '='
            &&& label[12] == ' '
            &&& label.skip(13) == text
        }),
{
    reveal_strlit("        ==== ");
    assert(note_label_text(text).skip(13) =~= text);
}

/// The pieces of a text between its line feeds; a text without one is a single piece.
pub open spec fn pieces(text: Seq<char>) -> Seq<Seq<char>>
    decreases text.len(),
{
    if text.len() == 0 {
        seq![Seq::empty()]
    } else {
        let front = pieces(text.drop_last());
        if text.last() == '\n' {
            front.push(Seq::empty())
        } else {
            front.drop_last().push(front.last().push(text.last()))
        }
    }
}

proof fn lemma_pieces_are_not_none(text: Seq<char>)
    ensures
        pieces(text).len() > 0,
    decreases text.len(),
{
    if text.len() > 0 {
        lemma_pieces_are_not_none(text.drop_last());
    }
}

proof fn lemma_single_piece(text: Seq<char>)
    requires
        !text.contains('\n'),
    ensures
        pieces(text) == seq![text],
    decreases text.len(),
{
    if text.len() > 0 {
        let front = text.drop_last();
        assert(!front.contains('\n')) by {
            if front.contains('\n') {
                assert(text[front.index_of('\n')] == '\n');
            }
        }
        assert(text.contains(text[text.len() - 1]));
        lemma_single_piece(front);
        assert(text =~= front.push(text.last()));
        assert(pieces(text) =~= seq![text]);
    } else {
        assert(text =~= Seq::<char>::empty());
    }
}

proof fn lemma_pieces_of_joined_texts(a: Seq<char>, b: Seq<char>)
    ensures
        pieces(a + seq!['\n'] + b) == pieces(a) + pieces(b),
    decreases b.len(),
{
    let joined = a + seq!['\n'] + b;
    lemma_pieces_are_not_none(a);
    lemma_pieces_are_not_none(b);
    if b.len() == 0 {
        assert(joined.drop_last() =~= a);
        assert(pieces(joined) =~= pieces(a) + pieces(b));
    } else {
        let front = b.drop_last();
        lemma_pieces_are_not_none(front);
        lemma_pieces_of_joined_texts(a, front);
        assert(joined.drop_last() =~= a + seq!['\n'] + front);
        assert(joined.last() == b.last());
        let all = pieces(a) + pieces(front);
        assert(all.last() == pieces(front).last());
        assert(all.drop_last() =~= pieces(a) + pieces(front).drop_last());
        assert(pieces(joined) =~= pieces(a) + pieces(b));
    }
}

/// A single line is copied as its text, below its note where it has one.
pub proof fn law_one_line_is_copied_below_its_note(
    line_no: usize,
    notes: Map<usize, Seq<char>>,
    reader: &FileReader,
    data: Seq<u8>,
)
    ensures
        ({
            let text = line_text(reader, data, line_no as int);
            let copied = clipboard_lines(seq![line_no], notes, reader, data);
            &&& !notes.contains_key(line_no) ==> copied == text
            &&& notes.contains_key(line_no) ==> copied == seq!['=', '=', '=', '=', ' ']
                + notes[line_no] + seq!['\n'] + text
        }),
{
    reveal_strlit("==== ");
    reveal_strlit("\n");
    assert("==== "@ =~= seq!['=', '=', '=', '=', ' ']);
    assert("\n"@ =~= seq!['\n']);
}

/// Whatever lines are copied, one more line comes below them: a line feed, and what that line
/// copies alone. No line copies nothing.
pub proof fn law_copied_lines_stand_below_each_other(
    lines: Seq<usize>,
    line_no: usize,
    notes: Map<usize, Seq<char>>,
    reader: &FileReader,
    data: Seq<u8>,
)
    ensures
        clipboard_lines(Seq::empty(), notes, reader, data).len() == 0,
        lines.len() > 0 ==> clipboard_lines(lines.push(line_no), notes, reader, data)
            == clipboard_lines(lines, notes, reader, data) + seq!['\n'] + clipboard_lines(
            seq![line_no],
            notes,
            reader,
            data,
        ),
{
    reveal_strlit("\n");
    assert("\n"@ =~= seq!['\n']);
    assert(lines.push(line_no).drop_last() =~= lines);
}

/// Lines without notes are copied one to a piece: as many pieces between line feeds as there are
/// lines, and each is the text of its line, be it empty.
pub proof fn law_every_copied_line_is_a_piece(
    lines: Seq<usize>,
    notes: Map<usize, Seq<char>>,
    reader: &FileReader,
    data: Seq<u8>,
)
    requires
        lines.len() > 0,
        forall|i: int|
            0 <= i < lines.len() ==> !notes.contains_key(#[trigger] lines[i]) && !line_text(
                reader,
                data,
                lines[i] as int,
            ).contains('\n'),
    ensures
        ({
            let copied = pieces(clipboard_lines(lines, notes, reader, data));
            &&& copied.len() == lines.len()
            &&& forall|i: int|
                0 <= i < lines.len() ==> #[trigger] copied[i] == line_text(
                    reader,
                    data,
                    lines[i] as int,
                )
        }),
    decreases lines.len(),
{
    let last = lines.last();
    let text = line_text(reader, data, last as int);
    assert(lines[lines.len() - 1] == last);
    law_one_line_is_copied_below_its_note(last, notes, reader, data);
    lemma_single_piece(text);
    if lines.len() == 1 {
        assert(lines =~= seq![last]);
    } else {
        let front = lines.drop_last();
        assert forall|i: int| 0 <= i < front.len() implies !notes.contains_key(#[trigger] front[i])
            && !line_text(reader, data, front[i] as int).contains('\n') by {
            assert(lines[i] == front[i]);
        }
        law_every_copied_line_is_a_piece(front, notes, reader, data);
        law_copied_lines_stand_below_each_other(front, last, notes, reader, data);
        assert(front.push(last) =~= lines);
        lemma_pieces_of_joined_texts(clipboard_lines(front, notes, reader, data), text);
        let copied = pieces(clipboard_lines(lines, notes, reader, data));
        assert forall|i: int| 0 <= i < lines.len() implies #[trigger] copied[i] == line_text(
            reader,
            data,
            lines[i] as int,
        ) by {
            if i < front.len() {
                assert(front[i] == lines[i]);
            }
        }
    }
}

/// Copying one more line adds its text as a piece, and right before that, where the line is noted,
/// the prefix and the note as a piece of their own.
pub proof fn law_a_noted_line_is_copied_in_two_pieces(
    lines: Seq<usize>,
    line_no: usize,
    notes: Map<usize, Seq<char>>,
    reader: &FileReader,
    data: Seq<u8>,
)
    requires
        lines.len() > 0,
        !line_text(reader, data, line_no as int).contains('\n'),
        notes.contains_key(line_no) ==> !notes[line_no].contains('\n'),
    ensures
        ({
            let before = pieces(clipboard_lines(lines, notes, reader, data));
            let after = pieces(clipboard_lines(lines.push(line_no), notes, reader, data));
            let text = line_text(reader, data, line_no as int);
            &&& !notes.contains_key(line_no) ==> after == before.push(text)
            &&& notes.contains_key(line_no) ==> after == before.push(
                seq!['=', '=', '=', '=', ' '] + notes[line_no],
            ).push(text)
        }),
{
    let text = line_text(reader, data, line_no as int);
    let copied = clipboard_lines(lines, notes, reader, data);
    let before = pieces(copied);
    let after = pieces(clipboard_lines(lines.push(line_no), notes, reader, data));
    law_copied_lines_stand_below_each_other(lines, line_no, notes, reader, data);
    law_one_line_is_copied_below_its_note(line_no, notes, reader, data);
    lemma_pieces_of_joined_texts(copied, clipboard_lines(seq![line_no], notes, reader, data));
    lemma_single_piece(text);
    if notes.contains_key(line_no) {
        let note = seq!['=', '=', '=', '=', ' '] + notes[line_no];
        assert(!note.contains('\n')) by {
            if note.contains('\n') {
                let i = note.index_of('\n');
                assert(i >= 5 && notes[line_no][i - 5] == '\n');
            }
        }
        lemma_single_piece(note);
        lemma_pieces_of_joined_texts(note, text);
        assert(after =~= before.push(note).push(text));
    } else {
        assert(after =~= before.push(text));
    }
}

/// No note is labelled like a line of the file.
pub proof fn law_note_labels_differ_from_content_labels(
    note: Seq<char>,
    line_no: nat,
    text: Seq<char>,
)
    ensures
        note_label_text(note) != content_label_text(line_no, text),
{
    reveal_strlit("        ==== ");
    reveal_strlit("  ");
    let number = decimal_text(line_no + 1);
    lemma_decimal_text_is_digits(line_no + 1);
    let aligned = right_aligned(number, LINE_NUMBER_WIDTH as nat);
    assert(note_label_text(note)[5] == ' ');
    assert(content_label_text(line_no, text)[5] == aligned[5]);
    if number.len() >= LINE_NUMBER_WIDTH {
        assert(is_digit(number[5]));
    } else {
        assert(aligned[5] == number[number.len() - 1]);
        assert(is_digit(number[number.len() - 1]));
    }
}

} // verus!
