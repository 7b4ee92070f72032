use std::collections::{BTreeMap, BTreeSet};
use std::io::Write;

use large_text_core::file_reader::FileReader;
use rlogg::display::{
    append_clipboard_entry, build_listed_rows, build_window, content_label, label_chunk,
    lines_for_clipboard, note_label, notes_before, read_line, rows_to_paint, window_range,
    DisplayRow,
};
use rlogg::line_index::FullLineIndex;

fn open_as(contents: &[u8], encoding: &'static encoding_rs::Encoding) -> FileReader {
    let mut file = tempfile::NamedTempFile::new().unwrap();
    file.write_all(contents).unwrap();
    FileReader::new(file.path().to_path_buf(), encoding).unwrap()
}

fn open(contents: &[u8]) -> FileReader {
    open_as(contents, encoding_rs::UTF_8)
}

fn notes(entries: &[(usize, &str)]) -> BTreeMap<usize, String> {
    entries.iter().map(|(line, note)| (*line, note.to_string())).collect()
}

fn note(line_no: usize) -> DisplayRow {
    DisplayRow::Note { line_no }
}

fn content(line_no: usize) -> DisplayRow {
    DisplayRow::Content { line_no }
}

fn kinds(rows: &[(DisplayRow, String)]) -> Vec<DisplayRow> {
    rows.iter().map(|row| row.0).collect()
}

fn numbered_lines(count: usize) -> Vec<u8> {
    let lines: Vec<String> = (0..count).map(|n| format!("line {}", n)).collect();
    lines.join("\n").into_bytes()
}

#[test]
fn a_row_knows_its_line() {
    assert_eq!(note(4).line_no(), 4);
    assert_eq!(content(9).line_no(), 9);
}

#[test]
fn notes_before_counts_strictly_earlier_notes() {
    let notes = notes(&[(2, "a"), (5, "b"), (9, "c")]);
    assert_eq!(notes_before(&notes, 0), 0);
    assert_eq!(notes_before(&notes, 2), 0);
    assert_eq!(notes_before(&notes, 3), 1);
    assert_eq!(notes_before(&notes, 9), 2);
    assert_eq!(notes_before(&notes, 100), 3);
    assert_eq!(notes_before(&BTreeMap::new(), 100), 0);
}

#[test]
fn labels_show_number_and_text() {
    assert_eq!(label_chunk(0, "hello\n"), "     1  hello");
    assert_eq!(label_chunk(99, "x\n\n"), "   100  x");
    assert_eq!(label_chunk(999_999, "x"), "1000000  x");
    assert_eq!(label_chunk(4, ""), "     5  ");
    assert_eq!(label_chunk(4, "cr\r\n"), "     5  cr\r");
}

#[test]
fn note_labels_carry_their_prefix() {
    assert_eq!(note_label("check this", false), "        ==== check this");
    assert_eq!(note_label("check this", true), "        ==== check this");
    assert_ne!(note_label("x", false), label_chunk(0, "==== x"));
}

#[test]
fn content_labels_read_the_file() {
    let reader = open(b"first\nsecond\n\nlast");
    let index = FullLineIndex::build(&reader);
    assert_eq!(content_label(0, &reader, &index), "     1  first");
    assert_eq!(content_label(1, &reader, &index), "     2  second");
    assert_eq!(content_label(2, &reader, &index), "     3  ");
    assert_eq!(content_label(3, &reader, &index), "     4  last");
    assert_eq!(content_label(4, &reader, &index), "     5  ");
    assert_eq!(read_line(1, &reader, &index), "second\n");
    assert_eq!(read_line(4, &reader, &index), "");
}

#[test]
fn lines_are_decoded_in_the_file_s_encoding() {
    let contents = b"caf\xE9\nna\xEFve\n";
    let reader = open_as(contents, encoding_rs::WINDOWS_1252);
    let index = FullLineIndex::build(&reader);
    assert_eq!(content_label(0, &reader, &index), "     1  caf\u{e9}");
    assert_eq!(content_label(1, &reader, &index), "     2  na\u{ef}ve");
    let reader = open(contents);
    assert_eq!(content_label(0, &reader, &index), "     1  caf\u{fffd}");
}

#[test]
fn a_noted_line_takes_two_rows() {
    let reader = open(b"a\nb\nc");
    let index = FullLineIndex::build(&reader);
    let rows = build_listed_rows(
        &vec![0, 2],
        &notes(&[(1, "skipped"), (2, "seen")]),
        &BTreeSet::new(),
        &reader,
        &index,
    );
    assert_eq!(
        rows,
        vec![
            (content(0), "     1  a".to_owned()),
            (note(2), "        ==== seen".to_owned()),
            (content(2), "     3  c".to_owned()),
        ]
    );
}

#[test]
fn a_window_holds_the_rows_from_its_offset_on() {
    let reader = open(&numbered_lines(1000));
    let index = FullLineIndex::build(&reader);
    let notes = notes(&[(3, "x"), (400, "y"), (401, "z"), (999, "w")]);
    let everything = build_listed_rows(
        &(0..1000).collect(),
        &notes,
        &BTreeSet::new(),
        &reader,
        &index,
    );
    assert_eq!(everything.len(), 1004);
    for first_row in [0, 1, 33, 34, 35, 399, 400, 434, 500, 990, 1003, 1100, 5000] {
        for fitting in [None, Some(0), Some(1), Some(40)] {
            let window =
                build_window(first_row, fitting, &notes, &BTreeSet::new(), &reader, &index);
            let end = window.row_offset + window.rows.len();
            assert_eq!(window.rows[..], everything[window.row_offset..end]);
            let in_view = match fitting {
                Some(rows) => rows + 1,
                None => 80,
            };
            let lowest = first_row.saturating_sub(30);
            let highest = (first_row + in_view + 30).min(everything.len());
            if lowest < everything.len() {
                assert!(window.row_offset <= lowest);
                assert!(end >= highest);
            }
        }
    }
}

#[test]
fn a_window_starts_before_the_estimate_by_notes_and_buffer() {
    let reader = open(&numbered_lines(1000));
    let index = FullLineIndex::build(&reader);
    let notes = notes(&[(3, "x"), (400, "y")]);
    let window = build_window(500, Some(10), &notes, &BTreeSet::new(), &reader, &index);
    assert_eq!(window.row_offset, 470);
    assert_eq!(window.rows[0].0, content(468));
    assert_eq!(window.rows.len(), 73);
    let window = build_window(5000, Some(10), &notes, &BTreeSet::new(), &reader, &index);
    assert_eq!(window.row_offset, 1001);
    assert_eq!(kinds(&window.rows), vec![content(999)]);
}

#[test]
fn a_window_may_end_with_one_row_more_than_it_has_room_for() {
    let reader = open(&numbered_lines(200));
    let index = FullLineIndex::build(&reader);
    let notes = notes(&[(61, "last")]);
    let window = build_window(0, Some(0), &notes, &BTreeSet::new(), &reader, &index);
    assert_eq!(window.rows.len(), 63);
    assert_eq!(window.rows[61].0, note(61));
    assert_eq!(window.rows[62].0, content(61));
}

#[test]
fn rows_to_paint_are_those_in_view() {
    assert_eq!(rows_to_paint(0, 10, 100, 0, 100), Some((0, 11)));
    assert_eq!(rows_to_paint(95, 10, 100, 0, 100), Some((95, 99)));
    assert_eq!(rows_to_paint(50, 10, 1000, 40, 100), Some((10, 21)));
    assert_eq!(rows_to_paint(30, 20, 1000, 40, 100), Some((0, 11)));
    assert_eq!(rows_to_paint(135, 20, 1000, 40, 100), Some((95, 99)));
}

#[test]
fn nothing_is_painted_outside_the_window() {
    assert_eq!(rows_to_paint(140, 20, 1000, 40, 100), None);
    assert_eq!(rows_to_paint(0, 10, 1000, 40, 100), None);
    assert_eq!(rows_to_paint(0, 39, 1000, 40, 100), Some((0, 0)));
    assert_eq!(rows_to_paint(0, 10, 0, 0, 0), None);
}

#[test]
fn clipboard_entries_put_the_note_above_the_line() {
    let mut text = "before\n".to_owned();
    append_clipboard_entry(&mut text, Some(&"why".to_owned()), "line\n");
    assert_eq!(text, "before\n==== why\nline");
    append_clipboard_entry(&mut text, None, "|next\n");
    assert_eq!(text, "before\n==== why\nline|next");
}

#[test]
fn copied_lines_stand_below_each_other() {
    let reader = open(b"a\nb\nc\nd\n");
    let index = FullLineIndex::build(&reader);
    let notes = notes(&[(0, "top"), (2, "mid")]);
    assert_eq!(lines_for_clipboard(&vec![], &notes, &reader, &index), "");
    assert_eq!(lines_for_clipboard(&vec![1], &notes, &reader, &index), "b");
    assert_eq!(
        lines_for_clipboard(&vec![0, 1, 2, 9], &notes, &reader, &index),
        "==== top\na\nb\n==== mid\nc\n"
    );
}

#[test]
fn a_window_takes_lines_until_its_rows_fill_it() {
    assert_eq!(window_range(0, Some(0), &BTreeMap::new(), 200), (0, 61));
    assert_eq!(window_range(0, None, &BTreeMap::new(), 200), (0, 140));
    assert_eq!(window_range(0, Some(0), &notes(&[(61, "last")]), 200), (0, 62));
    assert_eq!(window_range(0, Some(0), &notes(&[(0, "first")]), 200), (0, 61));
    assert_eq!(window_range(100, Some(9), &BTreeMap::new(), 200), (70, 140));
    assert_eq!(window_range(0, Some(9), &BTreeMap::new(), 5), (0, 5));
    assert_eq!(window_range(1000, Some(9), &BTreeMap::new(), 5), (4, 5));
}
