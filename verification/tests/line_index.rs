use std::io::Write;

use large_text_core::file_reader::FileReader;
use rlogg::app::FilterApp;
use rlogg::line_index::FullLineIndex;

fn open(contents: &[u8]) -> FileReader {
    let mut file = tempfile::NamedTempFile::new().unwrap();
    file.write_all(contents).unwrap();
    FileReader::new(file.path().to_path_buf(), encoding_rs::UTF_8).unwrap()
}

#[test]
fn an_empty_file_has_one_line() {
    let index = FullLineIndex::from_bytes(&[]);
    assert_eq!(index.total_lines(), 1);
    assert_eq!(index.line_range(0), Some((0, 0)));
    assert_eq!(index.line_range(1), None);
    assert_eq!(index.find_line_at_offset(0), 0);
    assert_eq!(index.find_line_at_offset(100), 0);
}

#[test]
fn a_file_without_a_final_newline_ends_with_a_partial_line() {
    let index = FullLineIndex::from_bytes(b"one\ntwo\nthree");
    assert_eq!(index.total_lines(), 3);
    assert_eq!(index.line_range(0), Some((0, 4)));
    assert_eq!(index.line_range(1), Some((4, 8)));
    assert_eq!(index.line_range(2), Some((8, 13)));
    assert_eq!(index.line_range(3), None);
    assert_eq!(index.line_range(usize::MAX), None);
}

#[test]
fn a_final_newline_is_followed_by_an_empty_line() {
    let index = FullLineIndex::from_bytes(b"one\n");
    assert_eq!(index.total_lines(), 2);
    assert_eq!(index.line_range(0), Some((0, 4)));
    assert_eq!(index.line_range(1), Some((4, 4)));
}

#[test]
fn empty_lines_are_counted() {
    let index = FullLineIndex::from_bytes(b"\n\n\n");
    assert_eq!(index.total_lines(), 4);
    assert_eq!(index.line_range(1), Some((1, 2)));
    assert_eq!(index.find_line_at_offset(2), 2);
    assert_eq!(index.find_line_at_offset(3), 3);
}

#[test]
fn build_indexes_the_mapped_file() {
    let reader = open(b"alpha\nbeta\n\ngamma");
    let index = FullLineIndex::build(&reader);
    assert_eq!(index.total_lines(), 4);
    assert_eq!(index.get_line_with_reader(0, &reader), Some((0, 6)));
    assert_eq!(index.get_line_with_reader(1, &reader), Some((6, 11)));
    assert_eq!(index.get_line_with_reader(2, &reader), Some((11, 12)));
    assert_eq!(index.get_line_with_reader(3, &reader), Some((12, 17)));
    assert_eq!(index.get_line_with_reader(4, &reader), None);
    assert!(index.line_fits(0));
    assert!(index.line_fits(usize::MAX));
    assert!(index.lines_fit(&vec![0, 3, 9]));
    assert!(index.span_fits(0, 4));
}

#[test]
fn offsets_resolve_to_the_line_that_holds_them() {
    let index = FullLineIndex::from_bytes(b"ab\ncd\n\nef");
    let lines: Vec<usize> = (0..9).map(|offset| index.find_line_at_offset(offset)).collect();
    assert_eq!(lines, vec![0, 0, 0, 1, 1, 1, 2, 3, 3]);
    assert_eq!(index.find_line_at_offset(9), 3);
    assert_eq!(index.find_line_at_offset(usize::MAX), 3);
}

#[test]
fn lines_of_very_different_lengths_stay_exact() {
    let mut data: Vec<u8> = Vec::new();
    let mut starts: Vec<usize> = Vec::new();
    for n in 0..3000usize {
        starts.push(data.len());
        for _ in 0..(n * 7919 % 101) {
            data.push(b'x');
        }
        data.push(b'\n');
    }
    let index = FullLineIndex::from_bytes(&data);
    assert_eq!(index.total_lines(), 3001);
    for n in 0..3000 {
        let (start, end) = index.line_range(n).unwrap();
        assert_eq!(start, starts[n]);
        assert_eq!(index.line_range(n + 1).unwrap().0, end);
        assert_eq!(index.find_line_at_offset(start), n);
        assert_eq!(index.find_line_at_offset(end - 1), n);
        assert_eq!(data[end - 1], b'\n');
        assert!(!data[start..end - 1].contains(&b'\n'));
    }
}

#[test]
fn a_match_behind_the_end_is_listed_behind_the_last_line() {
    let reader = open(b"one\ntwo");
    let index = FullLineIndex::build(&reader);
    assert_eq!(FilterApp::resolve_line_for_offset(&index, &reader, 0), 0);
    assert_eq!(FilterApp::resolve_line_for_offset(&index, &reader, 3), 0);
    assert_eq!(FilterApp::resolve_line_for_offset(&index, &reader, 4), 1);
    assert_eq!(FilterApp::resolve_line_for_offset(&index, &reader, 6), 1);
    assert_eq!(FilterApp::resolve_line_for_offset(&index, &reader, 7), 2);
    assert_eq!(FilterApp::resolve_line_for_offset(&index, &reader, 1000), 2);
}

#[test]
fn match_lines_are_inserted_in_order_and_once() {
    let reader = open(b"a\nb\nc\nd\ne\n");
    let index = FullLineIndex::build(&reader);
    let mut lines: Vec<usize> = vec![1, 3];
    FilterApp::insert_match_lines(&mut lines, &vec![8, 0, 2, 9, 4], &index, &reader);
    assert_eq!(lines, vec![0, 1, 2, 3, 4]);
}

#[test]
fn line_starts_resolve_to_their_lines() {
    let index = FullLineIndex::from_bytes(b"ab\n\ncd\n");
    for line in 0..index.total_lines() {
        let (start, _) = index.line_range(line).unwrap();
        assert_eq!(index.find_line_at_offset(start), line);
    }
    assert_eq!(index.line_range(3), Some((7, 7)));
}
