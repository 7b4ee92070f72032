use std::collections::{BTreeMap, BTreeSet};

use rlogg::lines::{insert_line, insertion_point, line_span_set, members, noted_lines};

#[test]
fn lines_are_inserted_at_their_place_once() {
    let mut lines: Vec<usize> = Vec::new();
    for line in [5, 1, 9, 5, 3, 1, 9] {
        insert_line(&mut lines, line);
    }
    assert_eq!(lines, vec![1, 3, 5, 9]);
}

#[test]
fn the_insertion_point_counts_smaller_lines() {
    let lines = vec![2, 4, 8];
    let points: Vec<usize> = (0..10).map(|line| insertion_point(&lines, line)).collect();
    assert_eq!(points, vec![0, 0, 0, 1, 1, 2, 2, 2, 2, 3]);
}

#[test]
fn sets_and_notes_list_their_lines_in_order() {
    let set: BTreeSet<usize> = [9, 2, 4].into_iter().collect();
    assert_eq!(members(&set), vec![2, 4, 9]);
    let mut notes = BTreeMap::new();
    notes.insert(7, "b".to_owned());
    notes.insert(0, "a".to_owned());
    assert_eq!(noted_lines(&notes), vec![0, 7]);
}

#[test]
fn a_span_includes_both_ends_in_either_order() {
    let expected: BTreeSet<usize> = [3, 4, 5].into_iter().collect();
    assert_eq!(line_span_set(3, 5), expected);
    assert_eq!(line_span_set(5, 3), expected);
    assert_eq!(line_span_set(4, 4).len(), 1);
}
