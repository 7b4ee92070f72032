use std::collections::BTreeSet;

use rlogg::selection::{apply_click, Modifiers, PaneSelection};

const PLAIN: Modifiers = Modifiers { shift: false, command: false };
const SHIFT: Modifiers = Modifiers { shift: true, command: false };
const COMMAND: Modifiers = Modifiers { shift: false, command: true };

fn set(lines: &[usize]) -> BTreeSet<usize> {
    lines.iter().copied().collect()
}

#[test]
fn a_plain_click_selects_one_line() {
    let outcome = apply_click(7, PLAIN, &set(&[1, 2, 3]), Some(1));
    assert_eq!(outcome, (set(&[7]), Some(7), Some(7)));
}

#[test]
fn a_shift_click_selects_the_range_from_the_anchor() {
    let down = apply_click(6, SHIFT, &set(&[1]), Some(3));
    assert_eq!(down, (set(&[3, 4, 5, 6]), Some(3), Some(6)));
    let up = apply_click(3, SHIFT, &set(&[1]), Some(6));
    assert_eq!(up, (set(&[3, 4, 5, 6]), Some(6), Some(3)));
    let alone = apply_click(4, SHIFT, &set(&[]), None);
    assert_eq!(alone, (set(&[4]), Some(4), Some(4)));
    let last = apply_click(usize::MAX, SHIFT, &set(&[]), Some(usize::MAX - 1));
    assert_eq!(last.0, set(&[usize::MAX - 1, usize::MAX]));
}

#[test]
fn shift_takes_precedence_over_command() {
    let both = Modifiers { shift: true, command: true };
    let outcome = apply_click(2, both, &set(&[9]), Some(1));
    assert_eq!(outcome, (set(&[1, 2]), Some(1), Some(2)));
}

#[test]
fn a_command_click_toggles_a_line() {
    let (selected, anchor, cursor) = apply_click(5, COMMAND, &set(&[1, 2]), Some(1));
    assert_eq!(selected, set(&[1, 2, 5]));
    assert_eq!((anchor, cursor), (Some(5), Some(5)));
    let (selected, anchor, cursor) = apply_click(5, COMMAND, &selected, anchor);
    assert_eq!(selected, set(&[1, 2]));
    assert_eq!((anchor, cursor), (Some(5), Some(5)));
}

#[test]
fn arrows_move_the_end_of_the_range_in_the_file() {
    let mut selection = PaneSelection::new();
    selection.click(3, PLAIN);
    assert_eq!(selection.extend_in_file(false, 5), 4);
    assert_eq!(selection.selected, set(&[3, 4]));
    assert_eq!(selection.extend_in_file(false, 5), 4);
    assert_eq!(selection.extend_in_file(true, 5), 3);
    assert_eq!(selection.selected, set(&[3]));
    assert_eq!(selection.extend_in_file(true, 5), 2);
    assert_eq!(selection.selected, set(&[2, 3]));
    assert_eq!(selection.anchor, Some(3));
    assert_eq!(selection.cursor, Some(2));
}

#[test]
fn arrows_without_a_cursor_start_at_an_end_of_the_file() {
    let mut selection = PaneSelection::new();
    assert_eq!(selection.extend_in_file(true, 10), 8);
    assert_eq!(selection.selected, set(&[8, 9]));
    assert_eq!(selection.anchor, Some(9));
    let mut selection = PaneSelection::new();
    assert_eq!(selection.extend_in_file(false, 10), 1);
    assert_eq!(selection.selected, set(&[0, 1]));
    let mut selection = PaneSelection::new();
    assert_eq!(selection.extend_in_file(true, 1), 0);
    assert_eq!(selection.selected, set(&[0]));
}

#[test]
fn a_cursor_behind_a_shorter_file_comes_back() {
    let mut selection = PaneSelection::new();
    selection.click(8, PLAIN);
    assert_eq!(selection.extend_in_file(false, 5), 4);
    assert_eq!(selection.selected, set(&[4, 5, 6, 7, 8]));
}

#[test]
fn arrows_move_among_listed_lines() {
    let lines = vec![2, 10, 30, 31, 90];
    let mut selection = PaneSelection::new();
    selection.click(10, PLAIN);
    assert_eq!(selection.extend_in_list(false, &lines), 30);
    assert_eq!(selection.extend_in_list(false, &lines), 31);
    assert_eq!(selection.selected, set(&[10, 30, 31]));
    assert_eq!(selection.extend_in_list(true, &lines), 30);
    assert_eq!(selection.selected, set(&[10, 30]));
    assert_eq!(selection.extend_in_list(true, &lines), 10);
    assert_eq!(selection.extend_in_list(true, &lines), 2);
    assert_eq!(selection.extend_in_list(true, &lines), 2);
    assert_eq!(selection.selected, set(&[2, 10]));
    assert_eq!(selection.anchor, Some(10));
}

#[test]
fn arrows_without_a_cursor_start_at_an_end_of_the_list() {
    let lines = vec![2, 10, 30];
    let mut selection = PaneSelection::new();
    assert_eq!(selection.extend_in_list(true, &lines), 10);
    assert_eq!(selection.selected, set(&[10, 30]));
    let mut selection = PaneSelection::new();
    assert_eq!(selection.extend_in_list(false, &lines), 10);
    assert_eq!(selection.selected, set(&[2, 10]));
    let mut selection = PaneSelection::new();
    assert_eq!(selection.extend_in_list(false, &vec![7]), 7);
    assert_eq!(selection.selected, set(&[7]));
}
