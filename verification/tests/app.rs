use std::collections::BTreeSet;
use std::io::Write;
use std::sync::Arc;

use large_text_core::file_reader::FileReader;
use rlogg::app::FilterApp;
use rlogg::display::DisplayRow;
use rlogg::selection::{ActivePane, Modifiers};
use rlogg::state::{PopupInput, SearchAction, SearchEvent, StatusKind};

const PLAIN: Modifiers = Modifiers { shift: false, command: false };
const SHIFT: Modifiers = Modifiers { shift: true, command: false };

const SAVE: PopupInput = PopupInput { save: true, cancel: false, delete: false, open: true };
const CANCEL: PopupInput = PopupInput { save: false, cancel: true, delete: false, open: true };
const DELETE: PopupInput = PopupInput { save: false, cancel: false, delete: true, open: true };
const CLOSE: PopupInput = PopupInput { save: false, cancel: false, delete: false, open: false };
const STAY: PopupInput = PopupInput { save: false, cancel: false, delete: false, open: true };

fn show(app: &mut FilterApp, contents: &[u8]) {
    let mut file = tempfile::NamedTempFile::new().unwrap();
    file.write_all(contents).unwrap();
    let reader = FileReader::new(file.path().to_path_buf(), encoding_rs::UTF_8).unwrap();
    app.open_file(Arc::new(reader));
}

fn viewer(contents: &[u8]) -> FilterApp {
    let mut app = FilterApp::default();
    show(&mut app, contents);
    app
}

/// Offsets: line 0 is 0..6, 1 is 6..11, 2 is 11..17, 3 is 17..23, 4 is 23..
fn greek() -> FilterApp {
    viewer(b"alpha\nbeta\ngamma\ndelta\nepsilon")
}

fn search(app: &mut FilterApp, pattern: &str) -> SearchAction {
    app.set_regex_input(pattern.to_owned());
    app.run_search()
}

fn set(lines: &[usize]) -> BTreeSet<usize> {
    lines.iter().copied().collect()
}

#[test]
fn a_new_viewer_is_empty() {
    let app = FilterApp::default();
    assert!(!app.has_file());
    assert!(!app.search_running());
    assert!(!app.takes_messages());
    assert!(!app.has_selection());
    assert!(!app.show_all_notes());
    assert_eq!(app.regex_input(), "");
    assert_eq!(app.active_pane(), ActivePane::Bottom);
    assert_eq!(app.scroll_target(), None);
    assert_eq!(app.note_popup_line(), None);
    assert!(app.match_line_numbers().is_empty());
    assert!(app.search_history().is_empty());
    assert!(app.selection_fits());
    assert_eq!(app.selected_text(), None);
}

#[test]
fn without_a_file_a_search_does_nothing() {
    let mut app = FilterApp::default();
    assert!(matches!(search(&mut app, "x"), SearchAction::Nothing));
    assert!(!app.search_running());
    assert!(app.search_history().is_empty());
}

#[test]
fn a_search_asks_for_the_file_to_be_searched() {
    let mut app = greek();
    match search(&mut app, "a+") {
        SearchAction::Start(request) => {
            assert_eq!(request.query, "a+");
            assert!(request.use_regex);
            assert!(!request.case_sensitive);
            assert_eq!(request.start_offset, 0);
            assert_eq!(request.max_results, 1_000_000);
        }
        _ => panic!("no search"),
    }
    assert!(app.search_running());
    assert!(app.takes_messages());
    assert_eq!(app.search_history()[0], "a+");
    assert_eq!(app.status(), (StatusKind::Running, "Searching\u{2026} 0 matches so far".to_owned()));
}

#[test]
fn an_invalid_pattern_is_reported() {
    let mut app = greek();
    assert!(matches!(search(&mut app, "a("), SearchAction::Cancel));
    let (kind, text) = app.status();
    assert_eq!(kind, StatusKind::Error);
    assert!(text.starts_with("Invalid regex: "));
    assert_eq!(text, format!("Invalid regex: {}", regex::Regex::new("a(").unwrap_err()));
    assert!(!app.takes_messages());
    assert!(app.search_history().is_empty());
    assert!(matches!(search(&mut app, "a"), SearchAction::Start(_)));
    assert_eq!(app.status().0, StatusKind::Running);
}

#[test]
fn the_outcome_of_compiling_decides_the_search() {
    let mut app = greek();
    app.store_note(1, "one");
    app.store_note(3, "three");
    app.set_regex_input("pattern".to_owned());
    let failed = app.start_search(Some("broken".to_owned()), set(&[]));
    assert!(matches!(failed, SearchAction::Cancel));
    assert_eq!(app.status(), (StatusKind::Error, "Invalid regex: broken".to_owned()));
    assert!(app.match_line_numbers().is_empty());
    let started = app.start_search(None, set(&[3]));
    assert!(matches!(started, SearchAction::Start(_)));
    assert_eq!(app.match_line_numbers(), &vec![3]);
    assert_eq!(app.note_matched_lines(), &set(&[3]));
    app.set_show_all_notes(true);
    app.start_search(None, set(&[3]));
    assert_eq!(app.match_line_numbers(), &vec![1, 3]);
    assert_eq!(app.note_matched_lines(), &set(&[3]));
}

#[test]
fn notes_are_searched_too() {
    let mut app = greek();
    app.store_note(3, "look at FOO");
    app.store_note(0, "nothing");
    app.store_note(4, "foo again");
    search(&mut app, "fo+");
    assert_eq!(app.match_line_numbers(), &vec![4]);
    search(&mut app, "(?i)fo+");
    assert_eq!(app.match_line_numbers(), &vec![3, 4]);
    assert_eq!(app.note_matched_lines(), &set(&[3, 4]));
    app.set_show_all_notes(true);
    app.run_search();
    assert_eq!(app.match_line_numbers(), &vec![0, 3, 4]);
    assert_eq!(app.note_matched_lines(), &set(&[3, 4]));
}

#[test]
fn an_empty_pattern_lists_notes_only() {
    let mut app = greek();
    app.store_note(3, "c");
    app.store_note(1, "a");
    assert!(matches!(search(&mut app, ""), SearchAction::Cancel));
    assert!(app.match_line_numbers().is_empty());
    app.set_show_all_notes(true);
    assert!(matches!(app.run_search(), SearchAction::Cancel));
    assert_eq!(app.match_line_numbers(), &vec![1, 3]);
    assert!(!app.search_running());
    assert!(app.note_matched_lines().is_empty());
    assert_eq!(app.status(), (StatusKind::Info, "2 matches found".to_owned()));
}

#[test]
fn reported_matches_are_listed_in_file_order() {
    let mut app = greek();
    app.store_note(2, "x marks");
    search(&mut app, "x");
    assert!(app.on_search_event(SearchEvent::Matches(vec![24, 25, 7]), 0));
    assert!(app.on_search_event(SearchEvent::Matches(vec![0, 12, 8]), 1));
    assert_eq!(app.match_line_numbers(), &vec![0, 1, 2, 4]);
    assert!(app.lists_line(4));
    assert!(!app.lists_line(3));
    assert!(app.on_search_event(SearchEvent::Ignored, 2));
    assert!(!app.on_search_event(SearchEvent::NothingYet, 3));
    assert!(app.takes_messages());
    assert!(!app.on_search_event(SearchEvent::Finished, 4));
    assert!(!app.takes_messages());
    assert!(!app.search_running());
    assert_eq!(app.status(), (StatusKind::Info, "4 matches found".to_owned()));
}

#[test]
fn reports_may_come_in_any_order_and_repeat() {
    let mut app = greek();
    search(&mut app, "x");
    app.on_search_event(SearchEvent::Matches(vec![18, 1]), 0);
    app.on_search_event(SearchEvent::Matches(vec![7]), 1);
    let mut other = greek();
    search(&mut other, "x");
    other.on_search_event(SearchEvent::Matches(vec![7]), 0);
    other.on_search_event(SearchEvent::Matches(vec![18, 1]), 1);
    other.on_search_event(SearchEvent::Matches(vec![18, 1]), 2);
    assert_eq!(app.match_line_numbers(), other.match_line_numbers());
    assert_eq!(app.match_line_numbers(), &vec![0, 1, 3]);
}

#[test]
fn a_poll_takes_in_a_bounded_number_of_messages() {
    let mut app = greek();
    search(&mut app, "x");
    assert!(app.on_search_event(SearchEvent::Ignored, 9_998));
    assert!(!app.on_search_event(SearchEvent::Ignored, 9_999));
    assert!(!app.on_search_event(SearchEvent::Matches(vec![0]), 9_999));
    assert_eq!(app.match_line_numbers(), &vec![0]);
    assert!(app.takes_messages());
}

#[test]
fn a_failed_search_shows_its_message() {
    let mut app = greek();
    search(&mut app, "x");
    assert!(!app.on_search_event(SearchEvent::Failed("too bad".to_owned()), 0));
    assert_eq!(app.status(), (StatusKind::Error, "too bad".to_owned()));
    assert!(!app.on_search_event(SearchEvent::Matches(vec![0]), 1));
    assert!(app.match_line_numbers().is_empty());
}

#[test]
fn a_search_that_is_gone_has_ended() {
    let mut app = greek();
    search(&mut app, "x");
    assert!(!app.on_search_event(SearchEvent::Disconnected, 0));
    assert!(!app.search_running());
    assert!(!app.takes_messages());
    assert_eq!(app.status(), (StatusKind::Info, "No matches.".to_owned()));
}

#[test]
fn clearing_keeps_notes_and_the_top_selection() {
    let mut app = greek();
    app.store_note(1, "kept");
    app.set_show_all_notes(true);
    search(&mut app, "x");
    app.on_search_event(SearchEvent::Matches(vec![0]), 0);
    app.click_top(2, PLAIN);
    app.click_bottom(0, PLAIN);
    app.clear_search();
    assert!(app.match_line_numbers().is_empty());
    assert!(app.bottom_selected().is_empty());
    assert_eq!(app.scroll_target(), None);
    assert!(!app.search_running());
    assert!(!app.takes_messages());
    assert_eq!(app.top_selected(), &set(&[2]));
    assert_eq!(app.notes().len(), 1);
    assert!(app.show_all_notes());
    assert_eq!(app.regex_input(), "x");
    assert_eq!(app.search_history().len(), 1);
}

#[test]
fn opening_a_file_drops_notes_and_results() {
    let mut app = greek();
    app.store_note(1, "gone");
    app.open_note_popup(1);
    app.set_show_all_notes(true);
    search(&mut app, "x");
    app.click_top(4, PLAIN);
    show(&mut app, b"other\nfile");
    assert!(app.notes().is_empty());
    assert!(app.match_line_numbers().is_empty());
    assert!(!app.show_all_notes());
    assert_eq!(app.note_popup_line(), None);
    assert_eq!(app.note_popup_text(), "");
    assert!(!app.takes_messages());
    assert_eq!(app.top_selected(), &set(&[4]));
    assert_eq!(app.total_rows(), 2);
}

#[test]
fn clicking_a_result_scrolls_the_top_pane() {
    let mut app = greek();
    app.store_note(0, "n");
    app.store_note(3, "m");
    search(&mut app, "x");
    app.on_search_event(SearchEvent::Matches(vec![7, 18]), 0);
    app.click_bottom(3, PLAIN);
    assert_eq!(app.active_pane(), ActivePane::Bottom);
    assert_eq!(app.scroll_target(), Some(3));
    assert_eq!(app.take_scroll_row(false), None);
    assert_eq!(app.scroll_target(), Some(3));
    assert_eq!(app.take_scroll_row(true), Some(4));
    assert_eq!(app.scroll_target(), None);
    assert_eq!(app.take_scroll_row(true), None);
    let window = app.top_rows(0, None);
    assert_eq!(window.rows[4].0, DisplayRow::Note { line_no: 3 });
}

#[test]
fn arrows_extend_the_selection_in_the_active_pane() {
    let mut app = greek();
    search(&mut app, "x");
    app.handle_arrow_keys(false, false, true);
    assert!(!app.has_selection());
    app.on_search_event(SearchEvent::Matches(vec![0, 11, 23]), 0);
    app.click_bottom(0, PLAIN);
    app.handle_arrow_keys(false, false, true);
    assert_eq!(app.bottom_selected(), &set(&[0, 2]));
    assert_eq!(app.scroll_target(), Some(2));
    app.handle_arrow_keys(true, false, true);
    app.handle_arrow_keys(false, false, false);
    assert_eq!(app.bottom_selected(), &set(&[0, 2]));
    app.handle_arrow_keys(false, true, true);
    assert_eq!(app.bottom_selected(), &set(&[0]));
    app.click_top(1, PLAIN);
    app.extend_selection(false);
    assert_eq!(app.top_selected(), &set(&[1, 2]));
    assert_eq!(app.scroll_target(), Some(2));
    assert_eq!(app.bottom_selected(), &set(&[0]));
}

#[test]
fn results_that_arrive_later_do_not_move_the_selection() {
    let mut app = greek();
    search(&mut app, "x");
    app.on_search_event(SearchEvent::Matches(vec![11]), 0);
    app.click_bottom(2, PLAIN);
    app.on_search_event(SearchEvent::Matches(vec![0, 23]), 1);
    assert_eq!(app.bottom_selected(), &set(&[2]));
    app.extend_selection(true);
    assert_eq!(app.bottom_selected(), &set(&[0, 2]));
}

#[test]
fn copying_takes_the_active_selection_with_notes() {
    let mut app = greek();
    app.store_note(1, "second letter");
    app.click_top(0, PLAIN);
    app.click_top(2, SHIFT);
    assert!(app.has_selection());
    assert!(app.selection_fits());
    assert_eq!(
        app.selected_text(),
        Some("alpha\n==== second letter\nbeta\ngamma".to_owned())
    );
    search(&mut app, "x");
    app.on_search_event(SearchEvent::Matches(vec![24]), 0);
    app.click_bottom(4, PLAIN);
    assert_eq!(app.selected_text(), Some("epsilon".to_owned()));
    app.clear_search();
    assert_eq!(app.selected_text(), None);
}

#[test]
fn a_saved_note_is_read_back_and_searched() {
    let mut app = greek();
    app.set_regex_input("todo".to_owned());
    app.open_note_popup(2);
    assert_eq!(app.note_popup_line(), Some(2));
    assert_eq!(app.note_popup_text(), "");
    app.set_note_popup_text("  todo: check \t".to_owned());
    assert!(matches!(app.handle_note_popup(STAY), SearchAction::Nothing));
    assert_eq!(app.note_popup_line(), Some(2));
    assert!(matches!(app.handle_note_popup(SAVE), SearchAction::Start(_)));
    assert_eq!(app.note_popup_line(), None);
    assert_eq!(app.note_popup_text(), "");
    assert_eq!(app.match_line_numbers(), &vec![2]);
    app.open_note_popup(2);
    assert_eq!(app.note_popup_text(), "todo: check");
}

#[test]
fn a_blank_note_is_removed() {
    let mut app = greek();
    app.store_note(2, "old");
    app.open_note_popup(2);
    app.set_note_popup_text(" \n ".to_owned());
    assert!(matches!(app.handle_note_popup(SAVE), SearchAction::Cancel));
    assert!(app.notes().is_empty());
}

#[test]
fn cancelling_and_closing_keep_the_note() {
    let mut app = greek();
    app.store_note(2, "old");
    for input in [CANCEL, CLOSE] {
        app.open_note_popup(2);
        app.set_note_popup_text("new".to_owned());
        assert!(matches!(app.handle_note_popup(input), SearchAction::Nothing));
        assert_eq!(app.note_popup_line(), None);
        assert_eq!(app.notes().get(&2).unwrap(), "old");
    }
    assert!(matches!(app.handle_note_popup(SAVE), SearchAction::Nothing));
}

#[test]
fn deleting_a_note_closes_the_popup_and_keeps_the_results() {
    let mut app = greek();
    app.store_note(2, "old");
    app.store_note(3, "other");
    app.set_show_all_notes(true);
    app.run_search();
    app.open_note_popup(2);
    assert!(matches!(app.handle_note_popup(DELETE), SearchAction::Nothing));
    assert_eq!(app.note_popup_line(), None);
    assert_eq!(app.notes().len(), 1);
    assert_eq!(app.match_line_numbers(), &vec![2, 3]);
    app.open_note_popup(2);
    assert!(matches!(app.handle_note_popup(DELETE), SearchAction::Nothing));
    assert_eq!(app.note_popup_line(), Some(2));
}

#[test]
fn panes_show_rows_with_labels() {
    let mut app = greek();
    app.store_note(1, "see");
    assert!(app.rows_fit(None));
    assert!(app.rows_fit(Some(10)));
    assert!(!app.rows_fit(Some(usize::MAX)));
    assert!(!app.rows_fit(Some(usize::MAX - 61)));
    assert!(app.rows_fit(Some(usize::MAX - 62)));
    assert!(app.window_fits(0, None));
    assert!(app.window_fits(usize::MAX, Some(10)));
    assert!(app.results_fit());
    assert_eq!(app.total_rows(), 6);
    let window = app.top_rows(0, Some(10));
    assert_eq!(window.row_offset, 0);
    let labels: Vec<&str> = window.rows.iter().map(|row| row.1.as_str()).collect();
    assert_eq!(
        labels,
        vec![
            "     1  alpha",
            "        ==== see",
            "     2  beta",
            "     3  gamma",
            "     4  delta",
            "     5  epsilon",
        ]
    );
    search(&mut app, "see");
    app.on_search_event(SearchEvent::Matches(vec![18]), 0);
    let labels: Vec<String> = app.bottom_rows().into_iter().map(|row| row.1).collect();
    assert_eq!(labels, vec!["        ==== see", "     2  beta", "     4  delta"]);
}

#[test]
fn messages_say_what_to_do() {
    let mut app = greek();
    assert_eq!(
        app.status(),
        (
            StatusKind::Info,
            "Type a regex above and press Enter or click Filter.".to_owned()
        )
    );
    assert_eq!(app.empty_results_text(), "Filter results will appear here.");
    app.set_regex_input("x".to_owned());
    assert_eq!(app.status(), (StatusKind::Info, "No matches.".to_owned()));
    assert_eq!(app.empty_results_text(), "No matches for the current pattern.");
    assert_eq!(FilterApp::note_popup_title(41), "Note \u{2014} line 42");
}

#[test]
fn patterns_are_remembered_without_a_search_too() {
    let mut app = greek();
    app.add_to_history("a".to_owned());
    app.add_to_history("b".to_owned());
    app.add_to_history("a".to_owned());
    let history: Vec<&String> = app.search_history().iter().collect();
    assert_eq!(history, vec!["a", "b"]);
}

#[test]
fn searching_again_gives_the_same_results() {
    let mut app = greek();
    app.store_note(1, "x");
    search(&mut app, "x");
    let first = app.match_line_numbers().clone();
    app.run_search();
    assert_eq!(app.match_line_numbers(), &first);
    assert_eq!(app.search_history().len(), 1);
}
