//! What holds of the viewer across its operations.

use large_text_core::file_reader::FileReader;
use vstd::prelude::*;

use crate::display::{
    clipboard_lines, file_rows, law_notes_below_count_noted_lines,
    law_notes_stand_above_their_lines, law_total_rows, DisplayRow,
};
use crate::history::{history_after, law_repeated_search_is_remembered_once};
use crate::line_index::{
    law_offset_is_in_its_line, lemma_line_of, lemma_newline_count_is_bounded, line_count, line_of,
    line_span,
};
use crate::lines::{lemma_ascending_is_sorted, lemma_sorted_lines, sorted_lines};
use crate::pattern::{regex_error, regex_matches};
use crate::reader::file_bytes;
use crate::selection::{after_click, nothing_selected, ActivePane, Modifiers};
use crate::state::{
    initial_state, lemma_match_lines_push, match_line, match_lines, note_hits, popup_title,
    AppState, PopupInput, SearchAction, SearchEvent, SearchStep,
};
use crate::text::{
    decimal_text, law_decimal_text_is_read_back, number_read, trimmed, white_space,
};

verus! {

/// Clearing the search drops its results and the selection among them, and nothing else: the file,
/// the notes, the choice to show them, the selection in the top pane, the pattern and the history
/// stay.
pub proof fn law_clearing_keeps_everything_but_the_search(state: AppState)
    ensures
        ({
            let after = state.cleared();
            &&& after.matches.len() == 0
            &&& after.note_matched.is_empty()
            &&& after.bottom == nothing_selected()
            &&& after.regex_error is None
            &&& !after.search_running
            &&& !after.takes_messages()
            &&& after.reader == state.reader
            &&& after.notes == state.notes
            &&& after.show_all_notes == state.show_all_notes
            &&& after.top == state.top
            &&& after.regex_input == state.regex_input
            &&& after.history == state.history
        }),
{
}

/// Clearing twice is clearing once.
pub proof fn law_clearing_twice_is_clearing_once(state: AppState)
    ensures
        state.cleared().cleared() == state.cleared(),
{
}

/// Opening a file drops the notes and results of the file before; the history and the selection in
/// the top pane stay.
pub proof fn law_opening_a_file_starts_afresh(state: AppState, reader: FileReader)
    ensures
        ({
            let after = state.opened(reader);
            &&& after.reader == Some(reader)
            &&& after.notes == Map::<usize, Seq<char>>::empty()
            &&& !after.show_all_notes
            &&& after.popup_line is None
            &&& after.matches.len() == 0
            &&& !after.takes_messages()
            &&& after.history == state.history
            &&& after.top == state.top
        }),
{
}

/// A click on a result has the top pane scroll to that very line.
pub proof fn law_clicking_a_result_scrolls_to_it(state: AppState, line_no: usize, mods: Modifiers)
    ensures
        state.bottom_clicked(line_no, mods).scroll_target == Some(line_no),
        state.bottom_clicked(line_no, mods).top == state.top,
{
}

/// The row that the top pane scrolls to is the first one of the target line: its note, where it
/// has one, and its text otherwise.
pub proof fn law_scrolling_shows_the_target_line(state: AppState, target: usize)
    requires
        state.is_valid(),
        target < line_count(state.data()),
    ensures
        ({
            let rows = file_rows(state.notes.dom(), 0, line_count(state.data()) as int);
            let row = state.scroll_row(target);
            &&& 0 <= row < rows.len()
            &&& rows[row] == if state.notes.contains_key(target) {
                DisplayRow::Note { line_no: target }
            } else {
                DisplayRow::Content { line_no: target }
            }
        }),
{
    lemma_newline_count_is_bounded(state.data());
    law_notes_stand_above_their_lines(
        state.notes.dom(),
        target,
        line_count(state.data()) as int,
    );
}

proof fn lemma_after_matches(state: AppState, offsets: Vec<usize>)
    requires
        state.is_valid(),
        state.takes_messages(),
    ensures
        ({
            let after = state.after_event(SearchEvent::Matches(offsets));
            &&& after.matches.to_set() == state.matches.to_set().union(
                match_lines(state.data(), offsets@),
            )
            &&& after.matches == sorted_lines(after.matches.to_set())
        }),
{
    lemma_sorted_lines(state.matches.to_set().union(match_lines(state.data(), offsets@)));
}

/// Reported matches list their lines and no others, and nothing that was listed is dropped.
pub proof fn law_reported_matches_are_listed(state: AppState, offsets: Vec<usize>, line: usize)
    requires
        state.is_valid(),
        state.takes_messages(),
    ensures
        state.after_event(SearchEvent::Matches(offsets)).matches.contains(line) <==> {
            ||| state.matches.contains(line)
            ||| exists|i: int|
                0 <= i < offsets@.len() && #[trigger] match_line(state.data(), offsets@[i]) == line
        },
{
    lemma_after_matches(state, offsets);
    let after = state.after_event(SearchEvent::Matches(offsets)).matches;
    let lines = offsets@.map_values(|offset: usize| match_line(state.data(), offset));
    assert(after.to_set().contains(line) == after.contains(line));
    assert(state.matches.to_set().contains(line) == state.matches.contains(line));
    if lines.contains(line) {
        let i = lines.index_of(line);
        assert(match_line(state.data(), offsets@[i]) == line);
    }
    if exists|i: int|
        0 <= i < offsets@.len() && #[trigger] match_line(state.data(), offsets@[i]) == line {
        let i = choose|i: int|
            0 <= i < offsets@.len() && #[trigger] match_line(state.data(), offsets@[i]) == line;
        assert(lines[i] == line);
    }
}

/// The results do not depend on the order in which matches are reported.
pub proof fn law_reports_may_come_in_any_order(state: AppState, a: Vec<usize>, b: Vec<usize>)
    requires
        state.is_valid(),
    ensures
        state.after_event(SearchEvent::Matches(a)).after_event(SearchEvent::Matches(b))
            == state.after_event(SearchEvent::Matches(b)).after_event(SearchEvent::Matches(a)),
{
    if state.takes_messages() {
        let first = match_lines(state.data(), a@);
        let second = match_lines(state.data(), b@);
        let listed = state.matches.to_set();
        lemma_after_matches(state, a);
        lemma_after_matches(state, b);
        assert(listed.union(first).union(second) =~= listed.union(second).union(first));
    }
}

/// A match reported again changes nothing.
pub proof fn law_reports_may_repeat(state: AppState, offsets: Vec<usize>)
    requires
        state.is_valid(),
    ensures
        ({
            let once = state.after_event(SearchEvent::Matches(offsets));
            once.after_event(SearchEvent::Matches(offsets)) == once
        }),
{
    if state.takes_messages() {
        let lines = match_lines(state.data(), offsets@);
        let listed = state.matches.to_set();
        lemma_after_matches(state, offsets);
        assert(listed.union(lines).union(lines) =~= listed.union(lines));
    }
}

/// Once a search is finished, failed or gone, no message of it changes anything any more.
pub proof fn law_an_ended_search_is_silent(state: AppState, last: SearchEvent, later: SearchEvent)
    requires
        last is Finished || last is Failed || last is Disconnected,
    ensures
        ({
            let after = state.after_event(last);
            &&& after.after_event(later) == after
            &&& after.matches == state.matches
            &&& state.takes_messages() ==> !after.search_running
        }),
{
}

/// Whatever a search reports, selections and notes stay as they are.
pub proof fn law_reports_keep_the_selections(state: AppState, event: SearchEvent)
    ensures
        state.after_event(event).top == state.top,
        state.after_event(event).bottom == state.bottom,
        state.after_event(event).notes == state.notes,
{
}

/// A search for a pattern lists, before any line of the file is searched, exactly the lines whose
/// note matches, and all noted lines if they are to be shown.
pub proof fn law_search_lists_the_notes(state: AppState, line: usize)
    requires
        state.is_valid(),
        state.reader is Some,
        state.regex_input.len() > 0,
        regex_error(state.regex_input) is None,
    ensures
        state.searched().matches.contains(line) <==> state.notes.contains_key(line) && (
        state.show_all_notes || regex_matches(state.regex_input, state.notes[line])),
        state.searched().note_matched.contains(line) <==> state.notes.contains_key(line)
            && regex_matches(state.regex_input, state.notes[line]),
{
    let hits = note_hits(state.notes, state.regex_input);
    lemma_sorted_lines(hits);
    lemma_sorted_lines(state.notes.dom());
    let listed = state.searched().matches;
    assert(listed.to_set().contains(line) == listed.contains(line));
}

/// A search without a pattern lists exactly the noted lines if they are to be shown, and nothing
/// otherwise.
pub proof fn law_search_without_a_pattern_lists_notes(state: AppState, line: usize)
    requires
        state.is_valid(),
        state.reader is Some,
        state.regex_input.len() == 0,
    ensures
        state.searched().matches.contains(line) <==> state.show_all_notes
            && state.notes.contains_key(line),
{
    lemma_sorted_lines(state.notes.dom());
    let listed = state.searched().matches;
    assert(listed.to_set().contains(line) == listed.contains(line));
}

/// A pattern that is not in order lists nothing and is not remembered. The search before is asked
/// to stop; whether it still goes on, and may report, is left as it was.
pub proof fn law_invalid_pattern_lists_nothing(state: AppState)
    requires
        state.reader is Some,
        state.regex_input.len() > 0,
        regex_error(state.regex_input) is Some,
    ensures
        state.searched().matches.len() == 0,
        state.searched().regex_error is Some,
        state.searched().history == state.history,
        state.searched_step() is Cancel,
        state.searched().search_running == state.search_running,
        state.searched().listening == state.listening,
{
}

/// Searching again right away changes nothing.
pub proof fn law_searching_again_gives_the_same(state: AppState)
    requires
        state.is_valid(),
    ensures
        state.searched().searched() == state.searched(),
{
    law_repeated_search_is_remembered_once(state.history, state.regex_input);
}

/// A note that was saved is what the popup shows when it is opened again.
pub proof fn law_saved_note_is_read_back(state: AppState, line_no: usize, input: PopupInput)
    requires
        state.popup_line == Some(line_no),
        input.save,
        trimmed(state.popup_text).len() > 0,
    ensures
        state.popup_handled(input).notes.contains_key(line_no),
        state.popup_handled(input).popup_opened(line_no).popup_text == trimmed(state.popup_text),
{
}

/// Saving a blank note removes the note.
pub proof fn law_blank_note_is_removed(state: AppState, line_no: usize, input: PopupInput)
    requires
        state.popup_line == Some(line_no),
        input.save,
        trimmed(state.popup_text).len() == 0,
    ensures
        !state.popup_handled(input).notes.contains_key(line_no),
{
}

/// Whatever is done in the popup, only the note of its line can change.
pub proof fn law_popup_keeps_other_notes(
    state: AppState,
    line_no: usize,
    input: PopupInput,
    other: usize,
)
    requires
        state.popup_line == Some(line_no),
        other != line_no,
    ensures
        state.popup_handled(input).notes.contains_key(other) == state.notes.contains_key(other),
        state.notes.contains_key(other) ==> state.popup_handled(input).notes[other]
            == state.notes[other],
{
}

/// Whether every line that is listed, noted or being noted is a line of the open file.
pub open spec fn lines_are_in_file(state: AppState) -> bool {
    let total = line_count(state.data());
    &&& forall|i: int| 0 <= i < state.matches.len() ==> state.matches[i] < total
    &&& forall|line: usize| #[trigger] state.notes.contains_key(line) ==> line < total
    &&& state.popup_line matches Some(line) ==> line < total
}

proof fn lemma_search_stays_in_the_file(state: AppState)
    requires
        state.notes.dom().finite(),
        lines_are_in_file(state),
    ensures
        lines_are_in_file(state.searched()),
{
    lemma_sorted_lines(note_hits(state.notes, state.regex_input));
    lemma_sorted_lines(state.notes.dom());
    let after = state.searched();
    assert forall|i: int| 0 <= i < after.matches.len() implies after.matches[i] < line_count(
        state.data(),
    ) by {
        if state.reader is Some {
            assert(after.matches.to_set().contains(after.matches[i]));
            assert(state.notes.contains_key(after.matches[i]));
        }
    }
}

/// A search lists only lines of the file.
pub proof fn law_search_stays_in_the_file(state: AppState)
    requires
        state.is_valid(),
        lines_are_in_file(state),
    ensures
        lines_are_in_file(state.searched()),
{
    lemma_search_stays_in_the_file(state);
}

/// Matches that are reported within the file list only lines of the file.
pub proof fn law_reports_stay_in_the_file(state: AppState, event: SearchEvent)
    requires
        state.is_valid(),
        lines_are_in_file(state),
        event matches SearchEvent::Matches(offsets) ==> forall|i: int|
            0 <= i < offsets@.len() ==> offsets@[i] < state.data().len(),
    ensures
        lines_are_in_file(state.after_event(event)),
{
    let after = state.after_event(event);
    let data = state.data();
    if let SearchEvent::Matches(offsets) = event {
        if state.takes_messages() {
            lemma_after_matches(state, offsets);
            assert forall|i: int| 0 <= i < after.matches.len() implies after.matches[i]
                < line_count(data) by {
                let line = after.matches[i];
                assert(after.matches.to_set().contains(line));
                if state.matches.contains(line) {
                    let j = state.matches.index_of(line);
                    assert(state.matches[j] < line_count(data));
                } else {
                    let lines = offsets@.map_values(|offset: usize| match_line(data, offset));
                    assert(lines.contains(line));
                    let offset = offsets@[lines.index_of(line)];
                    lemma_line_of(data, offset as int);
                    lemma_newline_count_is_bounded(data);
                    assert(line == line_of(data, offset as int));
                }
            }
        }
    }
}

/// Editing notes keeps to lines of the file.
pub proof fn law_popup_stays_in_the_file(state: AppState, input: PopupInput)
    requires
        state.is_valid(),
        lines_are_in_file(state),
    ensures
        lines_are_in_file(state.popup_handled(input)),
{
    if let Some(line_no) = state.popup_line {
        let deleted = input.delete && state.notes.contains_key(line_no);
        let rest = if deleted {
            state.note_deleted(line_no)
        } else {
            state
        };
        if input.save {
            lemma_search_stays_in_the_file(rest.popup_saved(line_no));
        }
    }
}

/// A viewer starts with no line that is not in a file, and neither opening a file, nor clearing
/// the search, nor selecting lines, nor opening the popup for a line of the file brings one in.
pub proof fn law_other_operations_stay_in_the_file(
    state: AppState,
    reader: FileReader,
    line_no: usize,
    mods: Modifiers,
    up: bool,
)
    requires
        lines_are_in_file(state),
        line_no < line_count(state.data()),
    ensures
        lines_are_in_file(initial_state()),
        lines_are_in_file(state.opened(reader)),
        lines_are_in_file(state.cleared()),
        lines_are_in_file(state.top_clicked(line_no, mods)),
        lines_are_in_file(state.bottom_clicked(line_no, mods)),
        lines_are_in_file(state.selection_extended(up)),
        lines_are_in_file(state.popup_opened(line_no)),
{
}

/// The top pane has as many rows as the file has lines and notes.
pub proof fn law_top_pane_shows_every_line_and_note(state: AppState)
    requires
        state.is_valid(),
        lines_are_in_file(state),
    ensures
        file_rows(state.notes.dom(), 0, line_count(state.data()) as int).len()
            == state.total_rows(),
{
    lemma_newline_count_is_bounded(state.data());
    law_total_rows(state.notes.dom(), line_count(state.data()) as int);
}

/// With a file open, a search for a pattern that is in order asks for the file to be searched for
/// exactly the pattern in the search bar, whatever was searched for before. Any other search asks
/// for none.
pub proof fn law_search_asks_for_the_pattern(state: AppState)
    ensures
        state.reader is Some && state.regex_input.len() > 0 && regex_error(state.regex_input)
            is None ==> (state.searched_step() matches SearchStep::Start { query } && query
            == state.regex_input),
        state.reader is Some && (state.regex_input.len() == 0 || regex_error(state.regex_input)
            is Some) ==> state.searched_step() is Cancel,
        state.reader is None ==> state.searched_step() is Nothing,
{
}

/// Once the pattern was compiled, the file is to be searched for exactly the pattern in the search
/// bar where compiling did not fail, and the search before is to be cancelled where it did.
pub proof fn law_compiled_pattern_is_searched_for(state: AppState, error: Option<Seq<char>>)
    ensures
        error is None ==> (state.started_step(error) matches SearchStep::Start { query } && query
            == state.regex_input),
        error is Some ==> state.started_step(error) is Cancel,
{
}

/// Saving a note asks for the search that the search bar stands for, and nothing else that is done
/// in the popup asks for one.
pub proof fn law_only_saving_searches_again(state: AppState, input: PopupInput)
    ensures
        state.popup_line is Some && input.save && state.reader is Some && state.regex_input.len() > 0
            && regex_error(state.regex_input) is None ==> (state.popup_step(
            input,
        ) matches SearchStep::Start { query } && query == state.regex_input),
        state.popup_line is Some && input.save ==> state.popup_step(input) == state.searched_step(),
        state.popup_line is None || !input.save ==> state.popup_step(input) is Nothing,
{
}

/// A search that is asked for takes its query as a regular expression, ignores case, begins at the
/// front of the file, and reports at most a million matches.
pub proof fn law_requests_say_how_to_search(action: SearchAction, step: SearchStep)
    requires
        action.is_step(step),
    ensures
        step is Nothing <==> action is Nothing,
        step is Cancel <==> action is Cancel,
        step matches SearchStep::Start { query } ==> {
            &&& action is Start
            &&& action->Start_0.query@ == query
            &&& action->Start_0.use_regex
            &&& !action->Start_0.case_sensitive
            &&& action->Start_0.start_offset == 0
            &&& action->Start_0.max_results == 1_000_000
        },
{
}

/// The line that a match is listed under holds the match. A match behind the end of the file is
/// listed under the number behind the last line.
pub proof fn law_match_is_in_the_line_it_is_listed_under(data: Seq<u8>, offset: usize)
    requires
        data.len() <= isize::MAX,
    ensures
        offset < data.len() ==> (line_span(
            data,
            match_line(data, offset) as int,
        ) matches Some((start, end)) && start <= offset < end),
        offset >= data.len() ==> match_line(data, offset) == line_count(data),
{
    lemma_newline_count_is_bounded(data);
    lemma_line_of(data, offset as int);
    if offset < data.len() {
        law_offset_is_in_its_line(data, offset as int);
    }
}

/// Every match that is reported within the file has a listed line that holds it.
pub proof fn law_every_reported_match_is_shown(state: AppState, offsets: Vec<usize>, i: int) -> (
    listed: int)
    requires
        state.is_valid(),
        state.takes_messages(),
        0 <= i < offsets@.len(),
        offsets@[i] < state.data().len(),
    ensures
        ({
            let after = state.after_event(SearchEvent::Matches(offsets)).matches;
            &&& 0 <= listed < after.len()
            &&& line_span(state.data(), after[listed] as int) matches Some((start, end)) && start
                <= offsets@[i] < end
        }),
{
    let line = match_line(state.data(), offsets@[i]);
    law_match_is_in_the_line_it_is_listed_under(state.data(), offsets@[i]);
    law_reported_matches_are_listed(state, offsets, line);
    state.after_event(SearchEvent::Matches(offsets)).matches.index_of(line)
}

/// A line that a report adds to the results holds one of the reported matches, where all of them
/// are within the file.
pub proof fn law_no_line_without_a_match_is_added(state: AppState, offsets: Vec<usize>, listed: int)
    -> (i: int)
    requires
        state.is_valid(),
        state.takes_messages(),
        forall|i: int| 0 <= i < offsets@.len() ==> offsets@[i] < state.data().len(),
        0 <= listed < state.after_event(SearchEvent::Matches(offsets)).matches.len(),
        !state.matches.contains(
            state.after_event(SearchEvent::Matches(offsets)).matches[listed],
        ),
    ensures
        ({
            let line = state.after_event(SearchEvent::Matches(offsets)).matches[listed];
            &&& 0 <= i < offsets@.len()
            &&& line_span(state.data(), line as int) matches Some((start, end)) && start
                <= offsets@[i] < end
        }),
{
    let line = state.after_event(SearchEvent::Matches(offsets)).matches[listed];
    law_reported_matches_are_listed(state, offsets, line);
    let i = choose|i: int|
        0 <= i < offsets@.len() && #[trigger] match_line(state.data(), offsets@[i]) == line;
    law_match_is_in_the_line_it_is_listed_under(state.data(), offsets@[i]);
    i
}

/// In every valid state the results are in file order, each line once, the ends of a range selected
/// among them are listed, notes are neither blank nor padded with white space, and no pattern is
/// remembered twice.
pub proof fn law_valid_states_are_in_order(
    state: AppState,
    i: int,
    j: int,
    line: usize,
    first: int,
    second: int,
)
    requires
        state.is_valid(),
    ensures
        0 <= i < j < state.matches.len() ==> state.matches[i] < state.matches[j],
        state.bottom.anchor == Some(line) || state.bottom.cursor == Some(line)
            ==> state.matches.contains(line),
        state.notes.contains_key(line) ==> {
            &&& state.notes[line].len() > 0
            &&& !white_space(state.notes[line][0])
            &&& !white_space(state.notes[line].last())
        },
        0 <= first < second < state.history.len() ==> state.history[first] != state.history[second],
        0 <= first < state.history.len() ==> state.history[first].len() > 0,
        state.history.len() <= 20,
{
}

/// A viewer starts without a file, a pattern, results, selections and notes, with the bottom pane
/// active.
pub proof fn law_a_viewer_starts_empty()
    ensures
        ({
            let state = initial_state();
            &&& state.reader is None
            &&& state.regex_input.len() == 0
            &&& state.regex_error is None
            &&& !state.search_running
            &&& !state.listening
            &&& state.history.len() == 0
            &&& state.matches.len() == 0
            &&& state.active_pane is Bottom
            &&& state.top.selected.is_empty()
            &&& state.top.anchor is None
            &&& state.top.cursor is None
            &&& state.bottom == state.top
            &&& state.scroll_target is None
            &&& state.notes.dom().is_empty()
            &&& state.popup_line is None
            &&& state.popup_text.len() == 0
            &&& !state.show_all_notes
            &&& state.note_matched.is_empty()
        }),
{
    assert(initial_state().notes.dom() =~= Set::<usize>::empty());
}

/// Clearing the search touches the search, its results and what depends on them, and no other part
/// of the state.
pub proof fn law_clearing_touches_the_search_only(state: AppState)
    ensures
        ({
            let after = state.cleared();
            &&& after == (AppState {
                listening: false,
                search_running: false,
                regex_error: None,
                matches: after.matches,
                note_matched: after.note_matched,
                bottom: after.bottom,
                scroll_target: None,
                ..state
            })
            &&& after.matches.len() == 0
            &&& after.note_matched.is_empty()
            &&& after.bottom.selected.is_empty()
            &&& after.bottom.anchor is None
            &&& after.bottom.cursor is None
        }),
{
}

/// Opening a file is clearing the search and dropping the notes and what is done with them; nothing
/// else about the viewer changes.
pub proof fn law_opening_drops_notes_and_search_only(state: AppState, reader: FileReader)
    ensures
        ({
            let after = state.opened(reader);
            &&& after == (AppState {
                reader: Some(reader),
                notes: after.notes,
                popup_line: None,
                popup_text: after.popup_text,
                show_all_notes: false,
                ..state.cleared()
            })
            &&& after.notes.dom().is_empty()
            &&& after.popup_text.len() == 0
        }),
{
    assert(state.opened(reader).notes.dom() =~= Set::<usize>::empty());
}

/// A search for a pattern that was compiled lists the lines whose note it matches, or all noted
/// lines where they are to be shown, in file order; it remembers the pattern, drops the selection
/// among the results, and changes nothing else.
pub proof fn law_search_lists_the_notes_it_is_given(
    state: AppState,
    hits: Set<usize>,
    line: usize,
    i: int,
    j: int,
)
    requires
        state.is_valid(),
        hits.finite(),
    ensures
        ({
            let after = state.search_started(None, hits);
            &&& after == (AppState {
                regex_error: None,
                history: history_after(state.history, state.regex_input),
                note_matched: hits,
                matches: after.matches,
                bottom: after.bottom,
                search_running: true,
                listening: true,
                ..state
            })
            &&& state.show_all_notes ==> (after.matches.contains(line) <==> state.notes.contains_key(
                line,
            ))
            &&& !state.show_all_notes ==> (after.matches.contains(line) <==> hits.contains(line))
            &&& 0 <= i < j < after.matches.len() ==> after.matches[i] < after.matches[j]
            &&& after.bottom.selected.is_empty()
            &&& after.bottom.anchor is None
            &&& after.bottom.cursor is None
        }),
{
    lemma_sorted_lines(hits);
    lemma_sorted_lines(state.notes.dom());
    let listed = state.search_started(None, hits).matches;
    assert(listed.to_set().contains(line) == listed.contains(line));
}

/// A pattern that does not compile is reported with what is wrong with it; the results and the
/// selection among them are dropped, and nothing else changes.
pub proof fn law_failed_pattern_is_reported(state: AppState, message: Seq<char>, hits: Set<usize>)
    ensures
        ({
            let after = state.search_started(Some(message), hits);
            &&& after == (AppState {
                regex_error: Some("Invalid regex: "@ + message),
                matches: after.matches,
                note_matched: after.note_matched,
                bottom: after.bottom,
                ..state
            })
            &&& after.matches.len() == 0
            &&& after.note_matched.is_empty()
            &&& after.bottom.selected.is_empty()
            &&& after.bottom.anchor is None
            &&& after.bottom.cursor is None
        }),
{
}

/// A search does what the pattern asks for: nothing without a file; without a pattern it ends the
/// search and lists notes in file order; with one it goes by what compiling it gives and by the
/// notes that it matches.
pub proof fn law_search_goes_by_the_pattern(
    state: AppState,
    hits: Set<usize>,
    i: int,
    j: int,
)
    requires
        state.is_valid(),
        forall|line: usize| #[trigger]
            hits.contains(line) <==> state.notes.contains_key(line) && regex_matches(
                state.regex_input,
                state.notes[line],
            ),
    ensures
        state.reader is None ==> state.searched() == state,
        state.reader is Some && state.regex_input.len() > 0 ==> state.searched()
            == state.search_started(regex_error(state.regex_input), hits),
        state.reader is Some && state.regex_input.len() == 0 ==> {
            let after = state.searched();
            &&& after == (AppState {
                regex_error: None,
                search_running: false,
                matches: after.matches,
                note_matched: after.note_matched,
                bottom: after.bottom,
                ..state
            })
            &&& 0 <= i < j < after.matches.len() ==> after.matches[i] < after.matches[j]
            &&& after.note_matched.is_empty()
            &&& after.bottom.selected.is_empty()
            &&& after.bottom.anchor is None
            &&& after.bottom.cursor is None
        },
{
    assert(hits =~= note_hits(state.notes, state.regex_input));
    lemma_sorted_lines(state.notes.dom());
}

/// What each message of a search does: matches change the results alone, the end of the search is
/// noticed, a failure is reported, and anything else changes nothing. Without a file, or when no
/// search is listened to, no message does anything.
pub proof fn law_messages_do_what_they_say(state: AppState, event: SearchEvent)
    ensures
        ({
            let after = state.after_event(event);
            if !state.listening || state.reader is None {
                after == state
            } else {
                match event {
                    SearchEvent::Matches(_) => after == (AppState {
                        matches: after.matches,
                        ..state
                    }),
                    SearchEvent::Finished | SearchEvent::Disconnected => after == (AppState {
                        search_running: false,
                        listening: false,
                        ..state
                    }),
                    SearchEvent::Failed(message) => after == (AppState {
                        regex_error: Some(message@),
                        search_running: false,
                        listening: false,
                        ..state
                    }),
                    SearchEvent::Ignored | SearchEvent::NothingYet => after == state,
                }
            }
        }),
        state.takes_messages() <==> state.listening && state.reader is Some,
{
}

/// Messages are taken in one after the other while there may be more, up to ten thousand at once.
pub proof fn law_polling_goes_on_while_messages_come(
    state: AppState,
    event: SearchEvent,
    handled: int,
)
    ensures
        state.polls_on(event, handled) <==> state.listening && state.reader is Some && handled
            < 9_999 && !(event is Finished || event is Failed || event is NothingYet
            || event is Disconnected),
{
}

/// Whatever lines a report lists, they are in file order, each of them once.
pub proof fn law_reports_are_listed_in_file_order(
    state: AppState,
    offsets: Vec<usize>,
    i: int,
    j: int,
)
    requires
        state.is_valid(),
    ensures
        ({
            let after = state.after_event(SearchEvent::Matches(offsets)).matches;
            0 <= i < j < after.len() ==> after[i] < after[j]
        }),
{
    if state.takes_messages() {
        lemma_sorted_lines(state.matches.to_set().union(match_lines(state.data(), offsets@)));
    }
}

/// A click selects lines in the pane that was clicked, from what was selected there, and makes the
/// pane the active one. A click among the results has the top pane scroll; nothing else changes.
pub proof fn law_clicks_select_in_their_pane(state: AppState, line_no: usize, mods: Modifiers)
    ensures
        state.top_clicked(line_no, mods) == (AppState {
            active_pane: ActivePane::Top,
            top: after_click(line_no, mods, state.top.selected, state.top.anchor),
            ..state
        }),
        state.bottom_clicked(line_no, mods) == (AppState {
            active_pane: ActivePane::Bottom,
            bottom: after_click(line_no, mods, state.bottom.selected, state.bottom.anchor),
            scroll_target: Some(line_no),
            ..state
        }),
{
}

/// An arrow key extends the selection in the pane clicked last, in the file or among the results,
/// and has the top pane scroll to where the key moved to. Without a file, or without results,
/// nothing happens, and nothing else ever changes.
pub proof fn law_arrows_extend_the_active_selection(state: AppState, up: bool)
    ensures
        ({
            let after = state.selection_extended(up);
            &&& state.active_pane is Top && state.reader is Some ==> {
                &&& after == (AppState {
                    top: state.top.moved_in_file(up, line_count(state.data()) as int),
                    scroll_target: after.top.cursor,
                    ..state
                })
                &&& after.scroll_target is Some
            }
            &&& state.active_pane is Bottom && state.matches.len() > 0 ==> {
                &&& after == (AppState {
                    bottom: state.bottom.moved_in_list(up, state.matches),
                    scroll_target: after.bottom.cursor,
                    ..state
                })
                &&& after.scroll_target is Some
            }
            &&& state.active_pane is Top && state.reader is None ==> after == state
            &&& state.active_pane is Bottom && state.matches.len() == 0 ==> after == state
        }),
{
}

/// Going one line down, the row to scroll to goes down by one, and by one more where the line above
/// is noted; line 0 begins with row 0.
pub proof fn law_scroll_rows_follow_the_lines(state: AppState, target: usize)
    requires
        state.is_valid(),
        target < usize::MAX,
    ensures
        state.scroll_row(0) == 0,
        state.notes.contains_key(target) ==> state.scroll_row((target + 1) as usize)
            == state.scroll_row(target) + 2,
        !state.notes.contains_key(target) ==> state.scroll_row((target + 1) as usize)
            == state.scroll_row(target) + 1,
{
    law_notes_below_count_noted_lines(state.notes.dom(), target);
}

/// The popup opens for the line asked for, with its note or empty; nothing else changes.
pub proof fn law_popup_opens_with_the_note(state: AppState, line_no: usize)
    ensures
        ({
            let after = state.popup_opened(line_no);
            &&& after == (AppState {
                popup_line: Some(line_no),
                popup_text: after.popup_text,
                ..state
            })
            &&& state.notes.contains_key(line_no) ==> after.popup_text == state.notes[line_no]
            &&& !state.notes.contains_key(line_no) ==> after.popup_text.len() == 0
        }),
{
}

/// Storing a note keeps its text without the white space around it, and a blank text removes the
/// note; no other note changes, and nothing else does.
pub proof fn law_stored_note_is_the_trimmed_text(
    state: AppState,
    line_no: usize,
    text: Seq<char>,
    other: usize,
)
    ensures
        ({
            let after = state.note_stored(line_no, text);
            &&& after == (AppState { notes: after.notes, ..state })
            &&& trimmed(text).len() > 0 ==> after.notes.contains_key(line_no)
                && after.notes[line_no] == trimmed(text)
            &&& trimmed(text).len() == 0 ==> !after.notes.contains_key(line_no)
            &&& other != line_no ==> after.notes.contains_key(other) == state.notes.contains_key(
                other,
            )
            &&& other != line_no && state.notes.contains_key(other) ==> after.notes[other]
                == state.notes[other]
        }),
{
}

/// What the popup's buttons do: cancelling and closing only close it, deleting removes the note and
/// closes it, and without any of them it stays as it is. Saving stores the note, closes the popup
/// and searches again, whatever else was done.
pub proof fn law_popup_buttons_do_what_they_say(
    state: AppState,
    line_no: usize,
    input: PopupInput,
)
    requires
        state.popup_line == Some(line_no),
    ensures
        ({
            let after = state.popup_handled(input);
            let noted = state.notes.contains_key(line_no);
            let stored = state.note_stored(line_no, state.popup_text).notes;
            &&& !input.save && !input.cancel && input.open && !(input.delete && noted) ==> after
                == state
            &&& !input.save && !(input.delete && noted) && (input.cancel || !input.open) ==> after
                == (AppState { popup_line: None, popup_text: Seq::empty(), ..state })
            &&& !input.save && input.delete && noted ==> after == (AppState {
                notes: state.notes.remove(line_no),
                popup_line: None,
                popup_text: Seq::empty(),
                ..state
            })
            &&& input.save ==> after == (AppState {
                notes: stored,
                popup_line: None,
                popup_text: Seq::empty(),
                ..state
            }).searched()
        }),
{
    if input.save && input.delete && state.notes.contains_key(line_no) {
        let rest = state.note_deleted(line_no);
        let text = state.popup_text;
        assert(rest.note_stored(line_no, text).notes =~= state.note_stored(line_no, text).notes);
    }
}

/// Nothing is done in a popup that is not open.
pub proof fn law_closed_popup_does_nothing(state: AppState, input: PopupInput)
    requires
        state.popup_line is None,
    ensures
        state.popup_handled(input) == state,
{
}

/// After a note was saved, the notes as they are now are listed: those that match the pattern, and
/// all of them where they are to be shown.
pub proof fn law_saving_lists_the_notes_anew(state: AppState, input: PopupInput, line: usize)
    requires
        state.is_valid(),
        state.popup_line is Some,
        input.save,
        state.reader is Some,
        state.regex_input.len() > 0,
        regex_error(state.regex_input) is None,
    ensures
        ({
            let after = state.popup_handled(input);
            after.matches.contains(line) <==> after.notes.contains_key(line) && (
            state.show_all_notes || regex_matches(state.regex_input, after.notes[line]))
        }),
{
    let line_no = state.popup_line.unwrap();
    let rest = if input.delete && state.notes.contains_key(line_no) {
        state.note_deleted(line_no)
    } else {
        state
    };
    let saved = rest.popup_saved(line_no);
    assert(saved.notes.dom().finite());
    lemma_sorted_lines(note_hits(saved.notes, saved.regex_input));
    lemma_sorted_lines(saved.notes.dom());
    let listed = saved.searched().matches;
    assert(listed.to_set().contains(line) == listed.contains(line));
}

/// What stands below the search bar: how far a running search has come, what went wrong, how many
/// lines are listed, or what to do.
pub proof fn law_status_tells_the_state(state: AppState)
    ensures
        ({
            let count = decimal_text(state.matches.len());
            &&& state.search_running ==> state.status_kind() is Running && state.status_text()
                == "Searching\u{2026} "@ + count + " matches so far"@
            &&& !state.search_running && state.regex_error is Some ==> state.status_kind() is Error
                && Some(state.status_text()) == state.regex_error
            &&& !state.search_running && state.regex_error is None ==> state.status_kind() is Info
            &&& !state.search_running && state.regex_error is None && state.matches.len() > 0
                ==> state.status_text() == count + " matches found"@
            &&& !state.search_running && state.regex_error is None && state.matches.len() == 0
                && state.regex_input.len() == 0 ==> state.status_text()
                == "Type a regex above and press Enter or click Filter."@
            &&& !state.search_running && state.regex_error is None && state.matches.len() == 0
                && state.regex_input.len() > 0 ==> state.status_text() == "No matches."@
        }),
{
}

/// What the bottom pane says without results depends on whether there is a pattern.
pub proof fn law_empty_pane_tells_why(state: AppState)
    ensures
        state.regex_input.len() == 0 ==> state.empty_results_text()
            == "Filter results will appear here."@,
        state.regex_input.len() > 0 ==> state.empty_results_text()
            == "No matches for the current pattern."@,
{
}

/// What is copied is the selection of the pane clicked last, in file order; without a file or a
/// selection nothing is.
pub proof fn law_copying_takes_the_active_selection(state: AppState, lines: Seq<usize>)
    requires
        forall|i: int, j: int| 0 <= i < j < lines.len() ==> lines[i] < lines[j],
        state.active_pane is Top ==> lines.to_set() == state.top.selected,
        state.active_pane is Bottom ==> lines.to_set() == state.bottom.selected,
    ensures
        state.reader is None || lines.len() == 0 ==> state.copied_text() is None,
        state.reader matches Some(reader) ==> lines.len() > 0 ==> state.copied_text() == Some(
            clipboard_lines(lines, state.notes, &reader, file_bytes(&reader)),
        ),
        state.active_selection().selected.is_empty() <==> lines.len() == 0,
{
    lemma_ascending_is_sorted(lines);
    if lines.len() > 0 {
        assert(lines.to_set().contains(lines[0]));
    } else {
        assert(lines.to_set() =~= Set::<usize>::empty());
    }
}

/// The rows of the top pane are its lines and notes, and can be counted exactly where they and the
/// rows of a window are no more than the machine can count.
pub proof fn law_rows_can_be_counted(state: AppState, fitting_rows: Option<usize>)
    ensures
        state.total_rows() == line_count(state.data()) + state.notes.dom().len(),
        state.rows_fit(fitting_rows) <==> {
            let in_view = match fitting_rows {
                Some(fitting) => fitting + 1,
                None => 80,
            };
            &&& line_count(state.data()) + state.notes.dom().len() <= usize::MAX
            &&& in_view + state.notes.dom().len() + 60 <= usize::MAX
        },
{
}

/// Where no line is longer than a sixteenth of the address space, everything that is shown or
/// copied can be decoded.
pub proof fn law_lines_of_moderate_length_can_be_shown(
    state: AppState,
    first_row: usize,
    fitting_rows: Option<usize>,
)
    requires
        forall|line_no: int| #[trigger]
            line_span(state.data(), line_no) matches Some((start, end)) ==> end - start
                <= usize::MAX / 16,
    ensures
        state.window_fits(first_row, fitting_rows),
        state.results_fit(),
        state.selection_fits(),
{
}

/// The lines that matches are listed under are those of the matches, and no others.
pub proof fn law_match_lines_are_those_of_the_matches(
    data: Seq<u8>,
    offsets: Seq<usize>,
    offset: usize,
    line: usize,
)
    ensures
        match_lines(data, Seq::empty()).is_empty(),
        match_lines(data, offsets.push(offset)).contains(line) <==> match_lines(
            data,
            offsets,
        ).contains(line) || line == match_line(data, offset),
{
    lemma_match_lines_push(data, offsets, offset);
    let none = Seq::<usize>::empty().map_values(|offset: usize| match_line(data, offset));
    assert(none.to_set() =~= Set::<usize>::empty());
}

/// Arrow keys are left to a text field that has the focus. Otherwise each extends the selection its
/// way, up counts where both are pressed, and without either nothing happens.
pub proof fn law_arrow_keys_extend_the_selection(state: AppState)
    ensures
        forall|up: bool, down: bool| #[trigger] state.arrows_handled(true, up, down) == state,
        state.arrows_handled(false, false, false) == state,
        state.arrows_handled(false, true, false) == state.selection_extended(true),
        state.arrows_handled(false, false, true) == state.selection_extended(false),
        state.arrows_handled(false, true, true) == state.selection_extended(true),
{
}

/// A request to scroll is answered once, with the row of its line, and kept until the viewport was
/// measured.
pub proof fn law_scroll_requests_are_answered_once(state: AppState)
    ensures
        state.scroll_target matches Some(target) ==> state.scroll_answer(true) == Some(
            state.scroll_row(target),
        ),
        state.scroll_target is None ==> state.scroll_answer(true) is None,
        state.scroll_answer(false) is None,
        state.scroll_taken(false) == state,
        state.scroll_taken(true) == (AppState { scroll_target: None, ..state }),
        state.scroll_taken(true).scroll_answer(true) is None,
{
}

/// The title of the popup ends with the number of its line, counted from 1.
pub proof fn law_popup_title_tells_the_line(line_no: nat)
    ensures
        ({
            let title = popup_title(line_no);
            let front = "Note \u{2014} line "@;
            &&& title.take(12) == front
            &&& title.len() > 12
            &&& forall|i: int| 12 <= i < title.len() ==> '0' <= #[trigger] title[i] <= '9'
            &&& number_read(title.skip(12)) == line_no + 1
        }),
{
    reveal_strlit("Note \u{2014} line ");
    let front = "Note \u{2014} line "@;
    let number = decimal_text(line_no + 1);
    law_decimal_text_is_read_back(line_no + 1);
    assert(popup_title(line_no).take(12) =~= front);
    assert(popup_title(line_no).skip(12) =~= number);
    assert forall|i: int| 12 <= i < popup_title(line_no).len() implies '0' <= #[trigger] popup_title(
        line_no,
    )[i] <= '9' by {
        assert(number[i - 12] == popup_title(line_no)[i]);
    }
}

} // verus!
