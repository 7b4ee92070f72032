//! The state of the viewer as a value, and what each operation makes of it.

use large_text_core::file_reader::FileReader;
use vstd::prelude::*;

use crate::display::{clipboard_lines, note_of, notes_below, window_lines, window_size};
use crate::history::{history_after, history_is_valid};
use crate::line_index::{
    lemma_line_of, lemma_newline_count_is_bounded, line_count, line_of, lines_fit, span_fits,
};
use crate::lines::{ascending, sorted_lines};
use crate::pattern::{regex_error, regex_matches};
use crate::reader::file_bytes;
use crate::selection::{after_click, nothing_selected, ActivePane, Modifiers, SelectionState};
use crate::text::{decimal_text, has_trimmed_ends, trimmed};

verus! {

/// How many results a search reports at most.
pub const MAX_SEARCH_RESULTS: usize = 1_000_000;

/// How many messages of a running search are taken in at once.
pub const MAX_POLLED_MESSAGES: usize = 10_000;

/// A search through the file that is to be started.
pub struct SearchRequest {
    pub query: String,
    pub use_regex: bool,
    pub case_sensitive: bool,
    pub start_offset: usize,
    pub max_results: usize,
}

/// What is to be done about the search through the file.
pub enum SearchAction {
    /// Leave the running search alone.
    Nothing,
    /// Cancel the running search.
    Cancel,
    /// Cancel the running search and start another one.
    Start(SearchRequest),
}

/// What a running search reports.
pub enum SearchEvent {
    /// Matches at these offsets of the file.
    Matches(Vec<usize>),
    /// The search is finished.
    Finished,
    /// The search failed, with this message.
    Failed(String),
    /// A message that does not matter here.
    Ignored,
    /// There is no message yet.
    NothingYet,
    /// The search is gone.
    Disconnected,
}

/// What was done in the note popup.
#[derive(Clone, Copy, Debug, PartialEq, Eq, Structural)]
pub struct PopupInput {
    pub save: bool,
    pub cancel: bool,
    pub delete: bool,
    /// Whether the popup was left open.
    pub open: bool,
}

/// How the line below the search bar is to be shown.
#[derive(Clone, Copy, Debug, PartialEq, Eq, Structural)]
pub enum StatusKind {
    /// A search is going on.
    Running,
    /// The search failed.
    Error,
    /// Anything else.
    Info,
}

/// What is to be done about the search through the file, as a value.
pub enum SearchStep {
    Nothing,
    Cancel,
    Start { query: Seq<char> },
}

impl SearchAction {
    /// Whether the action is the given step. A search that is started takes the query as a regular
    /// expression, ignores case, begins at the front of the file and reports at most
    /// [`MAX_SEARCH_RESULTS`] matches.
    pub open spec fn is_step(self, step: SearchStep) -> bool {
        match (self, step) {
            (SearchAction::Nothing, SearchStep::Nothing) => true,
            (SearchAction::Cancel, SearchStep::Cancel) => true,
            (SearchAction::Start(request), SearchStep::Start { query }) => {
                &&& request.query@ == query
                &&& request.use_regex
                &&& !request.case_sensitive
                &&& request.start_offset == 0
                &&& request.max_results == MAX_SEARCH_RESULTS
            },
            _ => false,
        }
    }
}

/// The line that a match at `offset` is listed under. An offset behind the end of the file is
/// listed under the line number behind the last one.
pub open spec fn match_line(data: Seq<u8>, offset: usize) -> usize {
    if offset < data.len() {
        line_of(data, offset as int) as usize
    } else {
        line_count(data) as usize
    }
}

/// The lines that matches at the given offsets are listed under.
pub open spec fn match_lines(data: Seq<u8>, offsets: Seq<usize>) -> Set<usize> {
    offsets.map_values(|offset: usize| match_line(data, offset)).to_set()
}

/// No match is listed further than behind the last line.
pub proof fn lemma_match_line_is_bounded(data: Seq<u8>, offset: usize)
    requires
        data.len() <= isize::MAX,
    ensures
        match_line(data, offset) <= line_count(data) < usize::MAX,
{
    lemma_newline_count_is_bounded(data);
    lemma_line_of(data, offset as int);
}

/// One more match lists one more line.
pub proof fn lemma_match_lines_push(data: Seq<u8>, offsets: Seq<usize>, offset: usize)
    ensures
        match_lines(data, offsets.push(offset)) == match_lines(data, offsets).insert(
            match_line(data, offset),
        ),
{
    let line = |offset: usize| match_line(data, offset);
    let lines = offsets.map_values(line);
    assert(offsets.push(offset).map_values(line) =~= lines.push(match_line(data, offset)));
    lines.lemma_push_to_set_commute(match_line(data, offset));
}

/// A list of noted lines leaves room for one more line.
pub proof fn lemma_listed_notes_leave_room(state: AppState, listed: Seq<usize>)
    requires
        state.is_valid(),
        listed.to_set().subset_of(state.notes.dom()),
    ensures
        forall|i: int| 0 <= i < listed.len() ==> listed[i] < usize::MAX,
{
    assert forall|i: int| 0 <= i < listed.len() implies listed[i] < usize::MAX by {
        assert(listed.to_set().contains(listed[i]));
        assert(state.notes.contains_key(listed[i]));
    }
}

/// The noted lines whose note matches `pattern`.
pub open spec fn note_hits(notes: Map<usize, Seq<char>>, pattern: Seq<char>) -> Set<usize> {
    notes.dom().filter(|line: usize| regex_matches(pattern, notes[line]))
}

/// The title of the popup for the note of a line.
pub open spec fn popup_title(line_no: nat) -> Seq<char> {
    "Note \u{2014} line "@ + decimal_text(line_no + 1)
}

/// The state of the viewer.
#[verifier::ext_equal]
pub struct AppState {
    /// The open file.
    pub reader: Option<FileReader>,
    /// The pattern in the search bar.
    pub regex_input: Seq<char>,
    /// What is wrong with the pattern.
    pub regex_error: Option<Seq<char>>,
    /// Whether a search is going on.
    pub search_running: bool,
    /// Whether a search may still report results.
    pub listening: bool,
    /// The patterns searched for, most recent first.
    pub history: Seq<Seq<char>>,
    /// The lines listed in the bottom pane, in file order.
    pub matches: Seq<usize>,
    /// The pane clicked last.
    pub active_pane: ActivePane,
    /// The selection in the top pane.
    pub top: SelectionState,
    /// The selection in the bottom pane.
    pub bottom: SelectionState,
    /// The line that the top pane is to be scrolled to.
    pub scroll_target: Option<usize>,
    /// The notes by line.
    pub notes: Map<usize, Seq<char>>,
    /// The line whose note is being edited.
    pub popup_line: Option<usize>,
    /// The note being edited.
    pub popup_text: Seq<char>,
    /// Whether all noted lines are listed in the bottom pane.
    pub show_all_notes: bool,
    /// The lines whose note, not whose text, matched the pattern.
    pub note_matched: Set<usize>,
}

/// The state of a viewer that was just started.
pub open spec fn initial_state() -> AppState {
    AppState {
        reader: None,
        regex_input: Seq::empty(),
        regex_error: None,
        search_running: false,
        listening: false,
        history: Seq::empty(),
        matches: Seq::empty(),
        active_pane: ActivePane::Bottom,
        top: nothing_selected(),
        bottom: nothing_selected(),
        scroll_target: None,
        notes: Map::empty(),
        popup_line: None,
        popup_text: Seq::empty(),
        show_all_notes: false,
        note_matched: Set::empty(),
    }
}

impl AppState {
    /// The bytes of the open file.
    pub open spec fn data(self) -> Seq<u8> {
        match self.reader {
            Some(reader) => file_bytes(&reader),
            None => Seq::empty(),
        }
    }

    /// What holds of every state: the results are in file order without repetition, the ends of
    /// the range selected among them are listed, notes are neither blank nor padded with white
    /// space, the history is in order, and line numbers leave room for one more.
    pub open spec fn is_valid(self) -> bool {
        &&& ascending(self.matches)
        &&& forall|i: int| 0 <= i < self.matches.len() ==> self.matches[i] < usize::MAX
        &&& self.bottom.anchor matches Some(line) ==> self.matches.contains(line)
        &&& self.bottom.cursor matches Some(line) ==> self.matches.contains(line)
        &&& history_is_valid(self.history)
        &&& self.notes.dom().finite()
        &&& forall|line: usize| #[trigger]
            self.notes.contains_key(line) ==> line < usize::MAX && self.notes[line].len() > 0
                && has_trimmed_ends(self.notes[line])
        &&& self.popup_line matches Some(line) ==> line < usize::MAX
        &&& self.data().len() <= isize::MAX
    }

    /// The search and its results are gone. Notes, the selection in the top pane and the choice to
    /// show all notes stay.
    pub open spec fn cleared(self) -> AppState {
        AppState {
            listening: false,
            search_running: false,
            regex_error: None,
            matches: Seq::empty(),
            note_matched: Set::empty(),
            bottom: nothing_selected(),
            scroll_target: None,
            ..self
        }
    }

    /// Another file is open.
    pub open spec fn opened(self, reader: FileReader) -> AppState {
        AppState {
            reader: Some(reader),
            notes: Map::empty(),
            popup_line: None,
            popup_text: Seq::empty(),
            show_all_notes: false,
            ..self
        }.cleared()
    }

    /// The results of the previous search are gone.
    pub open spec fn without_results(self) -> AppState {
        AppState {
            matches: Seq::empty(),
            note_matched: Set::empty(),
            bottom: nothing_selected(),
            ..self
        }
    }

    /// The state once the pattern was compiled with the given outcome, where `hits` are the lines
    /// whose note matches it.
    pub open spec fn search_started(
        self,
        error: Option<Seq<char>>,
        hits: Set<usize>,
    ) -> AppState {
        match error {
            Some(message) => AppState {
                regex_error: Some("Invalid regex: "@ + message),
                ..self.without_results()
            },
            None => AppState {
                regex_error: None,
                history: history_after(self.history, self.regex_input),
                note_matched: hits,
                matches: sorted_lines(
                    if self.show_all_notes {
                        self.notes.dom()
                    } else {
                        hits
                    },
                ),
                search_running: true,
                listening: true,
                ..self.without_results()
            },
        }
    }

    /// What is done about the search through the file once the pattern was compiled.
    pub open spec fn started_step(self, error: Option<Seq<char>>) -> SearchStep {
        match error {
            Some(_) => SearchStep::Cancel,
            None => SearchStep::Start { query: self.regex_input },
        }
    }

    /// The state after a search for no pattern, which lists the noted lines if they are to be
    /// shown.
    pub open spec fn notes_listed(self) -> AppState {
        AppState {
            regex_error: None,
            search_running: false,
            matches: if self.show_all_notes {
                sorted_lines(self.notes.dom())
            } else {
                Seq::empty()
            },
            ..self.without_results()
        }
    }

    /// The state after a search for the pattern in the search bar.
    pub open spec fn searched(self) -> AppState {
        if self.reader is None {
            self
        } else if self.regex_input.len() == 0 {
            self.notes_listed()
        } else {
            self.search_started(
                regex_error(self.regex_input),
                note_hits(self.notes, self.regex_input),
            )
        }
    }

    /// What a search for the pattern in the search bar does about the search through the file.
    pub open spec fn searched_step(self) -> SearchStep {
        if self.reader is None {
            SearchStep::Nothing
        } else if self.regex_input.len() == 0 {
            SearchStep::Cancel
        } else {
            self.started_step(regex_error(self.regex_input))
        }
    }

    /// Whether messages of a search are taken in.
    pub open spec fn takes_messages(self) -> bool {
        self.listening && self.reader is Some
    }

    /// The state after a message of the search.
    pub open spec fn after_event(self, event: SearchEvent) -> AppState {
        if !self.takes_messages() {
            self
        } else {
            match event {
                SearchEvent::Matches(offsets) => AppState {
                    matches: sorted_lines(
                        self.matches.to_set().union(match_lines(self.data(), offsets@)),
                    ),
                    ..self
                },
                SearchEvent::Finished => AppState {
                    search_running: false,
                    listening: false,
                    ..self
                },
                SearchEvent::Failed(message) => AppState {
                    regex_error: Some(message@),
                    search_running: false,
                    listening: false,
                    ..self
                },
                SearchEvent::Ignored => self,
                SearchEvent::NothingYet => self,
                SearchEvent::Disconnected => AppState {
                    search_running: false,
                    listening: false,
                    ..self
                },
            }
        }
    }

    /// Whether another message is taken in right after this one, which `handled` others came
    /// before.
    pub open spec fn polls_on(self, event: SearchEvent, handled: int) -> bool {
        self.takes_messages() && (event is Matches || event is Ignored) && handled + 1
            < MAX_POLLED_MESSAGES
    }

    /// The state after shift with an arrow key.
    pub open spec fn selection_extended(self, up: bool) -> AppState {
        match self.active_pane {
            ActivePane::Bottom => if self.matches.len() == 0 {
                self
            } else {
                let bottom = self.bottom.moved_in_list(up, self.matches);
                AppState { bottom, scroll_target: bottom.cursor, ..self }
            },
            ActivePane::Top => if self.reader is None {
                self
            } else {
                let top = self.top.moved_in_file(up, line_count(self.data()) as int);
                AppState { top, scroll_target: top.cursor, ..self }
            },
        }
    }

    /// The state after arrow keys that were pressed together with shift.
    pub open spec fn arrows_handled(self, text_focused: bool, up: bool, down: bool) -> AppState {
        if text_focused || !(up || down) {
            self
        } else {
            self.selection_extended(up)
        }
    }

    /// The state after a click in the top pane.
    pub open spec fn top_clicked(self, line_no: usize, mods: Modifiers) -> AppState {
        AppState {
            active_pane: ActivePane::Top,
            top: after_click(line_no, mods, self.top.selected, self.top.anchor),
            ..self
        }
    }

    /// The state after a click in the bottom pane, which the top pane follows.
    pub open spec fn bottom_clicked(self, line_no: usize, mods: Modifiers) -> AppState {
        AppState {
            active_pane: ActivePane::Bottom,
            bottom: after_click(line_no, mods, self.bottom.selected, self.bottom.anchor),
            scroll_target: Some(line_no),
            ..self
        }
    }

    /// The selection in the pane clicked last.
    pub open spec fn active_selection(self) -> SelectionState {
        match self.active_pane {
            ActivePane::Top => self.top,
            ActivePane::Bottom => self.bottom,
        }
    }

    /// The row that the top pane is to be scrolled to: the first one of the target line.
    pub open spec fn scroll_row(self, target: usize) -> int {
        target + notes_below(self.notes.dom(), target as int)
    }

    /// The row that a request to scroll is answered with: none while the viewport has not been
    /// measured.
    pub open spec fn scroll_answer(self, viewport_measured: bool) -> Option<int> {
        match self.scroll_target {
            Some(target) if viewport_measured => Some(self.scroll_row(target)),
            _ => None,
        }
    }

    /// The state after a request to scroll was asked for: one that was answered is gone.
    pub open spec fn scroll_taken(self, viewport_measured: bool) -> AppState {
        if viewport_measured {
            AppState { scroll_target: None, ..self }
        } else {
            self
        }
    }

    /// The note of a line is being edited.
    pub open spec fn popup_opened(self, line_no: usize) -> AppState {
        AppState {
            popup_line: Some(line_no),
            popup_text: match note_of(self.notes, line_no) {
                Some(note) => note,
                None => Seq::empty(),
            },
            ..self
        }
    }

    /// No note is being edited.
    pub open spec fn popup_closed(self) -> AppState {
        AppState { popup_line: None, popup_text: Seq::empty(), ..self }
    }

    /// The note of `line_no` is `text`; a blank text is no note.
    pub open spec fn note_stored(self, line_no: usize, text: Seq<char>) -> AppState {
        AppState {
            notes: if trimmed(text).len() == 0 {
                self.notes.remove(line_no)
            } else {
                self.notes.insert(line_no, trimmed(text))
            },
            ..self
        }
    }

    /// The state after the delete button of the popup.
    pub open spec fn note_deleted(self, line_no: usize) -> AppState {
        AppState { notes: self.notes.remove(line_no), ..self }
    }

    /// The state before a search where the popup was closed by saving.
    pub open spec fn popup_saved(self, line_no: usize) -> AppState {
        self.note_stored(line_no, self.popup_text).popup_closed()
    }

    /// The state after what was done in the popup.
    pub open spec fn popup_handled(self, input: PopupInput) -> AppState {
        match self.popup_line {
            None => self,
            Some(line_no) => {
                let deleted = input.delete && self.notes.contains_key(line_no);
                let rest = if deleted {
                    self.note_deleted(line_no)
                } else {
                    self
                };
                if input.save {
                    rest.popup_saved(line_no).searched()
                } else if input.cancel || deleted || !input.open {
                    rest.popup_closed()
                } else {
                    rest
                }
            },
        }
    }

    /// What the popup does about the search through the file: saving searches again.
    pub open spec fn popup_step(self, input: PopupInput) -> SearchStep {
        match self.popup_line {
            Some(line_no) if input.save => self.popup_saved(line_no).searched_step(),
            _ => SearchStep::Nothing,
        }
    }

    /// How the line below the search bar is to be shown.
    pub open spec fn status_kind(self) -> StatusKind {
        if self.search_running {
            StatusKind::Running
        } else if self.regex_error is Some {
            StatusKind::Error
        } else {
            StatusKind::Info
        }
    }

    /// The line below the search bar.
    pub open spec fn status_text(self) -> Seq<char> {
        let count = decimal_text(self.matches.len());
        if self.search_running {
            "Searching\u{2026} "@ + count + " matches so far"@
        } else if let Some(message) = self.regex_error {
            message
        } else if self.matches.len() > 0 {
            count + " matches found"@
        } else if self.regex_input.len() == 0 {
            "Type a regex above and press Enter or click Filter."@
        } else {
            "No matches."@
        }
    }

    /// What the bottom pane shows while no line is listed.
    pub open spec fn empty_results_text(self) -> Seq<char> {
        if self.regex_input.len() == 0 {
            "Filter results will appear here."@
        } else {
            "No matches for the current pattern."@
        }
    }

    /// The number of rows of the top pane.
    pub open spec fn total_rows(self) -> nat {
        line_count(self.data()) + self.notes.dom().len()
    }

    /// Whether the rows of the top pane, and those of a window for the given viewport, can be
    /// counted.
    pub open spec fn rows_fit(self, fitting_rows: Option<usize>) -> bool {
        &&& self.total_rows() <= usize::MAX
        &&& window_size(self.notes.dom().len() as int, fitting_rows) <= usize::MAX
    }

    /// Whether the lines of a window can be decoded.
    pub open spec fn window_fits(self, first_row: usize, fitting_rows: Option<usize>) -> bool {
        let (first, end) = window_lines(
            self.notes.dom(),
            line_count(self.data()) as int,
            first_row as int,
            fitting_rows,
        );
        span_fits(self.data(), first, end)
    }

    /// Whether the lines listed in the bottom pane can be decoded.
    pub open spec fn results_fit(self) -> bool {
        lines_fit(self.data(), self.matches)
    }

    /// Whether the lines selected in the pane clicked last can be decoded.
    pub open spec fn selection_fits(self) -> bool {
        lines_fit(self.data(), sorted_lines(self.active_selection().selected))
    }

    /// What copying puts on the clipboard: the lines selected in the pane clicked last, with their
    /// notes. Nothing is copied without a file or a selection.
    pub open spec fn copied_text(self) -> Option<Seq<char>> {
        match self.reader {
            Some(reader) => if self.active_selection().selected.is_empty() {
                None
            } else {
                Some(
                    clipboard_lines(
                        sorted_lines(self.active_selection().selected),
                        self.notes,
                        &reader,
                        file_bytes(&reader),
                    ),
                )
            },
            None => None,
        }
    }
}

} // verus!
