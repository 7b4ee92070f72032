//! The viewer's state and its operations.

use large_text_core::file_reader::FileReader;
use std::collections::{BTreeMap, BTreeSet, VecDeque};
use std::sync::Arc;
use vstd::prelude::*;
use vstd::string::StringExecFns;

use crate::display::{
    build_listed_rows, build_window, file_rows, lines_for_clipboard, listed_rows, note_texts,
    notes_before, notes_below, row_kinds, rows_are_labelled, window_lines,
    window_range, DisplayRow, RowWindow, BUFFER, DEFAULT_VISIBLE_ROWS,
};
use crate::history::{add_to_history, history_after, law_history_stays_valid, pattern_texts};
use crate::line_index::{
    law_offset_is_in_its_line, lemma_empty_file_fits, lemma_line_of, lemma_line_starts, line_count,
    line_fits, FullLineIndex,
};
use crate::lines::{
    ascending, insert_line, insertion_point, lemma_ascending_is_sorted, members, noted_lines,
    sorted_lines,
};
use crate::pattern::{optional_text, pattern_error, pattern_matches, regex_matches};
use crate::reader::file_bytes;
use crate::selection::{law_arrow_selects_both_ends, ActivePane, Modifiers, PaneSelection};
use crate::state::{
    initial_state, lemma_listed_notes_leave_room, lemma_match_line_is_bounded,
    lemma_match_lines_push, match_line, match_lines, note_hits, popup_title, AppState, PopupInput,
    SearchAction, SearchEvent, SearchRequest, StatusKind, MAX_POLLED_MESSAGES, MAX_SEARCH_RESULTS,
};
use crate::text::{decimal, law_trimming_clears_the_ends, trim_white_space};

verus! {

broadcast use {
    vstd::std_specs::btree::group_btree_axioms,
    vstd::laws_cmp::group_laws_cmp,
};

/// The viewer: the open file, the search and its results, the selections and the notes.
pub struct FilterApp {
    file_reader: Option<Arc<FileReader>>,
    line_indexer: Option<FullLineIndex>,
    regex_input: String,
    regex_error: Option<String>,
    search_running: bool,
    listening: bool,
    search_history: VecDeque<String>,
    match_line_numbers: Vec<usize>,
    active_pane: ActivePane,
    top: PaneSelection,
    bottom: PaneSelection,
    top_scroll_target: Option<usize>,
    notes: BTreeMap<usize, String>,
    note_popup_line: Option<usize>,
    note_popup_text: String,
    show_all_notes: bool,
    note_matched_lines: BTreeSet<usize>,
}

impl View for FilterApp {
    type V = AppState;

    closed spec fn view(&self) -> AppState {
        AppState {
            reader: match self.file_reader {
                Some(reader) => Some(*reader),
                None => None,
            },
            regex_input: self.regex_input@,
            regex_error: optional_text(self.regex_error),
            search_running: self.search_running,
            listening: self.listening,
            history: pattern_texts(self.search_history@),
            matches: self.match_line_numbers@,
            active_pane: self.active_pane,
            top: self.top@,
            bottom: self.bottom@,
            scroll_target: self.top_scroll_target,
            notes: note_texts(self.notes@),
            popup_line: self.note_popup_line,
            popup_text: self.note_popup_text@,
            show_all_notes: self.show_all_notes,
            note_matched: self.note_matched_lines@,
        }
    }
}

impl Default for FilterApp {
    /// A viewer without a file.
    fn default() -> (app: Self)
        ensures
            app.wf(),
            app@ == initial_state(),
    {
        let app = FilterApp {
            file_reader: None,
            line_indexer: None,
            regex_input: String::new(),
            regex_error: None,
            search_running: false,
            listening: false,
            search_history: VecDeque::new(),
            match_line_numbers: Vec::new(),
            active_pane: ActivePane::Bottom,
            top: PaneSelection::new(),
            bottom: PaneSelection::new(),
            top_scroll_target: None,
            notes: BTreeMap::new(),
            note_popup_line: None,
            note_popup_text: String::new(),
            show_all_notes: false,
            note_matched_lines: BTreeSet::new(),
        };
        assert(app@ =~= initial_state());
        app
    }
}

impl FilterApp {
    /// Whether the parts fit together: the index is that of the open file, and the state is valid.
    pub closed spec fn wf(&self) -> bool {
        &&& match (self.file_reader, self.line_indexer) {
            (Some(reader), Some(indexer)) => indexer@ == file_bytes(&reader),
            (None, None) => true,
            _ => false,
        }
        &&& self@.is_valid()
    }

    /// A well-formed viewer is in a valid state, which the laws about states ask for.
    pub proof fn lemma_wf_is_valid(&self)
        requires
            self.wf(),
        ensures
            self@.is_valid(),
    {
    }

    /// Indexes another file and shows it. Notes and results belong to the file shown before and
    /// are dropped.
    pub fn open_file(&mut self, reader: Arc<FileReader>)
        requires
            old(self).wf(),
        ensures
            final(self).wf(),
            final(self)@ == old(self)@.opened(*reader),
    {
        let indexer = FullLineIndex::build(&reader);
        self.file_reader = Some(reader);
        self.line_indexer = Some(indexer);
        self.notes.clear();
        self.note_popup_line = None;
        self.note_popup_text = String::new();
        self.show_all_notes = false;
        self.clear_parts();
        assert(self@ =~= old(self)@.opened(*reader));
    }

    fn clear_parts(&mut self)
        ensures
            final(self)@ == old(self)@.cleared(),
            final(self).file_reader == old(self).file_reader,
            final(self).line_indexer == old(self).line_indexer,
    {
        self.listening = false;
        self.search_running = false;
        self.regex_error = None;
        self.match_line_numbers.clear();
        self.note_matched_lines.clear();
        self.bottom = PaneSelection::new();
        self.top_scroll_target = None;
        assert(self@ =~= old(self)@.cleared());
    }

    /// Drops the search and its results. Notes, the selection in the top pane and the choice to
    /// show all notes survive.
    pub fn clear_search(&mut self)
        requires
            old(self).wf(),
        ensures
            final(self).wf(),
            final(self)@ == old(self)@.cleared(),
    {
        self.clear_parts();
    }

    /// Remembers a pattern at the front of the search history.
    pub fn add_to_history(&mut self, pattern: String)
        requires
            old(self).wf(),
        ensures
            final(self).wf(),
            final(self)@ == (AppState {
                history: history_after(old(self)@.history, pattern@),
                ..old(self)@
            }),
    {
        add_to_history(&mut self.search_history, pattern);
        proof {
            law_history_stays_valid(old(self)@.history, pattern@);
            assert(self@ =~= (AppState {
                history: history_after(old(self)@.history, pattern@),
                ..old(self)@
            }));
        }
    }

    /// The noted lines whose note matches the pattern in the search bar.
    fn matching_notes(&self) -> (hits: BTreeSet<usize>)
        ensures
            hits@ == note_hits(self@.notes, self@.regex_input),
    {
        let lines = noted_lines(&self.notes);
        let mut hits: BTreeSet<usize> = BTreeSet::new();
        let mut next: usize = 0;
        while next < lines.len()
            invariant
                next <= lines@.len(),
                ascending(lines@),
                lines@.to_set() == self.notes@.dom(),
                forall|line: usize| #[trigger]
                    hits@.contains(line) <==> lines@.take(next as int).contains(line)
                        && regex_matches(self.regex_input@, self.notes@[line]@),
            decreases lines@.len() - next,
        {
            let line_no: usize = lines[next];
            proof {
                assert(lines@.contains(line_no));
                assert(lines@.to_set().contains(line_no));
                assert(lines@.take(next + 1) == lines@.take(next as int).push(line_no));
            }
            if let Some(note) = self.notes.get(&line_no) {
                if pattern_matches(self.regex_input.as_str(), note.as_str()) {
                    hits.insert(line_no);
                }
            }
            assert forall|line: usize| #[trigger]
                hits@.contains(line) <==> lines@.take(next + 1).contains(line) && regex_matches(
                    self.regex_input@,
                    self.notes@[line]@,
                ) by {
                let passed = lines@.take(next as int);
                let all = lines@.take(next + 1);
                if passed.contains(line) {
                    assert(all[passed.index_of(line)] == line);
                }
                if all.contains(line) && line != line_no {
                    assert(passed[all.index_of(line)] == line);
                }
                assert(all[next as int] == line_no);
            }
            next = next + 1;
        }
        proof {
            assert(lines@.take(next as int) == lines@);
            assert forall|line: usize| #[trigger]
                hits@.contains(line) == note_hits(self@.notes, self@.regex_input).contains(
                    line,
                ) by {
                assert(lines@.to_set().contains(line) == lines@.contains(line));
            }
            assert(hits@ =~= note_hits(self@.notes, self@.regex_input));
        }
        hits
    }

    /// Starts the search for the pattern in the search bar, once it was compiled: `error` says
    /// what is wrong with it, if anything is, and `note_hits` are the lines whose note it matches.
    ///
    /// The lines whose note matches are listed at once, and all noted lines if they are to be
    /// shown. The lines of the file are left to the search that is to be started.
    pub fn start_search(&mut self, error: Option<String>, note_hits: BTreeSet<usize>) -> (action:
        SearchAction)
        requires
            old(self).wf(),
            note_hits@.subset_of(old(self)@.notes.dom()),
        ensures
            final(self).wf(),
            final(self)@ == old(self)@.search_started(optional_text(error), note_hits@),
            action.is_step(old(self)@.started_step(optional_text(error))),
    {
        self.match_line_numbers.clear();
        self.note_matched_lines.clear();
        self.bottom = PaneSelection::new();
        if let Some(message) = error {
            let mut text = "Invalid regex: ".to_owned();
            text.append(message.as_str());
            self.regex_error = Some(text);
            assert(self@ =~= old(self)@.search_started(optional_text(error), note_hits@));
            return SearchAction::Cancel;
        }
        self.regex_error = None;
        proof {
            law_history_stays_valid(old(self)@.history, old(self)@.regex_input);
        }
        add_to_history(&mut self.search_history, self.regex_input.clone());
        self.match_line_numbers = if self.show_all_notes {
            noted_lines(&self.notes)
        } else {
            members(&note_hits)
        };
        self.note_matched_lines = note_hits;
        self.search_running = true;
        self.listening = true;
        proof {
            let listed = self.match_line_numbers@;
            lemma_ascending_is_sorted(listed);
            assert(note_texts(self.notes@).dom() =~= self.notes@.dom());
            lemma_listed_notes_leave_room(old(self)@, listed);
            assert(self@ =~= old(self)@.search_started(optional_text(error), note_hits@));
        }
        SearchAction::Start(
            SearchRequest {
                query: self.regex_input.clone(),
                use_regex: true,
                case_sensitive: false,
                start_offset: 0,
                max_results: MAX_SEARCH_RESULTS,
            },
        )
    }

    /// Searches for the pattern in the search bar. Without a pattern no search is started, and the
    /// noted lines are listed if they are to be shown. Without a file nothing happens.
    pub fn run_search(&mut self) -> (action: SearchAction)
        requires
            old(self).wf(),
        ensures
            final(self).wf(),
            final(self)@ == old(self)@.searched(),
            action.is_step(old(self)@.searched_step()),
    {
        if self.file_reader.is_none() {
            return SearchAction::Nothing;
        }
        if self.regex_input.as_str().is_empty() {
            self.note_matched_lines.clear();
            self.bottom = PaneSelection::new();
            self.regex_error = None;
            self.search_running = false;
            self.match_line_numbers = if self.show_all_notes {
                noted_lines(&self.notes)
            } else {
                Vec::new()
            };
            proof {
                let listed = self.match_line_numbers@;
                lemma_ascending_is_sorted(listed);
                assert(note_texts(self.notes@).dom() =~= self.notes@.dom());
                lemma_listed_notes_leave_room(old(self)@, listed);
                assert(self@ =~= old(self)@.searched());
            }
            return SearchAction::Cancel;
        }
        let error = pattern_error(self.regex_input.as_str());
        let hits = if error.is_none() {
            self.matching_notes()
        } else {
            BTreeSet::new()
        };
        self.start_search(error, hits)
    }

    /// The line that a match at `offset` is listed under: the line that the offset is in, or the
    /// line number behind the last one where the offset is behind the end of the file.
    pub fn resolve_line_for_offset(
        indexer: &FullLineIndex,
        reader: &FileReader,
        offset: usize,
    ) -> (line_no: usize)
        ensures
            line_no == match_line(indexer@, offset),
    {
        let line_no = indexer.find_line_at_offset(offset);
        proof {
            lemma_line_starts(indexer@);
            lemma_line_of(indexer@, offset as int);
            if offset < indexer@.len() {
                law_offset_is_in_its_line(indexer@, offset as int);
            } else {
                assert(indexer@.take(indexer@.len() as int) == indexer@);
            }
        }
        match indexer.get_line_with_reader(line_no, reader) {
            Some((_, end)) => if offset >= end {
                indexer.total_lines()
            } else {
                line_no
            },
            None => line_no,
        }
    }

    /// Puts the lines of the matches at the given offsets at their place in `lines`, each of them
    /// once.
    pub fn insert_match_lines(
        lines: &mut Vec<usize>,
        offsets: &Vec<usize>,
        indexer: &FullLineIndex,
        reader: &FileReader,
    )
        requires
            ascending(old(lines)@),
        ensures
            ascending(final(lines)@),
            final(lines)@.to_set() == old(lines)@.to_set().union(match_lines(indexer@, offsets@)),
    {
        let ghost before = lines@.to_set();
        let mut next: usize = 0;
        assert(offsets@.take(0) == Seq::<usize>::empty());
        assert(lines@.to_set() =~= before.union(match_lines(indexer@, offsets@.take(0))));
        while next < offsets.len()
            invariant
                next <= offsets@.len(),
                ascending(lines@),
                lines@.to_set() == before.union(match_lines(indexer@, offsets@.take(next as int))),
            decreases offsets@.len() - next,
        {
            let offset: usize = offsets[next];
            let line_no = Self::resolve_line_for_offset(indexer, reader, offset);
            insert_line(lines, line_no);
            proof {
                let passed = offsets@.take(next as int);
                assert(offsets@.take(next + 1) == passed.push(offset));
                lemma_match_lines_push(indexer@, passed, offset);
                assert(lines@.to_set() =~= before.union(
                    match_lines(indexer@, offsets@.take(next + 1)),
                ));
            }
            next = next + 1;
        }
        assert(offsets@.take(next as int) == offsets@);
    }

    /// Lists the lines of the matches at the given offsets.
    fn list_matches(&mut self, offsets: &Vec<usize>)
        requires
            old(self).wf(),
            old(self)@.reader is Some,
        ensures
            final(self).wf(),
            final(self)@ == (AppState {
                matches: sorted_lines(
                    old(self)@.matches.to_set().union(match_lines(old(self)@.data(), offsets@)),
                ),
                ..old(self)@
            }),
    {
        if let (Some(reader), Some(indexer)) = (&self.file_reader, &self.line_indexer) {
            Self::insert_match_lines(&mut self.match_line_numbers, offsets, indexer, &**reader);
        }
        proof {
            let before = old(self)@.matches;
            let after = self.match_line_numbers@;
            let data = old(self)@.data();
            lemma_ascending_is_sorted(after);
            assert forall|line: usize| after.contains(line) <==> before.contains(line)
                || match_lines(data, offsets@).contains(line) by {
                assert(after.to_set().contains(line) == after.contains(line));
                assert(before.to_set().contains(line) == before.contains(line));
            }
            assert forall|i: int| 0 <= i < after.len() implies after[i] < usize::MAX by {
                assert(after.contains(after[i]));
                if match_lines(data, offsets@).contains(after[i]) {
                    let lines = offsets@.map_values(|offset: usize| match_line(data, offset));
                    assert(lines.contains(after[i]));
                    lemma_match_line_is_bounded(data, offsets@[lines.index_of(after[i])]);
                }
            }
        }
    }

    /// Takes in a message of the search, which `handled` others came before in this poll. Returns
    /// whether to take in another one right away.
    ///
    /// The lines of reported matches are listed in file order, each of them once.
    pub fn on_search_event(&mut self, event: SearchEvent, handled: usize) -> (again: bool)
        requires
            old(self).wf(),
        ensures
            final(self).wf(),
            final(self)@ == old(self)@.after_event(event),
            again == old(self)@.polls_on(event, handled as int),
    {
        if !self.listening || self.file_reader.is_none() {
            return false;
        }
        match event {
            SearchEvent::Matches(offsets) => {
                self.list_matches(&offsets);
                handled < MAX_POLLED_MESSAGES - 1
            },
            SearchEvent::Finished => {
                self.search_running = false;
                self.listening = false;
                false
            },
            SearchEvent::Failed(message) => {
                self.regex_error = Some(message);
                self.search_running = false;
                self.listening = false;
                false
            },
            SearchEvent::Ignored => handled < MAX_POLLED_MESSAGES - 1,
            SearchEvent::NothingYet => false,
            SearchEvent::Disconnected => {
                self.search_running = false;
                self.listening = false;
                false
            },
        }
    }

    /// Extends the selection in the pane clicked last by shift with an arrow key, and has the top
    /// pane scroll to the line that the key moved to.
    pub fn extend_selection(&mut self, up: bool)
        requires
            old(self).wf(),
        ensures
            final(self).wf(),
            final(self)@ == old(self)@.selection_extended(up),
    {
        match self.active_pane {
            ActivePane::Bottom => {
                if self.match_line_numbers.len() == 0 {
                    return;
                }
                proof {
                    let lines = self.match_line_numbers@;
                    let anchor = self.bottom@.list_anchor(up, lines);
                    assert(lines.contains(lines[0]) && lines.contains(lines.last()));
                    assert(lines.contains(anchor));
                    assert(anchor <= lines.last());
                    law_arrow_selects_both_ends(self.bottom@, up, lines);
                }
                let target = self.bottom.extend_in_list(up, &self.match_line_numbers);
                self.top_scroll_target = Some(target);
            },
            ActivePane::Top => {
                if let Some(indexer) = &self.line_indexer {
                    let total = indexer.total_lines();
                    let target = self.top.extend_in_file(up, total);
                    self.top_scroll_target = Some(target);
                }
            },
        }
    }

    /// Handles the arrow keys, held together with shift: `up` and `down` say which of them were
    /// pressed. They are left to a text field that has the focus; with both pressed, up counts.
    pub fn handle_arrow_keys(&mut self, text_focused: bool, up: bool, down: bool)
        requires
            old(self).wf(),
        ensures
            final(self).wf(),
            final(self)@ == old(self)@.arrows_handled(text_focused, up, down),
    {
        if text_focused || !(up || down) {
            return;
        }
        self.extend_selection(up);
    }

    /// Applies a click on a line in the top pane.
    pub fn click_top(&mut self, line_no: usize, mods: Modifiers)
        requires
            old(self).wf(),
        ensures
            final(self).wf(),
            final(self)@ == old(self)@.top_clicked(line_no, mods),
    {
        self.active_pane = ActivePane::Top;
        self.top.click(line_no, mods);
    }

    /// Applies a click on a line listed in the bottom pane, and has the top pane scroll there.
    pub fn click_bottom(&mut self, line_no: usize, mods: Modifiers)
        requires
            old(self).wf(),
            old(self)@.matches.contains(line_no),
        ensures
            final(self).wf(),
            final(self)@ == old(self)@.bottom_clicked(line_no, mods),
    {
        self.active_pane = ActivePane::Bottom;
        self.bottom.click(line_no, mods);
        self.top_scroll_target = Some(line_no);
    }

    /// Opens the popup for the note of a line, with the note that it has.
    pub fn open_note_popup(&mut self, line_no: usize)
        requires
            old(self).wf(),
            line_no < usize::MAX,
        ensures
            final(self).wf(),
            final(self)@ == old(self)@.popup_opened(line_no),
    {
        self.note_popup_text = match self.notes.get(&line_no) {
            Some(note) => note.clone(),
            None => String::new(),
        };
        self.note_popup_line = Some(line_no);
    }

    /// Makes `text`, without the white space around it, the note of a line. A blank text removes
    /// the note.
    pub fn store_note(&mut self, line_no: usize, text: &str)
        requires
            old(self).wf(),
            line_no < usize::MAX,
        ensures
            final(self).wf(),
            final(self)@ == old(self)@.note_stored(line_no, text@),
    {
        let note = trim_white_space(text);
        if note.is_empty() {
            self.notes.remove(&line_no);
        } else {
            self.notes.insert(line_no, note.to_owned());
        }
        proof {
            law_trimming_clears_the_ends(text@);
            assert(self@.notes =~= old(self)@.note_stored(line_no, text@).notes);
            assert(self@ =~= old(self)@.note_stored(line_no, text@));
        }
    }

    /// Handles what was done in the note popup. Saving stores the note and searches again;
    /// cancelling, deleting and closing the popup leave the results as they are.
    pub fn handle_note_popup(&mut self, input: PopupInput) -> (action: SearchAction)
        requires
            old(self).wf(),
        ensures
            final(self).wf(),
            final(self)@ == old(self)@.popup_handled(input),
            action.is_step(old(self)@.popup_step(input)),
    {
        let line_no: usize = match self.note_popup_line {
            Some(line_no) => line_no,
            None => return SearchAction::Nothing,
        };
        let deleted = input.delete && self.notes.contains_key(&line_no);
        if deleted {
            self.notes.remove(&line_no);
            assert(self@.notes =~= old(self)@.notes.remove(line_no));
            assert(self@ =~= old(self)@.note_deleted(line_no));
        }
        if input.save {
            let text = self.note_popup_text.clone();
            self.store_note(line_no, text.as_str());
            self.note_popup_line = None;
            self.note_popup_text = String::new();
            return self.run_search();
        }
        if input.cancel || deleted || !input.open {
            self.note_popup_line = None;
            self.note_popup_text = String::new();
        }
        SearchAction::Nothing
    }

    /// Whether a line is selected in the pane clicked last.
    pub fn has_selection(&self) -> (selected: bool)
        ensures
            selected == !self@.active_selection().selected.is_empty(),
    {
        match self.active_pane {
            ActivePane::Top => !self.top.selected.is_empty(),
            ActivePane::Bottom => !self.bottom.selected.is_empty(),
        }
    }

    /// The text of the lines selected in the pane clicked last, with their notes, for the
    /// clipboard.
    pub fn selected_text(&self) -> (text: Option<String>)
        requires
            self.wf(),
            self@.selection_fits(),
        ensures
            optional_text(text) == self@.copied_text(),
    {
        if let (Some(reader), Some(indexer)) = (&self.file_reader, &self.line_indexer) {
            let lines = self.selected_lines();
            proof {
                if lines@.len() > 0 {
                    assert(lines@.to_set().contains(lines@[0]));
                }
            }
            if lines.len() == 0 {
                assert(lines@.to_set() =~= Set::<usize>::empty());
                return None;
            }
            Some(lines_for_clipboard(&lines, &self.notes, &**reader, indexer))
        } else {
            None
        }
    }

    /// How the line below the search bar is to be shown, and its text.
    pub fn status(&self) -> (status: (StatusKind, String))
        ensures
            status.0 == self@.status_kind(),
            status.1@ == self@.status_text(),
    {
        let count = decimal(self.match_line_numbers.len());
        if self.search_running {
            let mut text = "Searching\u{2026} ".to_owned();
            text.append(count.as_str());
            text.append(" matches so far");
            (StatusKind::Running, text)
        } else if let Some(message) = &self.regex_error {
            (StatusKind::Error, message.clone())
        } else if self.match_line_numbers.len() > 0 {
            let mut text = count;
            text.append(" matches found");
            (StatusKind::Info, text)
        } else if self.regex_input.as_str().is_empty() {
            (
                StatusKind::Info,
                "Type a regex above and press Enter or click Filter.".to_owned(),
            )
        } else {
            (StatusKind::Info, "No matches.".to_owned())
        }
    }

    /// What the bottom pane shows while no line is listed.
    pub fn empty_results_text(&self) -> (text: &'static str)
        ensures
            text@ == self@.empty_results_text(),
    {
        if self.regex_input.as_str().is_empty() {
            "Filter results will appear here."
        } else {
            "No matches for the current pattern."
        }
    }

    /// The title of the popup for the note of a line.
    pub fn note_popup_title(line_no: usize) -> (title: String)
        requires
            line_no < usize::MAX,
        ensures
            title@ == popup_title(line_no as nat),
    {
        let mut title = "Note \u{2014} line ".to_owned();
        let number = decimal(line_no + 1);
        title.append(number.as_str());
        title
    }

    /// Whether the rows of the top pane, and those of a window for the given viewport, can be
    /// counted.
    pub fn rows_fit(&self, fitting_rows: Option<usize>) -> (fit: bool)
        requires
            self.wf(),
            self@.reader is Some,
        ensures
            fit == self@.rows_fit(fitting_rows),
    {
        assert(self@.notes.dom() =~= self.notes@.dom());
        if let Some(indexer) = &self.line_indexer {
            let total_lines = indexer.total_lines();
            let notes = self.notes.len();
            if total_lines > usize::MAX - notes {
                return false;
            }
            let in_view: usize = match fitting_rows {
                Some(fitting) => {
                    if fitting == usize::MAX {
                        return false;
                    }
                    fitting + 1
                },
                None => DEFAULT_VISIBLE_ROWS,
            };
            if notes > usize::MAX - 2 * BUFFER {
                return false;
            }
            in_view <= usize::MAX - 2 * BUFFER - notes
        } else {
            false
        }
    }

    /// Whether the lines of a window of the top pane can be decoded.
    pub fn window_fits(&self, first_row: usize, fitting_rows: Option<usize>) -> (fits: bool)
        requires
            self.wf(),
            self@.reader is Some,
            self@.rows_fit(fitting_rows),
        ensures
            fits == self@.window_fits(first_row, fitting_rows),
    {
        assert(self@.notes.dom() =~= self.notes@.dom());
        if let Some(indexer) = &self.line_indexer {
            let total_lines = indexer.total_lines();
            let (first, end) = window_range(first_row, fitting_rows, &self.notes, total_lines);
            indexer.span_fits(first, end)
        } else {
            false
        }
    }

    /// Whether the lines listed in the bottom pane can be decoded.
    pub fn results_fit(&self) -> (fit: bool)
        requires
            self.wf(),
            self@.reader is Some,
        ensures
            fit == self@.results_fit(),
    {
        if let Some(indexer) = &self.line_indexer {
            indexer.lines_fit(&self.match_line_numbers)
        } else {
            false
        }
    }

    /// The lines selected in the pane clicked last, in file order.
    fn selected_lines(&self) -> (lines: Vec<usize>)
        ensures
            ascending(lines@),
            lines@.to_set() == self@.active_selection().selected,
            lines@ == sorted_lines(self@.active_selection().selected),
    {
        let lines = match self.active_pane {
            ActivePane::Top => members(&self.top.selected),
            ActivePane::Bottom => members(&self.bottom.selected),
        };
        proof {
            lemma_ascending_is_sorted(lines@);
        }
        lines
    }

    /// Whether the lines selected in the pane clicked last can be decoded.
    pub fn selection_fits(&self) -> (fits: bool)
        requires
            self.wf(),
        ensures
            fits == self@.selection_fits(),
    {
        match &self.line_indexer {
            Some(indexer) => indexer.lines_fit(&self.selected_lines()),
            None => {
                proof {
                    let lines = sorted_lines(self@.active_selection().selected);
                    assert forall|i: int| 0 <= i < lines.len() implies line_fits(
                        self@.data(),
                        #[trigger] lines[i] as int,
                    ) by {
                        lemma_empty_file_fits(lines[i] as int);
                    }
                }
                true
            },
        }
    }

    /// The number of rows of the top pane.
    pub fn total_rows(&self) -> (total: usize)
        requires
            self.wf(),
            self@.reader is Some,
            self@.total_rows() <= usize::MAX,
        ensures
            total == self@.total_rows(),
    {
        assert(self@.notes.dom() =~= self.notes@.dom());
        if let Some(indexer) = &self.line_indexer {
            indexer.total_lines() + self.notes.len()
        } else {
            0
        }
    }

    /// The rows of the top pane around a viewport whose first row is about `first_row` and in
    /// which `fitting_rows` rows fit, where that is known.
    pub fn top_rows(&self, first_row: usize, fitting_rows: Option<usize>) -> (window: RowWindow)
        requires
            self.wf(),
            self@.reader is Some,
            self@.rows_fit(fitting_rows),
            self@.window_fits(first_row, fitting_rows),
        ensures
            ({
                let noted = self@.notes.dom();
                let (first, end) = window_lines(
                    noted,
                    line_count(self@.data()) as int,
                    first_row as int,
                    fitting_rows,
                );
                &&& window.row_offset == first + notes_below(noted, first)
                &&& row_kinds(window.rows@) == file_rows(noted, first, end)
            }),
            rows_are_labelled(
                window.rows@,
                self@.notes,
                &self@.reader.unwrap(),
                self@.data(),
            ),
    {
        assert(self@.notes.dom() =~= self.notes@.dom());
        if let (Some(reader), Some(indexer)) = (&self.file_reader, &self.line_indexer) {
            build_window(
                first_row,
                fitting_rows,
                &self.notes,
                &self.note_matched_lines,
                &**reader,
                indexer,
            )
        } else {
            RowWindow { row_offset: 0, rows: Vec::new() }
        }
    }

    /// All rows of the bottom pane.
    pub fn bottom_rows(&self) -> (rows: Vec<(DisplayRow, String)>)
        requires
            self.wf(),
            self@.reader is Some,
            self@.results_fit(),
        ensures
            row_kinds(rows@) == listed_rows(self@.notes.dom(), self@.matches),
            rows_are_labelled(rows@, self@.notes, &self@.reader.unwrap(), self@.data()),
    {
        assert(self@.notes.dom() =~= self.notes@.dom());
        if let (Some(reader), Some(indexer)) = (&self.file_reader, &self.line_indexer) {
            build_listed_rows(
                &self.match_line_numbers,
                &self.notes,
                &self.note_matched_lines,
                &**reader,
                indexer,
            )
        } else {
            Vec::new()
        }
    }

    /// The row that the top pane is to be scrolled to, once. While the viewport has not been
    /// measured the request is kept for later.
    pub fn take_scroll_row(&mut self, viewport_measured: bool) -> (row: Option<usize>)
        requires
            old(self).wf(),
            old(self)@.scroll_target matches Some(target) ==> old(self)@.scroll_row(target)
                <= usize::MAX,
        ensures
            final(self).wf(),
            match old(self)@.scroll_answer(viewport_measured) {
                Some(answer) => row matches Some(r) && r == answer,
                None => row is None,
            },
            final(self)@ == old(self)@.scroll_taken(viewport_measured),
    {
        assert(self@.notes.dom() =~= self.notes@.dom());
        match self.top_scroll_target {
            Some(target) => {
                if !viewport_measured {
                    return None;
                }
                let row: usize = target + notes_before(&self.notes, target);
                self.top_scroll_target = None;
                Some(row)
            },
            None => None,
        }
    }

    /// Whether a file is open.
    pub fn has_file(&self) -> (open: bool)
        ensures
            open == self@.reader is Some,
    {
        self.file_reader.is_some()
    }

    /// The pattern in the search bar.
    pub fn regex_input(&self) -> (pattern: &str)
        ensures
            pattern@ == self@.regex_input,
    {
        self.regex_input.as_str()
    }

    /// Changes the pattern in the search bar.
    pub fn set_regex_input(&mut self, pattern: String)
        requires
            old(self).wf(),
        ensures
            final(self).wf(),
            final(self)@ == (AppState { regex_input: pattern@, ..old(self)@ }),
    {
        self.regex_input = pattern;
    }

    /// Whether a search is going on.
    pub fn search_running(&self) -> (running: bool)
        ensures
            running == self@.search_running,
    {
        self.search_running
    }

    /// Whether messages of a search are taken in.
    pub fn takes_messages(&self) -> (takes: bool)
        ensures
            takes == self@.takes_messages(),
    {
        self.listening && self.file_reader.is_some()
    }

    /// The patterns searched for, most recent first.
    pub fn search_history(&self) -> (history: &VecDeque<String>)
        ensures
            pattern_texts(history@) == self@.history,
    {
        &self.search_history
    }

    /// The lines listed in the bottom pane, in file order.
    pub fn match_line_numbers(&self) -> (lines: &Vec<usize>)
        ensures
            lines@ == self@.matches,
    {
        &self.match_line_numbers
    }

    /// Whether a line is listed in the bottom pane.
    pub fn lists_line(&self, line_no: usize) -> (listed: bool)
        requires
            self.wf(),
        ensures
            listed == self@.matches.contains(line_no),
    {
        let position = insertion_point(&self.match_line_numbers, line_no);
        position < self.match_line_numbers.len() && self.match_line_numbers[position] == line_no
    }

    /// The pane clicked last.
    pub fn active_pane(&self) -> (pane: ActivePane)
        ensures
            pane == self@.active_pane,
    {
        self.active_pane
    }

    /// The lines selected in the top pane.
    pub fn top_selected(&self) -> (selected: &BTreeSet<usize>)
        ensures
            selected@ == self@.top.selected,
    {
        &self.top.selected
    }

    /// The lines selected in the bottom pane.
    pub fn bottom_selected(&self) -> (selected: &BTreeSet<usize>)
        ensures
            selected@ == self@.bottom.selected,
    {
        &self.bottom.selected
    }

    /// The line that the top pane is to be scrolled to.
    pub fn scroll_target(&self) -> (target: Option<usize>)
        ensures
            target == self@.scroll_target,
    {
        self.top_scroll_target
    }

    /// The notes by line.
    pub fn notes(&self) -> (notes: &BTreeMap<usize, String>)
        ensures
            note_texts(notes@) == self@.notes,
    {
        &self.notes
    }

    /// The lines whose note matched the pattern of the last search.
    pub fn note_matched_lines(&self) -> (lines: &BTreeSet<usize>)
        ensures
            lines@ == self@.note_matched,
    {
        &self.note_matched_lines
    }

    /// Whether all noted lines are listed in the bottom pane.
    pub fn show_all_notes(&self) -> (show: bool)
        ensures
            show == self@.show_all_notes,
    {
        self.show_all_notes
    }

    /// Chooses whether the next search lists all noted lines.
    pub fn set_show_all_notes(&mut self, show: bool)
        requires
            old(self).wf(),
        ensures
            final(self).wf(),
            final(self)@ == (AppState { show_all_notes: show, ..old(self)@ }),
    {
        self.show_all_notes = show;
    }

    /// The line whose note is being edited.
    pub fn note_popup_line(&self) -> (line_no: Option<usize>)
        ensures
            line_no == self@.popup_line,
    {
        self.note_popup_line
    }

    /// The note being edited.
    pub fn note_popup_text(&self) -> (text: &str)
        ensures
            text@ == self@.popup_text,
    {
        self.note_popup_text.as_str()
    }

    /// Changes the note being edited.
    pub fn set_note_popup_text(&mut self, text: String)
        requires
            old(self).wf(),
        ensures
            final(self).wf(),
            final(self)@ == (AppState { popup_text: text@, ..old(self)@ }),
    {
        self.note_popup_text = text;
    }
}

} // verus!
