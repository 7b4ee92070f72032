//! Selecting lines with the mouse and the keyboard.
//!
//! Both panes share one model: a click selects a line, a shift-click the range from the anchor, a
//! command-click adds or removes a line, and shift with an arrow key moves the end of the range.
//! Selections hold line numbers, which stay what they are when the list of results changes.

use std::collections::BTreeSet;
use vstd::prelude::*;

use crate::lines::{ascending, insertion_point, line_span_set, lemma_rank, lines_between, rank};

verus! {

broadcast use {
    vstd::std_specs::btree::group_btree_axioms,
    vstd::laws_cmp::group_laws_cmp,
};

/// The modifier keys held during a click.
#[derive(Clone, Copy, Debug, PartialEq, Eq, Structural)]
pub struct Modifiers {
    pub shift: bool,
    pub command: bool,
}

/// A pane of the viewer.
#[derive(Clone, Copy, Debug, PartialEq, Eq, Structural)]
pub enum ActivePane {
    /// The whole file.
    Top,
    /// The results.
    Bottom,
}

/// What is selected in a pane, as a value.
#[verifier::ext_equal]
pub struct SelectionState {
    /// The selected lines.
    pub selected: Set<usize>,
    /// Where a range starts.
    pub anchor: Option<usize>,
    /// Where a range ends.
    pub cursor: Option<usize>,
}

/// What is selected in a pane.
pub struct PaneSelection {
    pub selected: BTreeSet<usize>,
    pub anchor: Option<usize>,
    pub cursor: Option<usize>,
}

impl View for PaneSelection {
    type V = SelectionState;

    open spec fn view(&self) -> SelectionState {
        SelectionState { selected: self.selected@, anchor: self.anchor, cursor: self.cursor }
    }
}

/// Nothing selected.
pub open spec fn nothing_selected() -> SelectionState {
    SelectionState { selected: Set::empty(), anchor: None, cursor: None }
}

/// The selection after a click on `line_no`.
pub open spec fn after_click(
    line_no: usize,
    mods: Modifiers,
    current: Set<usize>,
    anchor: Option<usize>,
) -> SelectionState {
    if mods.shift {
        let from = match anchor {
            Some(line) => line,
            None => line_no,
        };
        SelectionState {
            selected: lines_between(from, line_no),
            anchor: Some(from),
            cursor: Some(line_no),
        }
    } else {
        SelectionState {
            selected: if !mods.command {
                set![line_no]
            } else if current.contains(line_no) {
                current.remove(line_no)
            } else {
                current.insert(line_no)
            },
            anchor: Some(line_no),
            cursor: Some(line_no),
        }
    }
}

impl SelectionState {
    /// The end of the range before an arrow key moves it, in the file: without a cursor it is the
    /// end of the file that the key moves away from.
    pub open spec fn file_cursor(self, up: bool, total_lines: int) -> int {
        match self.cursor {
            Some(line) => line as int,
            None => if up {
                total_lines - 1
            } else {
                0
            },
        }
    }

    /// The selection after shift with an arrow key in a file of `total_lines` lines.
    pub open spec fn moved_in_file(self, up: bool, total_lines: int) -> SelectionState {
        let cursor = self.file_cursor(up, total_lines);
        let anchor = match self.anchor {
            Some(line) => line as int,
            None => cursor,
        };
        let target = if up {
            if cursor > 0 {
                cursor - 1
            } else {
                0
            }
        } else if cursor + 1 < total_lines {
            cursor + 1
        } else {
            total_lines - 1
        };
        SelectionState {
            selected: lines_between(anchor as usize, target as usize),
            anchor: Some(anchor as usize),
            cursor: Some(target as usize),
        }
    }

    /// The end of the range before an arrow key moves it, in a list of lines.
    pub open spec fn list_cursor(self, up: bool, lines: Seq<usize>) -> usize {
        match self.cursor {
            Some(line) => line,
            None => if up {
                lines.last()
            } else {
                lines[0]
            },
        }
    }

    /// The start of the range that an arrow key extends, in a list of lines.
    pub open spec fn list_anchor(self, up: bool, lines: Seq<usize>) -> usize {
        match self.anchor {
            Some(line) => line,
            None => self.list_cursor(up, lines),
        }
    }

    /// The place in `lines` that an arrow key moves the end of the range to.
    pub open spec fn list_target(self, up: bool, lines: Seq<usize>) -> int {
        let place = rank(lines, self.list_cursor(up, lines)) as int;
        if up {
            if place > 0 {
                place - 1
            } else {
                0
            }
        } else if place + 1 < lines.len() {
            place + 1
        } else {
            lines.len() - 1
        }
    }

    /// The selection after shift with an arrow key in a list of lines: the listed lines between
    /// the anchor and the line that the key moves to.
    pub open spec fn moved_in_list(self, up: bool, lines: Seq<usize>) -> SelectionState {
        let anchor = self.list_anchor(up, lines);
        let from = rank(lines, anchor) as int;
        let target = self.list_target(up, lines);
        SelectionState {
            selected: if from <= target {
                lines.subrange(from, target + 1).to_set()
            } else {
                lines.subrange(target, from + 1).to_set()
            },
            anchor: Some(anchor),
            cursor: Some(lines[target]),
        }
    }
}

/// The selection, anchor and cursor after a click with modifiers on `line_no`.
pub fn apply_click(
    line_no: usize,
    mods: Modifiers,
    current: &BTreeSet<usize>,
    anchor: Option<usize>,
) -> (outcome: (BTreeSet<usize>, Option<usize>, Option<usize>))
    ensures
        (SelectionState { selected: outcome.0@, anchor: outcome.1, cursor: outcome.2 })
            == after_click(line_no, mods, current@, anchor),
{
    if mods.shift {
        let from: usize = match anchor {
            Some(line) => line,
            None => line_no,
        };
        (line_span_set(from, line_no), Some(from), Some(line_no))
    } else if mods.command {
        let mut selected = current.clone();
        if !selected.remove(&line_no) {
            selected.insert(line_no);
        }
        (selected, Some(line_no), Some(line_no))
    } else {
        let mut selected: BTreeSet<usize> = BTreeSet::new();
        selected.insert(line_no);
        (selected, Some(line_no), Some(line_no))
    }
}

impl PaneSelection {
    /// Nothing selected.
    pub fn new() -> (selection: Self)
        ensures
            selection@ == nothing_selected(),
    {
        PaneSelection { selected: BTreeSet::new(), anchor: None, cursor: None }
    }

    /// Applies a click on `line_no`.
    pub fn click(&mut self, line_no: usize, mods: Modifiers)
        ensures
            final(self)@ == after_click(line_no, mods, old(self)@.selected, old(self)@.anchor),
    {
        let (selected, anchor, cursor) = apply_click(line_no, mods, &self.selected, self.anchor);
        self.selected = selected;
        self.anchor = anchor;
        self.cursor = cursor;
    }

    /// Extends the selection by shift with an arrow key, in a file of `total_lines` lines. Returns
    /// the line that the key moved to.
    pub fn extend_in_file(&mut self, up: bool, total_lines: usize) -> (target: usize)
        requires
            total_lines > 0,
        ensures
            final(self)@ == old(self)@.moved_in_file(up, total_lines as int),
            final(self)@.cursor == Some(target),
    {
        let cursor: usize = match self.cursor {
            Some(line) => line,
            None => if up {
                total_lines - 1
            } else {
                0
            },
        };
        let anchor: usize = match self.anchor {
            Some(line) => line,
            None => cursor,
        };
        let target: usize = if up {
            if cursor > 0 {
                cursor - 1
            } else {
                0
            }
        } else if cursor < total_lines - 1 {
            cursor + 1
        } else {
            total_lines - 1
        };
        self.selected = line_span_set(anchor, target);
        self.cursor = Some(target);
        self.anchor = Some(anchor);
        target
    }

    /// Extends the selection by shift with an arrow key, in a list of lines. Returns the line that
    /// the key moved to.
    pub fn extend_in_list(&mut self, up: bool, lines: &Vec<usize>) -> (target: usize)
        requires
            lines@.len() > 0,
            ascending(lines@),
            old(self)@.list_anchor(up, lines@) <= lines@.last(),
        ensures
            final(self)@ == old(self)@.moved_in_list(up, lines@),
            final(self)@.cursor == Some(target),
    {
        let count: usize = lines.len();
        let cursor: usize = match self.cursor {
            Some(line) => line,
            None => if up {
                lines[count - 1]
            } else {
                lines[0]
            },
        };
        let anchor: usize = match self.anchor {
            Some(line) => line,
            None => cursor,
        };
        let place: usize = insertion_point(lines, cursor);
        let target: usize = if up {
            if place > 0 {
                place - 1
            } else {
                0
            }
        } else if place < count - 1 {
            place + 1
        } else {
            count - 1
        };
        let from: usize = insertion_point(lines, anchor);
        let low: usize = if from <= target { from } else { target };
        let high: usize = if from <= target { target } else { from };
        let mut selected: BTreeSet<usize> = BTreeSet::new();
        let mut next: usize = low;
        assert(lines@.subrange(low as int, low as int).to_set() =~= Set::<usize>::empty());
        while next <= high
            invariant
                low <= next <= high + 1,
                high < count == lines@.len(),
                selected@ == lines@.subrange(low as int, next as int).to_set(),
            decreases high + 1 - next,
        {
            selected.insert(lines[next]);
            proof {
                let before = lines@.subrange(low as int, next as int);
                let after = lines@.subrange(low as int, next + 1);
                assert(after == before.push(lines@[next as int]));
                before.lemma_push_to_set_commute(lines@[next as int]);
            }
            next = next + 1;
        }
        self.selected = selected;
        self.cursor = Some(lines[target]);
        self.anchor = Some(anchor);
        lines[target]
    }
}

/// A plain click selects exactly the clicked line, whatever was selected before.
pub proof fn law_plain_click_selects_one_line(
    line_no: usize,
    current: Set<usize>,
    anchor: Option<usize>,
)
    ensures
        after_click(line_no, (Modifiers { shift: false, command: false }), current, anchor).selected
            == set![line_no],
{
}

/// Whatever the modifiers, the cursor goes to the clicked line; without shift the anchor does too,
/// and with shift an anchor stays where it is.
pub proof fn law_click_moves_the_cursor(
    line_no: usize,
    mods: Modifiers,
    current: Set<usize>,
    anchor: Option<usize>,
)
    ensures
        ({
            let after = after_click(line_no, mods, current, anchor);
            &&& after.cursor == Some(line_no)
            &&& !mods.shift ==> after.anchor == Some(line_no)
            &&& mods.shift && anchor is Some ==> after.anchor == anchor
        }),
{
}

/// Two command-clicks on a line leave the selection as it was.
pub proof fn law_command_click_undoes_itself(
    line_no: usize,
    current: Set<usize>,
    anchor: Option<usize>,
)
    ensures
        ({
            let mods = Modifiers { shift: false, command: true };
            let once = after_click(line_no, mods, current, anchor);
            after_click(line_no, mods, once.selected, once.anchor).selected == current
        }),
{
    let mods = Modifiers { shift: false, command: true };
    let once = after_click(line_no, mods, current, anchor);
    assert(after_click(line_no, mods, once.selected, once.anchor).selected =~= current);
}

/// A command-click changes nothing about the other lines.
pub proof fn law_command_click_keeps_other_lines(
    line_no: usize,
    current: Set<usize>,
    anchor: Option<usize>,
    other: usize,
)
    requires
        other != line_no,
    ensures
        after_click(
            line_no,
            (Modifiers { shift: false, command: true }),
            current,
            anchor,
        ).selected.contains(other) == current.contains(other),
{
}

/// A shift-click selects the same lines whether the anchor is above or below the clicked line, and
/// the range includes both.
pub proof fn law_shift_click_range_is_symmetric(
    a: usize,
    b: usize,
    command: bool,
    current: Set<usize>,
)
    ensures
        ({
            let mods = Modifiers { shift: true, command };
            let down = after_click(b, mods, current, Some(a)).selected;
            let up = after_click(a, mods, current, Some(b)).selected;
            &&& down == up
            &&& down.contains(a)
            &&& down.contains(b)
        }),
{
    assert(lines_between(a, b) =~= lines_between(b, a));
}

/// After a shift-click exactly the lines between the anchor and the clicked line are selected, both
/// included, whatever was selected before. Without an anchor the clicked line becomes the anchor.
pub proof fn law_shift_click_selects_exactly_the_range(
    line_no: usize,
    command: bool,
    current: Set<usize>,
    anchor: Option<usize>,
    line: usize,
)
    ensures
        ({
            let after = after_click(
                line_no,
                (Modifiers { shift: true, command }),
                current,
                anchor,
            );
            &&& anchor matches Some(from) ==> (after.selected.contains(line) <==> (from <= line
                && line <= line_no) || (line_no <= line && line <= from))
            &&& anchor is None ==> (after.selected.contains(line) <==> line == line_no)
            &&& anchor is None ==> after.anchor == Some(line_no)
        }),
{
}

/// What is selected after a click without the command key does not depend on what was selected
/// before.
pub proof fn law_clicks_forget_the_selection_before(
    line_no: usize,
    shift: bool,
    first: Set<usize>,
    second: Set<usize>,
    anchor: Option<usize>,
)
    ensures
        ({
            let mods = Modifiers { shift, command: false };
            after_click(line_no, mods, first, anchor) == after_click(line_no, mods, second, anchor)
        }),
{
}

/// A command-click selects a line that was not selected, and deselects one that was.
pub proof fn law_command_click_turns_the_line_over(
    line_no: usize,
    current: Set<usize>,
    anchor: Option<usize>,
)
    ensures
        after_click(
            line_no,
            (Modifiers { shift: false, command: true }),
            current,
            anchor,
        ).selected.contains(line_no) == !current.contains(line_no),
{
}

/// In the file, an arrow key moves the cursor by one line, and not beyond the ends of the file.
/// Without a cursor it starts from the end that the key moves away from, and without an anchor the
/// range starts there. Exactly the lines from the anchor to the cursor are selected.
pub proof fn law_arrow_moves_by_one_line(
    selection: SelectionState,
    up: bool,
    total_lines: int,
    line: usize,
)
    requires
        0 < total_lines <= usize::MAX,
    ensures
        ({
            let after = selection.moved_in_file(up, total_lines);
            let cursor = after.cursor.unwrap();
            let anchor = after.anchor.unwrap();
            &&& after.cursor is Some && after.anchor is Some
            &&& selection.cursor matches Some(from) ==> {
                &&& up && from > 0 ==> cursor + 1 == from
                &&& up && from == 0 ==> cursor == 0
                &&& !up && from + 1 < total_lines ==> cursor == from + 1
                &&& !up && from + 1 >= total_lines ==> cursor == total_lines - 1
            }
            &&& selection.cursor is None && up ==> cursor == if total_lines > 1 {
                total_lines - 2
            } else {
                0
            }
            &&& selection.cursor is None && !up ==> cursor == if total_lines > 1 {
                1int
            } else {
                0
            }
            &&& selection.anchor is Some ==> after.anchor == selection.anchor
            &&& selection.anchor is None && selection.cursor is Some ==> after.anchor
                == selection.cursor
            &&& selection.anchor is None && selection.cursor is None ==> anchor == if up {
                total_lines - 1
            } else {
                0
            }
            &&& after.selected.contains(line) <==> (anchor <= line && line <= cursor) || (cursor
                <= line && line <= anchor)
        }),
{
}

/// In the file, shift with an arrow key selects the lines from the anchor to the new cursor, and
/// keeps an anchor in place.
pub proof fn law_arrow_selects_from_anchor_to_cursor(
    selection: SelectionState,
    up: bool,
    total_lines: int,
)
    requires
        0 < total_lines <= usize::MAX,
    ensures
        ({
            let after = selection.moved_in_file(up, total_lines);
            &&& after.anchor matches Some(anchor) && after.cursor matches Some(cursor)
                && after.selected == lines_between(anchor, cursor)
            &&& selection.anchor is Some ==> after.anchor == selection.anchor
            &&& !up ==> after.cursor->0 < total_lines
        }),
{
}

/// In the file, an arrow key undoes the opposite one, unless the first stopped at an end of the
/// file.
pub proof fn law_arrows_in_the_file_undo_each_other(
    selection: SelectionState,
    up: bool,
    total_lines: int,
)
    requires
        0 < total_lines <= usize::MAX,
        selection.anchor matches Some(anchor) && selection.cursor matches Some(cursor)
            && selection.selected == lines_between(anchor, cursor) && cursor < total_lines && if up {
            0 < cursor
        } else {
            cursor + 1 < total_lines
        },
    ensures
        selection.moved_in_file(up, total_lines).moved_in_file(!up, total_lines) == selection,
{
}

/// In a list of lines, shift with an arrow key selects listed lines only.
pub proof fn law_arrow_selects_listed_lines(
    selection: SelectionState,
    up: bool,
    lines: Seq<usize>,
    line: usize,
)
    requires
        lines.len() > 0,
        ascending(lines),
        selection.list_anchor(up, lines) <= lines.last(),
        selection.moved_in_list(up, lines).selected.contains(line),
    ensures
        lines.contains(line),
{
    lemma_rank_is_in_list(lines, selection.list_anchor(up, lines));
    let from = rank(lines, selection.list_anchor(up, lines)) as int;
    lemma_rank_bound(lines, selection.list_cursor(up, lines));
    let target = selection.list_target(up, lines);
    let part = if from <= target {
        lines.subrange(from, target + 1)
    } else {
        lines.subrange(target, from + 1)
    };
    assert(part.contains(line));
    let i = part.index_of(line);
    assert(lines.contains(lines[if from <= target { from + i } else { target + i }]));
}

/// In a list of lines, the range includes the line that the key moved to, and the anchor where
/// that is listed.
pub proof fn law_arrow_selects_both_ends(selection: SelectionState, up: bool, lines: Seq<usize>)
    requires
        lines.len() > 0,
        ascending(lines),
        lines.contains(selection.list_anchor(up, lines)),
    ensures
        ({
            let after = selection.moved_in_list(up, lines);
            &&& after.cursor matches Some(cursor) && lines.contains(cursor)
                && after.selected.contains(cursor)
            &&& after.anchor == Some(selection.list_anchor(up, lines))
            &&& after.selected.contains(selection.list_anchor(up, lines))
        }),
{
    let anchor = selection.list_anchor(up, lines);
    let place = lines.index_of(anchor);
    assert(anchor <= lines.last());
    lemma_rank(lines, anchor, place);
    lemma_rank_bound(lines, selection.list_cursor(up, lines));
    let target = selection.list_target(up, lines);
    let low = if place <= target { place } else { target };
    let high = if place <= target { target } else { place };
    let part = lines.subrange(low, high + 1);
    assert(part[target - low] == lines[target]);
    assert(part[place - low] == anchor);
    assert(part.to_set().contains(lines[target]));
    assert(part.to_set().contains(anchor));
}

/// Whether `place` is where `line` stands in a list: all lines in front of it are smaller, and none
/// from it on is.
pub open spec fn stands_at(lines: Seq<usize>, line: usize, place: int) -> bool {
    &&& 0 <= place <= lines.len()
    &&& forall|i: int| 0 <= i < place ==> #[trigger] lines[i] < line
    &&& forall|i: int| place <= i < lines.len() ==> #[trigger] lines[i] >= line
}

proof fn lemma_members_of_a_part(lines: Seq<usize>, first: int, last: int, line: usize)
    requires
        ascending(lines),
        0 <= first <= last < lines.len(),
    ensures
        lines.subrange(first, last + 1).to_set().contains(line) <==> lines.contains(line)
            && lines[first] <= line <= lines[last],
{
    let part = lines.subrange(first, last + 1);
    if part.contains(line) {
        let i = part.index_of(line);
        assert(lines[first + i] == line);
    }
    if lines.contains(line) && lines[first] <= line <= lines[last] {
        let i = lines.index_of(line);
        assert(lines[i] == line);
        assert(first <= i <= last);
        assert(part[i - first] == line);
    }
}

/// In a list of lines, an arrow key moves the cursor by one listed line, and not beyond the ends of
/// the list; an anchor stays where it is. Exactly the listed lines from the anchor to the cursor
/// are selected. Here `place` is where the cursor stands in the list, and `from` where the anchor
/// does.
pub proof fn law_arrow_moves_by_one_listed_line(
    selection: SelectionState,
    up: bool,
    lines: Seq<usize>,
    anchor: usize,
    from: int,
    cursor: usize,
    place: int,
    line: usize,
)
    requires
        ascending(lines),
        selection.anchor == Some(anchor),
        selection.cursor == Some(cursor),
        stands_at(lines, anchor, from),
        stands_at(lines, cursor, place),
        from < lines.len(),
    ensures
        ({
            let after = selection.moved_in_list(up, lines);
            let end = after.cursor.unwrap();
            &&& after.cursor is Some
            &&& up && place > 0 ==> end == lines[place - 1]
            &&& up && place == 0 ==> end == lines[0]
            &&& !up && place + 1 < lines.len() ==> end == lines[place + 1]
            &&& !up && place + 1 >= lines.len() ==> end == lines[lines.len() - 1]
            &&& after.anchor == Some(anchor)
            &&& after.selected.contains(line) <==> lines.contains(line) && (lines[from] <= line
                <= end || end <= line <= lines[from])
        }),
{
    lemma_rank(lines, cursor, place);
    lemma_rank(lines, anchor, from);
    let target = selection.list_target(up, lines);
    if from <= target {
        lemma_members_of_a_part(lines, from, target, line);
    } else {
        lemma_members_of_a_part(lines, target, from, line);
    }
    assert(from < target ==> lines[from] < lines[target]);
    assert(target < from ==> lines[target] < lines[from]);
}

/// In a list of lines, an arrow key without a cursor moves as it does with the cursor at the end of
/// the list that it moves away from, and without an anchor as it does with the anchor at the
/// cursor.
pub proof fn law_arrow_starts_at_an_end_of_the_list(
    selection: SelectionState,
    up: bool,
    lines: Seq<usize>,
)
    requires
        lines.len() > 0,
    ensures
        selection.cursor is None ==> selection.moved_in_list(up, lines) == (SelectionState {
            cursor: Some(
                if up {
                    lines[lines.len() - 1]
                } else {
                    lines[0]
                },
            ),
            ..selection
        }).moved_in_list(up, lines),
        selection.anchor is None && selection.cursor is Some ==> selection.moved_in_list(up, lines)
            == (SelectionState { anchor: selection.cursor, ..selection }).moved_in_list(up, lines),
{
}

/// In a list of lines, an arrow key undoes the opposite one, unless the first stopped at an end of
/// the list.
pub proof fn law_arrows_in_a_list_undo_each_other(
    selection: SelectionState,
    up: bool,
    lines: Seq<usize>,
    from: int,
    place: int,
)
    requires
        ascending(lines),
        0 <= from < lines.len(),
        0 <= place < lines.len(),
        selection.anchor == Some(lines[from]),
        selection.cursor == Some(lines[place]),
        selection.selected == (if from <= place {
            lines.subrange(from, place + 1).to_set()
        } else {
            lines.subrange(place, from + 1).to_set()
        }),
        if up {
            0 < place
        } else {
            place + 1 < lines.len()
        },
    ensures
        selection.moved_in_list(up, lines).moved_in_list(!up, lines) == selection,
{
    let target = if up { place - 1 } else { place + 1 };
    lemma_rank(lines, lines[from], from);
    lemma_rank(lines, lines[place], place);
    lemma_rank(lines, lines[target], target);
}

proof fn lemma_rank_bound(lines: Seq<usize>, line: usize)
    ensures
        rank(lines, line) <= lines.len(),
    decreases lines.len(),
{
    if lines.len() > 0 {
        lemma_rank_bound(lines.drop_last(), line);
    }
}

proof fn lemma_rank_is_in_list(lines: Seq<usize>, line: usize)
    requires
        lines.len() > 0,
        line <= lines.last(),
    ensures
        rank(lines, line) < lines.len(),
{
    lemma_rank_bound(lines.drop_last(), line);
}

} // verus!
