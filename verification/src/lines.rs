//! Ordered lists and sets of line numbers.

use std::collections::{BTreeMap, BTreeSet};
use vstd::prelude::*;

verus! {

broadcast use {
    vstd::std_specs::btree::group_btree_axioms,
    vstd::laws_cmp::group_laws_cmp,
};

/// Whether the line numbers strictly increase.
pub open spec fn ascending(lines: Seq<usize>) -> bool {
    forall|i: int, j: int| 0 <= i < j < lines.len() ==> lines[i] < lines[j]
}

/// The members of a finite set of line numbers in file order.
pub open spec fn sorted_lines(lines: Set<usize>) -> Seq<usize> {
    choose|sorted: Seq<usize>| ascending(sorted) && sorted.to_set() == lines
}

/// The number of lines in `lines` before `line`.
pub open spec fn rank(lines: Seq<usize>, line: usize) -> nat
    decreases lines.len(),
{
    if lines.len() == 0 {
        0
    } else {
        rank(lines.drop_last(), line) + if lines.last() < line {
            1nat
        } else {
            0nat
        }
    }
}

/// The lines from `a` to `b`, both included, whichever comes first.
pub open spec fn lines_between(a: usize, b: usize) -> Set<usize> {
    Set::new(|line: usize| (a <= line <= b) || (b <= line <= a))
}

/// A set of line numbers has one ascending order.
pub proof fn lemma_ascending_order_is_unique(a: Seq<usize>, b: Seq<usize>)
    requires
        ascending(a),
        ascending(b),
        a.to_set() == b.to_set(),
    ensures
        a == b,
    decreases a.len(),
{
    if a.len() == 0 {
        if b.len() > 0 {
            assert(b.to_set().contains(b[0]));
            assert(a.contains(b[0]));
        }
        assert(a == b);
    } else {
        assert(a.to_set().contains(a.last()));
        assert(b.contains(a.last()));
        assert(b.to_set().contains(b.last()));
        assert(a.contains(b.last()));
        let i = b.index_of(a.last());
        let j = a.index_of(b.last());
        assert(a.last() == b.last());
        let front_a = a.drop_last();
        let front_b = b.drop_last();
        assert forall|line: usize| front_a.to_set().contains(line) == front_b.to_set().contains(
            line,
        ) by {
            if front_a.contains(line) {
                let k = front_a.index_of(line);
                assert(a[k] == line);
                assert(a.to_set().contains(line));
                assert(b.contains(line));
                let m = b.index_of(line);
                assert(front_b[m] == line);
            }
            if front_b.contains(line) {
                let k = front_b.index_of(line);
                assert(b[k] == line);
                assert(b.to_set().contains(line));
                assert(a.contains(line));
                let m = a.index_of(line);
                assert(front_a[m] == line);
            }
        }
        assert(front_a.to_set() =~= front_b.to_set());
        lemma_ascending_order_is_unique(front_a, front_b);
        assert(a == front_a.push(a.last()));
        assert(b == front_b.push(b.last()));
    }
}

/// An ascending list is the sorted list of its members.
pub proof fn lemma_ascending_is_sorted(lines: Seq<usize>)
    requires
        ascending(lines),
    ensures
        sorted_lines(lines.to_set()) == lines,
{
    lemma_ascending_order_is_unique(sorted_lines(lines.to_set()), lines);
}

/// The rank of a line is the position in front of which all lines are smaller, and from which on
/// none is.
pub proof fn lemma_rank(lines: Seq<usize>, line: usize, position: int)
    requires
        0 <= position <= lines.len(),
        forall|i: int| 0 <= i < position ==> lines[i] < line,
        forall|i: int| position <= i < lines.len() ==> lines[i] >= line,
    ensures
        rank(lines, line) == position,
    decreases lines.len(),
{
    if lines.len() > 0 {
        if position == lines.len() {
            lemma_rank(lines.drop_last(), line, position - 1);
        } else {
            lemma_rank(lines.drop_last(), line, position);
        }
    }
}

/// The members of an ascending list with one more line at its place.
proof fn lemma_insert_keeps_order(lines: Seq<usize>, line: usize, position: int)
    requires
        ascending(lines),
        0 <= position <= lines.len(),
        forall|i: int| 0 <= i < position ==> lines[i] < line,
        forall|i: int| position <= i < lines.len() ==> lines[i] > line,
    ensures
        ascending(lines.insert(position, line)),
        lines.insert(position, line).to_set() == lines.to_set().insert(line),
{
    let longer = lines.insert(position, line);
    assert forall|other: usize| longer.to_set().contains(other) == lines.to_set().insert(
        line,
    ).contains(other) by {
        if lines.contains(other) {
            let i = lines.index_of(other);
            assert(longer[if i < position { i } else { i + 1 }] == other);
        }
        if longer.contains(other) && other != line {
            let i = longer.index_of(other);
            assert(lines[if i < position { i } else { i - 1 }] == other);
        }
        assert(longer[position] == line);
    }
    assert(longer.to_set() =~= lines.to_set().insert(line));
}

/// In an ascending list there is a position that separates the lines before `line` from the
/// others.
proof fn lemma_split_point(lines: Seq<usize>, line: usize) -> (position: int)
    requires
        ascending(lines),
    ensures
        0 <= position <= lines.len(),
        forall|i: int| 0 <= i < position ==> lines[i] < line,
        forall|i: int| position <= i < lines.len() ==> lines[i] >= line,
    decreases lines.len(),
{
    if lines.len() == 0 || lines.last() < line {
        lines.len() as int
    } else {
        let position = lemma_split_point(lines.drop_last(), line);
        assert forall|i: int| 0 <= i < position implies lines[i] < line by {
            assert(lines.drop_last()[i] < line);
        }
        assert forall|i: int| position <= i < lines.len() implies lines[i] >= line by {
            if i < lines.len() - 1 {
                assert(lines.drop_last()[i] >= line);
            }
        }
        position
    }
}

/// The sorted list of a finite set has its members in ascending order.
pub proof fn lemma_sorted_lines(lines: Set<usize>)
    requires
        lines.finite(),
    ensures
        ascending(sorted_lines(lines)),
        sorted_lines(lines).to_set() == lines,
    decreases lines.len(),
{
    if lines.len() == 0 {
        let sorted = Seq::<usize>::empty();
        assert(sorted.to_set() =~= lines);
        assert(ascending(sorted));
    } else {
        let line = lines.choose();
        let rest = lines.remove(line);
        lemma_sorted_lines(rest);
        let sorted = sorted_lines(rest);
        let position = lemma_split_point(sorted, line);
        if position < sorted.len() && sorted[position] == line {
            assert(sorted.to_set().contains(line));
        }
        assert forall|i: int| position <= i < sorted.len() implies sorted[i] > line by {
            assert(sorted.to_set().contains(sorted[i]));
        }
        lemma_insert_keeps_order(sorted, line, position);
        assert(rest.insert(line) =~= lines);
        assert(ascending(sorted.insert(position, line)));
    }
}

/// Order is defined on references to line numbers, as the iterators of the standard collections
/// hand them out.
proof fn lemma_line_references_are_ordered()
    ensures
        vstd::laws_cmp::obeys_cmp::<&usize>(),
{
    reveal(vstd::laws_eq::obeys_eq_spec_properties);
    reveal(vstd::laws_cmp::obeys_partial_cmp_spec_properties);
    reveal(vstd::laws_cmp::obeys_cmp_partial_ord);
    reveal(vstd::laws_cmp::obeys_cmp_ord);
    assert(vstd::laws_eq::obeys_eq::<&usize>());
    assert(vstd::laws_cmp::obeys_cmp_partial_ord::<&usize>());
    assert(vstd::laws_cmp::obeys_cmp_ord::<&usize>());
    assert(vstd::laws_cmp::obeys_partial_cmp_spec_properties::<&usize>());
}

proof fn lemma_increasing_is_ascending(keys: Seq<&usize>)
    requires
        vstd::std_specs::btree::increasing_seq(keys),
    ensures
        ascending(keys.unref()),
{
    lemma_line_references_are_ordered();
    let lines = keys.unref();
    assert forall|i: int, j: int| 0 <= i < j < lines.len() implies lines[i] < lines[j] by {
        assert(vstd::std_specs::cmp::OrdSpec::cmp_spec(&keys[i], &keys[j]) is Less);
    }
}

/// The noted lines in file order.
pub fn noted_lines(notes: &BTreeMap<usize, String>) -> (lines: Vec<usize>)
    ensures
        ascending(lines@),
        lines@.to_set() == notes@.dom(),
{
    let mut lines: Vec<usize> = Vec::new();
    for key in keys: notes.keys()
        invariant
            keys.seq() == vstd::std_specs::iter::IteratorSpec::remaining(&notes.keys()),
            lines@ == keys.seq().take(keys.index()).unref(),
    {
        lines.push(*key);
    }
    proof {
        let keys = vstd::std_specs::iter::IteratorSpec::remaining(&notes.keys());
        assert(lines@ == keys.unref());
        lemma_increasing_is_ascending(keys);
    }
    lines
}

/// The members of `set` in file order.
pub fn members(set: &BTreeSet<usize>) -> (lines: Vec<usize>)
    ensures
        ascending(lines@),
        lines@.to_set() == set@,
{
    let mut lines: Vec<usize> = Vec::new();
    for key in keys: set.iter()
        invariant
            keys.seq() == vstd::std_specs::iter::IteratorSpec::remaining(&set.iter()),
            lines@ == keys.seq().take(keys.index()).unref(),
    {
        lines.push(*key);
    }
    proof {
        let keys = vstd::std_specs::iter::IteratorSpec::remaining(&set.iter());
        assert(lines@ == keys.unref());
        lemma_increasing_is_ascending(keys);
    }
    lines
}

/// The set of the lines from `a` to `b`, both included, whichever comes first.
pub fn line_span_set(a: usize, b: usize) -> (set: BTreeSet<usize>)
    ensures
        set@ == lines_between(a, b),
{
    let low: usize = if a <= b { a } else { b };
    let high: usize = if a <= b { b } else { a };
    let mut set: BTreeSet<usize> = BTreeSet::new();
    let mut line: usize = low;
    set.insert(line);
    assert(set@ =~= lines_between(low, low));
    while line < high
        invariant
            low <= line <= high,
            set@ == lines_between(low, line),
        decreases high - line,
    {
        line = line + 1;
        set.insert(line);
        assert(set@ =~= lines_between(low, line));
    }
    assert(lines_between(low, high) =~= lines_between(a, b));
    set
}

/// The position in `lines` in front of which all lines are smaller than `line`.
pub fn insertion_point(lines: &Vec<usize>, line: usize) -> (position: usize)
    requires
        ascending(lines@),
    ensures
        position == rank(lines@, line),
        position <= lines@.len(),
        forall|i: int| 0 <= i < position ==> lines@[i] < line,
        forall|i: int| position <= i < lines@.len() ==> lines@[i] >= line,
{
    let mut low: usize = 0;
    let mut high: usize = lines.len();
    while low < high
        invariant
            low <= high <= lines@.len(),
            ascending(lines@),
            forall|i: int| 0 <= i < low ==> lines@[i] < line,
            forall|i: int| high <= i < lines@.len() ==> lines@[i] >= line,
        decreases high - low,
    {
        let middle: usize = low + (high - low) / 2;
        if lines[middle] < line {
            low = middle + 1;
        } else {
            high = middle;
        }
    }
    proof {
        lemma_rank(lines@, line, low as int);
    }
    low
}

/// Puts `line` at its place in `lines`, unless it is there already.
pub fn insert_line(lines: &mut Vec<usize>, line: usize)
    requires
        ascending(old(lines)@),
    ensures
        ascending(final(lines)@),
        final(lines)@.to_set() == old(lines)@.to_set().insert(line),
{
    let position = insertion_point(lines, line);
    let ghost before = lines@;
    if position < lines.len() && lines[position] == line {
        assert(before.contains(before[position as int]));
        assert(before.to_set() =~= before.to_set().insert(line));
        return;
    }
    lines.insert(position, line);
    proof {
        lemma_insert_keeps_order(before, line, position as int);
    }
}

} // verus!
