//! The patterns searched for, most recent first.

use std::collections::VecDeque;
use vstd::prelude::*;

verus! {

/// How many patterns are remembered.
pub const MAX_HISTORY: usize = 20;

/// The patterns as text.
pub open spec fn pattern_texts(history: Seq<String>) -> Seq<Seq<char>> {
    history.map_values(|pattern: String| pattern@)
}

/// Holds of every pattern other than `pattern`.
pub open spec fn differs_from(pattern: Seq<char>) -> spec_fn(Seq<char>) -> bool {
    |other: Seq<char>| other != pattern
}

/// The patterns other than `pattern`, in their order.
pub open spec fn other_patterns(history: Seq<Seq<char>>, pattern: Seq<char>) -> Seq<Seq<char>> {
    history.filter(differs_from(pattern))
}

/// The history after a search for `pattern`: the pattern moves to the front, and the oldest one is
/// forgotten when there are too many. The empty pattern is not remembered.
pub open spec fn history_after(history: Seq<Seq<char>>, pattern: Seq<char>) -> Seq<Seq<char>> {
    if pattern.len() == 0 {
        history
    } else {
        let all = seq![pattern] + other_patterns(history, pattern);
        if all.len() > MAX_HISTORY {
            all.drop_last()
        } else {
            all
        }
    }
}

/// What holds of every history: no pattern twice, none empty, and not too many.
pub open spec fn history_is_valid(history: Seq<Seq<char>>) -> bool {
    &&& history.no_duplicates()
    &&& history.len() <= MAX_HISTORY
    &&& forall|i: int| 0 <= i < history.len() ==> (#[trigger] history[i]).len() > 0
}

/// Puts `pattern` at the front of the history.
pub fn add_to_history(history: &mut VecDeque<String>, pattern: String)
    ensures
        pattern_texts(final(history)@) == history_after(pattern_texts(old(history)@), pattern@),
{
    if pattern.as_str().is_empty() {
        return;
    }
    let ghost before = pattern_texts(history@);
    let ghost keep = differs_from(pattern@);
    let count = history.len();
    let mut handled: usize = 0;
    proof {
        assert(before.take(0) == Seq::<Seq<char>>::empty());
        reveal_with_fuel(Seq::filter, 1);
        assert(pattern_texts(history@) =~= before.skip(0) + before.take(0).filter(keep));
    }
    while handled < count
        invariant
            count == before.len(),
            handled <= count,
            keep == differs_from(pattern@),
            pattern_texts(history@) == before.skip(handled as int) + before.take(
                handled as int,
            ).filter(keep),
        decreases count - handled,
    {
        let ghost passed = history@;
        let entry = history.pop_front();
        proof {
            let next = before[handled as int];
            assert(pattern_texts(passed)[0] == next);
            assert(before.take(handled + 1) == before.take(handled as int).push(next));
            before.take(handled as int).lemma_filter_push(next, keep);
            assert(before.take(handled + 1).drop_last() == before.take(handled as int));
            assert(pattern_texts(history@) =~= pattern_texts(passed).drop_first());
            assert(pattern_texts(history@) =~= before.skip(handled + 1) + before.take(
                handled as int,
            ).filter(keep));
        }
        let ghost rest = history@;
        if let Some(entry) = entry {
            assert(entry@ == before[handled as int]);
            if !(entry == pattern) {
                history.push_back(entry);
                assert(pattern_texts(history@) =~= pattern_texts(rest).push(entry@));
            }
        }
        handled = handled + 1;
        assert(pattern_texts(history@) =~= before.skip(handled as int) + before.take(
            handled as int,
        ).filter(keep));
    }
    assert(before.skip(handled as int) + before.take(handled as int).filter(keep)
        =~= before.filter(keep)) by {
        assert(before.take(handled as int) == before);
    }
    let ghost others = history@;
    history.push_front(pattern);
    assert(pattern_texts(history@) =~= seq![pattern@] + pattern_texts(others));
    if history.len() > MAX_HISTORY {
        let ghost all = history@;
        let _ = history.pop_back();
        assert(pattern_texts(history@) =~= pattern_texts(all).drop_last());
    }
}

proof fn lemma_other_patterns(history: Seq<Seq<char>>, pattern: Seq<char>)
    ensures
        ({
            let others = other_patterns(history, pattern);
            &&& others.len() <= history.len()
            &&& !others.contains(pattern)
            &&& forall|other: Seq<char>|
                other != pattern ==> (#[trigger] others.contains(other) <==> history.contains(other))
            &&& history.no_duplicates() ==> others.no_duplicates()
            &&& !history.contains(pattern) ==> others == history
            &&& history.contains(pattern) ==> others.len() < history.len()
        }),
    decreases history.len(),
{
    reveal(Seq::filter);
    let others = other_patterns(history, pattern);
    if history.len() > 0 {
        let front = history.drop_last();
        lemma_other_patterns(front, pattern);
        let front_others = other_patterns(front, pattern);
        let last = history.last();
        assert(history == front.push(last));
        assert(front.contains(last) ==> !history.no_duplicates()) by {
            if front.contains(last) {
                assert(history[front.index_of(last)] == history[history.len() - 1]);
            }
        }
        assert(history.no_duplicates() ==> front.no_duplicates());
        assert forall|other: Seq<char>| history.contains(other) == (front.contains(other) || other
            == last) by {
            if front.contains(other) {
                assert(history[front.index_of(other)] == other);
            }
            if history.contains(other) && other != last {
                assert(front[history.index_of(other)] == other);
            }
            assert(history[history.len() - 1] == last);
        }
        if last != pattern {
            assert(others == front_others.push(last));
            assert forall|other: Seq<char>| others.contains(other) == (front_others.contains(other)
                || other == last) by {
                if front_others.contains(other) {
                    assert(others[front_others.index_of(other)] == other);
                }
                if others.contains(other) && other != last {
                    assert(front_others[others.index_of(other)] == other);
                }
                assert(others[others.len() - 1] == last);
            }
            if history.no_duplicates() {
                assert(!front_others.contains(last));
            }
        } else {
            assert(others == front_others);
        }
    }
}

/// Patterns as text are the patterns in their order, character for character.
pub proof fn law_pattern_texts_are_the_patterns(history: Seq<String>, i: int)
    ensures
        pattern_texts(history).len() == history.len(),
        0 <= i < history.len() ==> pattern_texts(history)[i] == history[i]@,
{
}

/// A search never makes a history invalid: no pattern is remembered twice, the empty one is not
/// remembered, and there are never more than [`MAX_HISTORY`].
pub proof fn law_history_stays_valid(history: Seq<Seq<char>>, pattern: Seq<char>)
    requires
        history_is_valid(history),
    ensures
        history_is_valid(history_after(history, pattern)),
{
    if pattern.len() > 0 {
        lemma_other_patterns(history, pattern);
        let others = other_patterns(history, pattern);
        let all = seq![pattern] + others;
        assert forall|i: int| 0 <= i < all.len() implies (#[trigger] all[i]).len() > 0 by {
            if i > 0 {
                assert(others.contains(others[i - 1]));
                assert(others[i - 1] != pattern);
                assert(history.contains(others[i - 1]));
            }
        }
        assert(all.no_duplicates()) by {
            assert forall|i: int, j: int| 0 <= i < j < all.len() implies all[i] != all[j] by {
                if i == 0 {
                    assert(others.contains(others[j - 1]));
                } else {
                    assert(others[i - 1] != others[j - 1]);
                }
            }
        }
    }
}

/// The pattern searched for last comes first.
pub proof fn law_last_search_comes_first(history: Seq<Seq<char>>, pattern: Seq<char>)
    requires
        pattern.len() > 0,
    ensures
        history_after(history, pattern).len() > 0,
        history_after(history, pattern)[0] == pattern,
{
}

/// Searching for the same pattern again changes nothing.
pub proof fn law_repeated_search_is_remembered_once(history: Seq<Seq<char>>, pattern: Seq<char>)
    requires
        history_is_valid(history),
    ensures
        history_after(history_after(history, pattern), pattern) == history_after(history, pattern),
{
    if pattern.len() > 0 {
        reveal(Seq::filter);
        let once = history_after(history, pattern);
        law_history_stays_valid(history, pattern);
        let tail = once.drop_first();
        assert(!tail.contains(pattern)) by {
            if tail.contains(pattern) {
                assert(once[tail.index_of(pattern) + 1] == once[0]);
            }
        }
        assert(once == seq![pattern] + tail);
        let differs = differs_from(pattern);
        Seq::filter_distributes_over_add(seq![pattern], tail, differs);
        lemma_other_patterns(tail, pattern);
        assert(seq![pattern].filter(differs) =~= Seq::<Seq<char>>::empty()) by {
            assert(seq![pattern].drop_last() =~= Seq::<Seq<char>>::empty());
            assert(seq![pattern].drop_last().filter(differs) =~= Seq::<Seq<char>>::empty());
        }
        assert(other_patterns(once, pattern) =~= tail);
    }
}

/// A search for a pattern that is remembered already moves it to the front, and the others keep
/// their order.
pub proof fn law_old_pattern_moves_to_the_front(history: Seq<Seq<char>>, place: int)
    requires
        history_is_valid(history),
        0 <= place < history.len(),
    ensures
        history_after(history, history[place]) == seq![history[place]] + history.remove(place),
{
    let pattern = history[place];
    lemma_other_patterns_without_one(history, place);
    assert(pattern.len() > 0);
    assert(history_after(history, pattern) =~= seq![pattern] + history.remove(place));
}

/// A search for a new pattern puts it in front of the others, which keep their order; the oldest
/// one is forgotten where there is no room for it. The empty pattern changes nothing.
pub proof fn law_new_pattern_is_put_in_front(history: Seq<Seq<char>>, pattern: Seq<char>)
    requires
        !history.contains(pattern),
    ensures
        pattern.len() == 0 ==> history_after(history, pattern) == history,
        pattern.len() > 0 && history.len() < 20 ==> history_after(history, pattern)
            == seq![pattern] + history,
        pattern.len() > 0 && history.len() >= 20 ==> history_after(history, pattern)
            == seq![pattern] + history.drop_last(),
{
    lemma_other_patterns(history, pattern);
    if pattern.len() > 0 && history.len() >= 20 {
        assert((seq![pattern] + history).drop_last() =~= seq![pattern] + history.drop_last());
    }
}

/// While there is room, what is remembered of a history with one more old pattern at its end is
/// what is remembered of the history, and that pattern at the end unless it is the one searched
/// for.
pub proof fn law_old_patterns_keep_their_order(
    history: Seq<Seq<char>>,
    oldest: Seq<char>,
    pattern: Seq<char>,
)
    requires
        pattern.len() > 0,
        history.len() < 19,
    ensures
        history_after(Seq::empty(), pattern) == seq![pattern],
        oldest == pattern ==> history_after(history.push(oldest), pattern) == history_after(
            history,
            pattern,
        ),
        oldest != pattern ==> history_after(history.push(oldest), pattern) == history_after(
            history,
            pattern,
        ).push(oldest),
{
    reveal(Seq::filter);
    lemma_other_patterns(history, pattern);
    lemma_other_patterns(history.push(oldest), pattern);
    history.lemma_filter_push(oldest, differs_from(pattern));
    assert(history_after(Seq::empty(), pattern) =~= seq![pattern]);
    if oldest != pattern {
        assert(history_after(history.push(oldest), pattern) =~= history_after(
            history,
            pattern,
        ).push(oldest));
    }
}

proof fn lemma_other_patterns_without_one(history: Seq<Seq<char>>, place: int)
    requires
        history.no_duplicates(),
        0 <= place < history.len(),
    ensures
        other_patterns(history, history[place]) == history.remove(place),
{
    reveal(Seq::filter);
    let pattern = history[place];
    let differs = differs_from(pattern);
    let front = history.take(place);
    let back = history.skip(place + 1);
    assert(history =~= front + (seq![pattern] + back));
    assert(!front.contains(pattern)) by {
        if front.contains(pattern) {
            assert(history[front.index_of(pattern)] == history[place]);
        }
    }
    assert(!back.contains(pattern)) by {
        if back.contains(pattern) {
            assert(history[back.index_of(pattern) + place + 1] == history[place]);
        }
    }
    lemma_other_patterns(front, pattern);
    lemma_other_patterns(back, pattern);
    Seq::filter_distributes_over_add(front, seq![pattern] + back, differs);
    Seq::filter_distributes_over_add(seq![pattern], back, differs);
    assert(seq![pattern].filter(differs) =~= Seq::<Seq<char>>::empty()) by {
        assert(seq![pattern].drop_last() =~= Seq::<Seq<char>>::empty());
        assert(seq![pattern].drop_last().filter(differs) =~= Seq::<Seq<char>>::empty());
    }
    assert(other_patterns(history, pattern) =~= front + back);
    assert(history.remove(place) =~= front + back);
}

/// While there is room, or the pattern is an old one, a search forgets no pattern.
pub proof fn law_search_forgets_only_when_full(
    history: Seq<Seq<char>>,
    pattern: Seq<char>,
    other: Seq<char>,
)
    requires
        history_is_valid(history),
        history.contains(other),
        history.len() < MAX_HISTORY || history.contains(pattern),
    ensures
        history_after(history, pattern).contains(other),
{
    lemma_other_patterns(history, pattern);
    let others = other_patterns(history, pattern);
    let all = seq![pattern] + others;
    if pattern.len() > 0 {
        if other == pattern {
            assert(all[0] == other);
        } else {
            assert(others.contains(other));
            assert(all[others.index_of(other) + 1] == other);
        }
    }
}

} // verus!
