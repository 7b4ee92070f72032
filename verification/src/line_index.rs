//! Exact line indexing.
//!
//! A [`FullLineIndex`] records where every line of a file starts, found by one scan over all of
//! its bytes. Only positions are kept, one `usize` per line, never line content: looking a line up
//! gives its byte range, and the bytes are read from the file on demand.

use large_text_core::file_reader::FileReader;
use vstd::prelude::*;

use crate::reader::{file_bytes, MAX_CHUNK};

verus! {

/// The byte that ends a line.
pub const NEWLINE: u8 = 10;

/// The number of line ends in `data`.
pub open spec fn newline_count(data: Seq<u8>) -> nat
    decreases data.len(),
{
    if data.len() == 0 {
        0
    } else {
        newline_count(data.drop_last()) + if data.last() == NEWLINE {
            1nat
        } else {
            0nat
        }
    }
}

/// The number of lines of `data`. What follows the last line end is a line too, even when it is
/// empty.
pub open spec fn line_count(data: Seq<u8>) -> nat {
    newline_count(data) + 1
}

/// The number of line ends before `offset`, which is the number of the line that `offset` is in.
pub open spec fn line_of(data: Seq<u8>, offset: int) -> nat {
    newline_count(data.take(if offset < data.len() { offset } else { data.len() as int }))
}

/// Whether a line starts at `offset`: at the front of the data, and behind each line end.
pub open spec fn is_line_start(data: Seq<u8>, offset: int) -> bool {
    offset == 0 || (0 < offset <= data.len() && data[offset - 1] == NEWLINE)
}

/// The offsets at which the lines of `data` start, in order.
pub open spec fn line_starts(data: Seq<u8>) -> Seq<int>
    decreases data.len(),
{
    if data.len() == 0 {
        seq![0int]
    } else if data.last() == NEWLINE {
        line_starts(data.drop_last()).push(data.len() as int)
    } else {
        line_starts(data.drop_last())
    }
}

/// The byte range of line `line_no`: up to where the next line starts, and up to the end of the
/// data for the last line.
pub open spec fn line_span(data: Seq<u8>, line_no: int) -> Option<(int, int)> {
    let starts = line_starts(data);
    if 0 <= line_no < starts.len() - 1 {
        Some((starts[line_no], starts[line_no + 1]))
    } else if line_no == starts.len() - 1 {
        Some((starts[line_no], data.len() as int))
    } else {
        None
    }
}

/// Whether line `line_no` is short enough to be decoded at once. A line that does not exist is.
pub open spec fn line_fits(data: Seq<u8>, line_no: int) -> bool {
    line_span(data, line_no) matches Some((start, end)) ==> end - start <= MAX_CHUNK
}

/// Whether each of the given lines is short enough to be decoded at once.
pub open spec fn lines_fit(data: Seq<u8>, lines: Seq<usize>) -> bool {
    forall|i: int| 0 <= i < lines.len() ==> line_fits(data, #[trigger] lines[i] as int)
}

/// Whether each line from `first` up to, but not including, `end` is short enough to be decoded at
/// once.
pub open spec fn span_fits(data: Seq<u8>, first: int, end: int) -> bool {
    forall|line_no: int| first <= line_no < end ==> #[trigger] line_fits(data, line_no)
}

/// Every line of an empty file is short enough to be decoded at once.
pub proof fn lemma_empty_file_fits(line_no: int)
    ensures
        line_fits(Seq::empty(), line_no),
{
    assert(line_starts(Seq::<u8>::empty()) == seq![0int]);
}

/// There are at most as many line ends as bytes.
pub proof fn lemma_newline_count_is_bounded(data: Seq<u8>)
    ensures
        newline_count(data) <= data.len(),
    decreases data.len(),
{
    if data.len() > 0 {
        lemma_newline_count_is_bounded(data.drop_last());
    }
}

/// The basic facts about line starts.
pub proof fn lemma_line_starts(data: Seq<u8>)
    ensures
        line_starts(data).len() == line_count(data),
        line_starts(data)[0] == 0,
        forall|i: int, j: int|
            0 <= i < j < line_starts(data).len() ==> line_starts(data)[i] < line_starts(data)[j],
        forall|i: int|
            0 <= i < line_starts(data).len() ==> 0 <= #[trigger] line_starts(data)[i]
                <= data.len(),
    decreases data.len(),
{
    if data.len() > 0 {
        lemma_line_starts(data.drop_last());
    }
}

/// The line starts of a prefix are the line starts up to its end.
proof fn lemma_line_starts_of_prefix(data: Seq<u8>, end: int)
    requires
        0 <= end <= data.len(),
    ensures
        ({
            let front = line_starts(data.take(end));
            &&& front.len() <= line_starts(data).len()
            &&& forall|i: int| 0 <= i < front.len() ==> front[i] == line_starts(data)[i]
            &&& forall|i: int|
                front.len() <= i < line_starts(data).len() ==> #[trigger] line_starts(data)[i] > end
        }),
    decreases data.len(),
{
    if end == data.len() {
        assert(data.take(end) == data);
    } else {
        let shorter = data.drop_last();
        lemma_line_starts_of_prefix(shorter, end);
        assert(shorter.take(end) == data.take(end));
    }
}

/// The line that an offset is in starts at or before the offset, and the next line starts behind
/// it.
pub proof fn lemma_line_of(data: Seq<u8>, offset: int)
    requires
        0 <= offset,
    ensures
        line_of(data, offset) < line_count(data),
        line_starts(data)[line_of(data, offset) as int] <= offset,
        forall|i: int|
            line_of(data, offset) < i < line_count(data) ==> #[trigger] line_starts(data)[i]
                > offset,
{
    let end = if offset < data.len() { offset } else { data.len() as int };
    lemma_line_starts(data);
    lemma_line_starts(data.take(end));
    lemma_line_starts_of_prefix(data, end);
    assert(line_starts(data.take(end))[line_of(data, offset) as int] <= end);
}

/// The recorded starts are exactly the positions where a line starts: none is missing and none is
/// made up.
pub proof fn law_line_starts_are_exact(data: Seq<u8>, offset: int)
    ensures
        line_starts(data).contains(offset) <==> is_line_start(data, offset),
    decreases data.len(),
{
    lemma_line_starts(data);
    if data.len() > 0 {
        let shorter = data.drop_last();
        law_line_starts_are_exact(shorter, offset);
        lemma_line_starts(shorter);
        if line_starts(shorter).contains(offset) {
            let i = line_starts(shorter).index_of(offset);
            assert(line_starts(data)[i] == offset);
        }
        if offset == data.len() && data.last() == NEWLINE {
            assert(line_starts(data).last() == offset);
        }
    } else {
        assert(line_starts(data)[0] == 0);
    }
}

/// The lines cover the file without gap or overlap: the first starts at 0, each ends where the
/// next one starts, and the last ends at the end of the file.
pub proof fn law_lines_tile_the_file(data: Seq<u8>, line_no: int)
    requires
        0 <= line_no < line_count(data),
    ensures
        line_span(data, line_no) matches Some((start, end)) && start <= end,
        line_span(data, 0) matches Some((start, _)) && start == 0,
        line_no + 1 < line_count(data) ==> line_span(data, line_no).unwrap().1 == line_span(
            data,
            line_no + 1,
        ).unwrap().0,
        line_no + 1 == line_count(data) ==> line_span(data, line_no).unwrap().1 == data.len(),
{
    lemma_line_starts(data);
}

/// Every byte is in the line that its offset resolves to.
pub proof fn law_offset_is_in_its_line(data: Seq<u8>, offset: int)
    requires
        0 <= offset < data.len(),
    ensures
        line_span(data, line_of(data, offset) as int) matches Some((start, end)) && start <= offset
            < end,
{
    lemma_line_starts(data);
    lemma_line_of(data, offset);
}

/// Every offset in a line resolves to that line.
pub proof fn law_line_offsets_resolve_to_it(data: Seq<u8>, line_no: int, offset: int)
    requires
        line_span(data, line_no) matches Some((start, end)) && start <= offset < end,
    ensures
        line_of(data, offset) == line_no,
{
    lemma_line_starts(data);
    lemma_line_of(data, offset);
}

/// Where a line starts resolves to that line, also where the line is empty.
pub proof fn law_line_start_resolves_to_its_line(data: Seq<u8>, line_no: int)
    requires
        0 <= line_no < line_count(data),
    ensures
        line_span(data, line_no) matches Some((start, _)) && line_of(data, start) == line_no,
{
    lemma_line_starts(data);
    lemma_line_of(data, line_starts(data)[line_no]);
}

/// There is one line more than there are line feeds in the file.
pub proof fn law_line_count_counts_line_feeds(data: Seq<u8>)
    ensures
        line_count(data) == data.to_multiset().count(10) + 1,
    decreases data.len(),
{
    broadcast use vstd::seq_lib::group_to_multiset_ensures;

    if data.len() > 0 {
        let front = data.drop_last();
        law_line_count_counts_line_feeds(front);
        assert(data =~= front.push(data.last()));
        assert(data.to_multiset() =~= front.to_multiset().insert(data.last()));
    } else {
        assert(data.to_multiset() =~= vstd::multiset::Multiset::<u8>::empty());
    }
}

/// Exactly the lines from 0 up to the line count have a byte range.
pub proof fn law_only_lines_have_a_range(data: Seq<u8>, line_no: int)
    ensures
        line_span(data, line_no) is Some <==> 0 <= line_no < line_count(data),
{
    lemma_line_starts(data);
}

/// An offset behind the end of the file counts to the last line.
pub proof fn law_offsets_behind_the_end_are_in_the_last_line(data: Seq<u8>, offset: int)
    requires
        offset >= data.len(),
    ensures
        line_of(data, offset) == line_count(data) - 1,
{
    assert(data.take(data.len() as int) =~= data);
}

/// A line can be decoded at once exactly where it is no longer than a sixteenth of the address
/// space.
pub proof fn law_lines_of_moderate_length_fit(data: Seq<u8>, line_no: int)
    ensures
        line_fits(data, line_no) <==> (line_span(data, line_no) matches Some((start, end)) ==> end
            - start <= usize::MAX / 16),
{
}

/// Two offsets in different lines never resolve to the same line number.
pub proof fn law_offsets_in_different_lines_stay_apart(
    data: Seq<u8>,
    first_line: int,
    first_offset: int,
    second_line: int,
    second_offset: int,
)
    requires
        first_line != second_line,
        line_span(data, first_line) matches Some((start, end)) && start <= first_offset < end,
        line_span(data, second_line) matches Some((start, end)) && start <= second_offset < end,
    ensures
        line_of(data, first_offset) != line_of(data, second_offset),
{
    law_line_offsets_resolve_to_it(data, first_line, first_offset);
    law_line_offsets_resolve_to_it(data, second_line, second_offset);
}

/// A line end is the last byte of its line: no line holds one before its last byte, and every line
/// but the last one of the file has one there.
pub proof fn law_newlines_only_end_lines(data: Seq<u8>, line_no: int, offset: int)
    requires
        line_span(data, line_no) matches Some((start, end)) && start <= offset < end,
    ensures
        offset < line_span(data, line_no).unwrap().1 - 1 ==> data[offset] != NEWLINE,
        line_no + 1 < line_count(data) && offset == line_span(data, line_no).unwrap().1 - 1
            ==> data[offset] == NEWLINE,
{
    lemma_line_starts(data);
    let starts = line_starts(data);
    let (start, end) = line_span(data, line_no).unwrap();
    if data[offset] == NEWLINE {
        law_line_starts_are_exact(data, offset + 1);
        let i = starts.index_of(offset + 1);
        assert(starts[i] == offset + 1);
        if i <= line_no {
            assert(starts[i] <= starts[line_no]);
        }
        if i > line_no + 1 {
            assert(starts[line_no + 1] < starts[i]);
        }
    }
    if line_no + 1 < line_count(data) {
        assert(starts.contains(starts[line_no + 1]));
        law_line_starts_are_exact(data, starts[line_no + 1]);
    }
}

/// Where every line of a file starts.
pub struct FullLineIndex {
    line_offsets: Vec<usize>,
    file_size: usize,
    data: Ghost<Seq<u8>>,
}

impl View for FullLineIndex {
    type V = Seq<u8>;

    /// The bytes that were indexed.
    closed spec fn view(&self) -> Seq<u8> {
        self.data@
    }
}

impl FullLineIndex {
    #[verifier::type_invariant]
    spec fn well_formed(&self) -> bool {
        &&& self.file_size == self.data@.len()
        &&& self.line_offsets@.len() == line_starts(self.data@).len()
        &&& forall|i: int|
            0 <= i < self.line_offsets@.len() ==> self.line_offsets@[i] == line_starts(
                self.data@,
            )[i]
    }

    /// Indexes `data`.
    pub fn from_bytes(data: &[u8]) -> (index: Self)
        ensures
            index@ == data@,
    {
        let mut line_offsets: Vec<usize> = Vec::new();
        line_offsets.push(0);
        let mut scanned: usize = 0;
        assert(data@.take(0) == Seq::<u8>::empty());
        while scanned < data.len()
            invariant
                scanned <= data@.len(),
                line_offsets@.len() == line_starts(data@.take(scanned as int)).len(),
                forall|i: int|
                    0 <= i < line_offsets@.len() ==> line_offsets@[i] == line_starts(
                        data@.take(scanned as int),
                    )[i],
            decreases data@.len() - scanned,
        {
            assert(data@.take(scanned + 1).drop_last() == data@.take(scanned as int));
            if data[scanned] == NEWLINE {
                line_offsets.push(scanned + 1);
            }
            scanned = scanned + 1;
        }
        assert(data@.take(scanned as int) == data@);
        FullLineIndex { line_offsets, file_size: data.len(), data: Ghost(data@) }
    }

    /// Scans the whole file once and indexes it.
    pub fn build(reader: &FileReader) -> (index: Self)
        ensures
            index@ == file_bytes(reader),
            index@.len() <= isize::MAX,
    {
        Self::from_bytes(reader.all_data())
    }

    /// The number of lines: one more than there are line ends. An empty file has one line.
    pub fn total_lines(&self) -> (total: usize)
        ensures
            total == line_count(self@),
    {
        proof {
            use_type_invariant(self);
            lemma_line_starts(self@);
        }
        self.line_offsets.len()
    }

    /// The byte range of line `line_no`, counted from 0. The end is exclusive: it is where the
    /// next line starts, or the end of the file for the last line.
    pub fn line_range(&self, line_no: usize) -> (range: Option<(usize, usize)>)
        ensures
            match line_span(self@, line_no as int) {
                Some((start, end)) => range matches Some(r) && r.0 == start && r.1 == end,
                None => range is None,
            },
    {
        proof {
            use_type_invariant(self);
        }
        if line_no >= self.line_offsets.len() {
            return None;
        }
        let start: usize = self.line_offsets[line_no];
        let end: usize = if line_no < self.line_offsets.len() - 1 {
            self.line_offsets[line_no + 1]
        } else {
            self.file_size
        };
        Some((start, end))
    }

    /// The byte range of line `line_no` in the file that was indexed. The range is known exactly
    /// without reading the file again.
    pub fn get_line_with_reader(&self, line_no: usize, _reader: &FileReader) -> (range: Option<
        (usize, usize),
    >)
        ensures
            match line_span(self@, line_no as int) {
                Some((start, end)) => range matches Some(r) && r.0 == start && r.1 == end,
                None => range is None,
            },
    {
        self.line_range(line_no)
    }

    /// Whether line `line_no` is short enough to be decoded at once.
    pub fn line_fits(&self, line_no: usize) -> (fits: bool)
        ensures
            fits == line_fits(self@, line_no as int),
    {
        proof {
            lemma_line_starts(self@);
        }
        match self.line_range(line_no) {
            Some((start, end)) => end - start <= MAX_CHUNK,
            None => true,
        }
    }

    /// Whether each of the given lines is short enough to be decoded at once.
    pub fn lines_fit(&self, lines: &Vec<usize>) -> (fit: bool)
        ensures
            fit == lines_fit(self@, lines@),
    {
        let mut next: usize = 0;
        while next < lines.len()
            invariant
                next <= lines@.len(),
                forall|i: int|
                    0 <= i < next ==> line_fits(self@, #[trigger] lines@[i] as int),
            decreases lines@.len() - next,
        {
            if !self.line_fits(lines[next]) {
                return false;
            }
            next = next + 1;
        }
        true
    }

    /// Whether each line from `first` up to, but not including, `end` is short enough to be
    /// decoded at once.
    pub fn span_fits(&self, first: usize, end: usize) -> (fits: bool)
        ensures
            fits == span_fits(self@, first as int, end as int),
    {
        let mut line_no: usize = first;
        while line_no < end
            invariant
                first <= line_no,
                line_no <= end || line_no == first,
                forall|n: int| first <= n < line_no ==> #[trigger] line_fits(self@, n),
            decreases end - line_no,
        {
            if !self.line_fits(line_no) {
                return false;
            }
            line_no = line_no + 1;
        }
        true
    }

    /// The line, counted from 0, that contains the byte at `offset`: the number of line ends
    /// before it. Offsets behind the end of the file count to the last line.
    pub fn find_line_at_offset(&self, offset: usize) -> (line_no: usize)
        ensures
            line_no == line_of(self@, offset as int),
    {
        proof {
            use_type_invariant(self);
            lemma_line_starts(self@);
            lemma_line_of(self@, offset as int);
        }
        let mut low: usize = 0;
        let mut high: usize = self.line_offsets.len();
        while high - low > 1
            invariant
                low < high <= self.line_offsets@.len(),
                self.line_offsets@.len() == line_count(self@),
                line_of(self@, offset as int) < line_count(self@),
                forall|i: int|
                    0 <= i < self.line_offsets@.len() ==> self.line_offsets@[i] == line_starts(
                        self@,
                    )[i],
                forall|i: int, j: int|
                    0 <= i < j < line_starts(self@).len() ==> line_starts(self@)[i] < line_starts(
                        self@,
                    )[j],
                line_starts(self@).len() == line_count(self@),
                line_starts(self@)[line_of(self@, offset as int) as int] <= offset,
                forall|i: int|
                    line_of(self@, offset as int) < i < line_count(self@) ==> #[trigger] line_starts(
                        self@,
                    )[i] > offset,
                low <= line_of(self@, offset as int) < high,
            decreases high - low,
        {
            let middle: usize = low + (high - low) / 2;
            if self.line_offsets[middle] <= offset {
                low = middle;
            } else {
                high = middle;
            }
        }
        low
    }
}

} // verus!
