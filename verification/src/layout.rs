//! What of a text field was laid out last.

use vstd::prelude::*;

verus! {

/// The lines of a field that are in its viewport. `T` is what drawing keeps of a line.
#[derive(Debug)]
pub struct LastLayout<T> {
    /// The first visible row. Rows are counted without wrapping.
    pub visible_start: usize,
    /// The row after the last visible one.
    pub visible_end: usize,
    /// The visible lines, and no others.
    pub lines: Vec<T>,
}

impl<T> LastLayout<T> {
    /// The line of a row; `None` for one that is not visible.
    pub fn line(&self, row: usize) -> (r: Option<&T>)
        ensures
            match r {
                Some(line) => self.visible_start <= row < self.visible_end && row
                    - self.visible_start < self.lines@.len() && *line == self.lines@[row
                    - self.visible_start],
                None => row < self.visible_start || row >= self.visible_end || row
                    - self.visible_start >= self.lines@.len(),
            },
    {
        if row < self.visible_start || row >= self.visible_end {
            return None;
        }
        let index: usize = row - self.visible_start;
        if index < self.lines.len() {
            Some(&self.lines[index])
        } else {
            None
        }
    }
}

/// What the pointer is to one of the visible lines.
#[derive(Clone, Copy, Debug, PartialEq, Eq, Structural)]
pub enum LineHit {
    /// The line is not laid out. The pointer may be above its end.
    Unlaid { ends: bool },
    /// The index in the line that is closest to the pointer.
    At(usize),
    /// The pointer is above the line.
    Above,
    /// The pointer is below the line, which has this many bytes.
    Below(usize),
}

/// The index into the text as it is drawn that the lines from `from` on put the
/// pointer at, for text of which `index` bytes are above them. A line break takes one
/// byte.
pub open spec fn index_of(hits: Seq<LineHit>, from: int, index: int) -> int
    decreases hits.len() - from,
{
    if from >= hits.len() {
        index
    } else {
        match hits[from] {
            LineHit::Unlaid { ends } => if ends {
                index
            } else {
                index_of(hits, from + 1, index)
            },
            LineHit::At(at) => index + at,
            LineHit::Above => index,
            LineHit::Below(length) => index_of(hits, from + 1, index + length + 1),
        }
    }
}

/// The index that the only line of a field puts the pointer at: that in the line.
pub open spec fn index_in_line(hits: Seq<LineHit>, from: int, start: int) -> int
    decreases hits.len() - from,
{
    if from >= hits.len() {
        start
    } else {
        match hits[from] {
            LineHit::Unlaid { ends } => if ends {
                start
            } else {
                index_in_line(hits, from + 1, start)
            },
            LineHit::At(at) => at as int,
            _ => start,
        }
    }
}

/// How many bytes the lines can take at most.
pub open spec fn extent(hits: Seq<LineHit>, from: int) -> int
    decreases hits.len() - from,
{
    if from >= hits.len() {
        0
    } else {
        extent(hits, from + 1) + (match hits[from] {
            LineHit::At(at) => at as int,
            LineHit::Below(length) => length + 1,
            _ => 0,
        })
    }
}

proof fn lemma_extent(hits: Seq<LineHit>, from: int)
    ensures
        extent(hits, from) >= 0,
    decreases hits.len() - from,
{
    if from < hits.len() {
        lemma_extent(hits, from + 1);
    }
}

/// The index into the text as it is drawn that the pointer is at. `start` bytes are
/// above the first visible line.
pub fn find_index(hits: &Vec<LineHit>, start: usize, single_line: bool) -> (r: usize)
    requires
        start + extent(hits@, 0) <= usize::MAX,
    ensures
        r == (if single_line {
            index_in_line(hits@, 0, start as int)
        } else {
            index_of(hits@, 0, start as int)
        }),
{
    let mut index: usize = start;
    let mut i: usize = 0;
    while i < hits.len()
        invariant
            i <= hits@.len(),
            index + extent(hits@, i as int) <= usize::MAX,
            single_line ==> index == start && index_in_line(hits@, 0, start as int)
                == index_in_line(hits@, i as int, start as int),
            !single_line ==> index_of(hits@, 0, start as int) == index_of(
                hits@,
                i as int,
                index as int,
            ),
        decreases hits@.len() - i,
    {
        proof {
            lemma_extent(hits@, i + 1);
        }
        match hits[i] {
            LineHit::Unlaid { ends } => {
                if ends {
                    return index;
                }
            },
            LineHit::At(at) => {
                return if single_line {
                    at
                } else {
                    index + at
                };
            },
            LineHit::Above => {
                return index;
            },
            LineHit::Below(length) => {
                if single_line {
                    return index;
                }
                index = index + length + 1;
            },
        }
        i = i + 1;
    }
    index
}

/// How many bytes come before the `n`th of some lines, for text of which `start` bytes
/// are above them all. A line break takes one byte.
pub open spec fn line_start(lengths: Seq<usize>, n: int, start: int) -> int
    decreases n,
{
    if n <= 0 {
        start
    } else {
        line_start(lengths, n - 1, start) + lengths[n - 1] + 1
    }
}

/// An offset as the `n`th line counts it. One that lies before the line is its start.
pub open spec fn offset_in_line(lengths: Seq<usize>, n: int, start: int, offset: int) -> int {
    if line_start(lengths, n, start) <= offset {
        offset - line_start(lengths, n, start)
    } else {
        0
    }
}

proof fn lemma_line_start(lengths: Seq<usize>, n: int, m: int, start: int)
    requires
        0 <= n <= m,
    ensures
        line_start(lengths, n, start) <= line_start(lengths, m, start),
    decreases m - n,
{
    if n < m {
        lemma_line_start(lengths, n, m - 1, start);
    }
}

/// What each of the visible lines, given by their lengths, is asked for the position
/// of, to find where `offset` is drawn.
pub fn offsets_in_lines(lengths: &Vec<usize>, start: usize, offset: usize) -> (r: Vec<usize>)
    requires
        line_start(lengths@, lengths@.len() as int, start as int) <= usize::MAX,
    ensures
        r@.len() == lengths@.len(),
        forall|i: int|
            0 <= i < r@.len() ==> #[trigger] r@[i] == offset_in_line(
                lengths@,
                i,
                start as int,
                offset as int,
            ),
{
    let mut out: Vec<usize> = Vec::new();
    let mut before: usize = start;
    for i in 0..lengths.len()
        invariant
            line_start(lengths@, lengths@.len() as int, start as int) <= usize::MAX,
            before == line_start(lengths@, i as int, start as int),
            out@.len() == i,
            forall|j: int|
                0 <= j < out@.len() ==> #[trigger] out@[j] == offset_in_line(
                    lengths@,
                    j,
                    start as int,
                    offset as int,
                ),
    {
        out.push(
            if before <= offset {
                offset - before
            } else {
                0
            },
        );
        proof {
            lemma_line_start(lengths@, i + 1, lengths@.len() as int, start as int);
        }
        before = before + lengths[i] + 1;
    }
    out
}

/// Where an offset is drawn: the visible line, the row of that line as it wraps, and
/// whether there is such a place. `rows` holds what each line answered: the row at
/// which it has the offset, if it has it. The first line that has it counts.
pub fn line_and_position_for_offset(rows: &Vec<Option<usize>>) -> (r: (usize, usize, bool))
    ensures
        r.2 ==> r.0 < rows@.len() && rows@[r.0 as int] == Some(r.1) && forall|i: int|
            0 <= i < r.0 ==> (#[trigger] rows@[i]) is None,
        !r.2 ==> r.0 == 0 && r.1 == 0 && forall|i: int|
            0 <= i < rows@.len() ==> (#[trigger] rows@[i]) is None,
{
    for i in 0..rows.len()
        invariant
            forall|j: int| 0 <= j < i ==> (#[trigger] rows@[j]) is None,
    {
        if let Some(row) = rows[i] {
            return (i, row, true);
        }
    }
    (0, 0, false)
}

/// A place in a text of many lines counts the lines above it, each with the line feed that
/// ends it, and then the place in its own line.
pub proof fn law_places_count_the_lines_above(
    above: Seq<usize>,
    at: usize,
    rest: Seq<LineHit>,
    index: int,
)
    ensures
        ({
            let hits = Seq::new(above.len(), |i: int| LineHit::Below(above[i])).push(
                LineHit::At(at),
            ) + rest;
            index_of(hits, 0, index) == line_start(above, above.len() as int, index) + at
        }),
{
    let hits = Seq::new(above.len(), |i: int| LineHit::Below(above[i])).push(LineHit::At(at))
        + rest;
    lemma_lines_above(above, at, hits, 0, index);
    assert(line_start(above, 0, index) == index);
}

proof fn lemma_lines_above(
    above: Seq<usize>,
    at: usize,
    hits: Seq<LineHit>,
    from: int,
    index: int,
)
    requires
        0 <= from <= above.len() < hits.len(),
        forall|i: int| 0 <= i < above.len() ==> hits[i] == LineHit::Below(#[trigger] above[i]),
        hits[above.len() as int] == LineHit::At(at),
    ensures
        index_of(hits, from, line_start(above, from, index)) == line_start(
            above,
            above.len() as int,
            index,
        ) + at,
    decreases above.len() - from,
{
    if from < above.len() {
        lemma_lines_above(above, at, hits, from + 1, index);
        assert(hits[from] == LineHit::Below(above[from]));
    }
}

/// A place above the first line is the start of it, and a place below the last is the end of
/// the text.
pub proof fn law_places_outside_the_lines(
    above: Seq<usize>,
    rest: Seq<LineHit>,
    index: int,
)
    ensures
        index_of(seq![LineHit::Above] + rest, 0, index) == index,
        index_of(Seq::new(above.len(), |i: int| LineHit::Below(above[i])), 0, index) == line_start(
            above,
            above.len() as int,
            index,
        ),
        index_in_line(seq![LineHit::Above] + rest, 0, index) == index,
{
    let hits = Seq::new(above.len(), |i: int| LineHit::Below(above[i]));
    lemma_below_all(above, hits, 0, index);
    assert(line_start(above, 0, index) == index);
    assert((seq![LineHit::Above] + rest)[0] == LineHit::Above);
}

proof fn lemma_below_all(above: Seq<usize>, hits: Seq<LineHit>, from: int, index: int)
    requires
        0 <= from <= above.len() == hits.len(),
        forall|i: int| 0 <= i < above.len() ==> hits[i] == LineHit::Below(#[trigger] above[i]),
    ensures
        index_of(hits, from, line_start(above, from, index)) == line_start(
            above,
            above.len() as int,
            index,
        ),
    decreases above.len() - from,
{
    if from < above.len() {
        lemma_below_all(above, hits, from + 1, index);
        assert(hits[from] == LineHit::Below(above[from]));
    }
}

/// A line that is not laid out yet is passed over, unless the visible lines end with it.
pub proof fn law_lines_not_laid_out_are_passed_over(
    hits: Seq<LineHit>,
    from: int,
    index: int,
)
    requires
        0 <= from < hits.len(),
        hits[from] is Unlaid,
    ensures
        hits[from] == (LineHit::Unlaid { ends: true }) ==> index_of(hits, from, index) == index
            && index_in_line(hits, from, index) == index,
        hits[from] == (LineHit::Unlaid { ends: false }) ==> index_of(hits, from, index)
            == index_of(hits, from + 1, index) && index_in_line(hits, from, index)
            == index_in_line(hits, from + 1, index),
{
}

/// In a single line the place in it is the place.
pub proof fn law_single_lines_count_from_their_start(at: usize, rest: Seq<LineHit>, start: int)
    ensures
        index_in_line(seq![LineHit::At(at)] + rest, 0, start) == at,
        index_in_line(Seq::<LineHit>::empty(), 0, start) == start,
{
    assert((seq![LineHit::At(at)] + rest)[0] == LineHit::At(at));
}

/// A place in a line and the start of that line make the place in the text; a line that
/// starts behind the place is entered at its start.
pub proof fn law_offsets_are_counted_from_the_line(
    lengths: Seq<usize>,
    n: int,
    start: int,
    offset: int,
)
    requires
        0 <= n <= lengths.len(),
    ensures
        ({
            let line = line_start(lengths, n, start);
            &&& line <= offset ==> line + offset_in_line(lengths, n, start, offset) == offset
            &&& offset <= line ==> offset_in_line(lengths, n, start, offset) == 0
            &&& n < lengths.len() ==> line_start(lengths, n + 1, start) == line + lengths[n] + 1
            &&& n == 0 ==> line == start
        }),
{
}

} // verus!
