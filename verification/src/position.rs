//! Positions in a text: byte offsets, UTF-16 offsets and lines, stated over its
//! characters.

use vstd::prelude::*;

use crate::utf8::char_width;

verus! {

/// How many characters of a text fit into its first `at` bytes.
pub open spec fn floor(s: Seq<char>, at: int) -> int
    decreases s.len(),
{
    if s.len() == 0 {
        0
    } else if crate::utf8::bytes(s) <= at {
        s.len() as int
    } else {
        floor(s.drop_last(), at)
    }
}

/// Whether a byte offset falls between two characters, or at either end.
pub open spec fn boundary(s: Seq<char>, at: int) -> bool {
    crate::utf8::offset(s, floor(s, at)) == at
}

/// What `floor` stands for.
pub proof fn lemma_floor(s: Seq<char>, at: int)
    requires
        0 <= at,
    ensures
        0 <= floor(s, at) <= s.len(),
        crate::utf8::offset(s, floor(s, at)) <= at,
        floor(s, at) < s.len() ==> crate::utf8::offset(s, floor(s, at) + 1) > at,
        floor(s, at) == s.len() <==> at >= crate::utf8::bytes(s),
    decreases s.len(),
{
    assert(s.take(s.len() as int) =~= s);
    if s.len() == 0 {
    } else if crate::utf8::bytes(s) <= at {
    } else {
        let init = s.drop_last();
        lemma_floor(init, at);
        let k = floor(init, at);
        assert(init.take(k) =~= s.take(k));
        if k < init.len() {
            assert(init.take(k + 1) =~= s.take(k + 1));
        } else {
            assert(s.take(k + 1) =~= s);
        }
    }
}

/// The character at which an offset falls is the one it was made of.
pub proof fn lemma_floor_of_offset(s: Seq<char>, k: int)
    requires
        0 <= k <= s.len(),
    ensures
        floor(s, crate::utf8::offset(s, k)) == k,
        boundary(s, crate::utf8::offset(s, k)),
        0 <= crate::utf8::offset(s, k) <= crate::utf8::bytes(s),
{
    let at = crate::utf8::offset(s, k);
    assert(s.take(0) =~= Seq::<char>::empty());
    assert(s.take(s.len() as int) =~= s);
    crate::utf8::lemma_offset_increases(s, 0, k);
    crate::utf8::lemma_offset_increases(s, k, s.len() as int);
    lemma_floor(s, at);
    let f = floor(s, at);
    if f < k {
        crate::utf8::lemma_offset_increases(s, f + 1, k);
    } else if f > k {
        crate::utf8::lemma_offset_increases(s, k, f);
    }
}

/// Counts the characters that fit into the first `at` bytes, and the bytes they
/// take.
pub fn count_chars(v: &Vec<char>, at: usize) -> (r: (usize, usize))
    ensures
        r.0 == floor(v@, at as int),
        r.1 == crate::utf8::offset(v@, r.0 as int),
        r.0 <= v@.len(),
        r.1 <= at,
{
    let n: usize = v.len();
    let mut k: usize = 0;
    let mut offset: usize = 0;
    assert(v@.take(0) =~= Seq::<char>::empty());
    while k < n
        invariant
            n == v@.len(),
            k <= n,
            offset == crate::utf8::offset(v@, k as int),
            offset <= at,
        decreases n - k,
    {
        let width: usize = char_width(v[k]);
        proof {
            crate::utf8::lemma_offset_step(v@, k as int);
        }
        if width > at - offset {
            proof {
                lemma_floor_between(v@, k as int, at as int);
            }
            return (k, offset);
        }
        offset = offset + width;
        k = k + 1;
    }
    proof {
        lemma_floor(v@, at as int);
        assert(v@.take(n as int) =~= v@);
    }
    (k, offset)
}

proof fn lemma_floor_between(s: Seq<char>, k: int, at: int)
    requires
        0 <= k < s.len(),
        0 <= at,
        crate::utf8::offset(s, k) <= at < crate::utf8::offset(s, k + 1),
    ensures
        floor(s, at) == k,
{
    lemma_floor(s, at);
    let f = floor(s, at);
    if f < k {
        crate::utf8::lemma_offset_increases(s, f + 1, k);
    } else if f > k {
        crate::utf8::lemma_offset_increases(s, k + 1, f);
    }
}

/// The byte offset at which the `k`-th character starts.
pub fn offset_of(v: &Vec<char>, k: usize) -> (r: usize)
    requires
        k <= v@.len(),
        crate::utf8::bytes(v@) <= usize::MAX,
    ensures
        r == crate::utf8::offset(v@, k as int),
        r <= crate::utf8::bytes(v@),
{
    let mut i: usize = 0;
    let mut offset: usize = 0;
    assert(v@.take(0) =~= Seq::<char>::empty());
    proof {
        lemma_floor_of_offset(v@, k as int);
    }
    while i < k
        invariant
            i <= k <= v@.len(),
            crate::utf8::bytes(v@) <= usize::MAX,
            offset == crate::utf8::offset(v@, i as int),
        decreases k - i,
    {
        proof {
            crate::utf8::lemma_offset_step(v@, i as int);
            lemma_floor_of_offset(v@, i + 1);
        }
        offset = offset + char_width(v[i]);
        i = i + 1;
    }
    offset
}

/// The last boundary at or before an offset; the end for an offset past it.
pub open spec fn clip_left(s: Seq<char>, at: int) -> int {
    crate::utf8::offset(s, floor(s, at))
}

/// The first boundary at or after an offset; the end for an offset past it.
pub open spec fn clip_right(s: Seq<char>, at: int) -> int {
    if boundary(s, at) || at >= crate::utf8::bytes(s) {
        clip_left(s, at)
    } else {
        crate::utf8::offset(s, floor(s, at) + 1)
    }
}

/// The character that starts at an offset.
pub open spec fn char_at(s: Seq<char>, at: int) -> Option<char> {
    if boundary(s, at) && floor(s, at) < s.len() {
        Some(s[floor(s, at)])
    } else {
        None
    }
}

/// Moves an offset to the last boundary at or before it.
pub fn clip_to_left(v: &Vec<char>, at: usize) -> (r: usize)
    ensures
        r == clip_left(v@, at as int),
        r <= at,
{
    count_chars(v, at).1
}

/// Moves an offset to the first boundary at or after it.
pub fn clip_to_right(v: &Vec<char>, at: usize) -> (r: usize)
    requires
        crate::utf8::bytes(v@) <= usize::MAX,
    ensures
        r == clip_right(v@, at as int),
        r <= crate::utf8::bytes(v@),
{
    let (k, offset) = count_chars(v, at);
    proof {
        lemma_floor(v@, at as int);
        lemma_floor_of_offset(v@, k as int);
    }
    if offset == at || k == v.len() {
        offset
    } else {
        proof {
            crate::utf8::lemma_offset_step(v@, k as int);
            lemma_floor_of_offset(v@, k + 1);
        }
        offset + char_width(v[k])
    }
}

/// Reads the character that starts at an offset.
pub fn read_char_at(v: &Vec<char>, at: usize) -> (r: Option<char>)
    ensures
        r == char_at(v@, at as int),
{
    let (k, offset) = count_chars(v, at);
    if offset == at && k < v.len() {
        Some(v[k])
    } else {
        None
    }
}

/// How many units a character takes in UTF-16.
pub open spec fn units(c: char) -> int {
    if (c as u32) < 0x10000 {
        1
    } else {
        2
    }
}

/// How many units a text takes in UTF-16.
pub open spec fn utf16_len(s: Seq<char>) -> int
    decreases s.len(),
{
    if s.len() == 0 {
        0
    } else {
        utf16_len(s.drop_last()) + units(s.last())
    }
}

/// A byte offset as an offset in UTF-16.
pub open spec fn to_utf16(s: Seq<char>, at: int) -> int {
    utf16_len(s.take(floor(s, at)))
}

/// How many characters of a text fit into its first `at` units of UTF-16.
pub open spec fn floor_utf16(s: Seq<char>, at: int) -> int
    decreases s.len(),
{
    if s.len() == 0 {
        0
    } else if utf16_len(s) <= at {
        s.len() as int
    } else {
        floor_utf16(s.drop_last(), at)
    }
}

/// An offset in UTF-16 as a byte offset.
pub open spec fn from_utf16(s: Seq<char>, at: int) -> int {
    crate::utf8::offset(s, floor_utf16(s, at))
}

proof fn lemma_utf16_len(s: Seq<char>, k: int)
    requires
        0 <= k <= s.len(),
    ensures
        0 <= utf16_len(s.take(k)) <= utf16_len(s),
        utf16_len(s.take(k)) <= crate::utf8::bytes(s.take(k)),
        k < s.len() ==> utf16_len(s.take(k)) < utf16_len(s),
    decreases s.len(),
{
    assert(s.take(s.len() as int) =~= s);
    if s.len() > 0 {
        let init = s.drop_last();
        if k < s.len() {
            lemma_utf16_len(init, k);
            assert(init.take(k) =~= s.take(k));
            lemma_utf16_len(init, init.len() as int);
        } else {
            lemma_utf16_len(init, init.len() as int);
            assert(init.take(init.len() as int) =~= init);
        }
    }
}

/// What `floor_utf16` stands for.
pub proof fn lemma_floor_utf16(s: Seq<char>, at: int)
    requires
        0 <= at,
    ensures
        0 <= floor_utf16(s, at) <= s.len(),
        utf16_len(s.take(floor_utf16(s, at))) <= at,
        floor_utf16(s, at) < s.len() ==> utf16_len(s.take(floor_utf16(s, at) + 1)) > at,
    decreases s.len(),
{
    assert(s.take(s.len() as int) =~= s);
    if s.len() == 0 {
    } else if utf16_len(s) <= at {
    } else {
        let init = s.drop_last();
        lemma_floor_utf16(init, at);
        let k = floor_utf16(init, at);
        assert(init.take(k) =~= s.take(k));
        if k < init.len() {
            assert(init.take(k + 1) =~= s.take(k + 1));
        } else {
            assert(s.take(k + 1) =~= s);
        }
    }
}

proof fn lemma_utf16_grows(s: Seq<char>, j: int, k: int)
    requires
        0 <= j < k <= s.len(),
    ensures
        utf16_len(s.take(j)) < utf16_len(s.take(k)),
{
    assert(s.take(k).take(j) =~= s.take(j));
    lemma_utf16_len(s.take(k), j);
}

/// An offset between two characters survives the way to UTF-16 and back.
pub proof fn law_utf16_round_trip(s: Seq<char>, at: int)
    requires
        0 <= at,
        boundary(s, at),
    ensures
        from_utf16(s, to_utf16(s, at)) == at,
{
    lemma_floor(s, at);
    let k = floor(s, at);
    let u = to_utf16(s, at);
    lemma_utf16_len(s, k);
    lemma_floor_utf16(s, u);
    let f = floor_utf16(s, u);
    if f < k {
        if f + 1 < k {
            lemma_utf16_grows(s, f + 1, k);
        }
    } else if f > k {
        lemma_utf16_grows(s, k, f);
    }
}

/// Offsets that come from UTF-16 fall between two characters.
pub proof fn law_utf16_gives_boundaries(s: Seq<char>, at: int)
    requires
        0 <= at,
    ensures
        boundary(s, from_utf16(s, at)),
        0 <= from_utf16(s, at) <= crate::utf8::bytes(s),
{
    lemma_floor_utf16(s, at);
    lemma_floor_of_offset(s, floor_utf16(s, at));
}

/// Going to UTF-16 and back moves an offset to the last boundary at or before it.
pub proof fn law_utf16_clips(s: Seq<char>, at: int)
    requires
        0 <= at,
    ensures
        from_utf16(s, to_utf16(s, at)) == clip_left(s, at),
{
    lemma_floor(s, at);
    lemma_floor_of_offset(s, floor(s, at));
    law_utf16_round_trip(s, clip_left(s, at));
}

/// Offsets keep their order when they are moved to a boundary.
pub proof fn lemma_clip_keeps_order(s: Seq<char>, a: int, b: int)
    requires
        0 <= a <= b,
    ensures
        clip_left(s, a) <= clip_left(s, b),
        boundary(s, clip_left(s, a)),
        boundary(s, clip_left(s, b)),
        0 <= clip_left(s, a),
        clip_left(s, b) <= crate::utf8::bytes(s),
{
    lemma_floor(s, a);
    lemma_floor(s, b);
    lemma_floor_of_offset(s, floor(s, a));
    lemma_floor_of_offset(s, floor(s, b));
    if floor(s, b) < floor(s, a) {
        crate::utf8::lemma_offset_increases(s, floor(s, b) + 1, floor(s, a));
    } else {
        crate::utf8::lemma_offset_increases(s, floor(s, a), floor(s, b));
    }
}

/// Offsets keep their order on the way from UTF-16.
pub proof fn lemma_from_utf16_keeps_order(s: Seq<char>, a: int, b: int)
    requires
        0 <= a <= b,
    ensures
        from_utf16(s, a) <= from_utf16(s, b),
{
    lemma_floor_utf16(s, a);
    lemma_floor_utf16(s, b);
    let j = floor_utf16(s, a);
    let k = floor_utf16(s, b);
    if k < j {
        if k + 1 < j {
            lemma_utf16_grows(s, k + 1, j);
        }
    } else {
        crate::utf8::lemma_offset_increases(s, j, k);
    }
}

/// Converts a byte offset to an offset in UTF-16.
pub fn offset_to_utf16(v: &Vec<char>, at: usize) -> (r: usize)
    ensures
        r == to_utf16(v@, at as int),
        r <= at,
{
    let (k, offset) = count_chars(v, at);
    proof {
        lemma_floor(v@, at as int);
        lemma_utf16_len(v@, k as int);
    }
    let mut total: usize = 0;
    let mut i: usize = 0;
    assert(v@.take(0) =~= Seq::<char>::empty());
    while i < k
        invariant
            i <= k <= v@.len(),
            total == utf16_len(v@.take(i as int)),
            utf16_len(v@.take(k as int)) <= usize::MAX,
        decreases k - i,
    {
        proof {
            assert(v@.take(i + 1).drop_last() =~= v@.take(i as int));
            if i + 1 < k {
                lemma_utf16_grows(v@, i + 1, k as int);
            }
        }
        total = total + if (v[i] as u32) < 0x10000 {
            1
        } else {
            2
        };
        i = i + 1;
    }
    total
}

/// Converts an offset in UTF-16 to a byte offset.
pub fn offset_from_utf16(v: &Vec<char>, at: usize) -> (r: usize)
    requires
        crate::utf8::bytes(v@) <= usize::MAX,
    ensures
        r == from_utf16(v@, at as int),
        r <= crate::utf8::bytes(v@),
        boundary(v@, r as int),
{
    let n: usize = v.len();
    let mut k: usize = 0;
    let mut total: usize = 0;
    assert(v@.take(0) =~= Seq::<char>::empty());
    proof {
        law_utf16_gives_boundaries(v@, at as int);
    }
    while k < n
        invariant
            n == v@.len(),
            k <= n,
            total == utf16_len(v@.take(k as int)),
            total <= at,
            crate::utf8::bytes(v@) <= usize::MAX,
            boundary(v@, from_utf16(v@, at as int)),
        decreases n - k,
    {
        let size: usize = if (v[k] as u32) < 0x10000 {
            1
        } else {
            2
        };
        assert(v@.take(k + 1).drop_last() =~= v@.take(k as int));
        if size > at - total {
            proof {
                lemma_floor_utf16(v@, at as int);
                let f = floor_utf16(v@, at as int);
                if f < k {
                    if f + 1 < k {
                        lemma_utf16_grows(v@, f + 1, k as int);
                    }
                } else if f > k {
                    if k + 1 < f {
                        lemma_utf16_grows(v@, k + 1, f);
                    }
                }
            }
            return offset_of(v, k);
        }
        total = total + size;
        k = k + 1;
    }
    proof {
        lemma_floor_utf16(v@, at as int);
        let f = floor_utf16(v@, at as int);
        if f < n {
            lemma_utf16_grows(v@, f, n as int);
            if f + 1 < n {
                lemma_utf16_grows(v@, f + 1, n as int);
            }
        }
    }
    offset_of(v, n)
}

/// Where the line of the `k`-th character starts, by characters.
pub open spec fn line_start(s: Seq<char>, k: int) -> int
    decreases k,
{
    if k <= 0 {
        0
    } else if s[k - 1] == '\n' {
        k
    } else {
        line_start(s, k - 1)
    }
}

/// Where the line of the `k`-th character ends, by characters, without its line
/// break.
pub open spec fn line_end(s: Seq<char>, k: int) -> int
    decreases s.len() - k,
{
    if k >= s.len() {
        s.len() as int
    } else if s[k] == '\n' {
        k
    } else {
        line_end(s, k + 1)
    }
}

/// Finds where a line starts.
pub fn find_line_start(v: &Vec<char>, k: usize) -> (r: usize)
    requires
        k <= v@.len(),
    ensures
        r == line_start(v@, k as int),
        r <= k,
{
    let mut i: usize = k;
    while i > 0
        invariant
            i <= k <= v@.len(),
            line_start(v@, k as int) == line_start(v@, i as int),
        decreases i,
    {
        if v[i - 1] == '\n' {
            return i;
        }
        i = i - 1;
    }
    0
}

/// Finds where a line ends.
pub fn find_line_end(v: &Vec<char>, k: usize) -> (r: usize)
    requires
        k <= v@.len(),
    ensures
        r == line_end(v@, k as int),
        k <= r <= v@.len(),
{
    let mut i: usize = k;
    while i < v.len()
        invariant
            k <= i <= v@.len(),
            line_end(v@, k as int) == line_end(v@, i as int),
        decreases v@.len() - i,
    {
        if v[i] == '\n' {
            return i;
        }
        i = i + 1;
    }
    i
}

/// The offset behind the first part of a text falls between two characters: those of the
/// part stand before it.
pub proof fn law_offsets_count_what_stands_before(a: Seq<char>, b: Seq<char>)
    ensures
        floor(a + b, crate::utf8::bytes(a)) == a.len(),
        boundary(a + b, crate::utf8::bytes(a)),
        clip_left(a + b, crate::utf8::bytes(a)) == crate::utf8::bytes(a),
        clip_right(a + b, crate::utf8::bytes(a)) == crate::utf8::bytes(a),
        b.len() > 0 ==> char_at(a + b, crate::utf8::bytes(a)) == Some(b[0]),
        b.len() == 0 ==> char_at(a + b, crate::utf8::bytes(a)) is None,
        to_utf16(a + b, crate::utf8::bytes(a)) == utf16_len(a),
        from_utf16(a + b, utf16_len(a)) == crate::utf8::bytes(a),
{
    let s = a + b;
    assert(s.take(a.len() as int) =~= a);
    lemma_floor_of_offset(s, a.len() as int);
    law_utf16_round_trip(s, crate::utf8::bytes(a));
}

/// An offset within a character is moved to its start or to its end.
pub proof fn law_offsets_within_characters_are_moved(a: Seq<char>, c: char, b: Seq<char>, at: int)
    requires
        crate::utf8::bytes(a) < at < crate::utf8::bytes(a) + crate::utf8::width(c),
    ensures
        clip_left(a + seq![c] + b, at) == crate::utf8::bytes(a),
        clip_right(a + seq![c] + b, at) == crate::utf8::bytes(a) + crate::utf8::width(c),
        char_at(a + seq![c] + b, at) is None,
{
    let s = a + seq![c] + b;
    let k = a.len() as int;
    assert(s.take(k) =~= a);
    crate::utf8::lemma_offset_step(s, k);
    crate::utf8::lemma_bytes_at_least(a);
    lemma_floor_between(s, k, at);
    lemma_floor(s, at);
}

/// Offsets beyond a text stand for its end.
pub proof fn law_offsets_beyond_the_end(s: Seq<char>, at: int)
    requires
        at >= crate::utf8::bytes(s),
    ensures
        floor(s, at) == s.len(),
        clip_left(s, at) == crate::utf8::bytes(s),
        clip_right(s, at) == crate::utf8::bytes(s),
{
    assert(s.take(s.len() as int) =~= s);
}

/// In UTF-16 a character takes one unit, or two from the first one on that does not fit into
/// sixteen bits, and a text as many as its parts.
pub proof fn law_units_add_up(a: Seq<char>, b: Seq<char>, c: char)
    ensures
        utf16_len(a + b) == utf16_len(a) + utf16_len(b),
        utf16_len(seq![c]) == (if c as u32 > 0xffff {
            2int
        } else {
            1
        }),
    decreases b.len(),
{
    reveal_with_fuel(utf16_len, 2);
    assert(seq![c].drop_last() =~= Seq::<char>::empty());
    if b.len() == 0 {
        assert(a + b =~= a);
    } else {
        law_units_add_up(a, b.drop_last(), c);
        assert((a + b).drop_last() =~= a + b.drop_last());
    }
}

proof fn lemma_line_start(s: Seq<char>, k: int, at: int)
    requires
        0 <= at <= k <= s.len(),
        at == 0 || s[at - 1] == '\n',
        forall|i: int| at <= i < k ==> s[i] != '\n',
    ensures
        line_start(s, k) == at,
    decreases k,
{
    if at < k {
        assert(s[k - 1] != '\n');
        lemma_line_start(s, k - 1, at);
    }
}

proof fn lemma_line_end(s: Seq<char>, k: int, at: int)
    requires
        0 <= k <= at <= s.len(),
        at == s.len() || s[at] == '\n',
        forall|i: int| k <= i < at ==> s[i] != '\n',
    ensures
        line_end(s, k) == at,
    decreases at - k,
{
    if k < at {
        assert(s[k] != '\n');
        lemma_line_end(s, k + 1, at);
    }
}

/// A line reaches from behind the line break before it, or from the start of the text, to the
/// line break after it, or to the end of the text, wherever in it one is.
pub proof fn law_lines_reach_from_break_to_break(
    before: Seq<char>,
    line: Seq<char>,
    after: Seq<char>,
    k: int,
)
    requires
        before.len() == 0 || before.last() == '\n',
        after.len() == 0 || after[0] == '\n',
        !line.contains('\n'),
        0 <= k <= line.len(),
    ensures
        line_start(before + line + after, before.len() + k) == before.len(),
        line_end(before + line + after, before.len() + k) == before.len() + line.len(),
{
    let s = before + line + after;
    assert forall|i: int| before.len() <= i < before.len() + line.len() implies s[i] != '\n' by {
        assert(line.contains(line[i - before.len()]));
    }
    lemma_line_start(s, before.len() + k, before.len() as int);
    lemma_line_end(s, before.len() + k, (before.len() + line.len()) as int);
}

} // verus!
