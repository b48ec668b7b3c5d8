//! Characters and strings: the vocabulary that the rest of the crate states its
//! contracts in, with the small executable functions that go with it.

use vstd::prelude::*;

verus! {

/// `String::push` appends one character and leaves what was there untouched.
pub assume_specification[ String::push ](s: &mut String, c: char)
    ensures
        final(s)@ == old(s)@.push(c),
;

/// `==` on `str` holds exactly when both sides have the same characters.
pub assume_specification[ <str as PartialEq<str>>::eq ](a: &str, b: &str) -> (r: bool)
    ensures
        r == (a@ == b@),
;

/// Whether a number is a Unicode scalar value.
pub open spec fn scalar(code: int) -> bool {
    0 <= code < 0xd800 || 0xe000 <= code <= 0x10ffff
}

/// `char::from_u32` gives the character with that scalar value, where there is one.
#[verifier::external_body]
pub(crate) fn char_of(code: u32) -> (r: Option<char>)
    ensures
        r == (if scalar(code as int) {
            Some(code as char)
        } else {
            None
        }),
{
    char::from_u32(code)
}

/// Whether two strings hold the same characters.
pub fn same(a: &str, b: &str) -> (r: bool)
    ensures
        r == (a@ == b@),
{
    *a == *b
}

/// The characters of `s`, in order.
pub fn chars_of(s: &str) -> (r: Vec<char>)
    ensures
        r@ == s@,
{
    let mut out: Vec<char> = Vec::new();
    for c in it: s.chars()
        invariant
            out@ == it.seq().take(it.index()),
            it.seq() == s@,
    {
        out.push(c);
    }
    out
}

/// The string made of the characters `v[from..to]`.
pub fn string_between(v: &Vec<char>, from: usize, to: usize) -> (r: String)
    requires
        from <= to <= v@.len(),
    ensures
        r@ == v@.subrange(from as int, to as int),
{
    let mut out = String::new();
    for i in from..to
        invariant
            from <= to <= v@.len(),
            out@ == v@.subrange(from as int, i as int),
    {
        out.push(v[i]);
    }
    out
}

/// A copy of the characters `v[from..to]`.
pub fn chars_between(v: &Vec<char>, from: usize, to: usize) -> (r: Vec<char>)
    requires
        from <= to <= v@.len(),
    ensures
        r@ == v@.subrange(from as int, to as int),
{
    let mut out: Vec<char> = Vec::new();
    for i in from..to
        invariant
            from <= to <= v@.len(),
            out@ == v@.subrange(from as int, i as int),
    {
        out.push(v[i]);
    }
    out
}

/// The string made of all the characters of `v`.
pub fn string_of(v: &Vec<char>) -> (r: String)
    ensures
        r@ == v@,
{
    let r = string_between(v, 0, v.len());
    assert(v@.subrange(0, v@.len() as int) == v@);
    r
}

/// The views of a list of strings.
pub open spec fn views(v: Seq<String>) -> Seq<Seq<char>> {
    v.map_values(|s: String| s@)
}

/// The view of an optional string.
pub open spec fn opt_view(s: Option<String>) -> Option<Seq<char>> {
    match s {
        Some(s) => Some(s@),
        None => None,
    }
}

/// The first position at or after `from` that holds `c`; the length if none does.
pub open spec fn index_from(s: Seq<char>, from: int, c: char) -> int
    decreases s.len() - from,
{
    if from >= s.len() {
        s.len() as int
    } else if s[from] == c {
        from
    } else {
        index_from(s, from + 1, c)
    }
}

/// What `index_from` stands for: a position in range, with `c` there unless it is
/// the end, and nowhere between `from` and it.
pub proof fn lemma_index_from(s: Seq<char>, from: int, c: char)
    requires
        0 <= from <= s.len(),
    ensures
        from <= index_from(s, from, c) <= s.len(),
        index_from(s, from, c) < s.len() ==> s[index_from(s, from, c)] == c,
        forall|i: int| from <= i < index_from(s, from, c) ==> s[i] != c,
    decreases s.len() - from,
{
    if from < s.len() && s[from] != c {
        lemma_index_from(s, from + 1, c);
    }
}

/// A position that holds `c` with no `c` between `from` and it is the one that
/// `index_from` gives.
pub proof fn lemma_index_from_is(s: Seq<char>, from: int, c: char, at: int)
    requires
        0 <= from <= at <= s.len(),
        at < s.len() ==> s[at] == c,
        forall|i: int| from <= i < at ==> s[i] != c,
    ensures
        index_from(s, from, c) == at,
    decreases at - from,
{
    if from < at {
        lemma_index_from_is(s, from + 1, c, at);
    }
}

/// Dropping the first `n` characters moves every position down by `n`.
pub proof fn lemma_index_from_skip(s: Seq<char>, n: int, from: int, c: char)
    requires
        0 <= n,
        0 <= from,
        n + from <= s.len(),
    ensures
        index_from(s.skip(n), from, c) == index_from(s, n + from, c) - n,
    decreases s.len() - from,
{
    if n + from < s.len() && s[n + from] != c {
        lemma_index_from_skip(s, n, from + 1, c);
    }
}

/// The position that `index_from` names.
pub fn find_from(v: &Vec<char>, from: usize, c: char) -> (r: usize)
    requires
        from <= v@.len(),
    ensures
        r == index_from(v@, from as int, c),
        from <= r <= v@.len(),
{
    let mut i: usize = from;
    while i < v.len() && v[i] != c
        invariant
            from <= i <= v@.len(),
            forall|j: int| from <= j < i ==> v@[j] != c,
        decreases v@.len() - i,
    {
        i = i + 1;
    }
    proof {
        lemma_index_from_is(v@, from as int, c, i as int);
    }
    i
}

/// The ASCII lower-case form of a character.
pub open spec fn ascii_lower(c: char) -> char {
    if 'A' <= c <= 'Z' {
        (c as u32 + 32) as char
    } else {
        c
    }
}

/// The ASCII lower-case form of a text.
pub open spec fn lowered(s: Seq<char>) -> Seq<char> {
    s.map_values(|c: char| ascii_lower(c))
}

/// Lowers one ASCII letter.
pub fn lower(c: char) -> (r: char)
    ensures
        r == ascii_lower(c),
{
    if 'A' <= c && c <= 'Z' {
        ((c as u8) + 32) as char
    } else {
        c
    }
}

/// Whether a character has Unicode's `White_Space` property.
pub open spec fn white_space(c: char) -> bool {
    ||| '\u{9}' <= c <= '\u{d}'
    ||| c == ' '
    ||| c == '\u{85}'
    ||| c == '\u{a0}'
    ||| c == '\u{1680}'
    ||| '\u{2000}' <= c <= '\u{200a}'
    ||| c == '\u{2028}'
    ||| c == '\u{2029}'
    ||| c == '\u{202f}'
    ||| c == '\u{205f}'
    ||| c == '\u{3000}'
}

/// Decides [`white_space`].
pub fn is_white_space(c: char) -> (r: bool)
    ensures
        r == white_space(c),
{
    ('\u{9}' <= c && c <= '\u{d}') || c == ' ' || c == '\u{85}' || c == '\u{a0}' || c == '\u{1680}'
        || ('\u{2000}' <= c && c <= '\u{200a}') || c == '\u{2028}' || c == '\u{2029}' || c
        == '\u{202f}' || c == '\u{205f}' || c == '\u{3000}'
}

/// The text without the white space at its start.
pub open spec fn trimmed_start(s: Seq<char>) -> Seq<char>
    decreases s.len(),
{
    if s.len() > 0 && white_space(s[0]) {
        trimmed_start(s.skip(1))
    } else {
        s
    }
}

/// The text without the white space at its end.
pub open spec fn trimmed_end(s: Seq<char>) -> Seq<char>
    decreases s.len(),
{
    if s.len() > 0 && white_space(s.last()) {
        trimmed_end(s.drop_last())
    } else {
        s
    }
}

/// The text without the white space at its two ends.
pub open spec fn trimmed(s: Seq<char>) -> Seq<char> {
    trimmed_end(trimmed_start(s))
}

/// The text without the run of `c` at its end.
pub open spec fn trimmed_end_of(s: Seq<char>, c: char) -> Seq<char>
    decreases s.len(),
{
    if s.len() > 0 && s.last() == c {
        trimmed_end_of(s.drop_last(), c)
    } else {
        s
    }
}

/// Where the text without its leading white space starts.
fn start_of(v: &Vec<char>) -> (r: usize)
    ensures
        r <= v@.len(),
        trimmed_start(v@) == v@.skip(r as int),
{
    let mut i: usize = 0;
    assert(v@.skip(0) == v@);
    while i < v.len() && is_white_space(v[i])
        invariant
            i <= v@.len(),
            trimmed_start(v@) == trimmed_start(v@.skip(i as int)),
        decreases v@.len() - i,
    {
        assert(v@.skip(i as int).skip(1) == v@.skip(i + 1));
        i = i + 1;
    }
    i
}

/// Where the text `v[from..]` without its trailing white space ends.
fn end_of(v: &Vec<char>, from: usize) -> (r: usize)
    requires
        from <= v@.len(),
    ensures
        from <= r <= v@.len(),
        trimmed_end(v@.skip(from as int)) == v@.subrange(from as int, r as int),
{
    let mut to: usize = v.len();
    assert(v@.subrange(from as int, to as int) == v@.skip(from as int));
    while to > from && is_white_space(v[to - 1])
        invariant
            from <= to <= v@.len(),
            trimmed_end(v@.skip(from as int)) == trimmed_end(v@.subrange(from as int, to as int)),
        decreases to,
    {
        assert(v@.subrange(from as int, to as int).drop_last() == v@.subrange(
            from as int,
            to - 1,
        ));
        to = to - 1;
    }
    to
}

/// The text without the white space at its two ends.
pub fn trim(s: &str) -> (r: String)
    ensures
        r@ == trimmed(s@),
{
    let v = chars_of(s);
    let from = start_of(&v);
    let to = end_of(&v, from);
    string_between(&v, from, to)
}

/// The text without the white space at its start.
pub fn trim_start(s: &str) -> (r: String)
    ensures
        r@ == trimmed_start(s@),
{
    let v = chars_of(s);
    let from = start_of(&v);
    assert(v@.subrange(from as int, v@.len() as int) == v@.skip(from as int));
    string_between(&v, from, v.len())
}

/// The text without the white space at its end.
pub fn trim_end(s: &str) -> (r: String)
    ensures
        r@ == trimmed_end(s@),
{
    let v = chars_of(s);
    assert(v@.skip(0) == v@);
    let to = end_of(&v, 0);
    string_between(&v, 0, to)
}

/// The text without the run of `c` at its end.
pub fn trim_end_of(v: &Vec<char>, c: char) -> (r: usize)
    ensures
        r <= v@.len(),
        trimmed_end_of(v@, c) == v@.take(r as int),
{
    let mut to: usize = v.len();
    assert(v@.take(to as int) == v@);
    while to > 0 && v[to - 1] == c
        invariant
            to <= v@.len(),
            trimmed_end_of(v@, c) == trimmed_end_of(v@.take(to as int), c),
        decreases to,
    {
        assert(v@.take(to as int).drop_last() == v@.take(to - 1));
        to = to - 1;
    }
    to
}

/// Whether `s` starts with `prefix`.
pub fn starts_with(s: &str, prefix: &str) -> (r: bool)
    ensures
        r == prefix@.is_prefix_of(s@),
{
    let v = chars_of(s);
    let p = chars_of(prefix);
    if p.len() > v.len() {
        return false;
    }
    let mut i: usize = 0;
    while i < p.len()
        invariant
            v@ == s@,
            p@ == prefix@,
            i <= p@.len() <= v@.len(),
            forall|j: int| 0 <= j < i ==> p@[j] == v@[j],
        decreases p@.len() - i,
    {
        if p[i] != v[i] {
            assert(s@.subrange(0, prefix@.len() as int)[i as int] != prefix@[i as int]);
            return false;
        }
        i = i + 1;
    }
    assert(prefix@ =~= s@.subrange(0, prefix@.len() as int));
    true
}

/// What follows `prefix` in `s`, if `s` starts with it.
pub fn strip_prefix(s: &str, prefix: &str) -> (r: Option<String>)
    ensures
        match r {
            Some(rest) => prefix@.is_prefix_of(s@) && rest@ == s@.skip(prefix@.len() as int),
            None => !prefix@.is_prefix_of(s@),
        },
{
    if starts_with(s, prefix) {
        let v = chars_of(s);
        let n: usize = chars_of(prefix).len();
        Some(string_between(&v, n, v.len()))
    } else {
        None
    }
}

/// Whether a text is nothing but white space.
pub open spec fn all_white(s: Seq<char>) -> bool {
    forall|i: int| 0 <= i < s.len() ==> white_space(#[trigger] s[i])
}

/// Trimming takes the white space off both ends of a text, all of it, and nothing else:
/// whatever white space is put around a text that has none at its ends, that text is left.
pub proof fn law_trimming_takes_only_the_ends(before: Seq<char>, s: Seq<char>, after: Seq<char>)
    requires
        all_white(before),
        all_white(after),
        s.len() > 0,
        !white_space(s[0]),
        !white_space(s.last()),
    ensures
        trimmed(before + s + after) == s,
        trimmed_start(before + s + after) == s + after,
        trimmed_end(before + s + after) == before + s,
{
    assert(before + s + after =~= before + (s + after));
    lemma_trimmed_start(before, s + after);
    lemma_trimmed_end(before + s, after);
    lemma_trimmed_end(s, after);
}

/// Nothing is left of a text of nothing but white space.
pub proof fn law_white_space_trims_to_nothing(s: Seq<char>)
    requires
        all_white(s),
    ensures
        trimmed(s).len() == 0,
        trimmed_start(s).len() == 0,
        trimmed_end(s).len() == 0,
{
    assert(s + Seq::<char>::empty() =~= s);
    assert(Seq::<char>::empty() + s =~= s);
    lemma_trimmed_start(s, Seq::empty());
    lemma_trimmed_end(Seq::empty(), s);
}

proof fn lemma_trimmed_start(before: Seq<char>, s: Seq<char>)
    requires
        all_white(before),
        s.len() == 0 || !white_space(s[0]),
    ensures
        trimmed_start(before + s) == s,
    decreases before.len(),
{
    if before.len() == 0 {
        assert(before + s =~= s);
    } else {
        assert(white_space(before[0]));
        assert((before + s).skip(1) =~= before.skip(1) + s);
        assert(all_white(before.skip(1))) by {
            assert forall|i: int| 0 <= i < before.skip(1).len() implies white_space(
                #[trigger] before.skip(1)[i],
            ) by {
                assert(white_space(before[i + 1]));
            }
        }
        lemma_trimmed_start(before.skip(1), s);
    }
}

proof fn lemma_trimmed_end(s: Seq<char>, after: Seq<char>)
    requires
        all_white(after),
        s.len() == 0 || !white_space(s.last()),
    ensures
        trimmed_end(s + after) == s,
    decreases after.len(),
{
    if after.len() == 0 {
        assert(s + after =~= s);
    } else {
        assert(white_space(after[after.len() - 1]));
        assert((s + after).drop_last() =~= s + after.drop_last());
        assert(all_white(after.drop_last())) by {
            assert forall|i: int| 0 <= i < after.drop_last().len() implies white_space(
                #[trigger] after.drop_last()[i],
            ) by {
                assert(white_space(after[i]));
            }
        }
        lemma_trimmed_end(s, after.drop_last());
    }
}

/// Taking a character off the end of a text takes all of it that is there and nothing else.
pub proof fn law_trailing_characters_go(s: Seq<char>, c: char, n: nat)
    requires
        s.len() == 0 || s.last() != c,
    ensures
        trimmed_end_of(s + Seq::new(n, |i: int| c), c) == s,
    decreases n,
{
    let tail = Seq::new(n, |i: int| c);
    if n == 0 {
        assert(s + tail =~= s);
    } else {
        assert((s + tail).drop_last() =~= s + Seq::new((n - 1) as nat, |i: int| c));
        law_trailing_characters_go(s, c, (n - 1) as nat);
    }
}

/// The characters that count as white space, by their numbers: those that Unicode says do.
pub proof fn law_white_space_is_unicodes(c: char)
    ensures
        white_space(c) <==> ({
            let n = c as u32;
            ||| 9 <= n <= 13
            ||| n == 0x20
            ||| n == 0x85
            ||| n == 0xa0
            ||| n == 0x1680
            ||| 0x2000 <= n <= 0x200a
            ||| n == 0x2028
            ||| n == 0x2029
            ||| n == 0x202f
            ||| n == 0x205f
            ||| n == 0x3000
        }),
{
}

/// Only the letters from `A` to `Z` are changed when a text is put in lower case, each into
/// its own small letter, and doing so twice is doing so once.
pub proof fn law_lower_case_changes_only_capitals(c: char)
    ensures
        'A' <= c <= 'Z' ==> ascii_lower(c) as u32 == c as u32 + 32 && 'a' <= ascii_lower(c) <= 'z',
        !('A' <= c <= 'Z') ==> ascii_lower(c) == c,
        ascii_lower(ascii_lower(c)) == ascii_lower(c),
{
}

/// The first place of a character in a text is found, wherever it is.
pub proof fn law_first_place_is_found(before: Seq<char>, c: char, after: Seq<char>)
    requires
        !before.contains(c),
    ensures
        index_from(before + seq![c] + after, 0, c) == before.len(),
        index_from(before, 0, c) == before.len(),
{
    let s = before + seq![c] + after;
    assert forall|i: int| 0 <= i < before.len() implies s[i] != c && before[i] != c by {
        assert(before.contains(before[i]));
    }
    lemma_index_from_is(s, 0, c, before.len() as int);
    lemma_index_from_is(before, 0, c, before.len() as int);
}

/// The numbers that stand for characters are all but those kept for pairs.
pub proof fn law_scalars_leave_out_pairs(code: int)
    ensures
        scalar(code) <==> 0 <= code <= 0x10ffff && !(0xd800 <= code <= 0xdfff),
{
}

} // verus!
