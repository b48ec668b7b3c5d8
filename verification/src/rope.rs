//! The text of an input field, kept in a rope.

use vstd::prelude::*;

use ropey::Rope;

verus! {

/// `ropey::Rope`, which keeps a text so that it can be edited in the middle.
#[verifier::external_type_specification]
#[verifier::external_body]
pub struct ExRope(ropey::Rope);

/// The text that a rope holds.
pub uninterp spec fn contents(rope: ropey::Rope) -> Seq<char>;

/// `ropey::Rope::from_str` makes a rope of a text.
#[verifier::external_body]
pub(crate) fn rope_of(text: &str) -> (r: Rope)
    ensures
        contents(r) == text@,
{
    Rope::from_str(text)
}

/// `ropey::Rope`'s `to_string` gives the text of a rope.
#[verifier::external_body]
pub(crate) fn rope_text(rope: &Rope) -> (r: String)
    ensures
        r@ == contents(*rope),
{
    rope.to_string()
}

/// A text with the part between two byte offsets replaced.
pub open spec fn spliced(s: Seq<char>, from: int, to: int, text: Seq<char>) -> Seq<char> {
    s.take(crate::position::floor(s, from)) + text + s.skip(crate::position::floor(s, to))
}

/// `ropey::Rope::insert` puts a text into a rope at a byte offset. It panics where
/// the offset does not fall between two characters.
#[verifier::external_body]
pub(crate) fn rope_insert(rope: &mut Rope, at: usize, text: &str)
    requires
        crate::position::boundary(contents(*old(rope)), at as int),
    ensures
        contents(*final(rope)) == spliced(contents(*old(rope)), at as int, at as int, text@),
{
    rope.insert(at, text)
}

/// Whether two byte offsets mark a part of a text.
pub open spec fn is_part(s: Seq<char>, from: int, to: int) -> bool {
    &&& from <= to
    &&& crate::position::boundary(s, from)
    &&& crate::position::boundary(s, to)
}

/// `ropey::Rope::remove` takes the part between two byte offsets out of a rope. It
/// panics where they are the wrong way round or do not fall between two characters.
#[verifier::external_body]
pub(crate) fn rope_remove(rope: &mut Rope, from: usize, to: usize)
    requires
        is_part(contents(*old(rope)), from as int, to as int),
    ensures
        contents(*final(rope)) == spliced(
            contents(*old(rope)),
            from as int,
            to as int,
            Seq::empty(),
        ),
{
    rope.remove(from..to)
}

/// Replaces a part of a rope.
pub fn rope_replace(rope: &mut Rope, from: usize, to: usize, text: &str)
    requires
        is_part(contents(*old(rope)), from as int, to as int),
    ensures
        contents(*final(rope)) == spliced(contents(*old(rope)), from as int, to as int, text@),
{
    let ghost s = contents(*rope);
    let ghost a = crate::position::floor(s, from as int);
    let ghost b = crate::position::floor(s, to as int);
    rope_remove(rope, from, to);
    let ghost left = contents(*rope);
    proof {
        lemma_part(s, from as int, to as int);
        assert(left =~= s.take(a) + s.skip(b));
        assert(left.take(a) =~= s.take(a));
        crate::position::lemma_floor_of_offset(left, a);
    }
    rope_insert(rope, from, text);
    proof {
        assert(left.skip(a) =~= s.skip(b));
        assert(contents(*rope) =~= spliced(s, from as int, to as int, text@));
    }
}

/// The ends of a part are characters in order.
pub proof fn lemma_part(s: Seq<char>, from: int, to: int)
    requires
        0 <= from,
        is_part(s, from, to),
    ensures
        0 <= crate::position::floor(s, from) <= crate::position::floor(s, to) <= s.len(),
        crate::utf8::offset(s, crate::position::floor(s, from)) == from,
        crate::utf8::offset(s, crate::position::floor(s, to)) == to,
        from <= to <= crate::utf8::bytes(s),
{
    crate::position::lemma_floor(s, from);
    crate::position::lemma_floor(s, to);
    let a = crate::position::floor(s, from);
    let b = crate::position::floor(s, to);
    if b < a {
        crate::utf8::lemma_offset_increases(s, b, a);
    }
    crate::position::lemma_floor_of_offset(s, b);
}

/// Putting back what was replaced gives the text back: whatever part of a text is
/// replaced by whatever text, replacing that text by the part undoes it.
pub proof fn law_replacing_back_restores(s: Seq<char>, from: int, to: int, text: Seq<char>)
    requires
        0 <= from,
        is_part(s, from, to),
    ensures
        ({
            let after = spliced(s, from, to, text);
            let part = s.subrange(
                crate::position::floor(s, from),
                crate::position::floor(s, to),
            );
            &&& is_part(after, from, from + crate::utf8::bytes(text))
            &&& spliced(after, from, from + crate::utf8::bytes(text), part) == s
            &&& after.subrange(
                crate::position::floor(after, from),
                crate::position::floor(after, from + crate::utf8::bytes(text)),
            ) == text
        }),
{
    lemma_part(s, from, to);
    let a = crate::position::floor(s, from);
    let b = crate::position::floor(s, to);
    let after = spliced(s, from, to, text);
    let part = s.subrange(a, b);
    let c = a + text.len();
    assert(after.take(a) =~= s.take(a));
    assert(after.take(c) =~= s.take(a) + text);
    crate::utf8::lemma_bytes_concat(s.take(a), text);
    crate::utf8::lemma_bytes_at_least(text);
    crate::position::lemma_floor_of_offset(after, a);
    crate::position::lemma_floor_of_offset(after, c);
    assert(after.skip(c) =~= s.skip(b));
    assert(after.subrange(a, c) =~= text);
    assert(s.take(a) + part + s.skip(b) =~= s);
}

/// Replacing a part of a text leaves what stands before it and after it as it is.
pub proof fn law_replacing_touches_only_the_part(
    before: Seq<char>,
    part: Seq<char>,
    after: Seq<char>,
    text: Seq<char>,
)
    ensures
        ({
            let s = before + part + after;
            let from = crate::utf8::bytes(before);
            let to = from + crate::utf8::bytes(part);
            &&& is_part(s, from, to)
            &&& spliced(s, from, to, text) == before + text + after
            &&& s.subrange(crate::position::floor(s, from), crate::position::floor(s, to)) == part
        }),
{
    let s = before + part + after;
    assert(s =~= before + (part + after));
    assert(s =~= (before + part) + after);
    crate::utf8::lemma_bytes_concat(before, part);
    crate::utf8::lemma_bytes_at_least(part);
    crate::position::law_offsets_count_what_stands_before(before, part + after);
    crate::position::law_offsets_count_what_stands_before(before + part, after);
    assert(s.take(before.len() as int) =~= before);
    assert(s.skip((before.len() + part.len()) as int) =~= after);
    assert(s.subrange(before.len() as int, (before.len() + part.len()) as int) =~= part);
}

} // verus!
