//! Byte offsets into UTF-8 text, stated over its characters.

use vstd::prelude::*;

verus! {

/// How many bytes a character takes in UTF-8.
pub open spec fn width(c: char) -> int {
    if (c as u32) < 0x80 {
        1
    } else if (c as u32) < 0x800 {
        2
    } else if (c as u32) < 0x10000 {
        3
    } else {
        4
    }
}

/// How many bytes a text takes in UTF-8.
pub open spec fn bytes(s: Seq<char>) -> int
    decreases s.len(),
{
    if s.len() == 0 {
        0
    } else {
        bytes(s.drop_last()) + width(s.last())
    }
}

/// The byte offset at which the `k`-th character of `s` starts.
pub open spec fn offset(s: Seq<char>, k: int) -> int {
    bytes(s.take(k))
}

/// Moving past one character adds its width to the offset.
pub proof fn lemma_offset_step(s: Seq<char>, k: int)
    requires
        0 <= k < s.len(),
    ensures
        offset(s, k + 1) == offset(s, k) + width(s[k]),
{
    assert(s.take(k + 1).drop_last() == s.take(k));
}

/// Texts laid end to end take the sum of their bytes.
pub proof fn lemma_bytes_concat(a: Seq<char>, b: Seq<char>)
    ensures
        bytes(a + b) == bytes(a) + bytes(b),
    decreases b.len(),
{
    if b.len() == 0 {
        assert(a + b == a);
    } else {
        assert((a + b).drop_last() == a + b.drop_last());
        lemma_bytes_concat(a, b.drop_last());
    }
}

/// A text takes at least as many bytes as it has characters.
pub proof fn lemma_bytes_at_least(s: Seq<char>)
    ensures
        bytes(s) >= s.len(),
    decreases s.len(),
{
    if s.len() > 0 {
        lemma_bytes_at_least(s.drop_last());
    }
}

/// Later characters start at larger offsets.
pub proof fn lemma_offset_increases(s: Seq<char>, j: int, k: int)
    requires
        0 <= j <= k <= s.len(),
    ensures
        offset(s, k) - offset(s, j) >= k - j,
        offset(s, k) == offset(s, j) + bytes(s.subrange(j, k)),
{
    assert(s.take(k) == s.take(j) + s.subrange(j, k));
    lemma_bytes_concat(s.take(j), s.subrange(j, k));
    lemma_bytes_at_least(s.subrange(j, k));
}

/// Counting bytes by characters agrees with the encoded text.
pub proof fn lemma_bytes_encoded(s: Seq<char>)
    ensures
        bytes(s) == vstd::utf8::encode_utf8(s).len(),
    decreases s.len(),
{
    if s.len() > 0 {
        lemma_bytes_encoded(s.drop_first());
        assert(s == seq![s[0]] + s.drop_first());
        lemma_bytes_concat(seq![s[0]], s.drop_first());
        assert(seq![s[0]].drop_last() == Seq::<char>::empty());
        assert(bytes(seq![s[0]]) == width(s[0])) by {
            reveal_with_fuel(bytes, 2);
        }
        vstd::utf8::char_is_scalar(s[0]);
    }
}

/// The number of bytes `s` takes, which `usize` can always hold.
pub fn byte_len(s: &str) -> (r: usize)
    ensures
        r == bytes(s@),
{
    let encoded = s.as_bytes();
    let r: usize = encoded.len();
    proof {
        lemma_bytes_encoded(s@);
    }
    r
}

/// The number of bytes a character takes.
pub fn char_width(c: char) -> (r: usize)
    ensures
        r == width(c),
{
    if (c as u32) < 0x80 {
        1
    } else if (c as u32) < 0x800 {
        2
    } else if (c as u32) < 0x10000 {
        3
    } else {
        4
    }
}

/// A text takes as many bytes as its parts.
pub proof fn law_bytes_add_up(a: Seq<char>, b: Seq<char>)
    ensures
        bytes(a + b) == bytes(a) + bytes(b),
        bytes(Seq::<char>::empty()) == 0,
{
    lemma_bytes_concat(a, b);
}

/// A text takes as many bytes as encoding it gives.
pub proof fn law_bytes_are_those_of_the_encoding(s: Seq<char>)
    ensures
        bytes(s) == vstd::utf8::encode_utf8(s).len(),
{
    lemma_bytes_encoded(s);
}

} // verus!
