//! What flattening a body to one line keeps and what it drops.

use vstd::prelude::*;

use crate::body::{Emphasis, Span};

verus! {

/// White space between two words becomes one space, however much of it there was and of
/// whatever kind, and what stands around it is flattened on its own.
pub proof fn law_white_space_becomes_one_space(a: Seq<char>, space: Seq<char>, b: Seq<char>)
    requires
        a.len() > 0,
        b.len() > 0,
        space.len() > 0,
        !crate::text::white_space(a.last()),
        !crate::text::white_space(b[0]),
        crate::text::all_white(space),
    ensures
        crate::body::flat(a + space + b) == crate::body::flat(a) + seq![' '] + crate::body::flat(b),
    decreases b.len(),
{
    let s = a + space + b;
    let init = b.drop_last();
    assert(s.drop_last() =~= a + space + init);
    assert(s.last() == b.last());
    if b.len() == 1 {
        assert(init =~= Seq::<char>::empty());
        assert(a + space + init =~= a + space);
        lemma_trailing_space(a, space);
        assert(s[s.len() - 2] == space[space.len() - 1]);
        assert(crate::text::white_space(space[space.len() - 1]));
        lemma_flat_not_empty(a);
        assert(crate::body::flat(init) =~= Seq::<char>::empty());
        assert(crate::body::flat(b) =~= seq![b.last()]);
        assert(crate::body::flat(a).push(' ').push(b.last()) =~= crate::body::flat(a) + seq![' '] + crate::body::flat(b));
    } else {
        law_white_space_becomes_one_space(a, space, init);
        assert(s[s.len() - 2] == b[b.len() - 2]);
        lemma_flat_starts(init);
        if crate::text::white_space(b.last()) {
        } else if crate::text::white_space(b[b.len() - 2]) {
            assert((crate::body::flat(a) + seq![' '] + crate::body::flat(init)).push(' ').push(b.last()) =~= crate::body::flat(a)
                + seq![' '] + crate::body::flat(init).push(' ').push(b.last()));
        } else {
            assert((crate::body::flat(a) + seq![' '] + crate::body::flat(init)).push(b.last()) =~= crate::body::flat(a) + seq![' ']
                + crate::body::flat(init).push(b.last()));
        }
    }
}

proof fn lemma_flat_not_empty(a: Seq<char>)
    requires
        a.len() > 0,
        !crate::text::white_space(a.last()),
    ensures
        crate::body::flat(a).len() > 0,
{
}

proof fn lemma_flat_starts(b: Seq<char>)
    requires
        b.len() > 0,
        !crate::text::white_space(b[0]),
    ensures
        crate::body::flat(b).len() > 0,
    decreases b.len(),
{
    if b.len() > 1 {
        assert(b.drop_last()[0] == b[0]);
        lemma_flat_starts(b.drop_last());
    }
}

proof fn lemma_trailing_space(a: Seq<char>, space: Seq<char>)
    requires
        crate::text::all_white(space),
    ensures
        crate::body::flat(a + space) == crate::body::flat(a),
    decreases space.len(),
{
    if space.len() == 0 {
        assert(a + space =~= a);
    } else {
        assert(crate::text::white_space(space[space.len() - 1]));
        assert((a + space).drop_last() =~= a + space.drop_last());
        assert forall|i: int| 0 <= i < space.drop_last().len() implies crate::text::white_space(
            #[trigger] space.drop_last()[i],
        ) by {
            assert(crate::text::white_space(space[i]));
        }
        lemma_trailing_space(a, space.drop_last());
    }
}

/// White space at the ends goes altogether.
pub proof fn law_white_space_at_the_ends_goes(before: Seq<char>, s: Seq<char>, after: Seq<char>)
    requires
        crate::text::all_white(before),
        crate::text::all_white(after),
        s.len() == 0 || !crate::text::white_space(s[0]),
    ensures
        crate::body::flat(before + s + after) == crate::body::flat(s),
{
    lemma_trailing_space(before + s, after);
    lemma_leading_space(before, s);
}

proof fn lemma_leading_space(space: Seq<char>, s: Seq<char>)
    requires
        crate::text::all_white(space),
        s.len() == 0 || !crate::text::white_space(s[0]),
    ensures
        crate::body::flat(space + s) == crate::body::flat(s),
    decreases s.len(),
{
    if s.len() == 0 {
        assert(space + s =~= space);
        assert(Seq::<char>::empty() + space =~= space);
        lemma_trailing_space(Seq::empty(), space);
        assert(s =~= Seq::<char>::empty());
    } else {
        let whole = space + s;
        assert(whole.drop_last() =~= space + s.drop_last());
        lemma_leading_space(space, s.drop_last());
        if s.len() > 1 {
            assert(whole[whole.len() - 2] == s[s.len() - 2]);
        } else {
            assert(s.drop_last() =~= Seq::<char>::empty());
        }
    }
}

/// Every character that is not white space is kept, in its order.
pub proof fn law_flattening_keeps_every_word(s: Seq<char>)
    ensures
        crate::body::flat(s).filter(|c: char| !crate::text::white_space(c)) == s.filter(
            |c: char| !crate::text::white_space(c),
        ),
    decreases s.len(),
{
    reveal(Seq::filter);
    let keep = |c: char| !crate::text::white_space(c);
    if s.len() > 0 {
        law_flattening_keeps_every_word(s.drop_last());
        let before = crate::body::flat(s.drop_last());
        assert(before.push(' ').drop_last() =~= before);
        assert(before.push(' ').push(s.last()).drop_last() =~= before.push(' '));
        assert(before.push(s.last()).drop_last() =~= before);
        assert(before.push(' ').filter(keep) =~= before.filter(keep));
    }
}

/// A chunk of text is marked all through, and its characters stay as they are.
pub proof fn law_chunks_are_marked_throughout(chunk: Seq<char>, emphasis: Emphasis)
    ensures
        crate::body::marked(chunk, emphasis).len() == chunk.len(),
        crate::body::unstyled(crate::body::marked(chunk, emphasis)) == chunk,
        forall|i: int| 0 <= i < chunk.len() ==> (#[trigger] crate::body::marked(chunk, emphasis)[i]).1 == emphasis,
        !crate::body::unmarked().bold && !crate::body::unmarked().italic && !crate::body::unmarked().underline,
{
    assert(crate::body::unstyled(crate::body::marked(chunk, emphasis)) =~= chunk);
}

proof fn lemma_emphasis_at(spans: Seq<Span>, j: int, at: int, i: int)
    requires
        0 <= j <= i < spans.len(),
        spans[i].range.start <= at < spans[i].range.end,
        forall|k: int| j <= k < i ==> (#[trigger] spans[k]).range.end <= at,
    ensures
        crate::body::emphasis_at(spans, j, at) == spans[i].emphasis,
    decreases i - j,
{
    if j < i {
        assert(spans[j].range.end <= at);
        lemma_emphasis_at(spans, j + 1, at, i);
    }
}

/// A character is drawn as the span says that it stands in.
pub proof fn law_spans_mark_what_they_cover(text: Seq<char>, spans: Seq<Span>, i: int, k: int)
    requires
        crate::body::spans_fit(text, spans),
        0 <= i < spans.len(),
        0 <= k < text.len(),
        spans[i].range.start <= crate::utf8::offset(text, k) < spans[i].range.end,
    ensures
        crate::body::styled(text, spans)[k] == (text[k], spans[i].emphasis),
{
    let at = crate::utf8::offset(text, k);
    assert forall|j: int| 0 <= j < i implies (#[trigger] spans[j]).range.end <= at by {
        assert(spans[j].range.end <= spans[i].range.start);
    }
    lemma_emphasis_at(spans, 0, at, i);
}

/// The spans of a body come one behind the other inside its text, each marks something, and
/// two that touch are marked differently.
pub proof fn law_spans_stand_in_order(text: Seq<char>, spans: Seq<Span>, i: int)
    requires
        crate::body::spans_fit(text, spans),
        0 <= i < spans.len(),
    ensures
        spans[i].range.start < spans[i].range.end <= crate::utf8::bytes(text),
        spans[i].emphasis != crate::body::unmarked(),
        i + 1 < spans.len() ==> spans[i].range.end <= spans[i + 1].range.start,
        i + 1 < spans.len() && spans[i].range.end == spans[i + 1].range.start ==> spans[i].emphasis
            != spans[i + 1].emphasis,
{
}

} // verus!
