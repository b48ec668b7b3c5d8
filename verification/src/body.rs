//! Text with emphasis, as notification bodies carry it, and its flattening onto
//! a single line.

use vstd::prelude::*;

use crate::text::{chars_of, is_white_space};
use crate::utf8::{byte_len, char_width};

verus! {

/// How a stretch of text is set off from the rest.
#[derive(Clone, Copy, Debug, PartialEq, Eq, Structural)]
pub struct Emphasis {
    pub bold: bool,
    pub italic: bool,
    pub underline: bool,
}

/// No emphasis at all.
pub open spec fn unmarked() -> Emphasis {
    Emphasis { bold: false, italic: false, underline: false }
}

impl Default for Emphasis {
    fn default() -> (r: Self)
        ensures
            r == unmarked(),
    {
        Emphasis { bold: false, italic: false, underline: false }
    }
}

impl Emphasis {
    /// Whether there is any emphasis.
    pub fn is_marked(&self) -> (r: bool)
        ensures
            r == (*self != unmarked()),
    {
        self.bold || self.italic || self.underline
    }
}

/// A stretch of a body's text, in bytes, with its emphasis.
#[derive(Debug, PartialEq, Eq)]
pub struct Span {
    pub range: core::ops::Range<usize>,
    pub emphasis: Emphasis,
}

impl Clone for Span {
    fn clone(&self) -> (r: Self)
        ensures
            r == *self,
    {
        Span { range: self.range.start..self.range.end, emphasis: self.emphasis }
    }
}

/// A text and the emphasized stretches of it, in order.
#[derive(Debug, PartialEq, Eq)]
pub struct Body {
    pub text: String,
    pub spans: Vec<Span>,
}

/// The emphasis that the spans from `j` on give to the byte at `at`: that of the
/// first of them that does not end before it, if that one has begun.
pub open spec fn emphasis_at(spans: Seq<Span>, j: int, at: int) -> Emphasis
    decreases spans.len() - j,
{
    if j >= spans.len() {
        unmarked()
    } else if spans[j].range.end <= at {
        emphasis_at(spans, j + 1, at)
    } else if spans[j].range.start <= at {
        spans[j].emphasis
    } else {
        unmarked()
    }
}

/// The characters of a text, each with the emphasis that the spans give it.
pub open spec fn styled(text: Seq<char>, spans: Seq<Span>) -> Seq<(char, Emphasis)> {
    Seq::new(
        text.len(),
        |k: int| (text[k], emphasis_at(spans, 0, crate::utf8::offset(text, k))),
    )
}

/// Whether an offset lies between two characters of a text, or at an end of it.
pub open spec fn is_boundary(text: Seq<char>, at: int) -> bool {
    exists|k: int| 0 <= k <= text.len() && #[trigger] crate::utf8::offset(text, k) == at
}

/// Whether spans mark up a text properly: each marks some whole characters of
/// it, they come in order without overlapping, and no two that touch could have
/// been one.
pub open spec fn spans_fit(text: Seq<char>, spans: Seq<Span>) -> bool {
    &&& forall|i: int|
        0 <= i < spans.len() ==> {
            &&& (#[trigger] spans[i]).range.start < spans[i].range.end <= crate::utf8::bytes(text)
            &&& is_boundary(text, spans[i].range.start as int)
            &&& is_boundary(text, spans[i].range.end as int)
            &&& spans[i].emphasis != unmarked()
        }
    &&& forall|i: int, j: int|
        0 <= i < j < spans.len() ==> (#[trigger] spans[i]).range.end <= (
        #[trigger] spans[j]).range.start
    &&& forall|i: int, j: int|
        0 <= i && j == i + 1 && j < spans.len() && (#[trigger] spans[i]).range.end == (
        #[trigger] spans[j]).range.start ==> spans[i].emphasis != spans[j].emphasis
}

impl Body {
    /// The body's characters, each with its emphasis.
    pub open spec fn styled(&self) -> Seq<(char, Emphasis)> {
        styled(self.text@, self.spans@)
    }

    /// Whether the spans fit the text.
    pub open spec fn wf(&self) -> bool {
        spans_fit(self.text@, self.spans@)
    }

    /// A body without emphasis.
    pub fn plain(text: String) -> (r: Self)
        ensures
            r.wf(),
            r.text@ == text@,
            r.spans@.len() == 0,
    {
        Body { text, spans: Vec::new() }
    }

    /// Whether there is no text.
    pub fn is_empty(&self) -> (r: bool)
        ensures
            r == (self.text@.len() == 0),
    {
        self.text.as_str().is_empty()
    }
}

/// Copies spans.
fn copy_spans(spans: &Vec<Span>) -> (r: Vec<Span>)
    ensures
        r@ == spans@,
{
    let mut out: Vec<Span> = Vec::new();
    for i in 0..spans.len()
        invariant
            out@ == spans@.take(i as int),
    {
        out.push(spans[i].clone());
    }
    assert(spans@.take(spans@.len() as int) == spans@);
    out
}

impl Clone for Body {
    fn clone(&self) -> (r: Self)
        ensures
            r.text@ == self.text@,
            r.spans@ == self.spans@,
    {
        Body { text: self.text.clone(), spans: copy_spans(&self.spans) }
    }
}

/// Puts a body together from chunks of text.
#[derive(Debug)]
pub struct BodyBuilder {
    text: String,
    spans: Vec<Span>,
}

impl Default for BodyBuilder {
    fn default() -> (r: Self)
        ensures
            r.wf(),
            r.styled().len() == 0,
    {
        BodyBuilder { text: String::new(), spans: Vec::new() }
    }
}

/// A chunk of text, each character with the same emphasis.
pub open spec fn marked(chunk: Seq<char>, emphasis: Emphasis) -> Seq<(char, Emphasis)> {
    chunk.map_values(|c: char| (c, emphasis))
}

/// Extending a text leaves the offsets of what was there as they were.
proof fn lemma_offset_extend(a: Seq<char>, b: Seq<char>, k: int)
    requires
        0 <= k <= a.len(),
    ensures
        crate::utf8::offset(a + b, k) == crate::utf8::offset(a, k),
{
    assert((a + b).take(k) == a.take(k));
}

/// Spans that all end at or before `at` mark nothing from there on.
proof fn lemma_emphasis_past(spans: Seq<Span>, j: int, at: int)
    requires
        0 <= j <= spans.len(),
        forall|i: int| j <= i < spans.len() ==> (#[trigger] spans[i]).range.end <= at,
    ensures
        emphasis_at(spans, j, at) == unmarked(),
    decreases spans.len() - j,
{
    if j < spans.len() {
        lemma_emphasis_past(spans, j + 1, at);
    }
}

/// Passing over spans that end at or before `at` changes nothing there.
proof fn lemma_emphasis_skip(spans: Seq<Span>, j: int, n: int, at: int)
    requires
        0 <= j <= n <= spans.len(),
        forall|i: int| j <= i < n ==> (#[trigger] spans[i]).range.end <= at,
    ensures
        emphasis_at(spans, j, at) == emphasis_at(spans, n, at),
    decreases n - j,
{
    if j < n {
        lemma_emphasis_skip(spans, j + 1, n, at);
    }
}

/// Two lists of spans that agree up to `n`, and whose later ones mark nothing
/// at `at`, mark it alike.
proof fn lemma_emphasis_agree(a: Seq<Span>, b: Seq<Span>, j: int, n: int, at: int)
    requires
        0 <= j <= n <= a.len(),
        n <= b.len(),
        forall|i: int| 0 <= i < n ==> a[i] == b[i],
        emphasis_at(a, n, at) == emphasis_at(b, n, at),
    ensures
        emphasis_at(a, j, at) == emphasis_at(b, j, at),
    decreases n - j,
{
    if j < n {
        lemma_emphasis_agree(a, b, j + 1, n, at);
    }
}

/// The characters of a text stay where they are when it is extended.
proof fn lemma_extended_low(text: Seq<char>, chunk: Seq<char>)
    ensures
        forall|k: int|
            0 <= k < text.len() ==> #[trigger] crate::utf8::offset(text + chunk, k)
                == crate::utf8::offset(text, k) && crate::utf8::offset(text, k)
                < crate::utf8::bytes(text),
{
    assert(text.take(text.len() as int) == text);
    assert forall|k: int| 0 <= k < text.len() implies #[trigger] crate::utf8::offset(
        text + chunk,
        k,
    ) == crate::utf8::offset(text, k) && crate::utf8::offset(text, k) < crate::utf8::bytes(
        text,
    ) by {
        lemma_offset_extend(text, chunk, k);
        crate::utf8::lemma_offset_increases(text, k, text.len() as int);
    }
}

/// The characters that a text is extended by lie after it.
proof fn lemma_extended_high(text: Seq<char>, chunk: Seq<char>)
    ensures
        forall|k: int|
            text.len() <= k < text.len() + chunk.len() ==> crate::utf8::bytes(text) <= (
            #[trigger] crate::utf8::offset(text + chunk, k)) && crate::utf8::offset(text + chunk, k)
                < crate::utf8::bytes(text + chunk),
{
    let whole = text + chunk;
    assert(text.take(text.len() as int) == text);
    assert(whole.take(whole.len() as int) == whole);
    lemma_offset_extend(text, chunk, text.len() as int);
    assert forall|k: int| text.len() <= k < text.len() + chunk.len() implies crate::utf8::bytes(
        text,
    ) <= (#[trigger] crate::utf8::offset(text + chunk, k)) && crate::utf8::offset(text + chunk, k)
        < crate::utf8::bytes(text + chunk) by {
        crate::utf8::lemma_offset_increases(whole, text.len() as int, k);
        crate::utf8::lemma_offset_increases(whole, k, whole.len() as int);
    }
}

/// Where the characters of an extended text lie.
proof fn lemma_extended(text: Seq<char>, chunk: Seq<char>)
    ensures
        crate::utf8::bytes(text + chunk) == crate::utf8::bytes(text) + crate::utf8::bytes(chunk),
        chunk.len() > 0 ==> crate::utf8::bytes(chunk) > 0,
        forall|k: int|
            0 <= k < text.len() ==> #[trigger] crate::utf8::offset(text + chunk, k)
                == crate::utf8::offset(text, k) && crate::utf8::offset(text, k)
                < crate::utf8::bytes(text),
        forall|k: int|
            text.len() <= k < text.len() + chunk.len() ==> crate::utf8::bytes(text) <= (
            #[trigger] crate::utf8::offset(text + chunk, k)) && crate::utf8::offset(text + chunk, k)
                < crate::utf8::bytes(text + chunk),
        forall|at: int| is_boundary(text, at) ==> is_boundary(text + chunk, at),
        is_boundary(text + chunk, crate::utf8::bytes(text)),
        is_boundary(text + chunk, crate::utf8::bytes(text + chunk)),
{
    let whole = text + chunk;
    crate::utf8::lemma_bytes_concat(text, chunk);
    crate::utf8::lemma_bytes_at_least(chunk);
    assert(text.take(text.len() as int) == text);
    assert(whole.take(whole.len() as int) == whole);
    lemma_offset_extend(text, chunk, text.len() as int);
    assert(crate::utf8::offset(whole, text.len() as int) == crate::utf8::bytes(text));
    assert(crate::utf8::offset(whole, whole.len() as int) == crate::utf8::bytes(whole));
    assert forall|at: int| is_boundary(text, at) implies is_boundary(whole, at) by {
        let k = choose|k: int| 0 <= k <= text.len() && #[trigger] crate::utf8::offset(text, k) == at;
        lemma_offset_extend(text, chunk, k);
        assert(crate::utf8::offset(whole, k) == at);
    }
    lemma_extended_low(text, chunk);
    lemma_extended_high(text, chunk);
}

/// Appending text without a span leaves it unmarked.
proof fn lemma_push_unmarked(text: Seq<char>, spans: Seq<Span>, chunk: Seq<char>)
    requires
        spans_fit(text, spans),
    ensures
        spans_fit(text + chunk, spans),
        styled(text + chunk, spans) == styled(text, spans) + marked(chunk, unmarked()),
{
    let whole = text + chunk;
    lemma_extended(text, chunk);
    assert forall|k: int| text.len() <= k < whole.len() implies emphasis_at(
        spans,
        0,
        crate::utf8::offset(whole, k),
    ) == unmarked() by {
        lemma_emphasis_past(spans, 0, crate::utf8::offset(whole, k));
    }
    assert(styled(whole, spans) =~= styled(text, spans) + marked(chunk, unmarked()));
}

/// Appending text with a span of its own marks it, and nothing else.
proof fn lemma_push_fresh(text: Seq<char>, spans: Seq<Span>, chunk: Seq<char>, span: Span)
    requires
        spans_fit(text, spans),
        chunk.len() > 0,
        span.range.start == crate::utf8::bytes(text),
        span.range.end == crate::utf8::bytes(text + chunk),
        span.emphasis != unmarked(),
        spans.len() > 0 && spans.last().range.end == span.range.start ==> spans.last().emphasis
            != span.emphasis,
    ensures
        spans_fit(text + chunk, spans.push(span)),
        styled(text + chunk, spans.push(span)) == styled(text, spans) + marked(
            chunk,
            span.emphasis,
        ),
{
    let whole = text + chunk;
    let new = spans.push(span);
    let n = spans.len() as int;
    lemma_extended(text, chunk);
    assert forall|k: int| 0 <= k < whole.len() implies emphasis_at(
        new,
        0,
        crate::utf8::offset(whole, k),
    ) == (if k < text.len() {
        emphasis_at(spans, 0, crate::utf8::offset(text, k))
    } else {
        span.emphasis
    }) by {
        let at = crate::utf8::offset(whole, k);
        if k < text.len() {
            lemma_emphasis_agree(spans, new, 0, n, at);
        } else {
            lemma_emphasis_skip(new, 0, n, at);
        }
    }
    assert(styled(whole, new) =~= styled(text, spans) + marked(chunk, span.emphasis));
}

/// Appending text by growing the last span marks it as that span does.
proof fn lemma_push_grown(text: Seq<char>, spans: Seq<Span>, chunk: Seq<char>, span: Span)
    requires
        spans_fit(text, spans),
        chunk.len() > 0,
        spans.len() > 0,
        spans.last().range.end == crate::utf8::bytes(text),
        span.range.start == spans.last().range.start,
        span.range.end == crate::utf8::bytes(text + chunk),
        span.emphasis == spans.last().emphasis,
    ensures
        spans_fit(text + chunk, spans.update(spans.len() - 1, span)),
        styled(text + chunk, spans.update(spans.len() - 1, span)) == styled(text, spans) + marked(
            chunk,
            span.emphasis,
        ),
{
    let whole = text + chunk;
    let n = spans.len() as int;
    let new = spans.update(n - 1, span);
    lemma_extended(text, chunk);
    assert forall|k: int| 0 <= k < whole.len() implies emphasis_at(
        new,
        0,
        crate::utf8::offset(whole, k),
    ) == (if k < text.len() {
        emphasis_at(spans, 0, crate::utf8::offset(text, k))
    } else {
        span.emphasis
    }) by {
        let at = crate::utf8::offset(whole, k);
        if k < text.len() {
            reveal_with_fuel(emphasis_at, 2);
            lemma_emphasis_agree(spans, new, 0, n - 1, at);
        } else {
            lemma_emphasis_skip(new, 0, n - 1, at);
        }
    }
    assert(styled(whole, new) =~= styled(text, spans) + marked(chunk, span.emphasis));
}

impl BodyBuilder {
    /// What has been put together, each character with its emphasis.
    pub closed spec fn styled(&self) -> Seq<(char, Emphasis)> {
        styled(self.text@, self.spans@)
    }

    /// Whether the spans fit the text.
    pub closed spec fn wf(&self) -> bool {
        spans_fit(self.text@, self.spans@)
    }

    /// Whether nothing has been put together yet.
    pub fn is_empty(&self) -> (r: bool)
        ensures
            r == (self.styled().len() == 0),
    {
        self.text.as_str().is_empty()
    }

    /// Appends a chunk with one emphasis.
    pub fn push(&mut self, chunk: &str, emphasis: Emphasis)
        requires
            old(self).wf(),
        ensures
            final(self).wf(),
            final(self).styled() == old(self).styled() + marked(chunk@, emphasis),
    {
        let ghost text = self.text@;
        let ghost spans = self.spans@;
        let start = byte_len(&self.text);
        self.text.append(chunk);
        let end = byte_len(&self.text);
        proof {
            lemma_extended(text, chunk@);
        }
        if emphasis.is_marked() && start < end {
            assert(chunk@.len() > 0);
            let n: usize = self.spans.len();
            if n > 0 && self.spans[n - 1].range.end == start && self.spans[n - 1].emphasis
                == emphasis {
                let from: usize = self.spans[n - 1].range.start;
                let grown = Span { range: from..end, emphasis };
                proof {
                    lemma_push_grown(text, spans, chunk@, grown);
                }
                self.spans.set(n - 1, grown);
            } else {
                let fresh = Span { range: start..end, emphasis };
                proof {
                    lemma_push_fresh(text, spans, chunk@, fresh);
                }
                self.spans.push(fresh);
            }
        } else {
            proof {
                lemma_push_unmarked(text, spans, chunk@);
                if chunk@.len() == 0 {
                    assert(marked(chunk@, emphasis) =~= marked(chunk@, unmarked()));
                }
            }
        }
    }

    /// The finished body.
    pub fn build(self) -> (r: Body)
        requires
            self.wf(),
        ensures
            r.wf(),
            r.styled() == self.styled(),
    {
        Body { text: self.text, spans: self.spans }
    }
}

/// A text on one line: every run of white space inside it is a single space, and
/// there is none at its ends.
pub open spec fn flat(s: Seq<char>) -> Seq<char>
    decreases s.len(),
{
    if s.len() == 0 {
        s
    } else if crate::text::white_space(s.last()) {
        flat(s.drop_last())
    } else {
        let before = flat(s.drop_last());
        if before.len() > 0 && crate::text::white_space(s[s.len() - 2]) {
            before.push(' ').push(s.last())
        } else {
            before.push(s.last())
        }
    }
}

/// Where the white space that `s` ends with begins.
pub open spec fn run_start(s: Seq<(char, Emphasis)>) -> int
    decreases s.len(),
{
    if s.len() > 0 && crate::text::white_space(s.last().0) {
        run_start(s.drop_last())
    } else {
        s.len() as int
    }
}

/// A styled text on one line. The space that a run of white space collapses to
/// takes the emphasis that the run began with.
pub open spec fn flat_styled(s: Seq<(char, Emphasis)>) -> Seq<(char, Emphasis)>
    decreases s.len(),
{
    if s.len() == 0 {
        s
    } else if crate::text::white_space(s.last().0) {
        flat_styled(s.drop_last())
    } else {
        let before = flat_styled(s.drop_last());
        if before.len() > 0 && crate::text::white_space(s[s.len() - 2].0) {
            before.push((' ', s[run_start(s.drop_last())].1)).push(s.last())
        } else {
            before.push(s.last())
        }
    }
}

/// Whether a text is on one line but for white space at its end.
spec fn flat_so_far(s: Seq<char>) -> bool {
    &&& forall|i: int| 0 <= i < s.len() && crate::text::white_space(#[trigger] s[i]) ==> s[i] == ' '
    &&& forall|i: int, j: int|
        0 <= i && j == i + 1 && j < s.len() && (#[trigger] s[i]) == ' ' ==> (#[trigger] s[j]) != ' '
    &&& s.len() > 0 ==> s[0] != ' '
}

/// Whether a text is already on one line, with no repeated or edge spaces.
pub open spec fn is_flat_text(s: Seq<char>) -> bool {
    &&& forall|i: int| 0 <= i < s.len() && crate::text::white_space(#[trigger] s[i]) ==> s[i] == ' '
    &&& forall|i: int, j: int|
        0 <= i && j == i + 1 && j < s.len() && (#[trigger] s[i]) == ' ' ==> (#[trigger] s[j]) != ' '
    &&& s.len() > 0 ==> s[0] != ' ' && s.last() != ' '
}

/// The characters of a styled text.
pub open spec fn unstyled(s: Seq<(char, Emphasis)>) -> Seq<char> {
    s.map_values(|c: (char, Emphasis)| c.0)
}

/// Flattening leaves a text that is flat but for a space at its end as it is,
/// without that space.
proof fn lemma_flat_styled_keeps(s: Seq<(char, Emphasis)>)
    requires
        flat_so_far(unstyled(s)),
    ensures
        flat_styled(s) == (if s.len() > 0 && s.last().0 == ' ' {
            s.drop_last()
        } else {
            s
        }),
    decreases s.len(),
{
    if s.len() > 0 {
        let p = s.drop_last();
        let u = unstyled(s);
        let v = unstyled(p);
        assert(forall|i: int| 0 <= i < p.len() ==> v[i] == u[i]);
        assert(u[u.len() - 1] == s.last().0);
        lemma_flat_styled_keeps(p);
        if p.len() > 0 {
            assert(u[p.len() - 1] == p.last().0);
            if p.last().0 == ' ' {
                assert(s.last().0 != ' ');
                assert(p.drop_last().len() > 0) by {
                    if p.len() == 1 {
                        assert(u[0] == ' ');
                    }
                }
                let q = p.drop_last();
                assert(q.last().0 != ' ') by {
                    assert(u[q.len() - 1] == q.last().0);
                }
                assert(!crate::text::white_space(q.last().0)) by {
                    assert(u[q.len() - 1] == q.last().0);
                }
                assert(run_start(p) == q.len()) by {
                    reveal_with_fuel(run_start, 2);
                }
                assert(flat_styled(s) =~= s);
            } else {
                assert(!crate::text::white_space(p.last().0));
            }
        }
    }
}

/// Flattening a styled text and dropping its styles come to the same in either
/// order.
pub proof fn law_flattening_ignores_styles(s: Seq<(char, Emphasis)>)
    ensures
        unstyled(flat_styled(s)) == flat(unstyled(s)),
    decreases s.len(),
{
    if s.len() > 0 {
        law_flattening_ignores_styles(s.drop_last());
        assert(unstyled(s).drop_last() =~= unstyled(s.drop_last()));
        assert(unstyled(s).last() == s.last().0);
        assert(unstyled(flat_styled(s)) =~= flat(unstyled(s)));
    } else {
        assert(unstyled(flat_styled(s)) =~= flat(unstyled(s)));
    }
}

/// A flattened text is on one line: no white space but single spaces between
/// other characters.
pub proof fn law_flattened_is_flat(s: Seq<char>)
    ensures
        is_flat_text(flat(s)),
        flat(s).len() > 0 ==> !crate::text::white_space(flat(s).last()),
    decreases s.len(),
{
    if s.len() > 0 {
        law_flattened_is_flat(s.drop_last());
    }
}

/// A text that is already on one line is left as it is.
pub proof fn law_flat_text_is_untouched(s: Seq<char>)
    requires
        is_flat_text(s),
    ensures
        flat(s) == s,
{
    let t = marked(s, unmarked());
    assert(unstyled(t) =~= s);
    lemma_flat_styled_keeps(t);
    law_flattening_ignores_styles(t);
}

/// Flattening twice is flattening once.
pub proof fn law_flattening_settles(s: Seq<char>)
    ensures
        flat(flat(s)) == flat(s),
{
    law_flattened_is_flat(s);
    law_flat_text_is_untouched(flat(s));
}

/// Whether text is already one line with no repeated or edge spaces, and so
/// survives [`single_line`] unchanged.
pub fn is_flat(text: &str) -> (r: bool)
    ensures
        r == is_flat_text(text@),
{
    let v = chars_of(text);
    let n: usize = v.len();
    if n == 0 {
        return true;
    }
    if v[0] == ' ' || v[n - 1] == ' ' {
        return false;
    }
    let mut i: usize = 0;
    while i < n
        invariant
            n == v@.len(),
            v@ == text@,
            i <= n,
            forall|j: int|
                0 <= j < i && crate::text::white_space(#[trigger] v@[j]) ==> v@[j] == ' ',
            forall|j: int, k: int|
                0 <= j && k == j + 1 && k < i && (#[trigger] v@[j]) == ' ' ==> (#[trigger] v@[k])
                    != ' ',
        decreases n - i,
    {
        if is_white_space(v[i]) && v[i] != ' ' {
            assert(text@[i as int] == v@[i as int]);
            return false;
        }
        if i > 0 && v[i] == ' ' && v[i - 1] == ' ' {
            assert(text@[i - 1] == ' ' && text@[i as int] == ' ');
            return false;
        }
        i = i + 1;
    }
    true
}

/// Flattens text onto one line, collapsing every run of white space into a
/// single space.
///
/// Summaries and bodies routinely arrive with hard line breaks in them, and a
/// limit on the number of lines only bounds the lines that wrapping makes.
/// Flattening up front is what makes such limits hold.
pub fn single_line(text: &String) -> (r: String)
    ensures
        r@ == flat(text@),
{
    if is_flat(text) {
        proof {
            law_flat_text_is_untouched(text@);
        }
        return text.clone();
    }
    let v = chars_of(text);
    let mut out = String::new();
    let mut i: usize = 0;
    assert(v@.take(0) =~= Seq::<char>::empty());
    while i < v.len()
        invariant
            v@ == text@,
            i <= v@.len(),
            out@ == flat(v@.take(i as int)),
        decreases v@.len() - i,
    {
        assert(v@.take(i + 1).drop_last() =~= v@.take(i as int));
        if !is_white_space(v[i]) {
            if !out.as_str().is_empty() && is_white_space(v[i - 1]) {
                out.push(' ');
            }
            out.push(v[i]);
        }
        i = i + 1;
    }
    assert(v@.take(v@.len() as int) =~= v@);
    out
}

/// [`single_line`] for a body, carrying its emphasis across the collapse.
///
/// Spans are byte ranges into the text, so rather than remapping them the body
/// is rebuilt from the characters that survive, each carrying the emphasis it
/// had at its old offset. Collapsed white space takes the emphasis of the run it
/// stood for, which keeps an underline unbroken across the spaces inside it.
#[verifier::spinoff_prover]
#[verifier::rlimit(60)]
pub fn single_line_body(body: &Body) -> (r: Body)
    requires
        body.wf(),
    ensures
        r.wf(),
        r.styled() == flat_styled(body.styled()),
{
    let ghost all = body.styled();
    if is_flat(&body.text) {
        proof {
            assert(unstyled(all) =~= body.text@);
            lemma_flat_styled_keeps(all);
            if all.len() > 0 {
                assert(all.last().0 == body.text@.last());
            }
        }
        return body.clone();
    }
    let v = chars_of(&body.text);
    let total = byte_len(&body.text);
    let mut builder = BodyBuilder::default();
    let mut pending: Option<Emphasis> = None;
    let mut at: usize = 0;
    let mut j: usize = 0;
    let mut i: usize = 0;
    assert(all.take(0) =~= Seq::<(char, Emphasis)>::empty());
    assert(v@.take(0) =~= Seq::<char>::empty());
    assert(builder.styled() =~= flat_styled(all.take(0)));
    while i < v.len()
        invariant
            v@ == body.text@,
            all == body.styled(),
            body.wf(),
            total == crate::utf8::bytes(v@),
            i <= v@.len(),
            j <= body.spans@.len(),
            at == crate::utf8::offset(v@, i as int),
            forall|k: int| 0 <= k < j ==> (#[trigger] body.spans@[k]).range.end <= at,
            builder.wf(),
            builder.styled() == flat_styled(all.take(i as int)),
            pending == (if flat_styled(all.take(i as int)).len() > 0 && i > 0
                && crate::text::white_space(all[i - 1].0) {
                Some(all[run_start(all.take(i as int))].1)
            } else {
                None
            }),
        decreases v@.len() - i,
    {
        let ghost before = all.take(i as int);
        let ghost after = all.take(i + 1);
        let c = v[i];
        while j < body.spans.len() && body.spans[j].range.end <= at
            invariant
                j <= body.spans@.len(),
                forall|k: int| 0 <= k < j ==> (#[trigger] body.spans@[k]).range.end <= at,
            decreases body.spans@.len() - j,
        {
            j = j + 1;
        }
        let emphasis = if j < body.spans.len() && body.spans[j].range.start <= at {
            body.spans[j].emphasis
        } else {
            Emphasis::default()
        };
        proof {
            lemma_emphasis_skip(body.spans@, 0, j as int, at as int);
            assert(all[i as int] == (c, emphasis));
            assert(after.drop_last() =~= before);
            assert(after.last() == (c, emphasis));
            crate::utf8::lemma_offset_step(v@, i as int);
            crate::utf8::lemma_offset_increases(v@, i + 1, v@.len() as int);
            assert(v@.take(v@.len() as int) =~= v@);
            if i > 0 {
                assert(before.last() == all[i - 1]);
                assert(after[after.len() - 2] == all[i - 1]);
            }
            lemma_run_start(before);
        }
        if is_white_space(c) {
            if pending.is_none() && !builder.is_empty() {
                pending = Some(emphasis);
            }
        } else {
            if let Some(gap) = pending {
                builder.push(" ", gap);
                proof {
                    reveal_strlit(" ");
                    assert(marked(" "@, gap) =~= seq![(' ', gap)]);
                }
            }
            pending = None;
            let mut one = String::new();
            one.push(c);
            builder.push(&one, emphasis);
            assert(marked(one@, emphasis) =~= seq![(c, emphasis)]);
            assert(builder.styled() =~= flat_styled(after));
        }
        at = at + char_width(c);
        i = i + 1;
    }
    assert(all.take(all.len() as int) =~= all);
    builder.build()
}

/// The white space that a text ends with begins no later than the text ends, and
/// before its last character if that is white space.
pub proof fn lemma_run_start(s: Seq<(char, Emphasis)>)
    ensures
        0 <= run_start(s) <= s.len(),
        s.len() > 0 && crate::text::white_space(s.last().0) ==> run_start(s) < s.len(),
    decreases s.len(),
{
    if s.len() > 0 {
        lemma_run_start(s.drop_last());
    }
}

} // verus!
